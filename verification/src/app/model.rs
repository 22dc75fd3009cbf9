//! Integration methods, the method menu's choices, and shared limits.
use vstd::prelude::*;

verus! {

/// Maximum points drawn per curve (subsample if h is very small).
pub const MAX_GRAPH_POINTS: usize = 800;

/// Cap on simultaneous y₀ initial conditions (per method).
pub const MAX_Y0_FAMILY: usize = 15;

/// A single numerical integration method.
#[derive(Debug, Clone, Copy, PartialEq, Eq, Structural)]
pub enum Method {
    Euler,
    ImprovedEuler,
    RungeKutta,
}

impl Method {
    pub const ALL: [Method; 3] = [Method::Euler, Method::ImprovedEuler, Method::RungeKutta];

    /// The label of `m` for charts and exports.
    pub open spec fn short_label_spec(m: Method) -> Seq<char> {
        match m {
            Method::Euler => "Euler"@,
            Method::ImprovedEuler => "Improved Euler"@,
            Method::RungeKutta => "Runge-Kutta"@,
        }
    }

    /// Short human-readable name for charts and exports.
    pub fn short_label(self) -> (res: &'static str)
        ensures
            res@ == Self::short_label_spec(self),
    {
        match self {
            Method::Euler => "Euler",
            Method::ImprovedEuler => "Improved Euler",
            Method::RungeKutta => "Runge-Kutta",
        }
    }
}

/// User-facing method selection, including an "all methods" option.
#[derive(Debug, Clone, Copy, PartialEq, Eq, Structural)]
pub enum MethodChoice {
    Euler,
    ImprovedEuler,
    RungeKutta,
    All,
}

/// The menu choices in menu order.
pub open spec fn choice_options() -> Seq<MethodChoice> {
    seq![MethodChoice::Euler, MethodChoice::ImprovedEuler, MethodChoice::RungeKutta, MethodChoice::All]
}

/// Position of `c` in the menu.
pub open spec fn choice_position(c: MethodChoice) -> int {
    match c {
        MethodChoice::Euler => 0,
        MethodChoice::ImprovedEuler => 1,
        MethodChoice::RungeKutta => 2,
        MethodChoice::All => 3,
    }
}

/// The methods a choice runs.
pub open spec fn choice_methods(c: MethodChoice) -> Seq<Method> {
    match c {
        MethodChoice::Euler => seq![Method::Euler],
        MethodChoice::ImprovedEuler => seq![Method::ImprovedEuler],
        MethodChoice::RungeKutta => seq![Method::RungeKutta],
        MethodChoice::All => seq![Method::Euler, Method::ImprovedEuler, Method::RungeKutta],
    }
}

impl MethodChoice {
    pub const OPTIONS: [MethodChoice; 4] = [
        MethodChoice::Euler,
        MethodChoice::ImprovedEuler,
        MethodChoice::RungeKutta,
        MethodChoice::All,
    ];

    /// The menu label of `c`.
    pub open spec fn label_spec(c: MethodChoice) -> Seq<char> {
        match c {
            MethodChoice::Euler => "Euler"@,
            MethodChoice::ImprovedEuler => "Improved Euler"@,
            MethodChoice::RungeKutta => "Runge-Kutta (RK4)"@,
            MethodChoice::All => "All three methods"@,
        }
    }

    /// Label shown in the method dropdown.
    pub fn label(self) -> (res: &'static str)
        ensures
            res@ == Self::label_spec(self),
    {
        match self {
            MethodChoice::Euler => "Euler",
            MethodChoice::ImprovedEuler => "Improved Euler",
            MethodChoice::RungeKutta => "Runge-Kutta (RK4)",
            MethodChoice::All => "All three methods",
        }
    }

    /// Index of this choice in the menu.
    pub fn index(self) -> (res: usize)
        ensures
            res == choice_position(self),
            res < choice_options().len(),
            choice_options()[res as int] == self,
    {
        match self {
            MethodChoice::Euler => 0,
            MethodChoice::ImprovedEuler => 1,
            MethodChoice::RungeKutta => 2,
            MethodChoice::All => 3,
        }
    }

    /// Map a dropdown index back to a choice (wrapping modulo the number of options).
    pub fn from_index(i: usize) -> (res: Self)
        ensures
            res == choice_options()[i as int % 4],
    {
        let opts = Self::OPTIONS;
        opts[i % 4]
    }

    /// Expand this choice into one or more methods to integrate.
    pub fn methods(self) -> (res: &'static [Method])
        ensures
            res@ == choice_methods(self),
    {
        match self {
            MethodChoice::Euler => &[Method::Euler],
            MethodChoice::ImprovedEuler => &[Method::ImprovedEuler],
            MethodChoice::RungeKutta => &[Method::RungeKutta],
            MethodChoice::All => &Method::ALL,
        }
    }
}

/// A choice's menu position leads back to it, and a position leads to the choice
/// whose position it is (modulo the menu length).
pub proof fn lemma_choice_index_roundtrip(c: MethodChoice, i: int)
    requires
        0 <= i,
    ensures
        choice_options()[choice_position(c)] == c,
        choice_position(choice_options()[i % 4]) == i % 4,
{
}

} // verus!
