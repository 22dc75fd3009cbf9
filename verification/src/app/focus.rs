//! Keyboard focus and tab order in the main UI (with the graph-mode and view-window
//! fields) and in the export dialog.
use vstd::prelude::*;

verus! {

/// Tab-order configuration for the main sidebar.
#[derive(Debug, Clone, Copy, PartialEq, Eq, Structural)]
pub struct FocusNav {
    pub y0_family: bool,
    pub slope_bounds: bool,
}

/// Keyboard focus target in the main UI.
#[derive(Debug, Clone, Copy, PartialEq, Eq, Structural)]
pub enum Focus {
    Equation,
    MethodDropdown,
    GraphDisplay,
    Y0Family,
    X0,
    Y0,
    Y0End,
    Y0Count,
    XEnd,
    H,
    ViewXMin,
    ViewXMax,
    ViewYMin,
    ViewYMax,
    ExportButton,
    QuitButton,
}

/// The first index at or after `k` where `order` holds `f`, or -1.
pub open spec fn find_from<T>(order: Seq<T>, f: T, k: int) -> int
    decreases order.len() - k,
{
    if k < 0 || k >= order.len() {
        -1
    } else if order[k] == f {
        k
    } else {
        find_from(order, f, k + 1)
    }
}

/// Position of `f` in `order`, or 0 when it is absent (`position(..).unwrap_or(0)`).
pub open spec fn position_in<T>(order: Seq<T>, f: T) -> int {
    let i = find_from(order, f, 0);
    if i >= 0 {
        i
    } else {
        0
    }
}

/// One step around the ring `order` from `f`: forward to the next entry or back to the
/// previous one, wrapping at the ends; an `f` not in the ring counts as the first entry.
pub open spec fn ring_step<T>(order: Seq<T>, f: T, forward: bool) -> T {
    let i = position_in(order, f);
    let n = order.len() as int;
    if forward {
        order[(i + 1) % n]
    } else {
        order[(i + n - 1) % n]
    }
}

/// No entry occurs twice.
pub open spec fn all_distinct<T>(s: Seq<T>) -> bool {
    forall|i: int, j: int| 0 <= i < s.len() && 0 <= j < s.len() && i != j ==> s[i] != s[j]
}

pub proof fn lemma_find_from<T>(order: Seq<T>, f: T, k: int)
    requires
        0 <= k <= order.len(),
    ensures
        find_from(order, f, k) == -1 || (k <= find_from(order, f, k) < order.len() && order[find_from(
            order,
            f,
            k,
        )] == f && forall|j: int| k <= j < find_from(order, f, k) ==> order[j] != f),
        find_from(order, f, k) == -1 ==> forall|j: int| k <= j < order.len() ==> order[j] != f,
    decreases order.len() - k,
{
    if k < order.len() && order[k] != f {
        lemma_find_from(order, f, k + 1);
    }
}

/// In a ring without repeats, the position of the entry at `i` is `i`.
pub proof fn lemma_position_of_member<T>(order: Seq<T>, i: int)
    requires
        all_distinct(order),
        0 <= i < order.len(),
    ensures
        position_in(order, order[i]) == i,
{
    lemma_find_from(order, order[i], 0);
}

/// Stepping forward and then back, or back and then forward, returns to any member of a
/// ring without repeats.
pub proof fn lemma_ring_step_inverse<T>(order: Seq<T>, f: T)
    requires
        all_distinct(order),
        order.contains(f),
    ensures
        ring_step(order, ring_step(order, f, true), false) == f,
        ring_step(order, ring_step(order, f, false), true) == f,
{
    let i = choose|i: int| 0 <= i < order.len() && order[i] == f;
    let n = order.len() as int;
    lemma_position_of_member(order, i);
    let a = (i + 1) % n;
    let b = (i + n - 1) % n;
    assert(0 <= a < n && 0 <= b < n) by (nonlinear_arith)
        requires
            0 <= i < n,
            a == (i + 1) % n,
            b == (i + n - 1) % n,
    ;
    lemma_position_of_member(order, a);
    lemma_position_of_member(order, b);
    if i == n - 1 {
        assert(a == 0) by (nonlinear_arith) requires i == n - 1, a == (i + 1) % n, n > 0;
    } else {
        assert(a == i + 1) by (nonlinear_arith) requires 0 <= i < n - 1, a == (i + 1) % n;
    }
    if i == 0 {
        assert(b == n - 1) by (nonlinear_arith) requires i == 0, b == (i + n - 1) % n, n > 0;
    } else {
        assert(b == i - 1) by (nonlinear_arith) requires 0 < i < n, b == (i + n - 1) % n;
    }
    let c = (a + n - 1) % n;
    let d = (b + 1) % n;
    if a == 0 {
        assert(c == n - 1) by (nonlinear_arith) requires a == 0, c == (a + n - 1) % n, n > 0;
    } else {
        assert(c == a - 1) by (nonlinear_arith) requires 0 < a < n, c == (a + n - 1) % n;
    }
    if b == n - 1 {
        assert(d == 0) by (nonlinear_arith) requires b == n - 1, d == (b + 1) % n, n > 0;
    } else {
        assert(d == b + 1) by (nonlinear_arith) requires 0 <= b < n - 1, d == (b + 1) % n;
    }
}

/// `f` after `k` forward steps around the ring `order`.
pub open spec fn ring_steps<T>(order: Seq<T>, f: T, k: nat) -> T
    decreases k,
{
    if k == 0 {
        f
    } else {
        ring_step(order, ring_steps(order, f, (k - 1) as nat), true)
    }
}

/// A step from anywhere lands on an entry of a non-empty ring.
pub proof fn lemma_ring_step_in_ring<T>(order: Seq<T>, f: T, forward: bool)
    requires
        order.len() > 0,
    ensures
        order.contains(ring_step(order, f, forward)),
{
    let n = order.len() as int;
    let i = position_in(order, f);
    lemma_find_from(order, f, 0);
    let j = if forward {
        (i + 1) % n
    } else {
        (i + n - 1) % n
    };
    assert(0 <= j < n) by (nonlinear_arith)
        requires
            0 <= i < n,
            j == (if forward { (i + 1) % n } else { (i + n - 1) % n }),
    ;
    assert(order[j] == ring_step(order, f, forward));
}

/// In a ring without repeats, `k` forward steps from the entry at `i` reach the entry
/// at `(i + k) mod n`.
proof fn lemma_ring_steps_index<T>(order: Seq<T>, i: int, k: nat)
    requires
        all_distinct(order),
        0 <= i < order.len(),
    ensures
        ring_steps(order, order[i], k) == order[(i + k) % (order.len() as int)],
    decreases k,
{
    let n = order.len() as int;
    if k == 0 {
        vstd::arithmetic::div_mod::lemma_small_mod(i as nat, n as nat);
    } else {
        lemma_ring_steps_index(order, i, (k - 1) as nat);
        let j = (i + k - 1) % n;
        vstd::arithmetic::div_mod::lemma_mod_bound(i + k - 1, n);
        lemma_position_of_member(order, j);
        vstd::arithmetic::div_mod::lemma_add_mod_noop(i + k - 1, 1, n);
        if n == 1 {
            vstd::arithmetic::div_mod::lemma_mod_bound(j + 1, n);
            vstd::arithmetic::div_mod::lemma_mod_bound(i + k, n);
        } else {
            vstd::arithmetic::div_mod::lemma_small_mod(1, n as nat);
        }
    }
}

/// Going once round a ring without repeats, one forward step per entry, returns to the
/// entry it started from.
pub proof fn lemma_ring_full_lap<T>(order: Seq<T>, f: T)
    requires
        all_distinct(order),
        order.contains(f),
    ensures
        ring_steps(order, f, order.len()) == f,
{
    let i = choose|i: int| 0 <= i < order.len() && order[i] == f;
    let n = order.len() as int;
    lemma_ring_steps_index(order, i, order.len());
    vstd::arithmetic::div_mod::lemma_mod_add_multiples_vanish(i, n);
    vstd::arithmetic::div_mod::lemma_small_mod(i as nat, n as nat);
}

/// Index of `f` in `order`, or 0 when it is absent.
fn position_of(order: &[Focus], f: Focus) -> (res: usize)
    ensures
        res == position_in(order@, f),
{
    let mut i: usize = 0;
    while i < order.len()
        invariant
            i <= order@.len(),
            find_from(order@, f, 0) == find_from(order@, f, i as int),
        decreases order.len() - i,
    {
        if order[i] == f {
            return i;
        }
        i += 1;
    }
    0
}

/// The main tab order for a sidebar configuration.
pub open spec fn focus_order_spec(nav: FocusNav) -> Seq<Focus> {
    seq![
        Focus::Equation,
        Focus::MethodDropdown,
        Focus::GraphDisplay,
        Focus::Y0Family,
        Focus::X0,
        Focus::Y0,
    ] + (if nav.y0_family {
        seq![Focus::Y0End, Focus::Y0Count]
    } else {
        seq![]
    }) + seq![Focus::XEnd, Focus::H] + (if nav.slope_bounds {
        seq![Focus::ViewXMin, Focus::ViewXMax, Focus::ViewYMin, Focus::ViewYMax]
    } else {
        seq![]
    }) + seq![Focus::ExportButton, Focus::QuitButton]
}

/// The main tab order: equation, method, graph mode, y₀ family toggle, x₀, y₀, then
/// y₀ end and count when the family is shown, x_end, h, the four view bounds when the
/// slope window is shown, and the export and quit buttons.
fn focus_order(nav: FocusNav) -> (order: Vec<Focus>)
    ensures
        order@ == focus_order_spec(nav),
{
    let mut order = vec![
        Focus::Equation,
        Focus::MethodDropdown,
        Focus::GraphDisplay,
        Focus::Y0Family,
        Focus::X0,
        Focus::Y0,
    ];
    if nav.y0_family {
        order.push(Focus::Y0End);
        order.push(Focus::Y0Count);
    }
    order.push(Focus::XEnd);
    order.push(Focus::H);
    if nav.slope_bounds {
        order.push(Focus::ViewXMin);
        order.push(Focus::ViewXMax);
        order.push(Focus::ViewYMin);
        order.push(Focus::ViewYMax);
    }
    order.push(Focus::ExportButton);
    order.push(Focus::QuitButton);
    assert(order@ =~= focus_order_spec(nav));
    order
}

fn step(from: Focus, nav: FocusNav, forward: bool) -> (res: Focus)
    ensures
        res == ring_step(focus_order_spec(nav), from, forward),
{
    let order = focus_order(nav);
    let i = position_of(order.as_slice(), from);
    let n = order.len();
    proof {
        lemma_find_from(order@, from, 0);
    }
    let next_i = if forward {
        (i + 1) % n
    } else {
        (i + n - 1) % n
    };
    order[next_i]
}

impl Focus {
    /// Move focus to the next field in tab order.
    pub fn next(self, nav: FocusNav) -> (res: Self)
        ensures
            res == ring_step(focus_order_spec(nav), self, true),
    {
        step(self, nav, true)
    }

    /// Move focus to the previous field in tab order.
    pub fn prev(self, nav: FocusNav) -> (res: Self)
        ensures
            res == ring_step(focus_order_spec(nav), self, false),
    {
        step(self, nav, false)
    }

    /// The targets that take no typing: the method menu, the graph-mode switch, the
    /// buttons and the family toggle.
    pub open spec fn is_control(self) -> bool {
        self == Focus::MethodDropdown || self == Focus::GraphDisplay || self
            == Focus::ExportButton || self == Focus::QuitButton || self == Focus::Y0Family
    }

    /// `true` for equation and numeric inputs; `false` for buttons and toggles.
    pub fn is_text_input(self) -> (res: bool)
        ensures
            res == !self.is_control(),
    {
        !matches!(
            self,
            Focus::MethodDropdown | Focus::GraphDisplay | Focus::ExportButton | Focus::QuitButton
                | Focus::Y0Family
        )
    }
}

/// Every sidebar configuration's tab order lists each target at most once.
pub proof fn lemma_focus_order_distinct(nav: FocusNav)
    ensures
        all_distinct(focus_order_spec(nav)),
{
    let o = focus_order_spec(nav);
    if nav.y0_family && nav.slope_bounds {
        assert(o =~= seq![Focus::Equation, Focus::MethodDropdown, Focus::GraphDisplay, Focus::Y0Family, Focus::X0, Focus::Y0, Focus::Y0End, Focus::Y0Count, Focus::XEnd, Focus::H, Focus::ViewXMin, Focus::ViewXMax, Focus::ViewYMin, Focus::ViewYMax, Focus::ExportButton, Focus::QuitButton]);
    } else if nav.y0_family {
        assert(o =~= seq![Focus::Equation, Focus::MethodDropdown, Focus::GraphDisplay, Focus::Y0Family, Focus::X0, Focus::Y0, Focus::Y0End, Focus::Y0Count, Focus::XEnd, Focus::H, Focus::ExportButton, Focus::QuitButton]);
    } else if nav.slope_bounds {
        assert(o =~= seq![Focus::Equation, Focus::MethodDropdown, Focus::GraphDisplay, Focus::Y0Family, Focus::X0, Focus::Y0, Focus::XEnd, Focus::H, Focus::ViewXMin, Focus::ViewXMax, Focus::ViewYMin, Focus::ViewYMax, Focus::ExportButton, Focus::QuitButton]);
    } else {
        assert(o =~= seq![Focus::Equation, Focus::MethodDropdown, Focus::GraphDisplay, Focus::Y0Family, Focus::X0, Focus::Y0, Focus::XEnd, Focus::H, Focus::ExportButton, Focus::QuitButton]);
    }
}

/// For any field in the tab order, `prev` undoes `next` and `next` undoes `prev`.
pub proof fn lemma_focus_next_prev_inverse(f: Focus, nav: FocusNav)
    requires
        focus_order_spec(nav).contains(f),
    ensures
        f.next_spec(nav).prev_spec(nav) == f,
        f.prev_spec(nav).next_spec(nav) == f,
{
    lemma_focus_order_distinct(nav);
    lemma_ring_step_inverse(focus_order_spec(nav), f);
}

/// Every tab step lands in the tab order, and going once round it, one `next` per
/// entry, returns to the field it started from.
pub proof fn lemma_focus_ring_closed(f: Focus, nav: FocusNav)
    ensures
        focus_order_spec(nav).contains(f.next_spec(nav)),
        focus_order_spec(nav).contains(f.prev_spec(nav)),
        focus_order_spec(nav).contains(f) ==> ring_steps(
            focus_order_spec(nav),
            f,
            focus_order_spec(nav).len(),
        ) == f,
{
    let o = focus_order_spec(nav);
    assert(o[0] == Focus::Equation);
    lemma_ring_step_in_ring(o, f, true);
    lemma_ring_step_in_ring(o, f, false);
    lemma_focus_order_distinct(nav);
    if o.contains(f) {
        lemma_ring_full_lap(o, f);
    }
}

impl Focus {
    /// The result of `next`.
    pub open spec fn next_spec(self, nav: FocusNav) -> Focus {
        ring_step(focus_order_spec(nav), self, true)
    }

    /// The result of `prev`.
    pub open spec fn prev_spec(self, nav: FocusNav) -> Focus {
        ring_step(focus_order_spec(nav), self, false)
    }
}

/// Focus target inside the export dialog.
#[derive(Debug, Clone, Copy, PartialEq, Eq, Structural)]
pub enum ExportPromptFocus {
    Filename,
    H,
    NumPoints,
}

/// The export dialog's tab order.
pub open spec fn export_order() -> Seq<ExportPromptFocus> {
    seq![ExportPromptFocus::Filename, ExportPromptFocus::H, ExportPromptFocus::NumPoints]
}

impl ExportPromptFocus {
    /// Index of this field in the dialog's tab order.
    fn position(self) -> (res: usize)
        ensures
            res == position_in(export_order(), self),
            res < 3,
    {
        proof {
            lemma_find_from(export_order(), self, 0);
        }
        match self {
            ExportPromptFocus::Filename => 0,
            ExportPromptFocus::H => 1,
            ExportPromptFocus::NumPoints => 2,
        }
    }

    pub const ORDER: [ExportPromptFocus; 3] = [
        ExportPromptFocus::Filename,
        ExportPromptFocus::H,
        ExportPromptFocus::NumPoints,
    ];

    /// Next field in the export dialog tab order, wrapping at the end.
    pub fn next(self) -> (res: Self)
        ensures
            res == ring_step(export_order(), self, true),
    {
        let order = Self::ORDER;
        assert(order@ =~= export_order());
        let i = self.position();
        order[(i + 1) % 3]
    }

    /// Previous field in the export dialog tab order, wrapping at the start.
    pub fn prev(self) -> (res: Self)
        ensures
            res == ring_step(export_order(), self, false),
    {
        let order = Self::ORDER;
        assert(order@ =~= export_order());
        let i = self.position();
        order[(i + 3 - 1) % 3]
    }
}

/// In the export dialog, `prev` undoes `next` and `next` undoes `prev`.
pub proof fn lemma_export_focus_inverse(f: ExportPromptFocus)
    ensures
        ring_step(export_order(), ring_step(export_order(), f, true), false) == f,
        ring_step(export_order(), ring_step(export_order(), f, false), true) == f,
{
    let o = export_order();
    assert(all_distinct(o));
    let i: int = match f {
        ExportPromptFocus::Filename => 0,
        ExportPromptFocus::H => 1,
        ExportPromptFocus::NumPoints => 2,
    };
    assert(o[i] == f);
    lemma_ring_step_inverse(o, f);
}

/// Every step in the export dialog lands in its tab order, and three `next` steps
/// return to the field they started from.
pub proof fn lemma_export_focus_ring_closed(f: ExportPromptFocus)
    ensures
        export_order().contains(ring_step(export_order(), f, true)),
        export_order().contains(ring_step(export_order(), f, false)),
        ring_steps(export_order(), f, 3) == f,
{
    let o = export_order();
    assert(all_distinct(o));
    let i: int = match f {
        ExportPromptFocus::Filename => 0,
        ExportPromptFocus::H => 1,
        ExportPromptFocus::NumPoints => 2,
    };
    assert(o[i] == f);
    lemma_ring_step_in_ring(o, f, true);
    lemma_ring_step_in_ring(o, f, false);
    lemma_ring_full_lap(o, f);
}

} // verus!
