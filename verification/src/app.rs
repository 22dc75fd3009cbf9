//! Application model shared by the terminal front end: methods, focus order, messages.
pub mod focus;
pub mod model;

pub use model::{Method, MethodChoice, MAX_GRAPH_POINTS, MAX_Y0_FAMILY};
pub use focus::ExportPromptFocus;

use vstd::prelude::*;
use crate::app::focus::{all_distinct, find_from, lemma_find_from, lemma_ring_full_lap, lemma_ring_step_in_ring, lemma_ring_step_inverse, position_in, ring_step, ring_steps};
use crate::text::{chars_of, trim, trimmed};
use crate::numbers::{parse_usize, parse_usize_spec};
use crate::input::TextInput;
use crate::app::model::{choice_options, choice_position};

verus! {

/// Keyboard focus target in the main UI.
#[derive(Debug, Clone, Copy, PartialEq, Eq, Structural)]
pub enum Focus {
    Equation,
    MethodDropdown,
    Y0Family,
    X0,
    Y0,
    Y0End,
    Y0Count,
    XEnd,
    H,
    ExportButton,
    QuitButton,
}

/// What the graph panel shows.
#[derive(Debug, Clone, Copy, PartialEq, Eq, Structural)]
pub enum GraphDisplay {
    Solution,
    SlopeField,
    Both,
}

/// The main tab order; y₀ end and count are in it only when the y₀ family is shown.
pub open spec fn tab_order(y0_family: bool) -> Seq<Focus> {
    if y0_family {
        seq![
            Focus::Equation,
            Focus::MethodDropdown,
            Focus::Y0Family,
            Focus::X0,
            Focus::Y0,
            Focus::Y0End,
            Focus::Y0Count,
            Focus::XEnd,
            Focus::H,
            Focus::ExportButton,
            Focus::QuitButton,
        ]
    } else {
        seq![
            Focus::Equation,
            Focus::MethodDropdown,
            Focus::Y0Family,
            Focus::X0,
            Focus::Y0,
            Focus::XEnd,
            Focus::H,
            Focus::ExportButton,
            Focus::QuitButton,
        ]
    }
}

fn position_of(order: &[Focus], f: Focus) -> (res: usize)
    ensures
        res == position_in(order@, f),
{
    let mut i: usize = 0;
    while i < order.len()
        invariant
            i <= order@.len(),
            find_from(order@, f, 0) == find_from(order@, f, i as int),
        decreases order.len() - i,
    {
        if order[i] == f {
            return i;
        }
        i += 1;
    }
    0
}

/// Advance or retreat one step in the focus ring, wrapping at the ends.
fn step(from: Focus, y0_family: bool, forward: bool) -> (res: Focus)
    ensures
        res == ring_step(tab_order(y0_family), from, forward),
{
    let order: Vec<Focus> = if y0_family {
        vec![
            Focus::Equation,
            Focus::MethodDropdown,
            Focus::Y0Family,
            Focus::X0,
            Focus::Y0,
            Focus::Y0End,
            Focus::Y0Count,
            Focus::XEnd,
            Focus::H,
            Focus::ExportButton,
            Focus::QuitButton,
        ]
    } else {
        vec![
            Focus::Equation,
            Focus::MethodDropdown,
            Focus::Y0Family,
            Focus::X0,
            Focus::Y0,
            Focus::XEnd,
            Focus::H,
            Focus::ExportButton,
            Focus::QuitButton,
        ]
    };
    assert(order@ =~= tab_order(y0_family));
    let i = position_of(order.as_slice(), from);
    let n = order.len();
    proof {
        lemma_find_from(order@, from, 0);
    }
    let next_i = if forward {
        (i + 1) % n
    } else {
        (i + n - 1) % n
    };
    order[next_i]
}

impl Focus {
    /// The result of `next`.
    pub open spec fn next_spec(self, y0_family: bool) -> Focus {
        ring_step(tab_order(y0_family), self, true)
    }

    /// The result of `prev`.
    pub open spec fn prev_spec(self, y0_family: bool) -> Focus {
        ring_step(tab_order(y0_family), self, false)
    }

    /// Move focus to the next field in tab order, wrapping at the end.
    pub fn next(self, y0_family: bool) -> (res: Self)
        ensures
            res == self.next_spec(y0_family),
    {
        step(self, y0_family, true)
    }

    /// Move focus to the previous field in tab order, wrapping at the start.
    pub fn prev(self, y0_family: bool) -> (res: Self)
        ensures
            res == self.prev_spec(y0_family),
    {
        step(self, y0_family, false)
    }

    /// The targets that take no typing: the method menu, the buttons and the family toggle.
    pub open spec fn is_control(self) -> bool {
        self == Focus::MethodDropdown || self == Focus::ExportButton || self == Focus::QuitButton
            || self == Focus::Y0Family
    }

    /// `true` for equation and numeric inputs; `false` for buttons and toggles.
    pub fn is_text_input(self) -> (res: bool)
        ensures
            res == !self.is_control(),
    {
        !matches!(
            self,
            Focus::MethodDropdown | Focus::ExportButton | Focus::QuitButton | Focus::Y0Family
        )
    }
}

/// For any field in the tab order, `prev` undoes `next` and `next` undoes `prev`.
pub proof fn lemma_tab_next_prev_inverse(f: Focus, y0_family: bool)
    requires
        tab_order(y0_family).contains(f),
    ensures
        f.next_spec(y0_family).prev_spec(y0_family) == f,
        f.prev_spec(y0_family).next_spec(y0_family) == f,
{
    assert(all_distinct(tab_order(y0_family)));
    lemma_ring_step_inverse(tab_order(y0_family), f);
}

/// Every tab step lands in the tab order, and going once round it, one `next` per
/// entry, returns to the field it started from.
pub proof fn lemma_tab_ring_closed(f: Focus, y0_family: bool)
    ensures
        tab_order(y0_family).contains(f.next_spec(y0_family)),
        tab_order(y0_family).contains(f.prev_spec(y0_family)),
        tab_order(y0_family).contains(f) ==> ring_steps(
            tab_order(y0_family),
            f,
            tab_order(y0_family).len(),
        ) == f,
{
    let o = tab_order(y0_family);
    assert(o[0] == Focus::Equation);
    lemma_ring_step_in_ring(o, f, true);
    lemma_ring_step_in_ring(o, f, false);
    assert(all_distinct(o));
    if o.contains(f) {
        lemma_ring_full_lap(o, f);
    }
}

/// The footer text for an error message: the message itself, or a fallback when it is
/// empty or only whitespace.
pub open spec fn user_message_spec(msg: Seq<char>) -> Seq<char> {
    if trim(msg).len() == 0 {
        "Something went wrong"@
    } else {
        msg
    }
}

/// Format an error message for display in the footer status bar.
pub fn user_message(msg: &str) -> (res: String)
    ensures
        res@ == user_message_spec(msg@),
{
    let cs = chars_of(msg);
    let t = trimmed(cs.as_slice());
    if t.len() == 0 {
        "Something went wrong".to_owned()
    } else {
        msg.to_owned()
    }
}

/// One of the application's text fields.
#[derive(Debug, Clone, Copy, PartialEq, Eq, Structural)]
pub enum Field {
    Equation,
    X0,
    Y0,
    Y0End,
    Y0Count,
    XEnd,
    H,
    ExportFilename,
    ExportH,
    ExportNumPoints,
}

/// Full application state. The plotted curves are of a type the front end chooses.
pub struct App<C> {
    pub focus: Focus,
    pub equation: TextInput,
    pub method_choice: MethodChoice,
    pub method_menu_open: bool,
    pub method_menu_highlight: usize,
    pub y0_family_enabled: bool,
    pub x0: TextInput,
    pub y0: TextInput,
    pub y0_end: TextInput,
    pub y0_count: TextInput,
    pub x_end: TextInput,
    pub h: TextInput,
    pub export_prompt_open: bool,
    pub export_prompt_focus: ExportPromptFocus,
    pub export_filename: TextInput,
    pub export_h: TextInput,
    pub export_n_points: TextInput,
    pub curves: Vec<C>,
    pub error: Option<String>,
    pub status: Option<String>,
}

/// `t` holds `s` with the cursor at its end.
pub open spec fn holds_fresh(t: TextInput, s: Seq<char>) -> bool {
    t.value@ == s && t.cursor == s.len()
}

/// The text field that keyboard focus `f` edits, if any.
pub open spec fn focused_field(f: Focus) -> Option<Field> {
    match f {
        Focus::Equation => Some(Field::Equation),
        Focus::X0 => Some(Field::X0),
        Focus::Y0 => Some(Field::Y0),
        Focus::Y0End => Some(Field::Y0End),
        Focus::Y0Count => Some(Field::Y0Count),
        Focus::XEnd => Some(Field::XEnd),
        Focus::H => Some(Field::H),
        _ => None,
    }
}

/// The export dialog field that dialog focus `f` edits.
pub open spec fn export_field(f: ExportPromptFocus) -> Field {
    match f {
        ExportPromptFocus::Filename => Field::ExportFilename,
        ExportPromptFocus::H => Field::ExportH,
        ExportPromptFocus::NumPoints => Field::ExportNumPoints,
    }
}

impl<C> App<C> {
    /// The text field `id`.
    pub open spec fn field(self, id: Field) -> TextInput {
        match id {
            Field::Equation => self.equation,
            Field::X0 => self.x0,
            Field::Y0 => self.y0,
            Field::Y0End => self.y0_end,
            Field::Y0Count => self.y0_count,
            Field::XEnd => self.x_end,
            Field::H => self.h,
            Field::ExportFilename => self.export_filename,
            Field::ExportH => self.export_h,
            Field::ExportNumPoints => self.export_n_points,
        }
    }

    /// This state with text field `id` replaced by `t`.
    pub open spec fn with_field(self, id: Field, t: TextInput) -> App<C> {
        match id {
            Field::Equation => App { equation: t, ..self },
            Field::X0 => App { x0: t, ..self },
            Field::Y0 => App { y0: t, ..self },
            Field::Y0End => App { y0_end: t, ..self },
            Field::Y0Count => App { y0_count: t, ..self },
            Field::XEnd => App { x_end: t, ..self },
            Field::H => App { h: t, ..self },
            Field::ExportFilename => App { export_filename: t, ..self },
            Field::ExportH => App { export_h: t, ..self },
            Field::ExportNumPoints => App { export_n_points: t, ..self },
        }
    }

    /// Create the application with the default demo values and no curves yet.
    pub fn new() -> (app: Self)
        ensures
            app.focus == Focus::Equation,
            holds_fresh(app.equation, "y - y^3"@),
            app.method_choice == MethodChoice::RungeKutta,
            !app.method_menu_open,
            app.method_menu_highlight == 0,
            !app.y0_family_enabled,
            holds_fresh(app.x0, "0"@),
            holds_fresh(app.y0, "0.3"@),
            holds_fresh(app.y0_end, "1.2"@),
            holds_fresh(app.y0_count, "7"@),
            holds_fresh(app.x_end, "3"@),
            holds_fresh(app.h, "0.01"@),
            !app.export_prompt_open,
            app.export_prompt_focus == ExportPromptFocus::Filename,
            holds_fresh(app.export_filename, "ode_export"@),
            holds_fresh(app.export_h, "0.01"@),
            holds_fresh(app.export_n_points, "100"@),
            app.curves@.len() == 0,
            app.error is None,
            app.status is None,
    {
        Self {
            focus: Focus::Equation,
            equation: TextInput::new("y - y^3"),
            method_choice: MethodChoice::RungeKutta,
            method_menu_open: false,
            method_menu_highlight: 0,
            y0_family_enabled: false,
            x0: TextInput::new("0"),
            y0: TextInput::new("0.3"),
            y0_end: TextInput::new("1.2"),
            y0_count: TextInput::new("7"),
            x_end: TextInput::new("3"),
            h: TextInput::new("0.01"),
            export_prompt_open: false,
            export_prompt_focus: ExportPromptFocus::Filename,
            export_filename: TextInput::new("ode_export"),
            export_h: TextInput::new("0.01"),
            export_n_points: TextInput::new("100"),
            curves: Vec::new(),
            error: None,
            status: None,
        }
    }

    /// Toggle the y₀ family mode on or off.
    pub fn toggle_y0_family(&mut self)
        ensures
            *final(self) == (App { y0_family_enabled: !old(self).y0_family_enabled, ..*old(self) }),
    {
        self.y0_family_enabled = !self.y0_family_enabled;
    }

    /// The text field that currently has keyboard focus; `None` on a control.
    pub fn focused_input_mut(&mut self) -> (res: Option<&mut TextInput>)
        ensures
            match focused_field(old(self).focus) {
                None => res is None && *final(self) == *old(self),
                Some(id) => (res matches Some(r) && *r == old(self).field(id) && *final(self)
                    == old(self).with_field(id, *final(r))),
            },
    {
        match self.focus {
            Focus::Equation => Some(&mut self.equation),
            Focus::X0 => Some(&mut self.x0),
            Focus::Y0 => Some(&mut self.y0),
            Focus::Y0End => Some(&mut self.y0_end),
            Focus::Y0Count => Some(&mut self.y0_count),
            Focus::XEnd => Some(&mut self.x_end),
            Focus::H => Some(&mut self.h),
            Focus::Y0Family | Focus::ExportButton | Focus::QuitButton | Focus::MethodDropdown => None,
        }
    }

    /// Open the method selection dropdown with the current choice highlighted.
    pub fn open_method_menu(&mut self)
        ensures
            *final(self) == (App {
                method_menu_highlight: choice_position(old(self).method_choice) as usize,
                method_menu_open: true,
                ..*old(self)
            }),
    {
        self.method_menu_highlight = self.method_choice.index();
        self.method_menu_open = true;
    }

    /// Close the method dropdown. When `apply` is set and the menu was open, the
    /// highlighted choice becomes the method choice and `true` is returned: the curves
    /// must then be recomputed.
    pub fn close_method_menu(&mut self, apply: bool) -> (applied: bool)
        ensures
            applied == (apply && old(self).method_menu_open),
            applied ==> *final(self) == (App {
                method_choice: choice_options()[old(self).method_menu_highlight as int % 4],
                method_menu_open: false,
                ..*old(self)
            }),
            !applied ==> *final(self) == (App { method_menu_open: false, ..*old(self) }),
    {
        let applied = apply && self.method_menu_open;
        if applied {
            self.method_choice = MethodChoice::from_index(self.method_menu_highlight);
        }
        self.method_menu_open = false;
        applied
    }

    /// Move the method menu highlight up, wrapping at the top.
    pub fn method_menu_up(&mut self)
        ensures
            *final(self) == (App {
                method_menu_highlight: if old(self).method_menu_highlight == 0 {
                    3
                } else {
                    (old(self).method_menu_highlight - 1) as usize
                },
                ..*old(self)
            }),
    {
        if self.method_menu_highlight == 0 {
            self.method_menu_highlight = 4 - 1;
        } else {
            self.method_menu_highlight -= 1;
        }
    }

    /// Move the method menu highlight down, wrapping at the bottom.
    pub fn method_menu_down(&mut self)
        requires
            old(self).method_menu_highlight < usize::MAX,
        ensures
            *final(self) == (App {
                method_menu_highlight: ((old(self).method_menu_highlight + 1) % 4) as usize,
                ..*old(self)
            }),
    {
        self.method_menu_highlight = (self.method_menu_highlight + 1) % 4;
    }

    /// Open the export dialog with defaults: the name `ode_export`, the sidebar's step
    /// size and 100 points, with the file name focused. Clears the error.
    pub fn open_export_prompt(&mut self)
        ensures
            holds_fresh(final(self).export_filename, "ode_export"@),
            holds_fresh(final(self).export_h, old(self).h.value@),
            holds_fresh(final(self).export_n_points, "100"@),
            *final(self) == (App {
                export_filename: final(self).export_filename,
                export_h: final(self).export_h,
                export_n_points: final(self).export_n_points,
                export_prompt_focus: ExportPromptFocus::Filename,
                export_prompt_open: true,
                error: None,
                ..*old(self)
            }),
    {
        self.export_filename = TextInput::new("ode_export");
        self.export_h = TextInput::new(self.h.as_str());
        self.export_n_points = TextInput::new("100");
        self.export_prompt_focus = ExportPromptFocus::Filename;
        self.export_prompt_open = true;
        self.error = None;
    }

    /// The export dialog field that currently has focus.
    pub fn export_prompt_input_mut(&mut self) -> (res: &mut TextInput)
        ensures
            *res == old(self).field(export_field(old(self).export_prompt_focus)),
            *final(self) == old(self).with_field(export_field(old(self).export_prompt_focus), *final(res)),
    {
        match self.export_prompt_focus {
            ExportPromptFocus::Filename => &mut self.export_filename,
            ExportPromptFocus::H => &mut self.export_h,
            ExportPromptFocus::NumPoints => &mut self.export_n_points,
        }
    }
}

/// Parse a sidebar or dialog field as `usize` (surrounding whitespace ignored);
/// on failure the error is `label`.
pub fn parse_input_usize(input: &TextInput, label: &str) -> (res: Result<usize, String>)
    ensures
        match res {
            Ok(n) => parse_usize_spec(trim(input.value@)) == Some(n),
            Err(m) => parse_usize_spec(trim(input.value@)) is None && m@ == label@,
        },
{
    let cs = chars_of(input.as_str());
    let t = trimmed(cs.as_slice());
    match parse_usize(t.as_slice()) {
        Some(n) => Ok(n),
        None => Err(label.to_owned()),
    }
}

/// The number of y₀ curves from the y₀ count field: a number between 1 and
/// `MAX_Y0_FAMILY`, or the message saying what is wrong with the field.
pub open spec fn y0_count_spec(field: Seq<char>) -> Result<usize, Seq<char>> {
    match parse_usize_spec(trim(field)) {
        None => Err("y\u{2080} count must be a positive integer"@),
        Some(n) => if n == 0 {
            Err("y\u{2080} count must be at least 1"@)
        } else if n > MAX_Y0_FAMILY {
            Err("y\u{2080} count cannot exceed 15"@)
        } else {
            Ok(n)
        },
    }
}

/// Read the y₀ count field: at least 1 and at most `MAX_Y0_FAMILY` curves.
pub fn parse_y0_count(input: &TextInput) -> (res: Result<usize, String>)
    ensures
        match res {
            Ok(n) => y0_count_spec(input.value@) == Ok::<usize, Seq<char>>(n),
            Err(m) => y0_count_spec(input.value@) == Err::<usize, Seq<char>>(m@),
        },
{
    let n = parse_input_usize(input, "y\u{2080} count must be a positive integer")?;
    if n == 0 {
        return Err("y\u{2080} count must be at least 1".to_owned());
    }
    if n > MAX_Y0_FAMILY {
        return Err("y\u{2080} count cannot exceed 15".to_owned());
    }
    Ok(n)
}

/// The number of exported points from the dialog field: at least 1, or the message
/// saying what is wrong with the field.
pub open spec fn export_count_spec(field: Seq<char>) -> Result<usize, Seq<char>> {
    match parse_usize_spec(trim(field)) {
        None => Err("number of points must be a positive integer"@),
        Some(n) => if n == 0 {
            Err("number of points must be at least 1"@)
        } else {
            Ok(n)
        },
    }
}

/// Read the export dialog's point count: at least 1.
pub fn parse_export_count(input: &TextInput) -> (res: Result<usize, String>)
    ensures
        match res {
            Ok(n) => export_count_spec(input.value@) == Ok::<usize, Seq<char>>(n),
            Err(m) => export_count_spec(input.value@) == Err::<usize, Seq<char>>(m@),
        },
{
    let n = parse_input_usize(input, "number of points must be a positive integer")?;
    if n == 0 {
        return Err("number of points must be at least 1".to_owned());
    }
    Ok(n)
}

} // verus!
