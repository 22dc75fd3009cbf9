//! Keyboard handling: what each key does to the application state, and which outside
//! work (recomputing the curves, writing an export, quitting) it asks for.
use vstd::prelude::*;
use crate::app::{export_field, focused_field, holds_fresh, App, Field, Focus};
use crate::app::focus::{export_order, ring_step, ExportPromptFocus};
use crate::app::model::{choice_options, choice_position};
use crate::input::{backspace_spec, delete_spec, insert_spec, TextInput};

verus! {

/// A key press, as the front end reports it.
#[derive(Debug, Clone, Copy, PartialEq, Eq, Structural)]
pub enum Key {
    Char(char),
    Tab,
    BackTab,
    Up,
    Down,
    Left,
    Right,
    Home,
    End,
    Delete,
    Backspace,
    Enter,
    Esc,
    Other,
}

/// The outside work a key press asks for.
#[derive(Debug, Clone, Copy, PartialEq, Eq, Structural)]
pub enum Effect {
    /// Nothing beyond the state change.
    Continue,
    /// Leave the application.
    Quit,
    /// Re-integrate the curves from the current inputs.
    Recompute,
    /// Write the export file from the dialog's inputs and close the dialog.
    Export,
}

/// A key that edits a text field: cursor movement, deletion or a typed character.
pub open spec fn is_edit_key(key: Key) -> bool {
    match key {
        Key::Left | Key::Right | Key::Home | Key::End | Key::Delete | Key::Backspace
        | Key::Char(_) => true,
        _ => false,
    }
}

/// Text and cursor after an editing key.
pub open spec fn edit_spec(s: (Seq<char>, int), key: Key) -> (Seq<char>, int) {
    let v = s.0;
    let cur = s.1;
    match key {
        Key::Left => (v, if cur > 0 {
            cur - 1
        } else {
            0
        }),
        Key::Right => (v, if cur < v.len() {
            cur + 1
        } else {
            cur
        }),
        Key::Home => (v, 0),
        Key::End => (v, v.len() as int),
        Key::Delete => delete_spec(v, cur),
        Key::Backspace => backspace_spec(v, cur),
        Key::Char(c) => insert_spec(v, cur, c),
        _ => s,
    }
}

/// Right moves the cursor one character right while it is before the end, and Left
/// then brings it back; at the end Right does nothing. The text is unchanged, so a
/// character typed after Right lands after the character the cursor passed.
pub proof fn lemma_right_moves_one_char(v: Seq<char>, cur: int, c: char)
    requires
        0 <= cur <= v.len(),
    ensures
        edit_spec((v, cur), Key::Right).0 == v,
        cur < v.len() ==> edit_spec((v, cur), Key::Right).1 == cur + 1,
        cur < v.len() ==> edit_spec(edit_spec((v, cur), Key::Right), Key::Left) == (v, cur),
        cur == v.len() ==> edit_spec((v, cur), Key::Right) == (v, cur),
        cur < v.len() ==> edit_spec(edit_spec((v, cur), Key::Right), Key::Char(c)) == (
            v.take(cur + 1).push(c) + v.skip(cur + 1),
            cur + 2,
        ),
{
}

/// Apply an editing key to one text field; other keys leave it unchanged.
pub fn edit_input(input: &mut TextInput, key: Key)
    requires
        key is Char ==> old(input).can_insert(),
    ensures
        final(input).state() == edit_spec(old(input).state(), key),
        !is_edit_key(key) ==> *final(input) == *old(input),
{
    match key {
        Key::Left => input.cursor_left(),
        Key::Right => input.cursor_right(),
        Key::Home => input.cursor_home(),
        Key::End => input.cursor_end(),
        Key::Delete => input.delete(),
        Key::Backspace => input.backspace(),
        Key::Char(c) => input.insert(c),
        _ => {},
    }
}

/// The text field a typed character would go into: the focused dialog field, nothing
/// while the method menu is open, else the focused field of the main view.
pub open spec fn typing_target<C>(app: App<C>) -> Option<Field> {
    if app.export_prompt_open {
        Some(export_field(app.export_prompt_focus))
    } else if app.method_menu_open {
        None
    } else {
        focused_field(app.focus)
    }
}

/// A typed character cannot overflow the cursor of the field it goes into.
pub open spec fn can_type<C>(app: App<C>, key: Key) -> bool {
    key is Char ==> match typing_target(app) {
        Some(id) => app.field(id).can_insert(),
        None => true,
    }
}

/// `post` is `pre` with field `id` edited by `key`.
pub open spec fn edited_field<C>(pre: App<C>, id: Field, key: Key, post: App<C>) -> bool {
    &&& post.field(id).state() == edit_spec(pre.field(id).state(), key)
    &&& post == pre.with_field(id, post.field(id))
}

/// `post` is `pre` with the focused text field edited by `key` (unchanged on a control).
pub open spec fn text_edit_step<C>(pre: App<C>, key: Key, post: App<C>) -> bool {
    match focused_field(pre.focus) {
        None => post == pre,
        Some(id) => edited_field(pre, id, key, post),
    }
}

/// `post` is `pre` with the export dialog opened with its defaults.
pub open spec fn export_opened<C>(pre: App<C>, post: App<C>) -> bool {
    &&& holds_fresh(post.export_filename, "ode_export"@)
    &&& holds_fresh(post.export_h, pre.h.value@)
    &&& holds_fresh(post.export_n_points, "100"@)
    &&& post == (App {
        export_filename: post.export_filename,
        export_h: post.export_h,
        export_n_points: post.export_n_points,
        export_prompt_focus: ExportPromptFocus::Filename,
        export_prompt_open: true,
        error: None,
        ..pre
    })
}

/// What activating the focused control does: a text field asks for a recompute, the
/// family toggle flips and asks for a recompute, the method field opens its menu, the
/// export button opens the dialog, the quit button quits.
pub open spec fn activate_step<C>(pre: App<C>, post: App<C>, eff: Effect) -> bool {
    match pre.focus {
        Focus::Y0Family => post == (App { y0_family_enabled: !pre.y0_family_enabled, ..pre })
            && eff == Effect::Recompute,
        Focus::MethodDropdown => post == (App {
            method_menu_highlight: choice_position(pre.method_choice) as usize,
            method_menu_open: true,
            ..pre
        }) && eff == Effect::Continue,
        Focus::ExportButton => export_opened(pre, post) && eff == Effect::Continue,
        Focus::QuitButton => post == pre && eff == Effect::Quit,
        _ => post == pre && eff == Effect::Recompute,
    }
}

/// Keys in the export dialog: Esc closes it, Enter asks for the export, Tab/Down and
/// BackTab/Up move between its fields, editing keys edit the focused field.
pub open spec fn export_prompt_step<C>(pre: App<C>, key: Key, post: App<C>, eff: Effect) -> bool {
    match key {
        Key::Esc => post == (App { export_prompt_open: false, ..pre }) && eff == Effect::Continue,
        Key::Enter => post == pre && eff == Effect::Export,
        Key::Tab | Key::Down => post == (App {
            export_prompt_focus: ring_step(export_order(), pre.export_prompt_focus, true),
            ..pre
        }) && eff == Effect::Continue,
        Key::BackTab | Key::Up => post == (App {
            export_prompt_focus: ring_step(export_order(), pre.export_prompt_focus, false),
            ..pre
        }) && eff == Effect::Continue,
        Key::Other => post == pre && eff == Effect::Continue,
        _ => edited_field(pre, export_field(pre.export_prompt_focus), key, post) && eff
            == Effect::Continue,
    }
}

/// The highlight one step up the method menu, wrapping to the bottom.
pub open spec fn menu_up(h: usize) -> usize {
    if h == 0 {
        3
    } else {
        (h - 1) as usize
    }
}

/// Keys in the method menu: `q` quits, Esc closes it, Enter or space applies the
/// highlighted choice and asks for a recompute (when the menu is open; on a closed menu
/// they change nothing), Up/Down move the highlight.
pub open spec fn method_menu_step<C>(pre: App<C>, key: Key, post: App<C>, eff: Effect) -> bool {
    if key == Key::Char('q') {
        post == pre && eff == Effect::Quit
    } else if key == Key::Esc {
        post == (App { method_menu_open: false, ..pre }) && eff == Effect::Continue
    } else if key == Key::Enter || key == Key::Char(' ') {
        if pre.method_menu_open {
            post == (App {
                method_choice: choice_options()[pre.method_menu_highlight as int % 4],
                method_menu_open: false,
                ..pre
            }) && eff == Effect::Recompute
        } else {
            post == pre && eff == Effect::Continue
        }
    } else if key == Key::Up {
        post == (App { method_menu_highlight: menu_up(pre.method_menu_highlight), ..pre }) && eff
            == Effect::Continue
    } else if key == Key::Down {
        post == (App {
            method_menu_highlight: ((pre.method_menu_highlight + 1) % 4) as usize,
            ..pre
        }) && eff == Effect::Continue
    } else {
        post == pre && eff == Effect::Continue
    }
}

/// Keys in the main view: on a control `q` quits and `s` opens the export dialog;
/// Tab/Down and BackTab/Up move the focus; Enter activates; space types in a text field
/// and activates a control; editing keys edit the focused text field.
pub open spec fn main_step<C>(pre: App<C>, key: Key, post: App<C>, eff: Effect) -> bool {
    let text = !pre.focus.is_control();
    if key == Key::Char('q') && !text {
        post == pre && eff == Effect::Quit
    } else if key == Key::Char('s') && !text {
        export_opened(pre, post) && eff == Effect::Continue
    } else if key == Key::Tab || key == Key::Down {
        post == (App { focus: pre.focus.next_spec(pre.y0_family_enabled), ..pre }) && eff
            == Effect::Continue
    } else if key == Key::BackTab || key == Key::Up {
        post == (App { focus: pre.focus.prev_spec(pre.y0_family_enabled), ..pre }) && eff
            == Effect::Continue
    } else if key == Key::Enter || (key == Key::Char(' ') && !text) {
        activate_step(pre, post, eff)
    } else if is_edit_key(key) && text {
        text_edit_step(pre, key, post) && eff == Effect::Continue
    } else {
        post == pre && eff == Effect::Continue
    }
}

/// What a key press does, depending on which dialog is open.
pub open spec fn key_step<C>(pre: App<C>, key: Key, post: App<C>, eff: Effect) -> bool {
    if pre.export_prompt_open {
        export_prompt_step(pre, key, post, eff)
    } else if pre.method_menu_open {
        method_menu_step(pre, key, post, eff)
    } else {
        main_step(pre, key, post, eff)
    }
}

/// Apply an editing key to the currently focused text field.
pub fn handle_text_input_key<C>(app: &mut App<C>, key: Key)
    requires
        key is Char ==> match focused_field(old(app).focus) {
            Some(id) => old(app).field(id).can_insert(),
            None => true,
        },
    ensures
        text_edit_step(*old(app), key, *final(app)),
{
    let ghost pre = *app;
    match app.focused_input_mut() {
        Some(input) => {
            edit_input(input, key);
        },
        None => {},
    }
}

/// Activate the focused control (Enter everywhere; space when not in a text field).
pub fn handle_activate<C>(app: &mut App<C>) -> (eff: Effect)
    ensures
        activate_step(*old(app), *final(app), eff),
{
    match app.focus {
        Focus::Equation | Focus::X0 | Focus::Y0 | Focus::Y0End | Focus::Y0Count | Focus::XEnd
        | Focus::H => Effect::Recompute,
        Focus::Y0Family => {
            app.toggle_y0_family();
            Effect::Recompute
        },
        Focus::MethodDropdown => {
            app.open_method_menu();
            Effect::Continue
        },
        Focus::ExportButton => {
            app.open_export_prompt();
            Effect::Continue
        },
        Focus::QuitButton => Effect::Quit,
    }
}

/// Handle a key while the export dialog is open.
pub fn handle_export_prompt<C>(app: &mut App<C>, key: Key) -> (eff: Effect)
    requires
        key is Char ==> old(app).field(export_field(old(app).export_prompt_focus)).can_insert(),
    ensures
        export_prompt_step(*old(app), key, *final(app), eff),
{
    match key {
        Key::Esc => {
            app.export_prompt_open = false;
            Effect::Continue
        },
        Key::Enter => Effect::Export,
        Key::Tab | Key::Down => {
            app.export_prompt_focus = app.export_prompt_focus.next();
            Effect::Continue
        },
        Key::BackTab | Key::Up => {
            app.export_prompt_focus = app.export_prompt_focus.prev();
            Effect::Continue
        },
        Key::Other => Effect::Continue,
        _ => {
            let input = app.export_prompt_input_mut();
            edit_input(input, key);
            Effect::Continue
        },
    }
}

/// Handle a key for the method menu (`handle_key` sends keys here while it is open).
pub fn handle_method_menu<C>(app: &mut App<C>, key: Key) -> (eff: Effect)
    requires
        key == Key::Down ==> old(app).method_menu_highlight < usize::MAX,
    ensures
        method_menu_step(*old(app), key, *final(app), eff),
{
    match key {
        Key::Char('q') => Effect::Quit,
        Key::Esc => {
            app.close_method_menu(false);
            Effect::Continue
        },
        Key::Enter | Key::Char(' ') => {
            if app.close_method_menu(true) {
                Effect::Recompute
            } else {
                Effect::Continue
            }
        },
        Key::Up => {
            app.method_menu_up();
            Effect::Continue
        },
        Key::Down => {
            app.method_menu_down();
            Effect::Continue
        },
        _ => Effect::Continue,
    }
}

/// Handle a key press: update the state and report the outside work it asks for.
pub fn handle_key<C>(app: &mut App<C>, key: Key) -> (eff: Effect)
    requires
        can_type(*old(app), key),
        !old(app).export_prompt_open && old(app).method_menu_open && key == Key::Down
            ==> old(app).method_menu_highlight < usize::MAX,
    ensures
        key_step(*old(app), key, *final(app), eff),
{
    if app.export_prompt_open {
        return handle_export_prompt(app, key);
    }
    if app.method_menu_open {
        return handle_method_menu(app, key);
    }
    let text = app.focus.is_text_input();
    match key {
        Key::Char('q') if !text => Effect::Quit,
        Key::Char('s') if !text => {
            app.open_export_prompt();
            Effect::Continue
        },
        Key::Tab | Key::Down => {
            app.focus = app.focus.next(app.y0_family_enabled);
            Effect::Continue
        },
        Key::BackTab | Key::Up => {
            app.focus = app.focus.prev(app.y0_family_enabled);
            Effect::Continue
        },
        Key::Enter => handle_activate(app),
        Key::Char(' ') if text => {
            handle_text_input_key(app, key);
            Effect::Continue
        },
        Key::Char(' ') => handle_activate(app),
        Key::Esc => Effect::Continue,
        Key::Left | Key::Right | Key::Home | Key::End | Key::Delete | Key::Backspace
        | Key::Char(_) => {
            if text {
                handle_text_input_key(app, key);
            }
            Effect::Continue
        },
        _ => Effect::Continue,
    }
}

/// While a text field has focus and no dialog is open, `q` and `s` are typed into the
/// field like any other character: they neither quit nor open the export dialog.
pub proof fn lemma_typing_q_or_s_edits<C>(pre: App<C>, c: char, post: App<C>, eff: Effect)
    requires
        !pre.export_prompt_open,
        !pre.method_menu_open,
        !pre.focus.is_control(),
        c == 'q' || c == 's',
        key_step(pre, Key::Char(c), post, eff),
    ensures
        eff == Effect::Continue,
        match focused_field(pre.focus) {
            Some(id) => post.field(id).state() == insert_spec(pre.field(id).value@, pre.field(id).cursor as int, c),
            None => false,
        },
{
}

/// Esc closes the export dialog, or else the method menu, and changes nothing else; in
/// the main view it does nothing. It never quits or asks for outside work.
pub proof fn lemma_esc_only_closes<C>(pre: App<C>, post: App<C>, eff: Effect)
    requires
        key_step(pre, Key::Esc, post, eff),
    ensures
        eff == Effect::Continue,
        pre.export_prompt_open ==> post == (App { export_prompt_open: false, ..pre }),
        !pre.export_prompt_open && pre.method_menu_open ==> post == (App {
            method_menu_open: false,
            ..pre
        }),
        !pre.export_prompt_open && !pre.method_menu_open ==> post == pre,
{
}

/// On a control, with no dialog open, space does exactly what Enter does.
pub proof fn lemma_space_is_enter_on_controls<C>(pre: App<C>, post: App<C>, eff: Effect)
    requires
        !pre.export_prompt_open,
        !pre.method_menu_open,
        pre.focus.is_control(),
    ensures
        key_step(pre, Key::Char(' '), post, eff) <==> key_step(pre, Key::Enter, post, eff),
{
}

/// While the export dialog is open, no key changes the equation, the sidebar fields,
/// the method, the family switch or the curves: the dialog's values only feed the file.
pub proof fn lemma_export_dialog_keeps_sidebar<C>(pre: App<C>, key: Key, post: App<C>, eff: Effect)
    requires
        pre.export_prompt_open,
        key_step(pre, key, post, eff),
    ensures
        post.equation == pre.equation,
        post.x0 == pre.x0,
        post.y0 == pre.y0,
        post.y0_end == pre.y0_end,
        post.y0_count == pre.y0_count,
        post.x_end == pre.x_end,
        post.h == pre.h,
        post.method_choice == pre.method_choice,
        post.y0_family_enabled == pre.y0_family_enabled,
        post.curves == pre.curves,
        post.focus == pre.focus,
{
}

} // verus!
