use numerical_approximater::app::{
    parse_export_count, parse_input_usize, parse_y0_count, App, ExportPromptFocus, Focus, MethodChoice,
};
use numerical_approximater::input::TextInput;
use numerical_approximater::keys::{handle_key, Effect, Key};

type TestApp = App<u32>;

fn press(app: &mut TestApp, keys: &[Key]) -> Vec<Effect> {
    keys.iter().map(|&k| handle_key(app, k)).collect()
}

#[test]
fn new_app_has_demo_defaults() {
    let app = TestApp::new();
    assert_eq!(app.focus, Focus::Equation);
    assert_eq!(app.equation.as_str(), "y - y^3");
    assert_eq!(app.equation.cursor, 7);
    assert_eq!(app.method_choice, MethodChoice::RungeKutta);
    assert_eq!(app.y0.as_str(), "0.3");
    assert_eq!(app.h.as_str(), "0.01");
    assert_eq!(app.export_n_points.as_str(), "100");
    assert!(app.curves.is_empty());
}

#[test]
fn typing_q_in_equation_types_it() {
    let mut app = TestApp::new();
    let effects = press(&mut app, &[Key::Char('q'), Key::Char('s')]);
    assert_eq!(effects, vec![Effect::Continue, Effect::Continue]);
    assert_eq!(app.equation.as_str(), "y - y^3qs");
    assert!(!app.export_prompt_open);
}

#[test]
fn q_on_a_control_quits_and_s_opens_export() {
    let mut app = TestApp::new();
    assert_eq!(handle_key(&mut app, Key::Tab), Effect::Continue);
    assert_eq!(app.focus, Focus::MethodDropdown);
    app.h = TextInput::new("0.25");
    assert_eq!(handle_key(&mut app, Key::Char('s')), Effect::Continue);
    assert!(app.export_prompt_open);
    assert_eq!(app.export_h.as_str(), "0.25");
    assert_eq!(app.export_filename.as_str(), "ode_export");
    assert_eq!(app.export_prompt_focus, ExportPromptFocus::Filename);
    assert_eq!(handle_key(&mut app, Key::Esc), Effect::Continue);
    assert!(!app.export_prompt_open);
    assert_eq!(handle_key(&mut app, Key::Char('q')), Effect::Quit);
}

#[test]
fn enter_on_text_field_asks_for_recompute() {
    let mut app = TestApp::new();
    assert_eq!(handle_key(&mut app, Key::Enter), Effect::Recompute);
    app.focus = Focus::QuitButton;
    assert_eq!(handle_key(&mut app, Key::Enter), Effect::Quit);
    app.focus = Focus::Y0Family;
    assert_eq!(handle_key(&mut app, Key::Char(' ')), Effect::Recompute);
    assert!(app.y0_family_enabled);
}

#[test]
fn method_menu_applies_highlight() {
    let mut app = TestApp::new();
    app.focus = Focus::MethodDropdown;
    assert_eq!(handle_key(&mut app, Key::Enter), Effect::Continue);
    assert!(app.method_menu_open);
    assert_eq!(app.method_menu_highlight, 2);
    let effects = press(&mut app, &[Key::Down, Key::Down, Key::Enter]);
    assert_eq!(effects, vec![Effect::Continue, Effect::Continue, Effect::Recompute]);
    assert!(!app.method_menu_open);
    assert_eq!(app.method_choice, MethodChoice::Euler);
    assert_eq!(handle_key(&mut app, Key::Enter), Effect::Continue);
    assert_eq!(handle_key(&mut app, Key::Up), Effect::Continue);
    assert_eq!(app.method_menu_highlight, 3);
    assert_eq!(handle_key(&mut app, Key::Esc), Effect::Continue);
    assert_eq!(app.method_choice, MethodChoice::Euler);
    assert_eq!(handle_key(&mut app, Key::Enter), Effect::Continue);
    assert_eq!(handle_key(&mut app, Key::Char('q')), Effect::Quit);
}

#[test]
fn export_dialog_edits_and_saves() {
    let mut app = TestApp::new();
    app.open_export_prompt();
    let effects = press(&mut app, &[Key::Backspace, Key::Char('2'), Key::Tab, Key::Home, Key::Delete]);
    assert!(effects.iter().all(|&e| e == Effect::Continue));
    assert_eq!(app.export_filename.as_str(), "ode_expor2");
    assert_eq!(app.export_h.as_str(), ".01");
    assert_eq!(app.export_prompt_focus, ExportPromptFocus::H);
    assert_eq!(handle_key(&mut app, Key::BackTab), Effect::Continue);
    assert_eq!(app.export_prompt_focus, ExportPromptFocus::Filename);
    assert_eq!(handle_key(&mut app, Key::Enter), Effect::Export);
    assert!(app.export_prompt_open);
}

#[test]
fn editing_keys_reach_the_focused_field_only() {
    let mut app = TestApp::new();
    app.focus = Focus::X0;
    press(&mut app, &[Key::Home, Key::Char('1'), Key::End, Key::Char('.'), Key::Char('5'), Key::Left, Key::Backspace]);
    assert_eq!(app.x0.as_str(), "105");
    assert_eq!(app.equation.as_str(), "y - y^3");
    app.focus = Focus::ExportButton;
    assert_eq!(handle_key(&mut app, Key::Char('z')), Effect::Continue);
    assert_eq!(app.x0.as_str(), "105");
    assert_eq!(handle_key(&mut app, Key::Char(' ')), Effect::Continue);
    assert!(app.export_prompt_open);
}

#[test]
fn focused_input_follows_focus() {
    let mut app = TestApp::new();
    app.focus = Focus::H;
    app.focused_input_mut().unwrap().insert('9');
    assert_eq!(app.h.as_str(), "0.019");
    app.focus = Focus::MethodDropdown;
    assert!(app.focused_input_mut().is_none());
    app.toggle_y0_family();
    assert!(app.y0_family_enabled);
    app.export_prompt_focus = ExportPromptFocus::NumPoints;
    app.export_prompt_input_mut().cursor_home();
    assert_eq!(app.export_n_points.cursor, 0);
}

#[test]
fn method_menu_wraps() {
    let mut app = TestApp::new();
    app.method_menu_highlight = 0;
    app.method_menu_up();
    assert_eq!(app.method_menu_highlight, 3);
    app.method_menu_down();
    assert_eq!(app.method_menu_highlight, 0);
    app.method_menu_open = false;
    assert!(!app.close_method_menu(true));
    app.open_method_menu();
    assert!(app.close_method_menu(true));
    assert_eq!(app.method_choice, MethodChoice::RungeKutta);
}

#[test]
fn parse_input_usize_accepts_plain_and_plus_signed() {
    assert_eq!(parse_input_usize(&TextInput::new(" 15 "), "bad"), Ok(15));
    assert_eq!(parse_input_usize(&TextInput::new("+7"), "bad"), Ok(7));
    assert_eq!(parse_input_usize(&TextInput::new("-7"), "bad"), Err("bad".to_string()));
    assert_eq!(parse_input_usize(&TextInput::new("+"), "bad"), Err("bad".to_string()));
    assert_eq!(parse_input_usize(&TextInput::new(""), "bad"), Err("bad".to_string()));
    assert_eq!(parse_input_usize(&TextInput::new("1 2"), "bad"), Err("bad".to_string()));
    assert_eq!(
        parse_input_usize(&TextInput::new(&usize::MAX.to_string()), "bad"),
        Ok(usize::MAX)
    );
    assert_eq!(
        parse_input_usize(&TextInput::new("99999999999999999999999"), "bad"),
        Err("bad".to_string())
    );
}

#[test]
fn y0_count_and_export_count_rules() {
    assert_eq!(parse_y0_count(&TextInput::new("7")), Ok(7));
    assert_eq!(parse_y0_count(&TextInput::new("0")), Err("y\u{2080} count must be at least 1".to_string()));
    assert_eq!(parse_y0_count(&TextInput::new("100")), Err("y\u{2080} count cannot exceed 15".to_string()));
    assert_eq!(parse_y0_count(&TextInput::new("15")), Ok(15));
    assert_eq!(parse_y0_count(&TextInput::new("x")), Err("y\u{2080} count must be a positive integer".to_string()));
    assert_eq!(parse_export_count(&TextInput::new("100")), Ok(100));
    assert_eq!(parse_export_count(&TextInput::new("0")), Err("number of points must be at least 1".to_string()));
    assert_eq!(parse_export_count(&TextInput::new("-1")), Err("number of points must be a positive integer".to_string()));
}

#[test]
fn space_acts_as_enter_on_controls_only() {
    let mut a = TestApp::new();
    let mut b = TestApp::new();
    a.focus = Focus::MethodDropdown;
    b.focus = Focus::MethodDropdown;
    assert_eq!(handle_key(&mut a, Key::Char(' ')), handle_key(&mut b, Key::Enter));
    assert_eq!(a.method_menu_open, b.method_menu_open);
    let mut c = TestApp::new();
    assert_eq!(handle_key(&mut c, Key::Char(' ')), Effect::Continue);
    assert_eq!(c.equation.as_str(), "y - y^3 ");
}
