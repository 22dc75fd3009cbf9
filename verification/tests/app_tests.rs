use numerical_approximater::app::focus::{
    ExportPromptFocus, Focus as PanelFocus, FocusNav,
};
use numerical_approximater::app::{user_message, Focus, Method, MethodChoice};
use numerical_approximater::ui::chart_title;
use numerical_approximater::app::GraphDisplay;

#[test]
fn user_message_empty_uses_fallback() {
    assert_eq!(user_message(""), "Something went wrong");
    assert_eq!(user_message("   "), "Something went wrong");
}

#[test]
fn user_message_non_empty_passthrough() {
    assert_eq!(user_message("bad input"), "bad input");
}

#[test]
fn method_choice_from_index_and_index_roundtrip() {
    for (i, choice) in MethodChoice::OPTIONS.iter().enumerate() {
        assert_eq!(MethodChoice::from_index(i), *choice);
        assert_eq!(choice.index(), i);
    }
    assert_eq!(
        MethodChoice::from_index(99),
        MethodChoice::OPTIONS[99 % MethodChoice::OPTIONS.len()]
    );
}

#[test]
fn method_choice_methods() {
    assert_eq!(MethodChoice::Euler.methods(), &[Method::Euler]);
    assert_eq!(
        MethodChoice::ImprovedEuler.methods(),
        &[Method::ImprovedEuler]
    );
    assert_eq!(MethodChoice::RungeKutta.methods(), &[Method::RungeKutta]);
    assert_eq!(MethodChoice::All.methods(), &Method::ALL);
}

#[test]
fn focus_next_without_y0_family() {
    let mut f = Focus::Equation;
    f = f.next(false);
    assert_eq!(f, Focus::MethodDropdown);
    f = f.next(false);
    assert_eq!(f, Focus::Y0Family);
    f = f.next(false);
    assert_eq!(f, Focus::X0);
    f = f.next(false);
    assert_eq!(f, Focus::Y0);
    f = f.next(false);
    assert_eq!(f, Focus::XEnd);
}

#[test]
fn focus_next_with_y0_family_includes_extra_fields() {
    let mut f = Focus::Y0;
    f = f.next(true);
    assert_eq!(f, Focus::Y0End);
    f = f.next(true);
    assert_eq!(f, Focus::Y0Count);
    f = f.next(true);
    assert_eq!(f, Focus::XEnd);
}

#[test]
fn focus_prev_wraps() {
    assert_eq!(Focus::Equation.prev(false), Focus::QuitButton);
    assert_eq!(Focus::ExportButton.next(false), Focus::QuitButton);
    assert_eq!(Focus::QuitButton.next(false), Focus::Equation);
}

#[test]
fn export_prompt_focus_cycles() {
    assert_eq!(ExportPromptFocus::Filename.next(), ExportPromptFocus::H);
    assert_eq!(ExportPromptFocus::H.next(), ExportPromptFocus::NumPoints);
    assert_eq!(ExportPromptFocus::NumPoints.next(), ExportPromptFocus::Filename);
    assert_eq!(ExportPromptFocus::Filename.prev(), ExportPromptFocus::NumPoints);
}

#[test]
fn focus_is_text_input() {
    assert!(PanelFocus::Equation.is_text_input());
    assert!(PanelFocus::ViewYMax.is_text_input());
    assert!(!PanelFocus::GraphDisplay.is_text_input());
    assert!(!PanelFocus::ExportButton.is_text_input());
}

#[test]
fn focus_nav_with_y0_family_and_slope_bounds() {
    let nav = FocusNav {
        y0_family: true,
        slope_bounds: true,
    };
    let mut f = PanelFocus::H;
    f = f.next(nav);
    assert_eq!(f, PanelFocus::ViewXMin);
    f = f.prev(nav);
    assert_eq!(f, PanelFocus::H);
    f = f.prev(nav);
    assert_eq!(f, PanelFocus::XEnd);
    f = PanelFocus::Y0Count.next(nav);
    assert_eq!(f, PanelFocus::XEnd);
}

#[test]
fn focus_prev_full_ring_without_extras() {
    let nav = FocusNav {
        y0_family: false,
        slope_bounds: false,
    };
    assert_eq!(PanelFocus::ExportButton.prev(nav), PanelFocus::H);
    assert_eq!(PanelFocus::QuitButton.prev(nav), PanelFocus::ExportButton);
}

#[test]
fn focus_next_then_prev_returns_for_every_field() {
    for fam in [false, true] {
        let mut f = Focus::Equation;
        for _ in 0..12 {
            assert_eq!(f.next(fam).prev(fam), f);
            assert_eq!(f.prev(fam).next(fam), f);
            f = f.next(fam);
        }
    }
    for (fam, slope) in [(false, false), (false, true), (true, false), (true, true)] {
        let nav = FocusNav { y0_family: fam, slope_bounds: slope };
        let mut f = PanelFocus::Equation;
        for _ in 0..17 {
            assert_eq!(f.next(nav).prev(nav), f);
            f = f.next(nav);
        }
    }
}

#[test]
fn focus_outside_the_ring_counts_as_first() {
    assert_eq!(Focus::Y0End.next(false), Focus::MethodDropdown);
    assert_eq!(Focus::Y0Count.prev(false), Focus::QuitButton);
    let nav = FocusNav { y0_family: false, slope_bounds: false };
    assert_eq!(PanelFocus::ViewXMin.next(nav), PanelFocus::MethodDropdown);
}

#[test]
fn labels_and_titles() {
    assert_eq!(Method::RungeKutta.short_label(), "Runge-Kutta");
    assert_eq!(Method::ImprovedEuler.short_label(), "Improved Euler");
    assert_eq!(MethodChoice::RungeKutta.label(), "Runge-Kutta (RK4)");
    assert_eq!(MethodChoice::All.label(), "All three methods");
    assert_eq!(chart_title(GraphDisplay::Solution), "y vs x");
    assert_eq!(chart_title(GraphDisplay::SlopeField), "slope field");
    assert_eq!(chart_title(GraphDisplay::Both), "y vs x + slope");
    assert!(Focus::H.is_text_input());
    assert!(!Focus::Y0Family.is_text_input());
}

#[test]
fn a_full_lap_of_next_returns_to_the_start() {
    for family in [false, true] {
        let len = if family { 11 } else { 9 };
        let mut f = Focus::X0;
        for _ in 0..len {
            f = f.next(family);
        }
        assert_eq!(f, Focus::X0);
    }
}
