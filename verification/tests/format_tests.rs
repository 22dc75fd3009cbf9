use numerical_approximater::format::trim_float;
use numerical_approximater::ui::{centered_rect, legend_text, Area};
use numerical_approximater::app::MethodChoice;

#[test]
fn trim_float_drops_trailing_zeros_and_point() {
    assert_eq!(trim_float("1.500"), "1.5");
    assert_eq!(trim_float("2.0"), "2");
    assert_eq!(trim_float("123456"), "123456");
    assert_eq!(trim_float(&format!("{}", 1.23457_f64)), "1.23457");
    assert_eq!(trim_float(&format!("{}", 0.0_f64)), "0");
    assert_eq!(trim_float("1e-7"), "1e-7");
    assert_eq!(trim_float("-0.500"), "-0.5");
    assert_eq!(trim_float("NaN"), "NaN");
}

#[test]
fn centered_rect_centers_and_clamps() {
    let area = Area { x: 2, y: 1, width: 80, height: 24 };
    assert_eq!(centered_rect(52, 15, area), Area { x: 16, y: 5, width: 52, height: 15 });
    assert_eq!(centered_rect(100, 30, area), area);
    assert_eq!(centered_rect(35, 8, Area { x: 0, y: 0, width: 10, height: 9 }), Area { x: 0, y: 0, width: 10, height: 8 });
}

#[test]
fn legend_lists_labels_or_counts_curves() {
    let labels = vec!["Euler".to_string(), "Improved Euler".to_string()];
    assert_eq!(legend_text(false, MethodChoice::Euler, &labels), "\u{25CF} Euler  \u{25CF} Improved Euler");
    assert_eq!(legend_text(false, MethodChoice::All, &labels), "");
    assert_eq!(legend_text(false, MethodChoice::Euler, &labels[..1]), "");
    let many: Vec<String> = (0..12).map(|i| format!("c{i}")).collect();
    assert_eq!(legend_text(true, MethodChoice::All, &many), "12 y\u{2080} curves");
    assert_eq!(legend_text(true, MethodChoice::Euler, &[]), "0 y\u{2080} curves");
}
