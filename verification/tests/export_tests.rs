use numerical_approximater::export::{export_stem, sanitize_filename};

#[test]
fn sanitize_filename_strips_invalid_chars() {
    assert_eq!(sanitize_filename("  my file!.txt  "), "my_file");
    assert_eq!(sanitize_filename("a/b\\c"), "a_b_c");
    assert_eq!(sanitize_filename("___hello___"), "hello");
}

#[test]
fn sanitize_filename_keeps_allowed_chars() {
    assert_eq!(sanitize_filename("ode_export-1"), "ode_export-1");
}

#[test]
fn sanitize_filename_empty_after_sanitize() {
    assert_eq!(sanitize_filename("!!!"), "");
    assert_eq!(sanitize_filename("   "), "");
}

#[test]
fn sanitize_filename_only_strips_one_lowercase_extension() {
    assert_eq!(sanitize_filename("data.txt.txt"), "data_txt");
    assert_eq!(sanitize_filename("data.TXT"), "data_TXT");
    assert_eq!(sanitize_filename("\u{e9}t\u{e9}"), "t");
}

#[test]
fn sanitize_filename_is_idempotent_and_never_longer() {
    for raw in ["  my data (v2).txt ", "__a b__", "x²/y", "report.txt.txt", "", "ok-name_1"] {
        let once = sanitize_filename(raw);
        assert!(once.chars().count() <= raw.chars().count());
        assert_eq!(sanitize_filename(&once), once);
    }
}

#[test]
fn export_stem_refuses_a_name_that_sanitizes_to_nothing() {
    assert_eq!(export_stem("!!!"), Err("filename cannot be empty".to_string()));
    assert_eq!(export_stem("  .txt "), Err("filename cannot be empty".to_string()));
    assert_eq!(export_stem(" my run.txt"), Ok("my_run".to_string()));
}
