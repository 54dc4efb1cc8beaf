use gsr::record::Gsr;
use gsr::root::{resolve_root, trim_end_spaces};

#[test]
fn a_fresh_record_has_conservative_flags() {
    let g = Gsr::new(b"/src/repo".to_vec());
    assert_eq!(g.pb, b"/src/repo".to_vec());
    assert!(!g.df);
    assert!(g.st.is_none());
    assert!(!g.ahead);
    assert!(!g.behind);
}

#[test]
fn diff_marks_dirty_exactly_on_an_unclean_comparison() {
    let g = Gsr::new(b"/r".to_vec());
    assert!(g.diff(false).df);
    let g = Gsr::new(b"/r".to_vec());
    assert!(!g.diff(true).df);
}

#[test]
fn status_records_the_captured_text_and_nothing_else() {
    let g = Gsr::new(b"/r".to_vec());
    let g = g.status(Some(b"## main".to_vec()));
    assert_eq!(g.st, Some(b"## main".to_vec()));
    assert_eq!(g.pb, b"/r".to_vec());
    assert!(!g.df);
    let g = g.status(None);
    assert!(g.st.is_none());
}

#[test]
fn process_runs_the_stages_in_order() {
    let g = Gsr::new(b"/r".to_vec());
    let g = g.process(Some(b"## m...o/m [ahead 1]".to_vec()), false);
    assert!(g.df);
    assert!(g.ahead);
    assert!(!g.behind);
    assert_eq!(g.pb, b"/r".to_vec());
}

#[test]
fn interpreting_without_text_leaves_the_record_as_it_was() {
    let g = Gsr::new(b"/r".to_vec());
    let g = g.is_ahead().is_behind();
    assert!(!g.ahead);
    assert!(!g.behind);
}

#[test]
fn a_given_input_path_wins() {
    let r = resolve_root(Some(b"/given".to_vec()), Some(b"/located\n".to_vec()));
    assert_eq!(r, b"/given".to_vec());
}

#[test]
fn the_locator_output_is_trimmed() {
    let r = resolve_root(None, Some(b"/located\n".to_vec()));
    assert_eq!(r, b"/located".to_vec());
    let r = resolve_root(None, Some(b"/located \t\r\n".to_vec()));
    assert_eq!(r, b"/located".to_vec());
}

#[test]
fn with_neither_the_current_directory_stands_in() {
    let r = resolve_root(None, None);
    assert_eq!(r, b".".to_vec());
}

#[test]
fn trimming_removes_only_trailing_whitespace() {
    assert_eq!(trim_end_spaces(b" a b \n".to_vec()), b" a b".to_vec());
    assert_eq!(trim_end_spaces(b"".to_vec()), b"".to_vec());
    assert_eq!(trim_end_spaces(b" \n\t".to_vec()), b"".to_vec());
    assert_eq!(trim_end_spaces(b"x".to_vec()), b"x".to_vec());
}
