use gsr::interpret::{ahead_pattern, behind_pattern, contains_bracketed};
use gsr::record::Gsr;

fn interpret(text: &[u8]) -> (bool, bool) {
    let g = Gsr::new(b"/tmp/repo".to_vec());
    let g = g.process(Some(text.to_vec()), true);
    (g.ahead, g.behind)
}

#[test]
fn tracking_line_with_both_markers() {
    let (ahead, behind) = interpret(b"## main...origin/main [ahead 2, behind 1]");
    assert!(ahead);
    assert!(behind);
}

#[test]
fn tracking_line_without_annotation() {
    let (ahead, behind) = interpret(b"## main...origin/main");
    assert!(!ahead);
    assert!(!behind);
}

#[test]
fn empty_text() {
    let (ahead, behind) = interpret(b"");
    assert!(!ahead);
    assert!(!behind);
}

#[test]
fn ahead_only() {
    let (ahead, behind) = interpret(b"## main...origin/main [ahead 3]\n M src/lib.rs");
    assert!(ahead);
    assert!(!behind);
}

#[test]
fn behind_only() {
    let (ahead, behind) = interpret(b"## main...origin/main [behind 4]");
    assert!(!ahead);
    assert!(behind);
}

#[test]
fn absent_status_text_defaults_to_false() {
    let g = Gsr::new(b"/tmp/repo".to_vec());
    let g = g.process(None, true);
    assert!(!g.ahead);
    assert!(!g.behind);
}

#[test]
fn annotation_must_sit_on_one_line() {
    assert!(!contains_bracketed(&b"[ahead\n]".to_vec(), &ahead_pattern()));
    assert!(!contains_bracketed(&b"[\nahead]".to_vec(), &ahead_pattern()));
    assert!(contains_bracketed(&b"x\n[ahead]\ny".to_vec(), &ahead_pattern()));
}

#[test]
fn marker_must_sit_between_brackets() {
    assert!(!contains_bracketed(&b"ahead [2]".to_vec(), &ahead_pattern()));
    assert!(!contains_bracketed(&b"[2] ahead".to_vec(), &ahead_pattern()));
    assert!(!contains_bracketed(&b"] ahead [".to_vec(), &ahead_pattern()));
    assert!(!contains_bracketed(&b"[ahead".to_vec(), &ahead_pattern()));
    assert!(!contains_bracketed(&b"ahead]".to_vec(), &ahead_pattern()));
    assert!(contains_bracketed(&b"[ahead]".to_vec(), &ahead_pattern()));
    assert!(contains_bracketed(&b"[xaheadx]".to_vec(), &ahead_pattern()));
}

#[test]
fn marker_word_is_exact() {
    assert!(!contains_bracketed(&b"[ahea d]".to_vec(), &ahead_pattern()));
    assert!(!contains_bracketed(&b"[behin]".to_vec(), &behind_pattern()));
    assert!(contains_bracketed(&b"[behinder]".to_vec(), &behind_pattern()));
}

#[test]
fn later_line_still_matches() {
    let text = b"## main...origin/main\n M a.rs\n?? [behind 9]".to_vec();
    assert!(contains_bracketed(&text, &behind_pattern()));
    assert!(!contains_bracketed(&text, &ahead_pattern()));
}
