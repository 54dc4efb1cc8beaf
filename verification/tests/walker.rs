use gsr::walker::{classify, discover, is_marker, WalkEvent};

fn entry(name: &[u8], parent: &[u8], is_dir: bool) -> WalkEvent {
    WalkEvent::Entry { name: name.to_vec(), parent: parent.to_vec(), is_dir }
}

#[test]
fn marker_is_a_directory_named_dot_git() {
    assert!(is_marker(&b".git".to_vec(), true));
    assert!(!is_marker(&b".git".to_vec(), false));
    assert!(!is_marker(&b"git".to_vec(), true));
    assert!(!is_marker(&b".gitx".to_vec(), true));
    assert!(!is_marker(&b".gim".to_vec(), true));
    assert!(!is_marker(&b"".to_vec(), true));
}

#[test]
fn classify_builds_a_fresh_record_from_the_marker_parent() {
    let g = classify(&entry(b".git", b"/src/repo", true)).unwrap();
    assert_eq!(g.pb, b"/src/repo".to_vec());
    assert!(!g.df);
    assert!(g.st.is_none());
    assert!(!g.ahead);
    assert!(!g.behind);
    assert!(classify(&entry(b"src", b"/src/repo", true)).is_none());
    assert!(classify(&entry(b".git", b"/src/repo", false)).is_none());
    assert!(classify(&WalkEvent::Failure).is_none());
}

#[test]
fn discovery_keeps_stream_order() {
    let events = vec![
        entry(b"a", b"/x", true),
        entry(b".git", b"/x/one", true),
        entry(b"README", b"/x/one", false),
        entry(b".git", b"/x/two", true),
    ];
    let repos = discover(&events);
    let paths: Vec<Vec<u8>> = repos.into_iter().map(|g| g.pb).collect();
    assert_eq!(paths, vec![b"/x/one".to_vec(), b"/x/two".to_vec()]);
}

#[test]
fn failure_on_one_entry_does_not_block_siblings() {
    let events = vec![
        entry(b".git", b"/x/one", true),
        WalkEvent::Failure,
        entry(b".git", b"/x/two", true),
    ];
    let repos = discover(&events);
    assert_eq!(repos.len(), 2);
    assert_eq!(repos[0].pb, b"/x/one".to_vec());
    assert_eq!(repos[1].pb, b"/x/two".to_vec());
}

#[test]
fn failures_alone_discover_nothing() {
    let events = vec![WalkEvent::Failure, WalkEvent::Failure];
    assert!(discover(&events).is_empty());
}
