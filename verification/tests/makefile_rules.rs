use tectonic_driver::events::{CliIoEvents, InputOrigin};
use tectonic_driver::makefile::{dependency, report_circular, rule, target, RulePiece};
use tectonic_driver::message::Message;

/// What is written, piece by piece, with the warnings right before.
fn shown(pieces: &[RulePiece]) -> Vec<(Vec<String>, String)> {
    pieces
        .iter()
        .map(|piece| {
            let warnings = piece
                .warnings
                .iter()
                .map(|message| match message {
                    Message::Warning(text) => text.clone(),
                    other => panic!("unexpected message {:?}", other),
                })
                .collect();
            (warnings, String::from_utf8(piece.data.clone()).unwrap())
        })
        .collect()
}

/// All that is written.
fn written(pieces: &[RulePiece]) -> Vec<u8> {
    pieces.iter().flat_map(|piece| piece.data.clone()).collect()
}

#[test]
fn target_is_followed_by_a_space() {
    assert_eq!(target("out/a.pdf"), b"out/a.pdf ".to_vec());
}

#[test]
fn dependency_stands_on_its_own_line() {
    assert_eq!(dependency("dir/a.sty"), b" \\\n  dir/a.sty".to_vec());
}

#[test]
fn circular_dependency_is_warned_of() {
    match report_circular("a.aux") {
        Message::Warning(text) => {
            assert_eq!(text, "omitting circular Makefile dependency for a.aux")
        }
        other => panic!("unexpected message {:?}", other),
    }
}

#[test]
fn rule_names_the_input_and_what_came_from_the_filesystem() {
    let mut events = CliIoEvents::new();
    events.input_opened(b"a.sty", InputOrigin::Filesystem);
    events.input_opened(b"article.cls", InputOrigin::Other);
    events.input_not_available(b"missing.tex");
    events.output_opened(b"a.pdf");
    events.input_opened(b"/abs/b.sty", InputOrigin::Filesystem);
    let pieces = rule(&Some(b"dir/a.tex".to_vec()), b"dir", &events);
    assert_eq!(
        written(&pieces),
        b": dir/a.tex \\\n  dir/a.sty \\\n  /abs/b.sty\n".to_vec()
    );
    assert_eq!(
        shown(&pieces),
        vec![
            (vec![], ": ".to_string()),
            (vec![], "dir/a.tex".to_string()),
            (vec![], " \\\n  dir/a.sty".to_string()),
            (vec![], " \\\n  /abs/b.sty".to_string()),
            (vec![], "\n".to_string()),
        ]
    );
}

#[test]
fn rule_leaves_out_what_was_written_back() {
    let mut events = CliIoEvents::new();
    events.input_opened(b"a.aux", InputOrigin::Filesystem);
    events.output_opened(b"a.aux");
    events.input_opened(b"b.aux", InputOrigin::Filesystem);
    events.output_opened(b"b.aux");
    events.mark_written(b"a.aux");
    let pieces = rule(&None, b"dir/", &events);
    assert_eq!(written(&pieces), b":  \\\n  dir/b.aux\n".to_vec());
    assert_eq!(
        shown(&pieces),
        vec![
            (vec![], ": ".to_string()),
            (
                vec!["omitting circular Makefile dependency for a.aux".to_string()],
                " \\\n  dir/b.aux".to_string()
            ),
            (vec![], "\n".to_string()),
        ]
    );
}

#[test]
fn last_warning_comes_right_before_the_end_of_the_line() {
    let mut events = CliIoEvents::new();
    for name in [b"a", b"b"] {
        events.input_opened(name, InputOrigin::Filesystem);
        events.mark_written(name);
    }
    let pieces = rule(&None, b"", &events);
    assert_eq!(
        shown(&pieces),
        vec![
            (vec![], ": ".to_string()),
            (
                vec![
                    "omitting circular Makefile dependency for a".to_string(),
                    "omitting circular Makefile dependency for b".to_string(),
                ],
                "\n".to_string()
            ),
        ]
    );
}

#[test]
fn rule_for_the_current_directory_has_plain_names() {
    let mut events = CliIoEvents::new();
    events.input_opened(b"a.sty", InputOrigin::Filesystem);
    assert_eq!(written(&rule(&None, b"", &events)), b":  \\\n  a.sty\n".to_vec());
}
