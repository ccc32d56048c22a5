use tectonic_driver::events::{AccessPattern, CliIoEvents, InputOrigin};
use tectonic_driver::message::Message;
use tectonic_driver::output::{
    decide_fate, report_empty, report_saved, survey_files, FileFate, MemoryFile, OutputRules,
};
use tectonic_driver::OutputFormat;

fn rules() -> OutputRules {
    OutputRules {
        output_format: OutputFormat::Pdf,
        keep_intermediates: false,
        keep_logs: false,
        only_logs: false,
    }
}

fn file(name: &[u8], contents: &[u8]) -> MemoryFile {
    MemoryFile { name: name.to_vec(), contents: contents.to_vec() }
}

fn fate(rules: OutputRules, name: &[u8], pattern: AccessPattern) -> FileFate {
    decide_fate(rules, &file(name, b"data"), pattern)
}

#[test]
fn written_file_is_saved() {
    assert_eq!(fate(rules(), b"a.pdf", AccessPattern::Written), FileFate::Saved);
}

#[test]
fn standard_output_is_no_file() {
    assert_eq!(fate(rules(), b"", AccessPattern::Written), FileFate::Stdout);
}

#[test]
fn file_that_is_not_only_written_is_intermediate() {
    for pattern in
        [AccessPattern::Read, AccessPattern::ReadThenWritten, AccessPattern::WrittenThenRead]
    {
        assert_eq!(fate(rules(), b"a.pdf", pattern), FileFate::Intermediate);
        let keeping = OutputRules { keep_intermediates: true, ..rules() };
        assert_eq!(fate(keeping, b"a.pdf", pattern), FileFate::Saved);
    }
}

#[test]
fn beamer_files_are_always_intermediate() {
    assert_eq!(fate(rules(), b"a.snm", AccessPattern::Written), FileFate::Intermediate);
    assert_eq!(fate(rules(), b"a.toc", AccessPattern::Written), FileFate::Intermediate);
    assert_eq!(fate(rules(), b".toc", AccessPattern::Written), FileFate::Intermediate);
    assert_eq!(fate(rules(), b"a.toc.pdf", AccessPattern::Written), FileFate::Saved);
    assert_eq!(fate(rules(), b"toc", AccessPattern::Written), FileFate::Saved);
}

#[test]
fn logs_are_saved_if_they_are_kept() {
    let keeping = OutputRules { keep_logs: true, ..rules() };
    for name in [b"a.log", b"a.blg"] {
        assert_eq!(fate(rules(), name, AccessPattern::Written), FileFate::UnwantedLog);
        assert_eq!(fate(keeping, name, AccessPattern::Written), FileFate::Saved);
    }
}

#[test]
fn only_logs_are_saved_after_a_failure() {
    let failed = OutputRules { only_logs: true, keep_logs: true, ..rules() };
    assert_eq!(fate(failed, b"a.log", AccessPattern::Written), FileFate::Saved);
    assert_eq!(fate(failed, b"a.pdf", AccessPattern::Written), FileFate::NotLog);
    let dropping = OutputRules { only_logs: true, ..rules() };
    assert_eq!(fate(dropping, b"a.log", AccessPattern::Written), FileFate::UnwantedLog);
}

#[test]
fn only_the_aux_file_is_saved_if_that_is_asked_for() {
    let aux = OutputRules { output_format: OutputFormat::Aux, ..rules() };
    assert_eq!(fate(aux, b"a.aux", AccessPattern::ReadThenWritten), FileFate::Saved);
    assert_eq!(fate(aux, b"a.pdf", AccessPattern::Written), FileFate::NotAux);
    let failed = OutputRules { only_logs: true, keep_logs: true, ..aux };
    assert_eq!(fate(failed, b"a.log", AccessPattern::Written), FileFate::Saved);
    assert_eq!(fate(failed, b"a.aux", AccessPattern::Written), FileFate::NotLog);
}

#[test]
fn empty_file_is_not_saved() {
    assert_eq!(
        decide_fate(rules(), &file(b"a.pdf", b""), AccessPattern::Written),
        FileFate::Empty
    );
}

#[test]
fn reports_name_the_file() {
    match report_saved("out/a.pdf", 1024) {
        Message::Highlighted { before, phrase, after } => {
            assert_eq!(before, "Writing ");
            assert_eq!(phrase, "out/a.pdf");
            assert_eq!(after, " (1024 bytes)");
        }
        other => panic!("unexpected message {:?}", other),
    }
    match report_saved("a", 0) {
        Message::Highlighted { after, .. } => assert_eq!(after, " (0 bytes)"),
        other => panic!("unexpected message {:?}", other),
    }
    match report_empty("a.pdf") {
        Message::Highlighted { before, phrase, after } => {
            assert_eq!(before, "Not writing ");
            assert_eq!(phrase, "a.pdf");
            assert_eq!(after, ": it would be empty.");
        }
        other => panic!("unexpected message {:?}", other),
    }
}

#[test]
fn survey_stops_at_a_file_to_save() {
    let mut events = CliIoEvents::new();
    for name in [&b"x.toc"[..], b"empty.pdf", b"a.pdf", b"b.pdf"] {
        events.output_opened(name);
    }
    events.input_opened(b"y.aux", InputOrigin::Filesystem);
    let files = vec![
        file(b"", b"chatter"),
        file(b"x.toc", b"x"),
        file(b"y.aux", b"y"),
        file(b"empty.pdf", b""),
        file(b"a.pdf", b"a"),
        file(b"b.pdf", b"b"),
    ];
    let mut messages = Vec::new();
    assert_eq!(survey_files(rules(), &files, &events, 0, &mut messages), (4, 2));
    assert_eq!(messages.len(), 1);
    assert_eq!(survey_files(rules(), &files, &events, 5, &mut messages), (5, 0));
    assert_eq!(survey_files(rules(), &files, &events, 6, &mut messages), (6, 0));
    assert_eq!(messages.len(), 1);
}

#[test]
fn empty_file_with_a_broken_name_is_shown_with_replacement_characters() {
    let mut events = CliIoEvents::new();
    events.output_opened(b"a\xff.pdf");
    let files = vec![file(b"a\xff.pdf", b"")];
    let mut messages = Vec::new();
    assert_eq!(survey_files(rules(), &files, &events, 0, &mut messages), (1, 0));
    match &messages[0] {
        Message::Highlighted { phrase, .. } => assert_eq!(phrase, "a\u{fffd}.pdf"),
        other => panic!("unexpected message {:?}", other),
    }
}
