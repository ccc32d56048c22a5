use tectonic_driver::digest::DigestData;
use tectonic_driver::events::{InputOrigin, IoEvent};
use tectonic_driver::io_setup::{BundleSource, IoLayer};
use tectonic_driver::message::Message;
use tectonic_driver::output::MemoryFile;
use tectonic_driver::protocol::{
    Action, EngineReply, Event, Failure, FormatReply, Step, TexTask,
};
use tectonic_driver::session::{explain_rerun, names_bibliography};
use tectonic_driver::{
    CliIoBuilder, OutputFormat, PassSetting, ProcessingSession, ProcessingSessionBuilder,
};

type Session = ProcessingSession<String>;

/// A builder for a PDF file from `dir/paper.tex`.
fn plan() -> ProcessingSessionBuilder {
    let mut builder = ProcessingSessionBuilder::new();
    builder
        .format_path("latex")
        .tex_input_stem("paper.tex")
        .output_format(OutputFormat::Pdf)
        .pass(PassSetting::Default);
    builder
}

fn io() -> CliIoBuilder {
    let mut io = CliIoBuilder::default();
    io.primary_input_path(b"dir/paper.tex").filesystem_root(b"dir").bundle(BundleSource::Default);
    io
}

fn digest(seed: u8) -> DigestData {
    DigestData::from_bytes([seed; 32])
}

fn file(name: &[u8], contents: &[u8]) -> MemoryFile {
    MemoryFile { name: name.to_vec(), contents: contents.to_vec() }
}

/// The messages as plain text.
fn texts(messages: &[Message]) -> Vec<String> {
    messages
        .iter()
        .map(|message| match message {
            Message::Note(text) => format!("note: {}", text),
            Message::Highlighted { before, phrase, after } => {
                format!("{}[{}]{}", before, phrase, after)
            }
            Message::Warning(text) => format!("warning: {}", text),
            Message::Error(text) => format!("error: {}", text),
            Message::ErrorStyled(text) => format!("styled: {}", text),
            Message::Dump(bytes) => format!("dump: {}", String::from_utf8_lossy(bytes)),
        })
        .collect()
}

fn expect_task(step: Step<String>) -> TexTask {
    match step.action {
        Action::RunTex(task) => task,
        other => panic!("unexpected action {:?}", other),
    }
}

fn expect_save(step: &Step<String>, expected: &[u8], data: &[u8]) {
    match &step.action {
        Action::SaveFile { path, contents } => {
            assert_eq!(path, expected);
            assert_eq!(contents, data);
        }
        other => panic!("unexpected action {:?}", other),
    }
}

fn expect_rule(step: &Step<String>, expected: &[u8]) {
    match &step.action {
        Action::WriteMakefile { data } => assert_eq!(data, expected),
        other => panic!("unexpected action {:?}", other),
    }
}

fn expect_read(step: &Step<String>, expected: &[u8]) {
    match &step.action {
        Action::ReadMemoryFile { name } => assert_eq!(name, expected),
        other => panic!("unexpected action {:?}", other),
    }
}

fn expect_failure(step: Step<String>) -> Failure<String> {
    match step.action {
        Action::Finish(Err(failure)) => failure,
        other => panic!("unexpected action {:?}", other),
    }
}

fn expect_success(step: &Step<String>) {
    assert!(matches!(step.action, Action::Finish(Ok(0))));
}

/// Goes on, as whoever drives a session has to.
fn tell(session: &mut Session, event: Event<String>) -> Step<String> {
    assert!(session.accepts(&event));
    session.resume(event)
}

fn engine(session: &mut Session, reply: EngineReply<String>) -> Step<String> {
    tell(session, Event::Engine(reply))
}

fn written(session: &mut Session) -> Step<String> {
    tell(session, Event::Io(Ok(())))
}

/// Starts a session whose format file is there.
fn start(session: &mut Session) -> Step<String> {
    let step = session.run();
    assert!(step.messages.is_empty());
    assert!(matches!(step.action, Action::OpenFormat { .. }));
    tell(session, Event::Format(FormatReply::Available))
}

/// An engine writes a file.
fn write(session: &mut Session, name: &[u8], seed: u8) {
    session.record(&IoEvent::OutputOpened(name.to_vec()));
    session.record(&IoEvent::OutputClosed(name.to_vec(), digest(seed)));
}

/// An engine reads a file.
fn read(session: &mut Session, name: &[u8], seed: u8) {
    session.record(&IoEvent::InputOpened(name.to_vec(), InputOrigin::Filesystem));
    session.record(&IoEvent::InputClosed(name.to_vec(), Some(digest(seed))));
}

/// Takes a session to the list of its outputs, with no rerun.
fn to_outputs(session: &mut Session) -> Step<String> {
    start(session);
    write(session, b"paper.pdf", 1);
    engine(session, EngineReply::Spotless);
    let step = tell(session, Event::MemoryFile(None));
    assert!(matches!(step.action, Action::RunXdvipdfmx { .. }));
    engine(session, EngineReply::Spotless);
    tell(session, Event::Done)
}

#[test]
fn pdf_is_made_in_one_go_if_nothing_changes() {
    let mut session: Session = plan().create(io());
    let step = session.run();
    match &step.action {
        Action::OpenFormat { format, layers } => {
            assert_eq!(format, "latex");
            assert_eq!(
                layers,
                &vec![
                    IoLayer::PrimaryInput,
                    IoLayer::Memory,
                    IoLayer::Filesystem,
                    IoLayer::Bundle,
                ]
            );
        }
        other => panic!("unexpected action {:?}", other),
    }

    let step = tell(&mut session, Event::Format(FormatReply::Available));
    assert_eq!(texts(&step.messages), vec!["Running [TeX] ..."]);
    let task = expect_task(step);
    assert!(task.halt_on_error);
    assert!(!task.initex);
    assert!(!task.synctex);
    assert_eq!(task.format_name, "latex");
    assert_eq!(task.input_name, "paper.tex");
    assert_eq!(task.layers.len(), 4);

    write(&mut session, b"paper.log", 1);
    write(&mut session, b"paper.xdv", 2);
    write(&mut session, b"paper.pdf", 3);
    let step = engine(&mut session, EngineReply::Spotless);
    assert!(step.messages.is_empty());
    expect_read(&step, b"paper.aux");

    let step = tell(&mut session, Event::MemoryFile(Some(b"\\relax".to_vec())));
    assert_eq!(texts(&step.messages), vec!["Running [xdvipdfmx] ..."]);
    match &step.action {
        Action::RunXdvipdfmx { xdv, pdf, layers } => {
            assert_eq!(xdv, "paper.xdv");
            assert_eq!(pdf, "paper.pdf");
            assert_eq!(layers.len(), 4);
        }
        other => panic!("unexpected action {:?}", other),
    }

    let step = engine(&mut session, EngineReply::Spotless);
    assert!(matches!(step.action, Action::RemoveMemoryFile { ref name } if name == b"paper.xdv"));
    let step = tell(&mut session, Event::Done);
    assert!(matches!(step.action, Action::ListMemory));

    let files = vec![
        file(b"", b"chatter"),
        file(b"paper.log", b"log"),
        file(b"paper.pdf", b"%PDF-1.5"),
    ];
    let step = tell(&mut session, Event::Memory(files));
    assert_eq!(texts(&step.messages), vec!["Writing [dir/paper.pdf] (8 bytes)"]);
    expect_save(&step, b"dir/paper.pdf", b"%PDF-1.5");
    let step = written(&mut session);
    assert!(step.messages.is_empty());
    expect_success(&step);
    assert!(session.events().get(b"paper.pdf").unwrap().got_written_to_disk);
    assert!(!session.events().get(b"paper.log").unwrap().got_written_to_disk);
}

#[test]
fn finished_session_can_be_run_again() {
    let mut session: Session = plan().create(io());
    to_outputs(&mut session);
    expect_success(&tell(&mut session, Event::Memory(Vec::new())));
    assert!(matches!(session.run().action, Action::OpenFormat { .. }));
}

#[test]
fn format_file_is_made_from_the_bundle_if_there_is_none() {
    let mut builder = plan();
    builder.format_path("latex.v2.fmt");
    let mut session: Session = builder.create(io());
    session.run();
    let step = tell(&mut session, Event::Format(FormatReply::NotAvailable));
    assert_eq!(texts(&step.messages), vec!["note: generating format \"latex.v2.fmt\""]);
    let task = expect_task(step);
    assert_eq!(task.layers, vec![IoLayer::FormatPrimary, IoLayer::Memory, IoLayer::Bundle]);
    assert!(task.halt_on_error);
    assert!(task.initex);
    assert!(!task.synctex);
    assert_eq!(task.format_name, "UNUSED.fmt");
    assert_eq!(task.input_name, "texput");
    assert_eq!(
        session.io().format_primary.as_deref(),
        Some("\\input tectonic-format-latex.tex")
    );

    let step = engine(&mut session, EngineReply::Warnings);
    assert_eq!(
        texts(&step.messages),
        vec![
            "warning: warnings were issued by the TeX engine; use --print and/or --keep-logs for details."
        ]
    );
    assert!(matches!(step.action, Action::ListMemory));

    let files = vec![
        file(b"", b"chatter.fmt"),
        file(b"texput.log", b"log"),
        file(b"texput.fmt", b"dump"),
    ];
    let step = tell(&mut session, Event::Memory(files));
    match &step.action {
        Action::WriteFormat { stem, contents } => {
            assert_eq!(stem, "latex");
            assert_eq!(contents, b"dump");
        }
        other => panic!("unexpected action {:?}", other),
    }
    let step = written(&mut session);
    assert!(matches!(step.action, Action::ClearMemory));
    let step = tell(&mut session, Event::Done);
    assert_eq!(texts(&step.messages), vec!["Running [TeX] ..."]);
    assert_eq!(expect_task(step).format_name, "latex.v2.fmt");
}

#[test]
fn all_format_files_are_stored() {
    let mut session: Session = plan().create(io());
    session.run();
    tell(&mut session, Event::Format(FormatReply::NotAvailable));
    engine(&mut session, EngineReply::Spotless);
    let files = vec![file(b"a.fmt", b"a"), file(b"b.txt", b"b"), file(b"c.fmt", b"c")];
    let step = tell(&mut session, Event::Memory(files));
    assert!(matches!(step.action, Action::WriteFormat { ref contents, .. } if contents == b"a"));
    let step = written(&mut session);
    assert!(matches!(step.action, Action::WriteFormat { ref contents, .. } if contents == b"c"));
    assert!(matches!(written(&mut session).action, Action::ClearMemory));
}

#[test]
fn format_file_needs_a_bundle() {
    let mut io = CliIoBuilder::default();
    io.primary_input_stdin();
    let mut session: Session = plan().create(io);
    session.run();
    let step = tell(&mut session, Event::Format(FormatReply::NotAvailable));
    assert_eq!(texts(&step.messages), vec!["note: generating format \"latex\""]);
    match expect_failure(step) {
        Failure::Refused(text) => {
            assert_eq!(text, "cannot create formats without using a bundle")
        }
        other => panic!("unexpected failure {:?}", other),
    }
}

#[test]
fn format_file_that_cannot_be_opened_ends_the_session() {
    let mut session: Session = plan().create(io());
    session.run();
    let step = tell(&mut session, Event::Format(FormatReply::Failed("denied".to_string())));
    match expect_failure(step) {
        Failure::InContext { error, context } => {
            assert_eq!(error, "denied");
            assert_eq!(context, "could not open format file latex");
        }
        other => panic!("unexpected failure {:?}", other),
    }
}

#[test]
fn errors_in_the_making_of_a_format_end_the_session() {
    let mut session: Session = plan().create(io());
    session.run();
    tell(&mut session, Event::Format(FormatReply::NotAvailable));
    let step = engine(&mut session, EngineReply::Errors);
    assert_eq!(
        texts(&step.messages),
        vec![
            "error: errors were issued by the TeX engine; use --print and/or --keep-logs for details."
        ]
    );
    match expect_failure(step) {
        Failure::Refused(text) => assert_eq!(text, "unhandled TeX engine error"),
        other => panic!("unexpected failure {:?}", other),
    }
}

#[test]
fn output_of_an_engine_that_gives_up_on_a_format_is_shown() {
    let mut session: Session = plan().create(io());
    session.run();
    tell(&mut session, Event::Format(FormatReply::NotAvailable));
    let step = engine(&mut session, EngineReply::Failed("fatal".to_string()));
    expect_read(&step, b"");
    let step = tell(&mut session, Event::MemoryFile(Some(b"boom".to_vec())));
    let ruler =
        "styled: ===============================================================================";
    assert_eq!(
        texts(&step.messages),
        vec![
            "error: something bad happened inside TeX; its output follows:\n",
            ruler,
            "dump: boom",
            ruler,
            "styled: ",
        ]
    );
    assert!(matches!(expect_failure(step), Failure::Outside(ref error) if error == "fatal"));
}

#[test]
fn format_file_that_cannot_be_stored_ends_the_session() {
    let mut session: Session = plan().create(io());
    session.run();
    tell(&mut session, Event::Format(FormatReply::NotAvailable));
    engine(&mut session, EngineReply::Spotless);
    tell(&mut session, Event::Memory(vec![file(b"texput.fmt", b"dump")]));
    let step = tell(&mut session, Event::Io(Err("full".to_string())));
    match expect_failure(step) {
        Failure::InContext { error, context } => {
            assert_eq!(error, "full");
            assert_eq!(context, "cannot write format file texput.fmt");
        }
        other => panic!("unexpected failure {:?}", other),
    }
}

#[test]
fn format_session_opens_no_format() {
    let mut builder = plan();
    builder.output_format(OutputFormat::Format).pass(PassSetting::Tex);
    let mut session: Session = builder.create(io());
    let step = session.run();
    assert_eq!(texts(&step.messages), vec!["Running [TeX] ..."]);
    assert!(expect_task(step).initex);
}

#[test]
fn tex_pass_runs_tex_once_and_nothing_else() {
    let mut builder = plan();
    builder.pass(PassSetting::Tex).synctex(true).reruns(3);
    let mut session: Session = builder.create(io());
    let task = expect_task(start(&mut session));
    assert!(task.synctex);
    let step = engine(&mut session, EngineReply::Spotless);
    assert!(matches!(step.action, Action::ListMemory));
    expect_success(&tell(&mut session, Event::Memory(Vec::new())));
}

#[test]
fn bibtex_is_run_if_the_aux_file_names_a_bibliography() {
    let mut session: Session = plan().create(io());
    start(&mut session);
    engine(&mut session, EngineReply::Spotless);
    let step = tell(&mut session, Event::MemoryFile(Some(b"\\relax\n\\bibdata{refs}".to_vec())));
    assert_eq!(texts(&step.messages), vec!["Running [BibTeX] ..."]);
    match &step.action {
        Action::RunBibtex { aux, layers } => {
            assert_eq!(aux, "paper.aux");
            assert_eq!(layers.len(), 4);
        }
        other => panic!("unexpected action {:?}", other),
    }
    let step = engine(&mut session, EngineReply::Errors);
    assert_eq!(
        texts(&step.messages),
        vec![
            "warning: errors were issued by BibTeX, but were ignored; use --print and/or --keep-logs for details.",
            "Rerunning [TeX] because bibtex was run ...",
        ]
    );
    let step = engine(&mut session, EngineReply::Spotless);
    assert!(matches!(step.action, Action::RunXdvipdfmx { .. }));
}

#[test]
fn bibtex_comes_first_if_that_is_asked_for() {
    let mut builder = plan();
    builder.pass(PassSetting::BibtexFirst).output_format(OutputFormat::Xdv);
    let mut session: Session = builder.create(io());
    let step = start(&mut session);
    assert!(matches!(step.action, Action::RunBibtex { .. }));
    let step = engine(&mut session, EngineReply::Warnings);
    assert_eq!(
        texts(&step.messages),
        vec![
            "note: warnings were issued by BibTeX; use --print and/or --keep-logs for details.",
            "Rerunning [TeX] because bibtex was run ...",
        ]
    );
    let step = engine(&mut session, EngineReply::Spotless);
    assert!(matches!(step.action, Action::ListMemory));
}

#[test]
fn tex_is_rerun_exactly_as_often_as_told() {
    for count in [0usize, 1, 8] {
        let mut builder = plan();
        builder.reruns(count);
        let mut session: Session = builder.create(io());
        start(&mut session);
        engine(&mut session, EngineReply::Spotless);
        let mut step = tell(&mut session, Event::MemoryFile(None));
        for _ in 0..count {
            assert_eq!(
                texts(&step.messages),
                vec!["Rerunning [TeX] because I was told to ..."]
            );
            assert!(matches!(step.action, Action::RunTex(_)));
            step = engine(&mut session, EngineReply::Spotless);
        }
        assert_eq!(texts(&step.messages), vec!["Running [xdvipdfmx] ..."]);
    }
}

#[test]
fn no_rerun_follows_bibtex_if_none_is_allowed() {
    let mut builder = plan();
    builder.reruns(0);
    let mut session: Session = builder.create(io());
    start(&mut session);
    engine(&mut session, EngineReply::Spotless);
    tell(&mut session, Event::MemoryFile(Some(b"\\bibdata".to_vec())));
    let step = engine(&mut session, EngineReply::Spotless);
    assert!(matches!(step.action, Action::RunXdvipdfmx { .. }));
}

#[test]
fn tex_is_rerun_until_nothing_changes() {
    let mut session: Session = plan().create(io());
    start(&mut session);
    session.record(&IoEvent::InputNotAvailable(b"paper.aux".to_vec()));
    write(&mut session, b"paper.aux", 1);
    engine(&mut session, EngineReply::Spotless);
    let step = tell(&mut session, Event::MemoryFile(Some(Vec::new())));
    assert_eq!(
        texts(&step.messages),
        vec!["Rerunning [TeX] because \"paper.aux\" changed ..."]
    );
    assert!(session.events().get(b"paper.aux").unwrap().read_digest.is_none());

    read(&mut session, b"paper.aux", 1);
    write(&mut session, b"paper.aux", 2);
    let step = engine(&mut session, EngineReply::Spotless);
    assert_eq!(
        texts(&step.messages),
        vec!["Rerunning [TeX] because \"paper.aux\" changed ..."]
    );

    read(&mut session, b"paper.aux", 2);
    write(&mut session, b"paper.aux", 2);
    let step = engine(&mut session, EngineReply::Spotless);
    assert_eq!(texts(&step.messages), vec!["Running [xdvipdfmx] ..."]);
}

#[test]
fn reruns_stop_at_the_limit() {
    let mut session: Session = plan().create(io());
    start(&mut session);
    read(&mut session, b"paper.aux", 0);
    write(&mut session, b"paper.aux", 1);
    engine(&mut session, EngineReply::Spotless);
    let mut step = tell(&mut session, Event::MemoryFile(None));
    let mut runs = 1;
    while matches!(step.action, Action::RunTex(_)) {
        runs += 1;
        read(&mut session, b"paper.aux", runs);
        write(&mut session, b"paper.aux", runs + 1);
        step = engine(&mut session, EngineReply::Spotless);
    }
    assert_eq!(runs, 7);
    assert_eq!(
        texts(&step.messages),
        vec![
            "warning: TeX rerun seems needed, but stopping at 6 passes",
            "Running [xdvipdfmx] ...",
        ]
    );
}

#[test]
fn output_that_was_not_closed_is_warned_of() {
    let mut session: Session = plan().create(io());
    start(&mut session);
    read(&mut session, b"paper.aux", 0);
    session.record(&IoEvent::OutputOpened(b"paper.aux".to_vec()));
    let mut messages = Vec::new();
    assert_eq!(session.rerun_needed(&mut messages), Some("paper.aux".to_string()));
    assert_eq!(messages.len(), 1);
    engine(&mut session, EngineReply::Spotless);
    let step = tell(&mut session, Event::MemoryFile(None));
    assert_eq!(
        texts(&step.messages),
        vec![
            "warning: internal consistency problem when checking if paper.aux changed",
            "Rerunning [TeX] because \"paper.aux\" changed ...",
        ]
    );
}

#[test]
fn no_rerun_is_needed_at_first() {
    let session: Session = plan().create(io());
    let mut messages = Vec::new();
    assert_eq!(session.rerun_needed(&mut messages), None);
    assert!(messages.is_empty());
}

#[test]
fn complaints_of_tex_are_noted_once() {
    let mut builder = plan();
    builder.reruns(2);
    let mut session: Session = builder.create(io());
    start(&mut session);
    let step = engine(&mut session, EngineReply::Warnings);
    assert_eq!(
        texts(&step.messages),
        vec![
            "note: warnings were issued by the TeX engine; use --print and/or --keep-logs for details."
        ]
    );
    tell(&mut session, Event::MemoryFile(None));
    let step = engine(&mut session, EngineReply::Errors);
    assert_eq!(texts(&step.messages), vec!["Rerunning [TeX] because I was told to ..."]);
    let step = engine(&mut session, EngineReply::Warnings);
    assert_eq!(texts(&step.messages), vec!["Running [xdvipdfmx] ..."]);
}

#[test]
fn errors_of_tex_are_ignored_with_a_warning() {
    let mut session: Session = plan().create(io());
    start(&mut session);
    let step = engine(&mut session, EngineReply::Errors);
    assert_eq!(
        texts(&step.messages),
        vec![
            "warning: errors were issued by the TeX engine, but were ignored; use --print and/or --keep-logs for details."
        ]
    );
    expect_read(&step, b"paper.aux");
}

#[test]
fn only_kept_logs_are_saved_when_tex_gives_up() {
    let mut builder = plan();
    builder.keep_logs(true);
    let mut session: Session = builder.create(io());
    start(&mut session);
    write(&mut session, b"paper.log", 1);
    write(&mut session, b"paper.pdf", 2);
    let step = engine(&mut session, EngineReply::Failed("fatal".to_string()));
    expect_read(&step, b"");
    let step = tell(&mut session, Event::MemoryFile(Some(b"! Emergency stop.".to_vec())));
    assert_eq!(step.messages.len(), 5);
    assert_eq!(texts(&step.messages)[2], "dump: ! Emergency stop.");
    assert!(matches!(step.action, Action::ListMemory));
    let files = vec![file(b"paper.pdf", b"pdf"), file(b"paper.log", b"log")];
    let step = tell(&mut session, Event::Memory(files));
    expect_save(&step, b"dir/paper.log", b"log");
    let step = written(&mut session);
    assert!(step.messages.is_empty());
    assert!(matches!(expect_failure(step), Failure::Outside(ref error) if error == "fatal"));
}

#[test]
fn no_output_is_shown_if_the_engine_printed_none() {
    let mut session: Session = plan().create(io());
    start(&mut session);
    engine(&mut session, EngineReply::Failed("fatal".to_string()));
    let step = tell(&mut session, Event::MemoryFile(None));
    assert!(step.messages.is_empty());
    let step = tell(&mut session, Event::Memory(Vec::new()));
    assert!(matches!(expect_failure(step), Failure::Outside(ref error) if error == "fatal"));
}

#[test]
fn log_that_cannot_be_saved_takes_over_the_failure() {
    let mut builder = plan();
    builder.keep_logs(true);
    let mut session: Session = builder.create(io());
    start(&mut session);
    write(&mut session, b"paper.log", 1);
    engine(&mut session, EngineReply::Failed("fatal".to_string()));
    tell(&mut session, Event::MemoryFile(None));
    tell(&mut session, Event::Memory(vec![file(b"paper.log", b"log")]));
    let step = tell(&mut session, Event::Io(Err("full".to_string())));
    assert!(matches!(expect_failure(step), Failure::Outside(ref error) if error == "full"));
}

#[test]
fn bibtex_that_gives_up_ends_the_session() {
    let mut builder = plan();
    builder.pass(PassSetting::BibtexFirst);
    let mut session: Session = builder.create(io());
    start(&mut session);
    engine(&mut session, EngineReply::Failed("fatal".to_string()));
    let step = tell(&mut session, Event::MemoryFile(Some(b"x".to_vec())));
    assert_eq!(
        texts(&step.messages)[0],
        "error: something bad happened inside BibTeX; its output follows:\n"
    );
    let step = tell(&mut session, Event::Memory(Vec::new()));
    assert!(matches!(expect_failure(step), Failure::Outside(ref error) if error == "fatal"));
}

#[test]
fn xdvipdfmx_that_gives_up_ends_the_session() {
    let mut session: Session = plan().create(io());
    start(&mut session);
    engine(&mut session, EngineReply::Spotless);
    tell(&mut session, Event::MemoryFile(None));
    let step = engine(&mut session, EngineReply::Failed("fatal".to_string()));
    assert!(step.messages.is_empty());
    assert!(matches!(step.action, Action::ListMemory));
    let step = tell(&mut session, Event::Memory(Vec::new()));
    assert!(matches!(expect_failure(step), Failure::Outside(ref error) if error == "fatal"));
}

#[test]
fn intermediate_files_are_counted() {
    let mut session: Session = plan().create(io());
    to_outputs(&mut session);
    write(&mut session, b"paper.toc", 1);
    read(&mut session, b"paper.aux", 1);
    write(&mut session, b"paper.aux", 1);
    let files = vec![
        file(b"paper.toc", b"toc"),
        file(b"paper.pdf", b"pdf"),
        file(b"paper.aux", b"aux"),
    ];
    let step = tell(&mut session, Event::Memory(files));
    expect_save(&step, b"dir/paper.pdf", b"pdf");
    let step = written(&mut session);
    assert_eq!(
        texts(&step.messages),
        vec!["Skipped writing [2] intermediate files (use --keep-intermediates to keep them)"]
    );
    expect_success(&step);
}

#[test]
fn intermediate_files_are_saved_if_they_are_kept() {
    let mut builder = plan();
    builder.keep_intermediates(true);
    let mut session: Session = builder.create(io());
    to_outputs(&mut session);
    write(&mut session, b"paper.toc", 1);
    let files = vec![file(b"paper.toc", b"toc"), file(b"paper.pdf", b"pdf")];
    let step = tell(&mut session, Event::Memory(files));
    expect_save(&step, b"dir/paper.toc", b"toc");
    let step = written(&mut session);
    expect_save(&step, b"dir/paper.pdf", b"pdf");
    let step = written(&mut session);
    assert!(step.messages.is_empty());
    expect_success(&step);
}

#[test]
fn aux_session_saves_the_aux_file_only() {
    let mut builder = plan();
    builder.output_format(OutputFormat::Aux);
    let mut session: Session = builder.create(io());
    start(&mut session);
    session.record(&IoEvent::InputNotAvailable(b"paper.aux".to_vec()));
    write(&mut session, b"paper.aux", 1);
    write(&mut session, b"paper.xdv", 1);
    engine(&mut session, EngineReply::Spotless);
    tell(&mut session, Event::MemoryFile(None));
    read(&mut session, b"paper.aux", 1);
    let step = engine(&mut session, EngineReply::Spotless);
    assert!(matches!(step.action, Action::ListMemory));
    let files = vec![file(b"paper.xdv", b"xdv"), file(b"paper.aux", b"aux")];
    let step = tell(&mut session, Event::Memory(files));
    expect_save(&step, b"dir/paper.aux", b"aux");
    let step = written(&mut session);
    assert!(step.messages.is_empty());
    expect_success(&step);
}

#[test]
fn empty_output_is_not_saved() {
    let mut session: Session = plan().create(io());
    to_outputs(&mut session);
    let step = tell(&mut session, Event::Memory(vec![file(b"paper.pdf", b"")]));
    assert_eq!(
        texts(&step.messages),
        vec!["Not writing [paper.pdf]: it would be empty."]
    );
    expect_success(&step);
}

#[test]
fn outputs_go_to_the_output_directory() {
    let mut builder = plan();
    builder.output_path(b"out");
    let mut session: Session = builder.create(io());
    to_outputs(&mut session);
    let step = tell(&mut session, Event::Memory(vec![file(b"paper.pdf", b"pdf")]));
    assert_eq!(texts(&step.messages), vec!["Writing [out/paper.pdf] (3 bytes)"]);
    expect_save(&step, b"out/paper.pdf", b"pdf");
}

#[test]
fn output_that_cannot_be_saved_ends_the_session() {
    let mut session: Session = plan().create(io());
    to_outputs(&mut session);
    tell(&mut session, Event::Memory(vec![file(b"paper.pdf", b"pdf")]));
    let step = tell(&mut session, Event::Io(Err("full".to_string())));
    assert!(matches!(expect_failure(step), Failure::Outside(ref error) if error == "full"));
    assert!(!session.events().get(b"paper.pdf").unwrap().got_written_to_disk);
}

#[test]
fn makefile_rules_name_targets_and_dependencies() {
    let mut builder = plan();
    builder.makefile_output_path(b"rules.mk").output_path(b"out").keep_intermediates(true);
    let mut session: Session = builder.create(io());
    let step = to_outputs(&mut session);
    assert!(matches!(step.action, Action::CreateMakefile { ref path } if path == b"rules.mk"));
    read(&mut session, b"macros.sty", 1);
    read(&mut session, b"paper.aux", 1);
    write(&mut session, b"paper.aux", 1);
    let step = written(&mut session);
    assert!(matches!(step.action, Action::ListMemory));

    let files = vec![file(b"paper.pdf", b"pdf"), file(b"paper.aux", b"aux")];
    let step = tell(&mut session, Event::Memory(files));
    expect_save(&step, b"out/paper.pdf", b"pdf");
    let step = written(&mut session);
    assert!(matches!(step.action, Action::WriteMakefile { ref data } if data == b"out/paper.pdf "));
    let step = written(&mut session);
    expect_save(&step, b"out/paper.aux", b"aux");
    let step = written(&mut session);
    assert!(matches!(step.action, Action::WriteMakefile { ref data } if data == b"out/paper.aux "));
    for data in [&b": "[..], b"dir/paper.tex", b" \\\n  dir/macros.sty"] {
        let step = written(&mut session);
        assert!(step.messages.is_empty());
        expect_rule(&step, data);
    }
    let step = written(&mut session);
    assert_eq!(
        texts(&step.messages),
        vec!["warning: omitting circular Makefile dependency for paper.aux"]
    );
    expect_rule(&step, b"\n");
    expect_success(&written(&mut session));
}

#[test]
fn makefile_rules_come_after_the_count_of_skipped_files() {
    let mut builder = plan();
    builder.makefile_output_path(b"rules.mk");
    let mut session: Session = builder.create(io());
    to_outputs(&mut session);
    write(&mut session, b"paper.toc", 1);
    written(&mut session);
    let step = tell(&mut session, Event::Memory(vec![file(b"paper.toc", b"toc")]));
    assert_eq!(
        texts(&step.messages),
        vec!["Skipped writing [1] intermediate files (use --keep-intermediates to keep them)"]
    );
    expect_rule(&step, b": ");
    let step = tell(&mut session, Event::Io(Err("full".to_string())));
    match expect_failure(step) {
        Failure::InContext { error, context } => {
            assert_eq!(error, "full");
            assert_eq!(context, "couldn't write to Makefile-rules file");
        }
        other => panic!("unexpected failure {:?}", other),
    }
}

#[test]
fn rule_that_cannot_be_written_brings_no_further_warnings() {
    let mut builder = plan();
    builder.makefile_output_path(b"rules.mk").keep_intermediates(true);
    let mut session: Session = builder.create(io());
    to_outputs(&mut session);
    read(&mut session, b"paper.aux", 1);
    write(&mut session, b"paper.aux", 1);
    written(&mut session);
    tell(&mut session, Event::Memory(vec![file(b"paper.aux", b"aux")]));
    written(&mut session);
    let step = written(&mut session);
    assert!(step.messages.is_empty());
    expect_rule(&step, b": ");
    let step = tell(&mut session, Event::Io(Err("full".to_string())));
    assert!(step.messages.is_empty());
    assert!(matches!(expect_failure(step), Failure::InContext { ref error, .. } if error == "full"));
}

#[test]
fn makefile_that_cannot_be_created_ends_the_session() {
    let mut builder = plan();
    builder.makefile_output_path(b"rules.mk");
    let mut session: Session = builder.create(io());
    to_outputs(&mut session);
    let step = tell(&mut session, Event::Io(Err("denied".to_string())));
    assert!(matches!(expect_failure(step), Failure::Outside(ref error) if error == "denied"));
}

#[test]
fn target_that_cannot_be_written_ends_the_session() {
    let mut builder = plan();
    builder.makefile_output_path(b"rules.mk");
    let mut session: Session = builder.create(io());
    to_outputs(&mut session);
    written(&mut session);
    tell(&mut session, Event::Memory(vec![file(b"paper.pdf", b"pdf")]));
    written(&mut session);
    let step = tell(&mut session, Event::Io(Err("full".to_string())));
    assert!(matches!(expect_failure(step), Failure::InContext { ref error, .. } if error == "full"));
}

#[test]
fn outputs_are_named_after_the_input() {
    for (stem, aux, pdf) in [
        ("a.b.tex", "a.b.aux", "a.b.pdf"),
        ("notes", "notes.aux", "notes.pdf"),
        ("texput.tex", "texput.aux", "texput.pdf"),
        (".tex", ".tex.aux", ".tex.pdf"),
        (".a.tex", ".a.aux", ".a.pdf"),
        ("a:b.tex", "a:b.aux", "a:b.pdf"),
        ("a\\b", "a\\b.aux", "a\\b.pdf"),
        ("a.", "a.aux", "a.pdf"),
    ] {
        let mut builder = plan();
        builder.tex_input_stem(stem);
        let mut session: Session = builder.create(io());
        assert_eq!(expect_task(start(&mut session)).input_name, stem);
        let step = engine(&mut session, EngineReply::Spotless);
        expect_read(&step, aux.as_bytes());
        let step = tell(&mut session, Event::MemoryFile(None));
        match &step.action {
            Action::RunXdvipdfmx { pdf: named, .. } => assert_eq!(named, pdf),
            other => panic!("unexpected action {:?}", other),
        }
    }
}

#[test]
fn chatter_is_printed_if_that_is_asked_for() {
    let mut io = io();
    io.use_genuine_stdout(true);
    let mut session: Session = plan().create(io);
    let task = expect_task(start(&mut session));
    assert_eq!(task.layers[0], IoLayer::GenuineStdout);
}

#[test]
fn only_answers_are_accepted() {
    let mut session: Session = plan().create(io());
    assert!(!session.accepts(&Event::Done));
    session.run();
    assert!(!session.accepts(&Event::Done));
    assert!(!session.accepts(&Event::Engine(EngineReply::Spotless)));
    assert!(session.accepts(&Event::Format(FormatReply::NotAvailable)));
    tell(&mut session, Event::Format(FormatReply::Available));
    assert!(!session.accepts(&Event::Format(FormatReply::Available)));
    assert!(session.accepts(&Event::Engine(EngineReply::Errors)));
}

#[test]
fn file_that_no_engine_accessed_is_not_accepted() {
    let mut session: Session = plan().create(io());
    to_outputs(&mut session);
    assert!(!session.accepts(&Event::Memory(vec![file(b"stranger", b"x")])));
    assert!(session.accepts(&Event::Memory(vec![file(b"", b"x"), file(b"paper.pdf", b"x")])));
}

#[test]
fn accesses_are_described() {
    let mut session: Session = plan().create(io());
    read(&mut session, b"paper.tex", 1);
    session.record(&IoEvent::OutputOpened(b"a\xff".to_vec()));
    write(&mut session, b"b", 0x1f);
    read(&mut session, b"b", 0x2e);
    let ones = "1f".repeat(32);
    let twos = "2e".repeat(32);
    assert_eq!(
        texts(&session._dump_access_info()),
        vec![
            "note: ACCESS: a\u{fffd} Written \"-\" \"-\"".to_string(),
            format!("note: ACCESS: b WrittenThenRead \"{}\" \"{}\"", twos, ones),
        ]
    );
}

#[test]
fn bibliography_is_looked_for_in_the_bytes() {
    assert!(!names_bibliography(&None));
    assert!(!names_bibliography(&Some(Vec::new())));
    assert!(!names_bibliography(&Some(b"\\bibdat".to_vec())));
    assert!(!names_bibliography(&Some(b"bibdata \\bib data".to_vec())));
    assert!(names_bibliography(&Some(b"\\bibdata".to_vec())));
    assert!(names_bibliography(&Some(b"\xff\\\\bibdata{x}".to_vec())));
    assert!(names_bibliography(&Some(b"\\bibdat\\bibdata".to_vec())));
}

#[test]
fn reason_for_a_rerun_names_the_file() {
    assert_eq!(explain_rerun(""), "bibtex was run");
    assert_eq!(explain_rerun("a.aux"), "\"a.aux\" changed");
}
