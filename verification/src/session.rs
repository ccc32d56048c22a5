//! The session: it runs the whole show when a file is processed.
//!
//! `ProcessingSession::run` says what to do first. Whoever drives the session
//! does it, and tells `ProcessingSession::resume` what came of it, which says
//! what to do next, and so on until the session is finished. Meanwhile,
//! `ProcessingSession::record` is told what the engines read and write.
use crate::course;
use crate::course::{
    answers, begin, has_input, is_complete, is_extension_dot, next, output_names_follow,
    output_rules, planned_state, rerun_cause, rerun_limit, rerun_reason, rerun_warnings, session_wf,
    Purpose, Round, SessionView, Settings, StageView, StateView, Turn, DEFAULT_MAX_TEX_PASSES,
};
use crate::digest::DigestData;
use crate::events::{
    after_event, can_happen, distinct_names, is_recorded, stdout_name, AccessPattern, CliIoEvents,
    FileSummary, IoEvent,
};
use crate::io_setup::{optional_bytes, optional_text, CliIoBuilder, CliIoSetup};
use crate::makefile;
use crate::makefile::{piece_views, RulePiece};
use crate::message::{highlighted, message_views, no_messages, push_message, Message, MessageView};
use crate::output::{
    all_recorded, file_views, report_saved, survey, survey_files, MemoryFile, OutputRules,
};
use crate::outside::{
    automaton_finds, from_utf8_lossy, lacks_extension, occurs_in, set_extension,
};
use crate::protocol::{
    outcome_view, Action, EngineReply, Event, Failure, FailureView, FormatReply, Step, TexTask,
};
use crate::settings::{OutputFormat, PassSetting, ProcessingSessionBuilder};
use crate::text::{concat, concat3, copy_bytes, cut_at_dot, decimal, ends_with, join_path, text_of};
use vstd::prelude::*;
use vstd::string::{StrSliceExecFns, StringExecFns};
use vstd::utf8::encode_utf8;

verus! {

/// What a session is waiting for.
#[derive(Debug)]
enum Stage<E> {
    Ready,
    OpeningFormat,
    GeneratingFormat,
    ReadingFormatOutput(E),
    ListingFormats,
    WritingFormat { files: Vec<MemoryFile>, at: usize },
    ClearingMemory,
    RunningTex(Round),
    ReadingTexOutput(E),
    ReadingAux,
    RunningBibtex,
    ReadingBibtexOutput(E),
    RunningXdvipdfmx,
    RemovingXdv,
    ListingLogs(E),
    CreatingMakefile,
    ListingOutputs,
    SavingFile { purpose: Purpose<E>, files: Vec<MemoryFile>, at: usize, skipped: usize },
    WritingTarget { files: Vec<MemoryFile>, at: usize, skipped: usize },
    WritingRule { rest: Vec<RulePiece> },
    Finished,
}

impl<E> View for Stage<E> {
    type V = StageView<E>;

    closed spec fn view(&self) -> StageView<E> {
        match self {
            Stage::Ready => StageView::Ready,
            Stage::OpeningFormat => StageView::OpeningFormat,
            Stage::GeneratingFormat => StageView::GeneratingFormat,
            Stage::ReadingFormatOutput(error) => StageView::ReadingFormatOutput(*error),
            Stage::ListingFormats => StageView::ListingFormats,
            Stage::WritingFormat { files, at } => StageView::WritingFormat {
                files: file_views(files@),
                at: *at as int,
            },
            Stage::ClearingMemory => StageView::ClearingMemory,
            Stage::RunningTex(round) => StageView::RunningTex(*round),
            Stage::ReadingTexOutput(error) => StageView::ReadingTexOutput(*error),
            Stage::ReadingAux => StageView::ReadingAux,
            Stage::RunningBibtex => StageView::RunningBibtex,
            Stage::ReadingBibtexOutput(error) => StageView::ReadingBibtexOutput(*error),
            Stage::RunningXdvipdfmx => StageView::RunningXdvipdfmx,
            Stage::RemovingXdv => StageView::RemovingXdv,
            Stage::ListingLogs(error) => StageView::ListingLogs(*error),
            Stage::CreatingMakefile => StageView::CreatingMakefile,
            Stage::ListingOutputs => StageView::ListingOutputs,
            Stage::SavingFile { purpose, files, at, skipped } => StageView::SavingFile {
                purpose: *purpose,
                files: file_views(files@),
                at: *at as int,
                skipped: *skipped as nat,
            },
            Stage::WritingTarget { files, at, skipped } => StageView::WritingTarget {
                files: file_views(files@),
                at: *at as int,
                skipped: *skipped as nat,
            },
            Stage::WritingRule { rest } => StageView::WritingRule { rest: piece_views(rest@) },
            Stage::Finished => StageView::Finished,
        }
    }
}

/// What a session knows.
#[derive(Debug)]
struct SessionState {
    io: CliIoSetup,
    events: CliIoEvents,
    primary_input_path: Option<Vec<u8>>,
    primary_input_tex_path: String,
    format_path: String,
    tex_aux_path: String,
    tex_xdv_path: String,
    tex_pdf_path: String,
    makefile_output_path: Option<Vec<u8>>,
    output_path: Vec<u8>,
    pass: PassSetting,
    output_format: OutputFormat,
    tex_rerun_specification: Option<usize>,
    keep_intermediates: bool,
    keep_logs: bool,
    noted_tex_warnings: bool,
    synctex_enabled: bool,
}

impl View for SessionState {
    type V = StateView;

    closed spec fn view(&self) -> StateView {
        StateView {
            settings: Settings {
                primary_input_path: optional_bytes(self.primary_input_path),
                primary_input_tex_path: self.primary_input_tex_path@,
                format_path: self.format_path@,
                tex_aux_path: self.tex_aux_path@,
                tex_xdv_path: self.tex_xdv_path@,
                tex_pdf_path: self.tex_pdf_path@,
                makefile_output_path: optional_bytes(self.makefile_output_path),
                output_path: self.output_path@,
                pass: self.pass,
                output_format: self.output_format,
                tex_rerun_specification: self.tex_rerun_specification,
                keep_intermediates: self.keep_intermediates,
                keep_logs: self.keep_logs,
                synctex_enabled: self.synctex_enabled,
            },
            io: self.io@,
            log: self.events@,
            noted_tex_warnings: self.noted_tex_warnings,
        }
    }
}

/// The next stage of a session, and what is done in it.
struct Progress<E> {
    stage: Stage<E>,
    step: Step<E>,
}

/// The turn that a session takes.
spec fn turn_of<E>(state: StateView, progress: Progress<E>) -> Turn<E> {
    Turn {
        session: SessionView { state, stage: progress.stage@ },
        messages: progress.step@.messages,
        action: progress.step@.action,
    }
}

/// The session goes on to a stage.
fn turn_to<E>(stage: Stage<E>, messages: Vec<Message>, action: Action<E>) -> (progress: Progress<E>)
    ensures
        forall|state: StateView|
            #[trigger] turn_of(state, progress) == course::turn_to(
                state,
                stage@,
                message_views(messages@),
                action@,
            ),
{
    Progress { stage, step: Step { messages, action } }
}

/// The session ends.
fn finish<E>(messages: Vec<Message>, outcome: Result<i32, Failure<E>>) -> (progress: Progress<E>)
    ensures
        forall|state: StateView|
            #[trigger] turn_of(state, progress) == course::finish(
                state,
                message_views(messages@),
                outcome_view(outcome),
            ),
{
    turn_to(Stage::Finished, messages, Action::Finish(outcome))
}

/// What the engine printed is asked for.
fn read_output<E>(stage: Stage<E>) -> (progress: Progress<E>)
    ensures
        forall|state: StateView|
            #[trigger] turn_of(state, progress) == course::read_output(state, stage@),
{
    let name: Vec<u8> = Vec::new();
    assert(name@ =~= stdout_name());
    turn_to(stage, no_messages(), Action::ReadMemoryFile { name })
}

/// A line across the screen.
fn ruler() -> (message: Message)
    ensures
        message@ == course::ruler(),
{
    Message::ErrorStyled(
        text_of("==============================================================================="),
    )
}

/// What the user is shown of the output of an engine that gave up.
fn engine_output(engine: &str, output: Option<Vec<u8>>) -> (messages: Vec<Message>)
    ensures
        message_views(messages@) == course::engine_output(engine@, optional_bytes(output)),
{
    let mut messages = no_messages();
    if let Some(bytes) = output {
        let ghost dumped = bytes@;
        push_message(
            &mut messages,
            Message::Error(
                concat3("something bad happened inside ", engine, "; its output follows:\n"),
            ),
        );
        push_message(&mut messages, ruler());
        push_message(&mut messages, Message::Dump(bytes));
        push_message(&mut messages, ruler());
        push_message(&mut messages, Message::ErrorStyled(text_of("")));
        assert(message_views(messages@) =~= course::engine_output(engine@, Some(dumped)));
    }
    messages
}

/// A list of one message.
fn one_message(message: Message) -> (messages: Vec<Message>)
    ensures
        message_views(messages@) == seq![message@],
{
    let mut messages = no_messages();
    push_message(&mut messages, message);
    assert(message_views(messages@) =~= seq![message@]);
    messages
}

/// The reason for a rerun. A cause without a name stands for a run of BibTeX.
pub fn explain_rerun(cause: &str) -> (reason: String)
    ensures
        reason@ == rerun_reason(cause@),
{
    if cause.is_empty() {
        text_of("bibtex was run")
    } else {
        concat3("\"", cause, "\" changed")
    }
}

/// The name of an access pattern.
fn pattern_name(pattern: AccessPattern) -> (name: &'static str)
    ensures
        name@ == course::pattern_name(pattern),
{
    match pattern {
        AccessPattern::Read => "Read",
        AccessPattern::Written => "Written",
        AccessPattern::ReadThenWritten => "ReadThenWritten",
        AccessPattern::WrittenThenRead => "WrittenThenRead",
    }
}

/// Shows a digest that may not be known.
fn shown_digest(digest: &Option<DigestData>) -> (text: String)
    ensures
        text@ == course::shown_digest(*digest),
{
    match digest {
        Some(digest) => concat3("\"", digest.to_string().as_str(), "\""),
        None => text_of("\"-\""),
    }
}

/// The note on a file that is not just read.
pub fn describe_access(shown_name: &str, summary: &FileSummary) -> (message: Message)
    ensures
        message@ == course::access_note(shown_name@, *summary),
{
    let mut text = concat3("ACCESS: ", shown_name, " ");
    text.append(pattern_name(summary.access_pattern));
    text.append(" ");
    text.append(shown_digest(&summary.read_digest).as_str());
    text.append(" ");
    text.append(shown_digest(&summary.write_digest).as_str());
    Message::Note(text)
}

/// Tells whether an `.aux` file names a bibliography.
pub fn names_bibliography(aux: &Option<Vec<u8>>) -> (result: bool)
    ensures
        result == course::names_bibliography(optional_bytes(*aux)),
        aux is None ==> !result,
        aux matches Some(contents) ==> result == occurs_in(encode_utf8("\\bibdata"@), contents@),
{
    match aux {
        Some(contents) => {
            proof {
                reveal_strlit("\\bibdata");
            }
            automaton_finds("\\bibdata", contents)
        },
        None => false,
    }
}

impl SessionState {
    spec fn wf(&self) -> bool {
        distinct_names(self@.log)
    }

    // The beginning of a session.

    fn begin<E>(&mut self) -> (progress: Progress<E>)
        requires
            old(self).wf(),
        ensures
            turn_of(final(self)@, progress) == begin::<E>(old(self)@),
            session_wf(turn_of(final(self)@, progress).session),
    {
        if self.output_format == OutputFormat::Format {
            self.begin_pass(no_messages())
        } else {
            turn_to(
                Stage::OpeningFormat,
                no_messages(),
                Action::OpenFormat {
                    format: self.format_path.clone(),
                    layers: self.io.as_stack(),
                },
            )
        }
    }

    fn begin_pass<E>(&mut self, messages: Vec<Message>) -> (progress: Progress<E>)
        requires
            old(self).wf(),
        ensures
            turn_of(final(self)@, progress) == course::begin_pass::<E>(
                old(self)@,
                message_views(messages@),
            ),
            session_wf(turn_of(final(self)@, progress).session),
    {
        proof {
            reveal(course::begin_pass);
        }
        match self.pass {
            PassSetting::Tex => self.begin_tex(Round::Only, None, messages),
            PassSetting::Default => self.begin_tex(Round::First, None, messages),
            PassSetting::BibtexFirst => self.begin_bibtex(messages),
        }
    }

    fn on_format<E>(&mut self, reply: FormatReply<E>) -> (progress: Progress<E>)
        requires
            old(self).wf(),
        ensures
            turn_of(final(self)@, progress) == course::on_format(old(self)@, reply),
            session_wf(turn_of(final(self)@, progress).session),
    {
        proof {
            reveal(course::on_format);
        }
        match reply {
            FormatReply::Available => self.begin_pass(no_messages()),
            FormatReply::NotAvailable => self.begin_format(),
            FormatReply::Failed(error) => finish(
                no_messages(),
                Err(
                    Failure::InContext {
                        error,
                        context: concat("could not open format file ", &self.format_path),
                    },
                ),
            ),
        }
    }

    // The making of a format file.

    fn begin_format<E>(&mut self) -> (progress: Progress<E>)
        requires
            old(self).wf(),
        ensures
            turn_of(final(self)@, progress) == course::begin_format::<E>(old(self)@),
            session_wf(turn_of(final(self)@, progress).session),
    {
        let messages = one_message(
            Message::Note(concat3("generating format \"", &self.format_path, "\"")),
        );
        if self.io.bundle.is_none() {
            return finish(
                messages,
                Err(Failure::Refused(text_of("cannot create formats without using a bundle"))),
            );
        }
        let stem = cut_at_dot(&self.format_path);
        let kickstart = concat3("\\input tectonic-format-", &stem, ".tex");
        let layers = self.io.as_stack_for_format(&kickstart);
        turn_to(
            Stage::GeneratingFormat,
            messages,
            Action::RunTex(
                TexTask {
                    layers,
                    halt_on_error: true,
                    initex: true,
                    synctex: false,
                    format_name: text_of("UNUSED.fmt"),
                    input_name: text_of("texput"),
                },
            ),
        )
    }

    fn on_format_made<E>(&mut self, reply: EngineReply<E>) -> (progress: Progress<E>)
        requires
            old(self).wf(),
        ensures
            turn_of(final(self)@, progress) == course::on_format_made(old(self)@, reply),
            session_wf(turn_of(final(self)@, progress).session),
    {
        proof {
            reveal(course::on_format_made);
        }
        match reply {
            EngineReply::Spotless => turn_to(
                Stage::ListingFormats,
                no_messages(),
                Action::ListMemory,
            ),
            EngineReply::Warnings => turn_to(
                Stage::ListingFormats,
                one_message(
                    Message::Warning(
                        text_of(
                            "warnings were issued by the TeX engine; use --print and/or --keep-logs for details.",
                        ),
                    ),
                ),
                Action::ListMemory,
            ),
            EngineReply::Errors => finish(
                one_message(
                    Message::Error(
                        text_of(
                            "errors were issued by the TeX engine; use --print and/or --keep-logs for details.",
                        ),
                    ),
                ),
                Err(Failure::Refused(text_of("unhandled TeX engine error"))),
            ),
            EngineReply::Failed(error) => read_output(Stage::ReadingFormatOutput(error)),
        }
    }

    fn store_format<E>(&mut self, files: Vec<MemoryFile>, from: usize) -> (progress: Progress<E>)
        requires
            old(self).wf(),
            from <= files@.len(),
        ensures
            turn_of(final(self)@, progress) == course::store_format::<E>(
                old(self)@,
                file_views(files@),
                from as int,
            ),
            session_wf(turn_of(final(self)@, progress).session),
    {
        proof {
            reveal(course::store_format);
        }
        let ghost views = file_views(files@);
        let mut at: usize = from;
        let mut found = false;
        while at < files.len() && !found
            invariant
                views == file_views(files@),
                from <= at <= files@.len(),
                course::next_format(views, from as int) == course::next_format(views, at as int),
                found ==> at < files@.len() && course::is_format_name(views[at as int].name),
            decreases files@.len() - at + if found { 0int } else { 1int },
        {
            assert(views[at as int] == files@[at as int]@);
            if files[at].name.len() > 0 && ends_with(&files[at].name, ".fmt") {
                assert(files@[at as int].name@ != stdout_name());
                found = true;
            } else {
                assert(files@[at as int].name@.len() == 0 ==> files@[at as int].name@
                    =~= stdout_name());
                at = at + 1;
            }
        }
        if at < files.len() {
            let contents = copy_bytes(&files[at].contents);
            assert(views[at as int] == files@[at as int]@);
            turn_to(
                Stage::WritingFormat { files, at },
                no_messages(),
                Action::WriteFormat { stem: cut_at_dot(&self.format_path), contents },
            )
        } else {
            turn_to(Stage::ClearingMemory, no_messages(), Action::ClearMemory)
        }
    }

    fn on_format_stored<E>(
        &mut self,
        files: Vec<MemoryFile>,
        at: usize,
        result: Result<(), E>,
    ) -> (progress: Progress<E>)
        requires
            old(self).wf(),
            at < files@.len(),
        ensures
            turn_of(final(self)@, progress) == course::on_format_stored(
                old(self)@,
                file_views(files@),
                at as int,
                result,
            ),
            session_wf(turn_of(final(self)@, progress).session),
    {
        proof {
            reveal(course::on_format_stored);
        }
        match result {
            Ok(_) => {
                assert(at < files.len());
                self.store_format(files, at + 1)
            },
            Err(error) => {
                assert(file_views(files@)[at as int] == files@[at as int]@);
                let shown = from_utf8_lossy(&files[at].name);
                finish(
                    no_messages(),
                    Err(
                        Failure::InContext {
                            error,
                            context: concat("cannot write format file ", &shown),
                        },
                    ),
                )
            },
        }
    }

    // The runs of the TeX engine.

    fn begin_tex<E>(
        &mut self,
        round: Round,
        reason: Option<String>,
        messages: Vec<Message>,
    ) -> (progress: Progress<E>)
        requires
            old(self).wf(),
            round matches Round::Rerun(index) ==> index < rerun_limit(old(self)@.settings),
        ensures
            turn_of(final(self)@, progress) == course::begin_tex::<E>(
                old(self)@,
                round,
                optional_text(reason),
                message_views(messages@),
            ),
            session_wf(turn_of(final(self)@, progress).session),
    {
        let mut messages = messages;
        let message = match reason {
            Some(reason) => highlighted(
                "Rerunning ",
                "TeX",
                concat3(" because ", &reason, " ...").as_str(),
            ),
            None => highlighted("Running ", "TeX", " ..."),
        };
        push_message(&mut messages, message);
        turn_to(
            Stage::RunningTex(round),
            messages,
            Action::RunTex(
                TexTask {
                    layers: self.io.as_stack(),
                    halt_on_error: true,
                    initex: self.output_format == OutputFormat::Format,
                    synctex: self.synctex_enabled,
                    format_name: self.format_path.clone(),
                    input_name: self.primary_input_tex_path.clone(),
                },
            ),
        )
    }

    fn on_tex<E>(&mut self, round: Round, reply: EngineReply<E>) -> (progress: Progress<E>)
        requires
            old(self).wf(),
            round matches Round::Rerun(index) ==> index < rerun_limit(old(self)@.settings),
        ensures
            turn_of(final(self)@, progress) == course::on_tex(old(self)@, round, reply),
            session_wf(turn_of(final(self)@, progress).session),
    {
        proof {
            reveal(course::on_tex);
        }
        let mut messages = no_messages();
        match reply {
            EngineReply::Spotless => {},
            EngineReply::Warnings => {
                if !self.noted_tex_warnings {
                    messages = one_message(
                        Message::Note(
                            text_of(
                                "warnings were issued by the TeX engine; use --print and/or --keep-logs for details.",
                            ),
                        ),
                    );
                    self.noted_tex_warnings = true;
                }
            },
            EngineReply::Errors => {
                // Weakness: if a first pass produces warnings and a second pass
                // produces ignored errors, we won't say so.
                if !self.noted_tex_warnings {
                    messages = one_message(
                        Message::Warning(
                            text_of(
                                "errors were issued by the TeX engine, but were ignored; use --print and/or --keep-logs for details.",
                            ),
                        ),
                    );
                    self.noted_tex_warnings = true;
                }
            },
            EngineReply::Failed(error) => {
                return read_output(Stage::ReadingTexOutput(error));
            },
        }
        self.after_tex(round, messages)
    }

    fn after_tex<E>(&mut self, round: Round, messages: Vec<Message>) -> (progress: Progress<E>)
        requires
            old(self).wf(),
            round matches Round::Rerun(index) ==> index < rerun_limit(old(self)@.settings),
        ensures
            turn_of(final(self)@, progress) == course::after_tex::<E>(
                old(self)@,
                round,
                message_views(messages@),
            ),
            session_wf(turn_of(final(self)@, progress).session),
    {
        match round {
            Round::Only => self.pass_done(messages),
            Round::First => turn_to(
                Stage::ReadingAux,
                messages,
                Action::ReadMemoryFile { name: self.tex_aux_path.as_str().as_bytes_vec() },
            ),
            Round::Rerun(index) => {
                if self.tex_rerun_specification.is_some() {
                    return self.rerun(index + 1, None, messages);
                }
                let mut messages = messages;
                let cause = self.rerun_needed(&mut messages);
                if cause.is_some() && index == DEFAULT_MAX_TEX_PASSES - 1 {
                    push_message(
                        &mut messages,
                        Message::Warning(
                            concat3(
                                "TeX rerun seems needed, but stopping at ",
                                &decimal(DEFAULT_MAX_TEX_PASSES),
                                " passes",
                            ),
                        ),
                    );
                    self.engines_done(messages)
                } else {
                    self.rerun(index + 1, cause, messages)
                }
            },
        }
    }

    // The rerun loop.

    fn rerun_needed(&self, messages: &mut Vec<Message>) -> (cause: Option<String>)
        ensures
            optional_text(cause) == rerun_cause(self@.log),
            message_views(final(messages)@) == message_views(old(messages)@) + rerun_warnings(
                self@.log,
            ),
    {
        match self.events.find_changed() {
            Some(at) => {
                let entry = self.events.entry(at);
                let shown = from_utf8_lossy(&entry.name);
                let ghost before = message_views(messages@);
                if entry.summary.write_digest.is_none() {
                    push_message(
                        messages,
                        Message::Warning(
                            concat3(
                                "internal consistency problem when checking if ",
                                &shown,
                                " changed",
                            ),
                        ),
                    );
                }
                assert(message_views(messages@) =~= before + rerun_warnings(self@.log));
                Some(shown)
            },
            None => {
                assert(message_views(messages@) + Seq::<MessageView>::empty() =~= message_views(
                    messages@,
                ));
                None
            },
        }
    }

    fn rerun<E>(
        &mut self,
        index: usize,
        cause: Option<String>,
        messages: Vec<Message>,
    ) -> (progress: Progress<E>)
        requires
            old(self).wf(),
        ensures
            turn_of(final(self)@, progress) == course::rerun::<E>(
                old(self)@,
                index as int,
                optional_text(cause),
                message_views(messages@),
            ),
            session_wf(turn_of(final(self)@, progress).session),
    {
        let limit: usize = match self.tex_rerun_specification {
            Some(count) => count,
            None => DEFAULT_MAX_TEX_PASSES,
        };
        if index >= limit {
            self.engines_done(messages)
        } else if self.tex_rerun_specification.is_some() {
            self.restart_tex(index, text_of("I was told to"), messages)
        } else {
            match cause {
                Some(cause) => self.restart_tex(index, explain_rerun(&cause), messages),
                None => self.engines_done(messages),
            }
        }
    }

    fn restart_tex<E>(
        &mut self,
        index: usize,
        reason: String,
        messages: Vec<Message>,
    ) -> (progress: Progress<E>)
        requires
            old(self).wf(),
            index < rerun_limit(old(self)@.settings),
        ensures
            turn_of(final(self)@, progress) == course::restart_tex::<E>(
                old(self)@,
                index,
                reason@,
                message_views(messages@),
            ),
            session_wf(turn_of(final(self)@, progress).session),
    {
        // We do not clear the entire record since we want to remember, e.g.,
        // that BibTeX wrote out the .bbl file, since that way we can later know
        // that it's OK to delete.
        self.events.clear_reads();
        self.begin_tex(Round::Rerun(index), Some(reason), messages)
    }

    // BibTeX.

    fn on_aux<E>(&mut self, aux: Option<Vec<u8>>) -> (progress: Progress<E>)
        requires
            old(self).wf(),
        ensures
            turn_of(final(self)@, progress) == course::on_aux::<E>(
                old(self)@,
                optional_bytes(aux),
            ),
            session_wf(turn_of(final(self)@, progress).session),
    {
        proof {
            reveal(course::on_aux);
        }
        if names_bibliography(&aux) {
            return self.begin_bibtex(no_messages());
        }
        let mut messages = no_messages();
        let cause = self.rerun_needed(&mut messages);
        assert(message_views(messages@) =~= rerun_warnings(self@.log));
        self.rerun(0, cause, messages)
    }

    fn begin_bibtex<E>(&mut self, messages: Vec<Message>) -> (progress: Progress<E>)
        requires
            old(self).wf(),
        ensures
            turn_of(final(self)@, progress) == course::begin_bibtex::<E>(
                old(self)@,
                message_views(messages@),
            ),
            session_wf(turn_of(final(self)@, progress).session),
    {
        let mut messages = messages;
        push_message(&mut messages, highlighted("Running ", "BibTeX", " ..."));
        turn_to(
            Stage::RunningBibtex,
            messages,
            Action::RunBibtex { aux: self.tex_aux_path.clone(), layers: self.io.as_stack() },
        )
    }

    fn on_bibtex<E>(&mut self, reply: EngineReply<E>) -> (progress: Progress<E>)
        requires
            old(self).wf(),
        ensures
            turn_of(final(self)@, progress) == course::on_bibtex(old(self)@, reply),
            session_wf(turn_of(final(self)@, progress).session),
    {
        proof {
            reveal(course::on_bibtex);
        }
        let messages = match reply {
            EngineReply::Spotless => no_messages(),
            EngineReply::Warnings => one_message(
                Message::Note(
                    text_of(
                        "warnings were issued by BibTeX; use --print and/or --keep-logs for details.",
                    ),
                ),
            ),
            EngineReply::Errors => one_message(
                Message::Warning(
                    text_of(
                        "errors were issued by BibTeX, but were ignored; use --print and/or --keep-logs for details.",
                    ),
                ),
            ),
            EngineReply::Failed(error) => {
                return read_output(Stage::ReadingBibtexOutput(error));
            },
        };
        self.rerun(0, Some(String::new()), messages)
    }

    // The end of the passes.

    fn engines_done<E>(&mut self, messages: Vec<Message>) -> (progress: Progress<E>)
        requires
            old(self).wf(),
        ensures
            turn_of(final(self)@, progress) == course::engines_done::<E>(
                old(self)@,
                message_views(messages@),
            ),
            session_wf(turn_of(final(self)@, progress).session),
    {
        if self.output_format == OutputFormat::Pdf {
            let mut messages = messages;
            push_message(&mut messages, highlighted("Running ", "xdvipdfmx", " ..."));
            turn_to(
                Stage::RunningXdvipdfmx,
                messages,
                Action::RunXdvipdfmx {
                    xdv: self.tex_xdv_path.clone(),
                    pdf: self.tex_pdf_path.clone(),
                    layers: self.io.as_stack(),
                },
            )
        } else {
            self.pass_done(messages)
        }
    }

    fn on_xdvipdfmx<E>(&mut self, reply: EngineReply<E>) -> (progress: Progress<E>)
        requires
            old(self).wf(),
        ensures
            turn_of(final(self)@, progress) == course::on_xdvipdfmx(old(self)@, reply),
            session_wf(turn_of(final(self)@, progress).session),
    {
        proof {
            reveal(course::on_xdvipdfmx);
        }
        match reply {
            EngineReply::Failed(error) => self.pass_failed(error, no_messages()),
            _ => turn_to(
                Stage::RemovingXdv,
                no_messages(),
                Action::RemoveMemoryFile { name: self.tex_xdv_path.as_str().as_bytes_vec() },
            ),
        }
    }

    fn pass_done<E>(&mut self, messages: Vec<Message>) -> (progress: Progress<E>)
        requires
            old(self).wf(),
        ensures
            turn_of(final(self)@, progress) == course::pass_done::<E>(
                old(self)@,
                message_views(messages@),
            ),
            session_wf(turn_of(final(self)@, progress).session),
    {
        proof {
            reveal(course::pass_done);
        }
        match &self.makefile_output_path {
            Some(path) => turn_to(
                Stage::CreatingMakefile,
                messages,
                Action::CreateMakefile { path: copy_bytes(path) },
            ),
            None => turn_to(Stage::ListingOutputs, messages, Action::ListMemory),
        }
    }

    fn pass_failed<E>(&mut self, error: E, messages: Vec<Message>) -> (progress: Progress<E>)
        requires
            old(self).wf(),
        ensures
            turn_of(final(self)@, progress) == course::pass_failed(
                old(self)@,
                error,
                message_views(messages@),
            ),
            session_wf(turn_of(final(self)@, progress).session),
    {
        turn_to(Stage::ListingLogs(error), messages, Action::ListMemory)
    }

    // The saving of files.

    fn save_next<E>(
        &mut self,
        purpose: Purpose<E>,
        files: Vec<MemoryFile>,
        from: usize,
        skipped: usize,
    ) -> (progress: Progress<E>)
        requires
            old(self).wf(),
            from <= files@.len(),
            skipped <= from,
            all_recorded(file_views(files@), old(self)@.log),
        ensures
            turn_of(final(self)@, progress) == course::save_next(
                old(self)@,
                purpose,
                file_views(files@),
                from as int,
                skipped as nat,
            ),
            session_wf(turn_of(final(self)@, progress).session),
    {
        proof {
            reveal(course::save_next);
        }
        let only_logs = match &purpose {
            Purpose::Outputs => false,
            Purpose::Logs(_) => true,
        };
        let rules = OutputRules {
            output_format: self.output_format,
            keep_intermediates: self.keep_intermediates,
            keep_logs: self.keep_logs,
            only_logs,
        };
        assert(rules == output_rules(self@.settings, purpose));
        let mut messages = no_messages();
        let (at, more) = survey_files(rules, &files, &self.events, from, &mut messages);
        let ghost found = survey(rules, file_views(files@), self@.log, from as int);
        assert(message_views(messages@) =~= found.messages);
        assert(files.len() <= usize::MAX);
        let skipped: usize = skipped + more;
        if at < files.len() {
            assert(file_views(files@)[at as int] == files@[at as int]@);
            let path = join_path(&self.output_path, &files[at].name);
            let shown = from_utf8_lossy(&path);
            let contents = copy_bytes(&files[at].contents);
            push_message(&mut messages, report_saved(&shown, files[at].contents.len()));
            turn_to(
                Stage::SavingFile { purpose, files, at, skipped },
                messages,
                Action::SaveFile { path, contents },
            )
        } else {
            self.all_saved(purpose, skipped, messages)
        }
    }

    fn on_saved<E>(
        &mut self,
        purpose: Purpose<E>,
        files: Vec<MemoryFile>,
        at: usize,
        skipped: usize,
        result: Result<(), E>,
    ) -> (progress: Progress<E>)
        requires
            old(self).wf(),
            course::saving_wf(
                file_views(files@),
                old(self)@.log,
                at as int,
                skipped as nat,
            ),
        ensures
            turn_of(final(self)@, progress) == course::on_saved(
                old(self)@,
                purpose,
                file_views(files@),
                at as int,
                skipped as nat,
                result,
            ),
            session_wf(turn_of(final(self)@, progress).session),
    {
        proof {
            reveal(course::on_saved);
        }
        if let Err(error) = result {
            return finish(no_messages(), Err(Failure::Outside(error)));
        }
        let ghost before = self@.log;
        assert(file_views(files@)[at as int] == files@[at as int]@);
        assert(at < files.len());
        self.events.mark_written(&files[at].name);
        proof {
            crate::output::lemma_recorded_stays_on_save(file_views(files@), before, files@[at as int].name@);
        }
        let is_output = match &purpose {
            Purpose::Outputs => true,
            Purpose::Logs(_) => false,
        };
        if is_output && self.makefile_output_path.is_some() {
            let path = join_path(&self.output_path, &files[at].name);
            let shown = from_utf8_lossy(&path);
            turn_to(
                Stage::WritingTarget { files, at, skipped },
                no_messages(),
                Action::WriteMakefile { data: makefile::target(&shown) },
            )
        } else {
            self.save_next(purpose, files, at + 1, skipped)
        }
    }

    fn all_saved<E>(
        &mut self,
        purpose: Purpose<E>,
        skipped: usize,
        messages: Vec<Message>,
    ) -> (progress: Progress<E>)
        requires
            old(self).wf(),
        ensures
            turn_of(final(self)@, progress) == course::all_saved(
                old(self)@,
                purpose,
                skipped as nat,
                message_views(messages@),
            ),
            session_wf(turn_of(final(self)@, progress).session),
    {
        let mut messages = messages;
        if let Purpose::Logs(error) = purpose {
            return finish(messages, Err(Failure::Outside(error)));
        }
        let ghost before = message_views(messages@);
        if skipped > 0 {
            push_message(
                &mut messages,
                highlighted(
                    "Skipped writing ",
                    decimal(skipped).as_str(),
                    " intermediate files (use --keep-intermediates to keep them)",
                ),
            );
        }
        assert(message_views(messages@) =~= before + course::skipped_messages(skipped as nat));
        if self.makefile_output_path.is_some() {
            let pieces = makefile::rule(
                &self.primary_input_path,
                &self.io.filesystem_root,
                &self.events,
            );
            self.write_rule(messages, pieces)
        } else {
            finish(messages, Ok(0))
        }
    }

    fn write_rule<E>(&mut self, messages: Vec<Message>, pieces: Vec<RulePiece>) -> (progress: Progress<
        E,
    >)
        requires
            old(self).wf(),
        ensures
            turn_of(final(self)@, progress) == course::write_rule::<E>(
                old(self)@,
                message_views(messages@),
                piece_views(pieces@),
            ),
            session_wf(turn_of(final(self)@, progress).session),
    {
        if pieces.len() == 0 {
            return finish(messages, Ok(0));
        }
        let mut rest = pieces;
        let piece = rest.remove(0);
        assert(piece_views(rest@) =~= piece_views(pieces@).drop_first());
        assert(piece_views(pieces@)[0] == piece@);
        turn_to(
            Stage::WritingRule { rest },
            join_messages(messages, piece.warnings),
            Action::WriteMakefile { data: piece.data },
        )
    }

    // The whole.

    /// Goes on while the format file is seen to.
    fn resume_format<E>(&mut self, stage: Stage<E>, event: Event<E>) -> (progress: Progress<E>)
        requires
            session_wf((SessionView { state: old(self)@, stage: stage@ })),
            answers((SessionView { state: old(self)@, stage: stage@ }), event@),
            stage is OpeningFormat
            || stage is GeneratingFormat
            || stage is ReadingFormatOutput
            || stage is ListingFormats
            || stage is WritingFormat
            || stage is ClearingMemory,
        ensures
            turn_of(final(self)@, progress) == next(
                (SessionView { state: old(self)@, stage: stage@ }),
                event@,
            ),
            session_wf(turn_of(final(self)@, progress).session),
    {
        let ghost before = SessionView { state: self@, stage: stage@ };
        let ghost told = event@;
        let progress = match stage {
            Stage::OpeningFormat => match event {
                Event::Format(reply) => self.on_format(reply),
                _ => unasked(),
            },
            Stage::GeneratingFormat => match event {
                Event::Engine(reply) => self.on_format_made(reply),
                _ => unasked(),
            },
            Stage::ReadingFormatOutput(error) => match event {
                Event::MemoryFile(output) => finish(
                    engine_output("TeX", output),
                    Err(Failure::Outside(error)),
                ),
                _ => unasked(),
            },
            Stage::ListingFormats => match event {
                Event::Memory(files) => self.store_format(files, 0),
                _ => unasked(),
            },
            Stage::WritingFormat { files, at } => match event {
                Event::Io(result) => self.on_format_stored(files, at, result),
                _ => unasked(),
            },
            Stage::ClearingMemory => self.begin_pass(no_messages()),
            _ => unasked(),
        };
        assert(turn_of(self@, progress) == next(before, told));
        progress
    }

    /// Goes on while the engines are run.
    fn resume_pass<E>(&mut self, stage: Stage<E>, event: Event<E>) -> (progress: Progress<E>)
        requires
            session_wf((SessionView { state: old(self)@, stage: stage@ })),
            answers((SessionView { state: old(self)@, stage: stage@ }), event@),
            stage is RunningTex
            || stage is ReadingTexOutput
            || stage is ReadingAux
            || stage is RunningBibtex
            || stage is ReadingBibtexOutput
            || stage is RunningXdvipdfmx
            || stage is RemovingXdv,
        ensures
            turn_of(final(self)@, progress) == next(
                (SessionView { state: old(self)@, stage: stage@ }),
                event@,
            ),
            session_wf(turn_of(final(self)@, progress).session),
    {
        let ghost before = SessionView { state: self@, stage: stage@ };
        let ghost told = event@;
        let progress = match stage {
            Stage::RunningTex(round) => match event {
                Event::Engine(reply) => self.on_tex(round, reply),
                _ => unasked(),
            },
            Stage::ReadingTexOutput(error) => match event {
                Event::MemoryFile(output) => self.pass_failed(
                    error,
                    engine_output("TeX", output),
                ),
                _ => unasked(),
            },
            Stage::ReadingAux => match event {
                Event::MemoryFile(aux) => self.on_aux(aux),
                _ => unasked(),
            },
            Stage::RunningBibtex => match event {
                Event::Engine(reply) => self.on_bibtex(reply),
                _ => unasked(),
            },
            Stage::ReadingBibtexOutput(error) => match event {
                Event::MemoryFile(output) => self.pass_failed(
                    error,
                    engine_output("BibTeX", output),
                ),
                _ => unasked(),
            },
            Stage::RunningXdvipdfmx => match event {
                Event::Engine(reply) => self.on_xdvipdfmx(reply),
                _ => unasked(),
            },
            Stage::RemovingXdv => self.pass_done(no_messages()),
            _ => unasked(),
        };
        assert(turn_of(self@, progress) == next(before, told));
        progress
    }

    /// Goes on when files are about to be saved.
    fn resume_listing<E>(&mut self, stage: Stage<E>, event: Event<E>) -> (progress: Progress<E>)
        requires
            session_wf((SessionView { state: old(self)@, stage: stage@ })),
            answers((SessionView { state: old(self)@, stage: stage@ }), event@),
            stage is ListingLogs || stage is CreatingMakefile || stage is ListingOutputs,
        ensures
            turn_of(final(self)@, progress) == next(
                (SessionView { state: old(self)@, stage: stage@ }),
                event@,
            ),
            session_wf(turn_of(final(self)@, progress).session),
    {
        match stage {
            Stage::ListingLogs(error) => match event {
                Event::Memory(files) => self.save_next(Purpose::Logs(error), files, 0, 0),
                _ => unasked(),
            },
            Stage::CreatingMakefile => match event {
                Event::Io(Ok(_)) => turn_to(
                    Stage::ListingOutputs,
                    no_messages(),
                    Action::ListMemory,
                ),
                Event::Io(Err(error)) => finish(no_messages(), Err(Failure::Outside(error))),
                _ => unasked(),
            },
            Stage::ListingOutputs => match event {
                Event::Memory(files) => self.save_next(Purpose::Outputs, files, 0, 0),
                _ => unasked(),
            },
            _ => unasked(),
        }
    }

    /// Goes on while files are saved.
    fn resume_saving<E>(&mut self, stage: Stage<E>, event: Event<E>) -> (progress: Progress<E>)
        requires
            session_wf((SessionView { state: old(self)@, stage: stage@ })),
            answers((SessionView { state: old(self)@, stage: stage@ }), event@),
            stage is SavingFile || stage is WritingTarget || stage is WritingRule,
        ensures
            turn_of(final(self)@, progress) == next(
                (SessionView { state: old(self)@, stage: stage@ }),
                event@,
            ),
            session_wf(turn_of(final(self)@, progress).session),
    {
        match stage {
            Stage::SavingFile { purpose, files, at, skipped } => match event {
                Event::Io(result) => self.on_saved(purpose, files, at, skipped, result),
                _ => unasked(),
            },
            Stage::WritingTarget { files, at, skipped } => match event {
                Event::Io(result) => self.on_target(files, at, skipped, result),
                _ => unasked(),
            },
            Stage::WritingRule { rest } => match event {
                Event::Io(Ok(_)) => self.write_rule(no_messages(), rest),
                Event::Io(Err(error)) => finish(no_messages(), Err(makefile_failure(error))),
                _ => unasked(),
            },
            _ => unasked(),
        }
    }

    fn on_target<E>(
        &mut self,
        files: Vec<MemoryFile>,
        at: usize,
        skipped: usize,
        result: Result<(), E>,
    ) -> (progress: Progress<E>)
        requires
            old(self).wf(),
            course::saving_wf(
                file_views(files@),
                old(self)@.log,
                at as int,
                skipped as nat,
            ),
        ensures
            turn_of(final(self)@, progress) == course::on_target(
                old(self)@,
                file_views(files@),
                at as int,
                skipped as nat,
                result,
            ),
            session_wf(turn_of(final(self)@, progress).session),
    {
        match result {
            Ok(_) => {
                assert(at < files.len());
                self.save_next(Purpose::Outputs, files, at + 1, skipped)
            },
            Err(error) => finish(no_messages(), Err(makefile_failure(error))),
        }
    }
}

/// The messages of two lists, one behind the other.
fn join_messages(first: Vec<Message>, second: Vec<Message>) -> (messages: Vec<Message>)
    ensures
        message_views(messages@) == message_views(first@) + message_views(second@),
{
    let mut messages = first;
    let mut rest = second;
    messages.append(&mut rest);
    assert(message_views(messages@) =~= message_views(first@) + message_views(second@));
    messages
}

/// Something is recorded of every file, save for the standard output.
fn are_recorded(files: &Vec<MemoryFile>, events: &CliIoEvents) -> (result: bool)
    requires
        events.wf(),
    ensures
        result == all_recorded(file_views(files@), events@),
{
    let ghost views = file_views(files@);
    let mut at: usize = 0;
    while at < files.len()
        invariant
            events.wf(),
            views == file_views(files@),
            at <= files@.len(),
            forall|i: int|
                0 <= i < at ==> (#[trigger] views[i]).name == stdout_name() || is_recorded(
                    events@,
                    views[i].name,
                ),
        decreases files@.len() - at,
    {
        assert(views[at as int] == files@[at as int]@);
        let name = &files[at].name;
        assert(name@.len() == 0 ==> name@ =~= stdout_name());
        if name.len() > 0 && events.find(name).is_none() {
            assert(name@ != stdout_name());
            return false;
        }
        at = at + 1;
    }
    true
}

/// A processing session. `E` is the type of the errors of its environment.
#[derive(Debug)]
pub struct ProcessingSession<E> {
    state: SessionState,
    stage: Stage<E>,
}

impl<E> View for ProcessingSession<E> {
    type V = SessionView<E>;

    closed spec fn view(&self) -> SessionView<E> {
        SessionView { state: self.state@, stage: self.stage@ }
    }
}

impl<E> ProcessingSession<E> {
    /// The states that a session can be in.
    pub open spec fn wf(&self) -> bool {
        session_wf(self@)
    }

    /// Begins the session: says what to do first.
    pub fn run(&mut self) -> (step: Step<E>)
        requires
            old(self).wf(),
            old(self)@.stage is Ready || old(self)@.stage is Finished,
        ensures
            final(self).wf(),
            (Turn { session: final(self)@, messages: step@.messages, action: step@.action })
                == begin::<E>(old(self)@.state),
    {
        let progress = self.state.begin();
        self.stage = progress.stage;
        progress.step
    }

    /// Tells whether an event answers what the session asked for.
    pub fn accepts(&self, event: &Event<E>) -> (result: bool)
        requires
            self.wf(),
        ensures
            result == answers(self@, event@),
    {
        match (&self.stage, event) {
            (Stage::OpeningFormat, Event::Format(_)) => true,
            (Stage::GeneratingFormat, Event::Engine(_)) => true,
            (Stage::ReadingFormatOutput(_), Event::MemoryFile(_)) => true,
            (Stage::ListingFormats, Event::Memory(_)) => true,
            (Stage::WritingFormat { .. }, Event::Io(_)) => true,
            (Stage::ClearingMemory, Event::Done) => true,
            (Stage::RunningTex(_), Event::Engine(_)) => true,
            (Stage::ReadingTexOutput(_), Event::MemoryFile(_)) => true,
            (Stage::ReadingAux, Event::MemoryFile(_)) => true,
            (Stage::RunningBibtex, Event::Engine(_)) => true,
            (Stage::ReadingBibtexOutput(_), Event::MemoryFile(_)) => true,
            (Stage::RunningXdvipdfmx, Event::Engine(_)) => true,
            (Stage::RemovingXdv, Event::Done) => true,
            (Stage::ListingLogs(_), Event::Memory(files)) => are_recorded(
                files,
                &self.state.events,
            ),
            (Stage::CreatingMakefile, Event::Io(_)) => true,
            (Stage::ListingOutputs, Event::Memory(files)) => are_recorded(
                files,
                &self.state.events,
            ),
            (Stage::SavingFile { .. }, Event::Io(_)) => true,
            (Stage::WritingTarget { .. }, Event::Io(_)) => true,
            (Stage::WritingRule { .. }, Event::Io(_)) => true,
            _ => false,
        }
    }

    /// Goes on with the session, once what it asked for was done: says what to
    /// do next.
    pub fn resume(&mut self, event: Event<E>) -> (step: Step<E>)
        requires
            old(self).wf(),
            answers(old(self)@, event@),
        ensures
            final(self).wf(),
            (Turn { session: final(self)@, messages: step@.messages, action: step@.action })
                == next(old(self)@, event@),
    {
        let ghost before = self@;
        let ghost told = event@;
        let mut stage = Stage::Finished;
        std::mem::swap(&mut stage, &mut self.stage);
        let progress = match &stage {
            Stage::OpeningFormat | Stage::GeneratingFormat | Stage::ReadingFormatOutput(_)
            | Stage::ListingFormats | Stage::WritingFormat { .. } | Stage::ClearingMemory => {
                self.state.resume_format(stage, event)
            },
            Stage::RunningTex(_) | Stage::ReadingTexOutput(_) | Stage::ReadingAux
            | Stage::RunningBibtex | Stage::ReadingBibtexOutput(_) | Stage::RunningXdvipdfmx
            | Stage::RemovingXdv => self.state.resume_pass(stage, event),
            Stage::ListingLogs(_) | Stage::CreatingMakefile | Stage::ListingOutputs => {
                self.state.resume_listing(stage, event)
            },
            _ => self.state.resume_saving(stage, event),
        };
        assert(turn_of(self.state@, progress) == next(before, told));
        self.stage = progress.stage;
        progress.step
    }

    /// Records that an engine accessed a file.
    pub fn record(&mut self, event: &IoEvent)
        requires
            old(self).wf(),
            can_happen(old(self)@.state.log, event@),
        ensures
            final(self).wf(),
            final(self)@ == (SessionView {
                state: StateView {
                    log: after_event(old(self)@.state.log, event@),
                    ..old(self)@.state
                },
                ..old(self)@
            }),
    {
        self.state.events.record(event);
        proof {
            course::lemma_session_stays_wf(old(self)@, event@);
        }
    }

    /// The I/O setup of the session.
    pub fn io(&self) -> (io: &CliIoSetup)
        ensures
            io@ == self@.state.io,
    {
        &self.state.io
    }

    /// What the engines read and wrote so far.
    pub fn events(&self) -> (events: &CliIoEvents)
        ensures
            events@ == self@.state.log,
            self.wf() ==> events.wf(),
    {
        &self.state.events
    }

    /// Assesses whether an engine needs to be rerun. This is the case if there
    /// was a file that the engine read and then rewrote, and the rewritten
    /// version is different from the version that it read in. Returns the name
    /// of the file.
    pub fn rerun_needed(&self, messages: &mut Vec<Message>) -> (cause: Option<String>)
        ensures
            optional_text(cause) == rerun_cause(self@.state.log),
            message_views(final(messages)@) == message_views(old(messages)@) + rerun_warnings(
                self@.state.log,
            ),
    {
        self.state.rerun_needed(messages)
    }

    /// Describes how each file was accessed that is not just read.
    pub fn _dump_access_info(&self) -> (messages: Vec<Message>)
        ensures
            message_views(messages@) == course::access_notes(self@.state.log),
    {
        let ghost log = self@.state.log;
        let mut messages = no_messages();
        let mut at: usize = 0;
        while at < self.state.events.len()
            invariant
                log == self.state.events@,
                at <= log.len(),
                message_views(messages@) == course::access_notes(log.take(at as int)),
            decreases log.len() - at,
        {
            let ghost longer = log.take(at + 1);
            assert(longer.drop_last() =~= log.take(at as int));
            assert(longer.last() == log[at as int]);
            let entry = self.state.events.entry(at);
            if entry.summary.access_pattern != AccessPattern::Read {
                let shown = from_utf8_lossy(&entry.name);
                push_message(&mut messages, describe_access(&shown, &entry.summary));
            }
            at = at + 1;
        }
        assert(log.take(at as int) =~= log);
        messages
    }
}

/// Stands where an event does not answer what was asked for, which does not
/// happen where this is known of all callers: the session ends as a failure.
fn unasked<E>() -> (progress: Progress<E>)
    ensures
        forall|state: StateView|
            #[trigger] turn_of(state, progress) == course::finish::<E>(
                state,
                Seq::empty(),
                Err(FailureView::Refused("the session was told something that it did not ask for"@)),
            ),
{
    finish(
        no_messages(),
        Err(Failure::Refused(text_of("the session was told something that it did not ask for"))),
    )
}

/// The failure of a write to the file for the Makefile rules.
fn makefile_failure<E>(error: E) -> (failure: Failure<E>)
    ensures
        failure@ == course::makefile_failure(error),
{
    Failure::InContext { error, context: text_of("couldn't write to Makefile-rules file") }
}

impl ProcessingSessionBuilder {
    /// Makes the session. The settings that it cannot do without must be there,
    /// and a main input must have been chosen.
    pub fn create<E>(self, io: CliIoBuilder) -> (session: ProcessingSession<E>)
        requires
            is_complete(self@),
            has_input(io@),
        ensures
            session.wf(),
            session@.state == planned_state(self@, io@),
            session@.stage is Ready,
            session@.state.settings.primary_input_path == optional_bytes(io.primary_input_path),
            session@.state.settings.primary_input_tex_path == self.tex_input_stem->0@,
            session@.state.settings.format_path == self.format_path->0@,
            session@.state.settings.makefile_output_path == optional_bytes(
                self.makefile_output_path,
            ),
            self.output_path matches Some(path) ==> session@.state.settings.output_path == path@,
            self.output_path is None ==> session@.state.settings.output_path
                == io.filesystem_root@,
            self.pass == Some(session@.state.settings.pass),
            self.output_format == Some(session@.state.settings.output_format),
            session@.state.settings.tex_rerun_specification == self.reruns,
            session@.state.settings.keep_intermediates == self.keep_intermediates,
            session@.state.settings.keep_logs == self.keep_logs,
            session@.state.settings.synctex_enabled == self.synctex,
            session@.state.io.genuine_stdout == io.use_genuine_stdout,
            session@.state.log.len() == 0,
            !session@.state.noted_tex_warnings,
            forall|dot: int| #[trigger]
                is_extension_dot(self@.tex_input_stem->0, dot) ==> output_names_follow(
                    session@.state.settings,
                    self@.tex_input_stem->0.take(dot),
                ),
            lacks_extension(self@.tex_input_stem->0) ==> output_names_follow(
                session@.state.settings,
                self@.tex_input_stem->0,
            ),
    {
        let ghost plan = self@;
        let ghost io_plan = io@;
        proof {
            reveal_strlit("aux");
            reveal_strlit("spx");
            reveal_strlit("xdv");
            reveal_strlit("pdf");
        }
        let output_format = self.output_format.unwrap();
        let stem = self.tex_input_stem.unwrap();
        let aux = set_extension(&stem, "aux");
        let xdv = if output_format == OutputFormat::Html {
            set_extension(&aux, "spx")
        } else {
            set_extension(&aux, "xdv")
        };
        let pdf = set_extension(&aux, "pdf");
        let primary_input_path = match &io.primary_input_path {
            Some(path) => Some(copy_bytes(path)),
            None => None,
        };
        let output_path = match self.output_path {
            Some(path) => path,
            None => copy_bytes(&io.filesystem_root),
        };
        let state = SessionState {
            io: io.create(),
            events: CliIoEvents::new(),
            primary_input_path,
            primary_input_tex_path: stem,
            format_path: self.format_path.unwrap(),
            tex_aux_path: aux,
            tex_xdv_path: xdv,
            tex_pdf_path: pdf,
            makefile_output_path: self.makefile_output_path,
            output_path,
            pass: self.pass.unwrap(),
            output_format,
            tex_rerun_specification: self.reruns,
            keep_intermediates: self.keep_intermediates,
            keep_logs: self.keep_logs,
            noted_tex_warnings: false,
            synctex_enabled: self.synctex,
        };
        assert(state@ == planned_state(plan, io_plan));
        proof {
            let name = plan.tex_input_stem->0;
            assert forall|dot: int| #[trigger]
                is_extension_dot(name, dot) implies output_names_follow(
                state@.settings,
                name.take(dot),
            ) by {
                let base = name.take(dot);
                assert(!name.skip(dot + 1).contains('.'));
                assert(aux@ =~= base + seq!['.'] + "aux"@);
                if base.contains('/') {
                    let i = choose|i: int| 0 <= i < base.len() && base[i] == '/';
                    assert(name[i] == '/');
                }
                lemma_extension_dot_of_plain(base);
                assert(is_extension_dot(aux@, dot));
                assert(!aux@.skip(dot + 1).contains('.'));
                assert(aux@.take(dot) =~= base);
            }
            if lacks_extension(name) {
                let dot = name.len() as int;
                lemma_extension_dot_of_plain(name);
                assert(is_extension_dot(aux@, dot));
                assert(!aux@.skip(dot + 1).contains('.'));
                assert(aux@.take(dot) =~= name);
            }
        }
        ProcessingSession { state, stage: Stage::Ready }
    }
}

/// With the extension `.aux`, a plain file name is still one, and its last dot is
/// the one before the extension.
proof fn lemma_extension_dot_of_plain(base: Seq<char>)
    requires
        base.len() > 0,
        !base.contains('/'),
    ensures
        is_extension_dot(base + seq!['.'] + "aux"@, base.len() as int),
{
    reveal_strlit("aux");
    let dot = base.len() as int;
    let aux = base + seq!['.'] + "aux"@;
    assert(aux.len() == dot + 4);
    if aux.contains('/') {
        let i = choose|i: int| 0 <= i < aux.len() && aux[i] == '/';
        if i < dot {
            assert(base[i] == '/');
        }
    }
    assert(aux.skip(dot + 1) =~= "aux"@);
}

} // verus!
