//! The course of a session, as a mathematical model: its states, and what it
//! does next on each thing that it is told.
//!
//! `begin` and `next` give the whole course. The functions that they are put
//! together from are opaque, since a proof about one stage has no use for the
//! others: `reveal` the ones at hand.
use crate::digest::{hex_text, DigestData};
use crate::events::{
    after_event, after_reads_cleared, after_written_to_disk, any_changed, can_happen,
    distinct_names, first_changed, lemma_names_stay_distinct, stdout_name, AccessPattern,
    FileSummary, IoEventView, Log,
};
use crate::io_setup::{
    format_layers, planned_setup, session_layers, IoLayer, IoPlan, IoSetupView,
};
use crate::makefile::{rule_pieces, target_bytes, RulePieceView};
use crate::message::MessageView;
use crate::output::{
    all_recorded, lemma_all_stay_recorded, saved_file_message, survey, MemoryFileView, OutputRules,
};
use crate::outside::{extension_set, is_plain_file_name, occurs_in, utf8_lossy};
use crate::protocol::{
    ActionView, EngineReply, EventView, FailureView, FormatReply, TexTaskView,
};
use crate::settings::{OutputFormat, PassSetting, SessionPlan};
use crate::text::{before_first_dot, decimal_text, has_suffix, joined_path};
use vstd::prelude::*;
use vstd::utf8::encode_utf8;

verus! {

/// How often the TeX engine is rerun at most, unless the user says how often.
pub const DEFAULT_MAX_TEX_PASSES: usize = 6;

/// The settings of a session, which do not change.
pub ghost struct Settings {
    /// The path of the main input, if it is a file.
    pub primary_input_path: Option<Seq<u8>>,
    /// The name of the input that TeX is told.
    pub primary_input_tex_path: Seq<char>,
    pub format_path: Seq<char>,
    pub tex_aux_path: Seq<char>,
    pub tex_xdv_path: Seq<char>,
    pub tex_pdf_path: Seq<char>,
    /// Where Makefile rules go, if they are asked for.
    pub makefile_output_path: Option<Seq<u8>>,
    /// The directory in which output files are placed.
    pub output_path: Seq<u8>,
    pub pass: PassSetting,
    pub output_format: OutputFormat,
    pub tex_rerun_specification: Option<usize>,
    pub keep_intermediates: bool,
    pub keep_logs: bool,
    pub synctex_enabled: bool,
}

/// Which run of the TeX engine this is.
#[derive(Clone, Copy, Debug, PartialEq, Eq, Structural)]
pub enum Round {
    /// The only one of a session that runs nothing else.
    Only,
    /// The first one.
    First,
    /// A rerun; they are counted from zero.
    Rerun(usize),
}

/// Why files are saved.
#[derive(Debug)]
pub enum Purpose<E> {
    /// The session succeeded, and these are its outputs.
    Outputs,
    /// The session failed with this error; the logs are saved.
    Logs(E),
}

/// What a session is waiting for.
pub ghost enum StageView<E> {
    /// The session has not begun.
    Ready,
    OpeningFormat,
    /// The TeX engine makes a format file.
    GeneratingFormat,
    /// That went wrong; what the engine printed is asked for.
    ReadingFormatOutput(E),
    ListingFormats,
    WritingFormat { files: Seq<MemoryFileView>, at: int },
    ClearingMemory,
    RunningTex(Round),
    ReadingTexOutput(E),
    /// The first run is done; the `.aux` file is asked for.
    ReadingAux,
    RunningBibtex,
    ReadingBibtexOutput(E),
    RunningXdvipdfmx,
    RemovingXdv,
    ListingLogs(E),
    CreatingMakefile,
    ListingOutputs,
    SavingFile { purpose: Purpose<E>, files: Seq<MemoryFileView>, at: int, skipped: nat },
    /// A file was saved; it is named in the Makefile rules.
    WritingTarget { files: Seq<MemoryFileView>, at: int, skipped: nat },
    /// A piece of the Makefile rules is written; these follow.
    WritingRule { rest: Seq<RulePieceView> },
    Finished,
}

/// What a session knows.
pub ghost struct StateView {
    pub settings: Settings,
    pub io: IoSetupView,
    pub log: Log,
    /// The user was told of warnings or errors of the TeX engine.
    pub noted_tex_warnings: bool,
}

/// A session: what it knows, and what it is waiting for.
pub ghost struct SessionView<E> {
    pub state: StateView,
    pub stage: StageView<E>,
}

/// What a session does next: its new state, what the user is told, and the
/// action that it asks for.
pub ghost struct Turn<E> {
    pub session: SessionView<E>,
    pub messages: Seq<MessageView>,
    pub action: ActionView<E>,
}

/// What a session knows that comes out of a complete plan.
pub open spec fn planned_state(plan: SessionPlan, io: IoPlan) -> StateView {
    let stem = plan.tex_input_stem->0;
    let aux = extension_set(stem, "aux"@);
    StateView {
        settings: Settings {
            primary_input_path: io.primary_input_path,
            primary_input_tex_path: stem,
            format_path: plan.format_path->0,
            tex_aux_path: aux,
            tex_xdv_path: if plan.output_format->0 == OutputFormat::Html {
                extension_set(aux, "spx"@)
            } else {
                extension_set(aux, "xdv"@)
            },
            tex_pdf_path: extension_set(aux, "pdf"@),
            makefile_output_path: plan.makefile_output_path,
            output_path: match plan.output_path {
                Some(path) => path,
                None => io.filesystem_root,
            },
            pass: plan.pass->0,
            output_format: plan.output_format->0,
            tex_rerun_specification: plan.reruns,
            keep_intermediates: plan.keep_intermediates,
            keep_logs: plan.keep_logs,
            synctex_enabled: plan.synctex,
        },
        io: planned_setup(io),
        log: Seq::empty(),
        noted_tex_warnings: false,
    }
}

/// The dot in a plain file name behind which its extension begins.
pub open spec fn is_extension_dot(name: Seq<char>, dot: int) -> bool {
    &&& is_plain_file_name(name)
    &&& 0 < dot < name.len()
    &&& name[dot] == '.'
    &&& !name.skip(dot + 1).contains('.')
}

/// The outputs are named like the input, with another extension.
pub open spec fn output_names_follow(settings: Settings, base: Seq<char>) -> bool {
    &&& settings.tex_aux_path == base + seq!['.'] + "aux"@
    &&& settings.tex_xdv_path == base + seq!['.'] + (if settings.output_format
        == OutputFormat::Html {
        "spx"@
    } else {
        "xdv"@
    })
    &&& settings.tex_pdf_path == base + seq!['.'] + "pdf"@
}

/// The settings that a session cannot do without are there.
pub open spec fn is_complete(plan: SessionPlan) -> bool {
    &&& plan.format_path is Some
    &&& plan.tex_input_stem is Some
    &&& plan.output_format is Some
    &&& plan.pass is Some
}

/// The plan says where the main input comes from.
pub open spec fn has_input(plan: IoPlan) -> bool {
    plan.use_stdin || plan.primary_input_path is Some
}

/// How often the rerun loop goes round at most.
pub open spec fn rerun_limit(settings: Settings) -> usize {
    match settings.tex_rerun_specification {
        Some(count) => count,
        None => DEFAULT_MAX_TEX_PASSES,
    }
}

/// Which files are saved.
pub open spec fn output_rules<E>(settings: Settings, purpose: Purpose<E>) -> OutputRules {
    OutputRules {
        output_format: settings.output_format,
        keep_intermediates: settings.keep_intermediates,
        keep_logs: settings.keep_logs,
        only_logs: purpose is Logs,
    }
}

/// The states that a session can be in: no file is recorded twice; a rerun is
/// one of those that are allowed; and the file that is being written is one of
/// those at hand.
pub open spec fn session_wf<E>(s: SessionView<E>) -> bool {
    &&& distinct_names(s.state.log)
    &&& match s.stage {
        StageView::RunningTex(Round::Rerun(index)) => index < rerun_limit(s.state.settings),
        StageView::WritingFormat { files, at } => 0 <= at < files.len(),
        StageView::SavingFile { purpose, files, at, skipped } => saving_wf(
            files,
            s.state.log,
            at,
            skipped,
        ),
        StageView::WritingTarget { files, at, skipped } => saving_wf(files, s.state.log, at, skipped),
        _ => true,
    }
}

/// One of the files at hand is being saved, it is not the standard output, and
/// no more files were skipped than were gone through.
pub open spec fn saving_wf(
    files: Seq<MemoryFileView>,
    log: Log,
    at: int,
    skipped: nat,
) -> bool {
    &&& 0 <= at < files.len()
    &&& skipped <= at
    &&& files[at].name != stdout_name()
    &&& all_recorded(files, log)
}

/// The event answers what the session asked for. A list of the files in memory
/// that are to be saved only holds files of which something is recorded.
pub open spec fn answers<E>(s: SessionView<E>, event: EventView<E>) -> bool {
    match s.stage {
        StageView::Ready => false,
        StageView::OpeningFormat => event is Format,
        StageView::GeneratingFormat => event is Engine,
        StageView::ReadingFormatOutput(_) => event is MemoryFile,
        StageView::ListingFormats => event is Memory,
        StageView::WritingFormat { .. } => event is Io,
        StageView::ClearingMemory => event is Done,
        StageView::RunningTex(_) => event is Engine,
        StageView::ReadingTexOutput(_) => event is MemoryFile,
        StageView::ReadingAux => event is MemoryFile,
        StageView::RunningBibtex => event is Engine,
        StageView::ReadingBibtexOutput(_) => event is MemoryFile,
        StageView::RunningXdvipdfmx => event is Engine,
        StageView::RemovingXdv => event is Done,
        StageView::ListingLogs(_) => event is Memory && all_recorded(event->Memory_0, s.state.log),
        StageView::CreatingMakefile => event is Io,
        StageView::ListingOutputs => event is Memory && all_recorded(event->Memory_0, s.state.log),
        StageView::SavingFile { .. } => event is Io,
        StageView::WritingTarget { .. } => event is Io,
        StageView::WritingRule { .. } => event is Io,
        StageView::Finished => false,
    }
}

/// The session goes on to a stage.
pub open spec fn turn_to<E>(
    s: StateView,
    stage: StageView<E>,
    messages: Seq<MessageView>,
    action: ActionView<E>,
) -> Turn<E> {
    Turn { session: SessionView { state: s, stage }, messages, action }
}

/// The session ends.
pub open spec fn finish<E>(
    s: StateView,
    messages: Seq<MessageView>,
    outcome: Result<i32, FailureView<E>>,
) -> Turn<E> {
    turn_to(s, StageView::Finished, messages, ActionView::Finish(outcome))
}

/// The I/O layers for the passes.
pub open spec fn layers_of(s: StateView) -> Seq<IoLayer> {
    session_layers(s.io.genuine_stdout, s.io.bundle is Some)
}

// The beginning of a session.

/// The first thing that a session does: it looks for the format file, unless it
/// is to make one.
pub open spec fn begin<E>(s: StateView) -> Turn<E> {
    if s.settings.output_format == OutputFormat::Format {
        begin_pass(s, Seq::empty())
    } else {
        turn_to(
            s,
            StageView::OpeningFormat,
            Seq::empty(),
            ActionView::OpenFormat { format: s.settings.format_path, layers: layers_of(s) },
        )
    }
}

/// The engines that the settings name are run.
#[verifier::opaque]
pub open spec fn begin_pass<E>(s: StateView, messages: Seq<MessageView>) -> Turn<E> {
    match s.settings.pass {
        PassSetting::Tex => begin_tex(s, Round::Only, None, messages),
        PassSetting::Default => begin_tex(s, Round::First, None, messages),
        PassSetting::BibtexFirst => begin_bibtex(s, messages),
    }
}

/// The attempt to open the format file came to an end.
#[verifier::opaque]
pub open spec fn on_format<E>(s: StateView, reply: FormatReply<E>) -> Turn<E> {
    match reply {
        FormatReply::Available => begin_pass(s, Seq::empty()),
        FormatReply::NotAvailable => begin_format(s),
        FormatReply::Failed(error) => finish(
            s,
            Seq::empty(),
            Err(
                FailureView::InContext {
                    error,
                    context: "could not open format file "@ + s.settings.format_path,
                },
            ),
        ),
    }
}

// The making of a format file.

/// The name of the format, without extensions.
pub open spec fn format_stem(settings: Settings) -> Seq<char> {
    before_first_dot(settings.format_path)
}

/// What the TeX engine is given to read when it makes a format file.
pub open spec fn kickstart(settings: Settings) -> Seq<char> {
    "\\input tectonic-format-"@ + format_stem(settings) + ".tex"@
}

/// A format file is made, from the bundle.
pub open spec fn begin_format<E>(s: StateView) -> Turn<E> {
    let messages = seq![
        MessageView::Note("generating format \""@ + s.settings.format_path + "\""@),
    ];
    if s.io.bundle is None {
        finish(
            s,
            messages,
            Err(FailureView::Refused("cannot create formats without using a bundle"@)),
        )
    } else {
        turn_to(
            StateView {
                io: IoSetupView { format_primary: Some(kickstart(s.settings)), ..s.io },
                ..s
            },
            StageView::GeneratingFormat,
            messages,
            ActionView::RunTex(
                TexTaskView {
                    layers: format_layers(s.io.genuine_stdout, true),
                    halt_on_error: true,
                    initex: true,
                    synctex: false,
                    format_name: "UNUSED.fmt"@,
                    input_name: "texput"@,
                },
            ),
        )
    }
}

/// The run that makes a format file came to an end.
#[verifier::opaque]
pub open spec fn on_format_made<E>(s: StateView, reply: EngineReply<E>) -> Turn<E> {
    match reply {
        EngineReply::Spotless => list_formats(s, Seq::empty()),
        EngineReply::Warnings => list_formats(
            s,
            seq![
                MessageView::Warning(
                    "warnings were issued by the TeX engine; use --print and/or --keep-logs for details."@,
                ),
            ],
        ),
        EngineReply::Errors => finish(
            s,
            seq![
                MessageView::Error(
                    "errors were issued by the TeX engine; use --print and/or --keep-logs for details."@,
                ),
            ],
            Err(FailureView::Refused("unhandled TeX engine error"@)),
        ),
        EngineReply::Failed(error) => read_output(s, StageView::ReadingFormatOutput(error)),
    }
}

/// The files in memory are asked for, to find the format file among them.
pub open spec fn list_formats<E>(s: StateView, messages: Seq<MessageView>) -> Turn<E> {
    turn_to(s, StageView::ListingFormats, messages, ActionView::ListMemory)
}

/// A format file, going by its name.
pub open spec fn is_format_name(name: Seq<u8>) -> bool {
    name != stdout_name() && has_suffix(name, ".fmt"@)
}

/// Where the next format file stands, or the number of files.
pub open spec fn next_format(files: Seq<MemoryFileView>, from: int) -> int
    decreases files.len() - from,
{
    if from < 0 || from >= files.len() || is_format_name(files[from].name) {
        from
    } else {
        next_format(files, from + 1)
    }
}

/// The next format file is stored. After the last one the memory is cleared:
/// all this was a preparation.
#[verifier::opaque]
pub open spec fn store_format<E>(
    s: StateView,
    files: Seq<MemoryFileView>,
    from: int,
) -> Turn<E> {
    let at = next_format(files, from);
    if at < files.len() {
        turn_to(
            s,
            StageView::WritingFormat { files, at },
            Seq::empty(),
            ActionView::WriteFormat {
                stem: format_stem(s.settings),
                contents: files[at].contents,
            },
        )
    } else {
        turn_to(s, StageView::ClearingMemory, Seq::empty(), ActionView::ClearMemory)
    }
}

/// A format file was stored, or could not be.
#[verifier::opaque]
pub open spec fn on_format_stored<E>(
    s: StateView,
    files: Seq<MemoryFileView>,
    at: int,
    result: Result<(), E>,
) -> Turn<E> {
    match result {
        Ok(_) => store_format(s, files, at + 1),
        Err(error) => finish(
            s,
            Seq::empty(),
            Err(
                FailureView::InContext {
                    error,
                    context: "cannot write format file "@ + utf8_lossy(files[at].name),
                },
            ),
        ),
    }
}

// What an engine printed before it gave up.

/// What the engine printed is asked for.
pub open spec fn read_output<E>(s: StateView, stage: StageView<E>) -> Turn<E> {
    turn_to(s, stage, Seq::empty(), ActionView::ReadMemoryFile { name: stdout_name() })
}

/// A line across the screen.
pub open spec fn ruler() -> MessageView {
    MessageView::ErrorStyled(
        "==============================================================================="@,
    )
}

/// What the user is shown of the output of an engine that gave up.
pub open spec fn engine_output(engine: Seq<char>, output: Option<Seq<u8>>) -> Seq<MessageView> {
    match output {
        Some(bytes) => seq![
            MessageView::Error(
                "something bad happened inside "@ + engine + "; its output follows:\n"@,
            ),
            ruler(),
            MessageView::Dump(bytes),
            ruler(),
            MessageView::ErrorStyled(""@),
        ],
        None => Seq::empty(),
    }
}

// The runs of the TeX engine.

/// The message on a run of the TeX engine.
pub open spec fn tex_message(reason: Option<Seq<char>>) -> MessageView {
    match reason {
        Some(reason) => MessageView::Highlighted {
            before: "Rerunning "@,
            phrase: "TeX"@,
            after: " because "@ + reason + " ..."@,
        },
        None => MessageView::Highlighted { before: "Running "@, phrase: "TeX"@, after: " ..."@ },
    }
}

/// How the TeX engine is run in a pass.
pub open spec fn pass_task(s: StateView) -> TexTaskView {
    TexTaskView {
        layers: layers_of(s),
        halt_on_error: true,
        initex: s.settings.output_format == OutputFormat::Format,
        synctex: s.settings.synctex_enabled,
        format_name: s.settings.format_path,
        input_name: s.settings.primary_input_tex_path,
    }
}

/// The TeX engine is run; a rerun has a reason.
pub open spec fn begin_tex<E>(
    s: StateView,
    round: Round,
    reason: Option<Seq<char>>,
    messages: Seq<MessageView>,
) -> Turn<E> {
    turn_to(
        s,
        StageView::RunningTex(round),
        messages.push(tex_message(reason)),
        ActionView::RunTex(pass_task(s)),
    )
}

/// The note that the TeX engine issued warnings.
pub open spec fn tex_warnings_note() -> MessageView {
    MessageView::Note(
        "warnings were issued by the TeX engine; use --print and/or --keep-logs for details."@,
    )
}

/// The warning that the TeX engine issued errors, but went on.
pub open spec fn tex_errors_warning() -> MessageView {
    MessageView::Warning(
        "errors were issued by the TeX engine, but were ignored; use --print and/or --keep-logs for details."@,
    )
}

/// A run of the TeX engine came to an end. The user is told once in a session
/// that there were warnings or errors.
#[verifier::opaque]
pub open spec fn on_tex<E>(s: StateView, round: Round, reply: EngineReply<E>) -> Turn<E> {
    let noted = StateView { noted_tex_warnings: true, ..s };
    match reply {
        EngineReply::Spotless => after_tex(s, round, Seq::empty()),
        EngineReply::Warnings => if s.noted_tex_warnings {
            after_tex(s, round, Seq::empty())
        } else {
            after_tex(
                noted,
                round,
                seq![tex_warnings_note()],
            )
        },
        EngineReply::Errors => if s.noted_tex_warnings {
            after_tex(s, round, Seq::empty())
        } else {
            after_tex(
                noted,
                round,
                seq![tex_errors_warning()],
            )
        },
        EngineReply::Failed(error) => read_output(s, StageView::ReadingTexOutput(error)),
    }
}

/// What follows a run of the TeX engine that did not give up: after the first
/// one the `.aux` file tells whether BibTeX has to be run; after a rerun
/// another one may be needed.
pub open spec fn after_tex<E>(
    s: StateView,
    round: Round,
    messages: Seq<MessageView>,
) -> Turn<E> {
    match round {
        Round::Only => pass_done(s, messages),
        Round::First => turn_to(
            s,
            StageView::ReadingAux,
            messages,
            ActionView::ReadMemoryFile { name: encode_utf8(s.settings.tex_aux_path) },
        ),
        Round::Rerun(index) => if s.settings.tex_rerun_specification is Some {
            rerun(s, index + 1, None, messages)
        } else if any_changed(s.log) && index == DEFAULT_MAX_TEX_PASSES - 1 {
            engines_done(s, (messages + rerun_warnings(s.log)).push(enough_message()))
        } else {
            rerun(s, index + 1, rerun_cause(s.log), messages + rerun_warnings(s.log))
        },
    }
}

/// The warning that the outputs may not have settled.
pub open spec fn enough_message() -> MessageView {
    MessageView::Warning(
        "TeX rerun seems needed, but stopping at "@ + decimal_text(
            DEFAULT_MAX_TEX_PASSES as nat,
        ) + " passes"@,
    )
}

// The rerun loop.

/// The name of a file that the engine read and then rewrote with other
/// contents, if there is one.
pub open spec fn rerun_cause(log: Log) -> Option<Seq<char>> {
    if any_changed(log) {
        Some(utf8_lossy(log[first_changed(log)].name))
    } else {
        None
    }
}

/// The warning on a file that was opened for output, but not closed.
pub open spec fn inconsistency_message(shown_name: Seq<char>) -> MessageView {
    MessageView::Warning(
        "internal consistency problem when checking if "@ + shown_name + " changed"@,
    )
}

/// What the user is told when changed files are looked for.
pub open spec fn rerun_warnings(log: Log) -> Seq<MessageView> {
    if any_changed(log) && log[first_changed(log)].summary.write_digest is None {
        seq![inconsistency_message(utf8_lossy(log[first_changed(log)].name))]
    } else {
        Seq::empty()
    }
}

/// The reason for a rerun. A cause without a name stands for a run of BibTeX.
pub open spec fn rerun_reason(cause: Seq<char>) -> Seq<char> {
    if cause.len() == 0 {
        "bibtex was run"@
    } else {
        "\""@ + cause + "\" changed"@
    }
}

/// The TeX engine is rerun if there is a cause, or else if the user said how
/// often, until the limit is reached.
pub open spec fn rerun<E>(
    s: StateView,
    index: int,
    cause: Option<Seq<char>>,
    messages: Seq<MessageView>,
) -> Turn<E> {
    if index >= rerun_limit(s.settings) {
        engines_done(s, messages)
    } else if s.settings.tex_rerun_specification is Some {
        restart_tex(s, index as usize, "I was told to"@, messages)
    } else {
        match cause {
            Some(cause) => restart_tex(s, index as usize, rerun_reason(cause), messages),
            None => engines_done(s, messages),
        }
    }
}

/// The TeX engine is started afresh, so what it read before is forgotten.
pub open spec fn restart_tex<E>(
    s: StateView,
    index: usize,
    reason: Seq<char>,
    messages: Seq<MessageView>,
) -> Turn<E> {
    begin_tex(
        StateView { log: after_reads_cleared(s.log), ..s },
        Round::Rerun(index),
        Some(reason),
        messages,
    )
}

// BibTeX.

/// The `.aux` file names a bibliography.
pub open spec fn names_bibliography(aux: Option<Seq<u8>>) -> bool {
    match aux {
        Some(contents) => occurs_in(encode_utf8("\\bibdata"@), contents),
        None => false,
    }
}

/// The `.aux` file was handed over: BibTeX is run if it names a bibliography.
#[verifier::opaque]
pub open spec fn on_aux<E>(s: StateView, aux: Option<Seq<u8>>) -> Turn<E> {
    if names_bibliography(aux) {
        begin_bibtex(s, Seq::empty())
    } else {
        rerun(s, 0, rerun_cause(s.log), rerun_warnings(s.log))
    }
}

/// BibTeX is run.
pub open spec fn begin_bibtex<E>(s: StateView, messages: Seq<MessageView>) -> Turn<E> {
    turn_to(
        s,
        StageView::RunningBibtex,
        messages.push(
            MessageView::Highlighted { before: "Running "@, phrase: "BibTeX"@, after: " ..."@ },
        ),
        ActionView::RunBibtex { aux: s.settings.tex_aux_path, layers: layers_of(s) },
    )
}

/// The run of BibTeX came to an end.
#[verifier::opaque]
pub open spec fn on_bibtex<E>(s: StateView, reply: EngineReply<E>) -> Turn<E> {
    match reply {
        EngineReply::Spotless => rerun(s, 0, Some(Seq::empty()), Seq::empty()),
        EngineReply::Warnings => rerun(
            s,
            0,
            Some(Seq::empty()),
            seq![
                MessageView::Note(
                    "warnings were issued by BibTeX; use --print and/or --keep-logs for details."@,
                ),
            ],
        ),
        EngineReply::Errors => rerun(
            s,
            0,
            Some(Seq::empty()),
            seq![
                MessageView::Warning(
                    "errors were issued by BibTeX, but were ignored; use --print and/or --keep-logs for details."@,
                ),
            ],
        ),
        EngineReply::Failed(error) => read_output(s, StageView::ReadingBibtexOutput(error)),
    }
}

// The end of the passes.

/// The runs of TeX are over. For a PDF file xdvipdfmx follows.
pub open spec fn engines_done<E>(s: StateView, messages: Seq<MessageView>) -> Turn<E> {
    if s.settings.output_format == OutputFormat::Pdf {
        turn_to(
            s,
            StageView::RunningXdvipdfmx,
            messages.push(
                MessageView::Highlighted {
                    before: "Running "@,
                    phrase: "xdvipdfmx"@,
                    after: " ..."@,
                },
            ),
            ActionView::RunXdvipdfmx {
                xdv: s.settings.tex_xdv_path,
                pdf: s.settings.tex_pdf_path,
                layers: layers_of(s),
            },
        )
    } else {
        pass_done(s, messages)
    }
}

/// The run of xdvipdfmx came to an end. Its input is of no use any more.
#[verifier::opaque]
pub open spec fn on_xdvipdfmx<E>(s: StateView, reply: EngineReply<E>) -> Turn<E> {
    match reply {
        EngineReply::Failed(error) => pass_failed(s, error, Seq::empty()),
        _ => turn_to(
            s,
            StageView::RemovingXdv,
            Seq::empty(),
            ActionView::RemoveMemoryFile { name: encode_utf8(s.settings.tex_xdv_path) },
        ),
    }
}

/// All engines did their work: outputs are saved, and the Makefile rules are
/// begun if they are asked for.
#[verifier::opaque]
pub open spec fn pass_done<E>(s: StateView, messages: Seq<MessageView>) -> Turn<E> {
    match s.settings.makefile_output_path {
        Some(path) => turn_to(
            s,
            StageView::CreatingMakefile,
            messages,
            ActionView::CreateMakefile { path },
        ),
        None => list_outputs(s, messages),
    }
}

/// The files in memory are asked for, to save the outputs among them.
pub open spec fn list_outputs<E>(s: StateView, messages: Seq<MessageView>) -> Turn<E> {
    turn_to(s, StageView::ListingOutputs, messages, ActionView::ListMemory)
}

/// An engine gave up: the logs are saved, and then the session ends with the
/// error of the engine.
pub open spec fn pass_failed<E>(
    s: StateView,
    error: E,
    messages: Seq<MessageView>,
) -> Turn<E> {
    turn_to(s, StageView::ListingLogs(error), messages, ActionView::ListMemory)
}

// The saving of files.

/// The next file that is to be saved is saved.
#[verifier::opaque]
pub open spec fn save_next<E>(
    s: StateView,
    purpose: Purpose<E>,
    files: Seq<MemoryFileView>,
    from: int,
    skipped: nat,
) -> Turn<E> {
    let found = survey(output_rules(s.settings, purpose), files, s.log, from);
    if found.at < files.len() {
        let path = joined_path(s.settings.output_path, files[found.at].name);
        turn_to(
            s,
            StageView::SavingFile {
                purpose,
                files,
                at: found.at,
                skipped: skipped + found.skipped,
            },
            found.messages.push(
                saved_file_message(utf8_lossy(path), files[found.at].contents.len()),
            ),
            ActionView::SaveFile { path, contents: files[found.at].contents },
        )
    } else {
        all_saved(s, purpose, skipped + found.skipped, found.messages)
    }
}

/// A file was saved, or could not be.
#[verifier::opaque]
pub open spec fn on_saved<E>(
    s: StateView,
    purpose: Purpose<E>,
    files: Seq<MemoryFileView>,
    at: int,
    skipped: nat,
    result: Result<(), E>,
) -> Turn<E> {
    let marked = StateView { log: after_written_to_disk(s.log, files[at].name), ..s };
    match result {
        Ok(_) => if purpose is Outputs && s.settings.makefile_output_path is Some {
            turn_to(
                marked,
                StageView::WritingTarget { files, at, skipped },
                Seq::empty(),
                ActionView::WriteMakefile {
                    data: target_bytes(
                        utf8_lossy(joined_path(s.settings.output_path, files[at].name)),
                    ),
                },
            )
        } else {
            save_next(marked, purpose, files, at + 1, skipped)
        },
        Err(error) => finish(s, Seq::empty(), Err(FailureView::Outside(error))),
    }
}

/// A target was written, or could not be.
pub open spec fn on_target<E>(
    s: StateView,
    files: Seq<MemoryFileView>,
    at: int,
    skipped: nat,
    result: Result<(), E>,
) -> Turn<E> {
    match result {
        Ok(_) => save_next(s, Purpose::Outputs, files, at + 1, skipped),
        Err(error) => finish(s, Seq::empty(), Err(makefile_failure(error))),
    }
}

/// The message on intermediate files that were not saved.
pub open spec fn skipped_messages(skipped: nat) -> Seq<MessageView> {
    if skipped > 0 {
        seq![
            MessageView::Highlighted {
                before: "Skipped writing "@,
                phrase: decimal_text(skipped),
                after: " intermediate files (use --keep-intermediates to keep them)"@,
            },
        ]
    } else {
        Seq::empty()
    }
}

/// All files were gone through. After a failure the session ends with its
/// error; otherwise the Makefile rules are completed if they are asked for.
pub open spec fn all_saved<E>(
    s: StateView,
    purpose: Purpose<E>,
    skipped: nat,
    messages: Seq<MessageView>,
) -> Turn<E> {
    match purpose {
        Purpose::Logs(error) => finish(s, messages, Err(FailureView::Outside(error))),
        Purpose::Outputs => {
            let told = messages + skipped_messages(skipped);
            if s.settings.makefile_output_path is Some {
                write_rule(
                    s,
                    told,
                    rule_pieces(
                        s.settings.primary_input_path,
                        s.io.filesystem_root,
                        s.log,
                    ),
                )
            } else {
                finish(s, told, Ok(0))
            }
        },
    }
}

/// The next piece of the Makefile rules is written. After the last one the
/// session ends.
pub open spec fn write_rule<E>(
    s: StateView,
    messages: Seq<MessageView>,
    pieces: Seq<RulePieceView>,
) -> Turn<E> {
    if pieces.len() == 0 {
        finish(s, messages, Ok(0))
    } else {
        turn_to(
            s,
            StageView::WritingRule { rest: pieces.drop_first() },
            messages + pieces[0].warnings,
            ActionView::WriteMakefile { data: pieces[0].data },
        )
    }
}

/// The failure of a write to the file for the Makefile rules.
pub open spec fn makefile_failure<E>(error: E) -> FailureView<E> {
    FailureView::InContext { error, context: "couldn't write to Makefile-rules file"@ }
}

// The whole.

/// What a session does next on an event that answers what it asked for.
pub open spec fn next<E>(s: SessionView<E>, event: EventView<E>) -> Turn<E> {
    let t = s.state;
    match s.stage {
        StageView::OpeningFormat => on_format(t, event->Format_0),
        StageView::GeneratingFormat => on_format_made(t, event->Engine_0),
        StageView::ReadingFormatOutput(error) => finish(
            t,
            engine_output("TeX"@, event->MemoryFile_0),
            Err(FailureView::Outside(error)),
        ),
        StageView::ListingFormats => store_format(t, event->Memory_0, 0),
        StageView::WritingFormat { files, at } => on_format_stored(t, files, at, event->Io_0),
        StageView::ClearingMemory => begin_pass(t, Seq::empty()),
        StageView::RunningTex(round) => on_tex(t, round, event->Engine_0),
        StageView::ReadingTexOutput(error) => pass_failed(
            t,
            error,
            engine_output("TeX"@, event->MemoryFile_0),
        ),
        StageView::ReadingAux => on_aux(t, event->MemoryFile_0),
        StageView::RunningBibtex => on_bibtex(t, event->Engine_0),
        StageView::ReadingBibtexOutput(error) => pass_failed(
            t,
            error,
            engine_output("BibTeX"@, event->MemoryFile_0),
        ),
        StageView::RunningXdvipdfmx => on_xdvipdfmx(t, event->Engine_0),
        StageView::RemovingXdv => pass_done(t, Seq::empty()),
        StageView::ListingLogs(error) => save_next(t, Purpose::Logs(error), event->Memory_0, 0, 0),
        StageView::CreatingMakefile => match event->Io_0 {
            Ok(_) => list_outputs(t, Seq::empty()),
            Err(error) => finish(t, Seq::empty(), Err(FailureView::Outside(error))),
        },
        StageView::ListingOutputs => save_next(t, Purpose::Outputs, event->Memory_0, 0, 0),
        StageView::SavingFile { purpose, files, at, skipped } => on_saved(
            t,
            purpose,
            files,
            at,
            skipped,
            event->Io_0,
        ),
        StageView::WritingTarget { files, at, skipped } => on_target(
            t,
            files,
            at,
            skipped,
            event->Io_0,
        ),
        StageView::WritingRule { rest } => match event->Io_0 {
            Ok(_) => write_rule(t, Seq::empty(), rest),
            Err(error) => finish(t, Seq::empty(), Err(makefile_failure(error))),
        },
        StageView::Ready => arbitrary(),
        StageView::Finished => arbitrary(),
    }
}

// The access patterns, for a closer look.

/// The name of an access pattern.
pub open spec fn pattern_name(pattern: AccessPattern) -> Seq<char> {
    match pattern {
        AccessPattern::Read => "Read"@,
        AccessPattern::Written => "Written"@,
        AccessPattern::ReadThenWritten => "ReadThenWritten"@,
        AccessPattern::WrittenThenRead => "WrittenThenRead"@,
    }
}

/// How a digest is shown that may not be known.
pub open spec fn shown_digest(digest: Option<DigestData>) -> Seq<char> {
    match digest {
        Some(digest) => "\""@ + hex_text(digest@) + "\""@,
        None => "\"-\""@,
    }
}

/// The note on a file that is not just read.
pub open spec fn access_note(shown_name: Seq<char>, summary: FileSummary) -> MessageView {
    MessageView::Note(
        "ACCESS: "@ + shown_name + " "@ + pattern_name(summary.access_pattern) + " "@
            + shown_digest(summary.read_digest) + " "@ + shown_digest(summary.write_digest),
    )
}

/// The notes on all files that are not just read.
pub open spec fn access_notes(log: Log) -> Seq<MessageView>
    decreases log.len(),
{
    if log.len() == 0 {
        Seq::empty()
    } else if log.last().summary.access_pattern == AccessPattern::Read {
        access_notes(log.drop_last())
    } else {
        access_notes(log.drop_last()).push(
            access_note(utf8_lossy(log.last().name), log.last().summary),
        )
    }
}

/// A session stays in one of its states when an access is recorded.
pub proof fn lemma_session_stays_wf<E>(s: SessionView<E>, event: IoEventView)
    requires
        session_wf(s),
        can_happen(s.state.log, event),
    ensures
        session_wf(
            SessionView {
                state: StateView { log: after_event(s.state.log, event), ..s.state },
                ..s
            },
        ),
{
    lemma_names_stay_distinct(s.state.log, event);
    match s.stage {
        StageView::SavingFile { purpose, files, at, skipped } => {
            lemma_all_stay_recorded(files, s.state.log, event);
        },
        StageView::WritingTarget { files, at, skipped } => {
            lemma_all_stay_recorded(files, s.state.log, event);
        },
        _ => {},
    }
}

} // verus!
