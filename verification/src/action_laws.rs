//! What holds of the actions that a session asks for: each one is as the settings
//! say, and is answered by what belongs to it.
use crate::course;
use crate::course::{
    answers, begin, next, session_wf, Purpose, Round, SessionView, StageView, StateView, Turn,
};
use crate::events::{after_written_to_disk, is_recorded, names_at, Log};
use crate::io_setup::{format_layers, session_layers, IoLayer, IoSetupView};
use crate::message::MessageView;
use crate::output::{file_fate, FileFate, MemoryFileView};
use crate::protocol::{
    ActionView, EngineReply, EventView, FailureView, FormatReply, TexTaskView,
};
use crate::session_laws::{lemma_next_format, lemma_survey};
use crate::settings::{OutputFormat, PassSetting};
use crate::text::{before_first_dot, joined_path};
use crate::text_laws::lemma_ascii_suffix;
use vstd::prelude::*;
use vstd::utf8::encode_utf8;

verus! {

/// The layers for the passes, one by one.
pub open spec fn pass_layers(genuine_stdout: bool, bundle: bool) -> Seq<IoLayer> {
    if genuine_stdout && bundle {
        seq![
            IoLayer::GenuineStdout,
            IoLayer::PrimaryInput,
            IoLayer::Memory,
            IoLayer::Filesystem,
            IoLayer::Bundle,
        ]
    } else if genuine_stdout {
        seq![
            IoLayer::GenuineStdout,
            IoLayer::PrimaryInput,
            IoLayer::Memory,
            IoLayer::Filesystem,
        ]
    } else if bundle {
        seq![IoLayer::PrimaryInput, IoLayer::Memory, IoLayer::Filesystem, IoLayer::Bundle]
    } else {
        seq![IoLayer::PrimaryInput, IoLayer::Memory, IoLayer::Filesystem]
    }
}

/// The layers are these, in this order: a file is opened by the first one that
/// has it.
pub proof fn law_layers_one_by_one(genuine_stdout: bool, bundle: bool)
    ensures
        session_layers(genuine_stdout, bundle) == pass_layers(genuine_stdout, bundle),
        format_layers(true, true) == seq![
            IoLayer::GenuineStdout,
            IoLayer::FormatPrimary,
            IoLayer::Memory,
            IoLayer::Bundle,
        ],
        format_layers(false, true) == seq![
            IoLayer::FormatPrimary,
            IoLayer::Memory,
            IoLayer::Bundle,
        ],
        format_layers(true, false) == seq![
            IoLayer::GenuineStdout,
            IoLayer::FormatPrimary,
            IoLayer::Memory,
        ],
        format_layers(false, false) == seq![IoLayer::FormatPrimary, IoLayer::Memory],
{
    assert(session_layers(genuine_stdout, bundle) =~= pass_layers(genuine_stdout, bundle));
    assert(format_layers(true, true) =~= seq![
        IoLayer::GenuineStdout,
        IoLayer::FormatPrimary,
        IoLayer::Memory,
        IoLayer::Bundle,
    ]);
    assert(format_layers(false, true) =~= seq![
        IoLayer::FormatPrimary,
        IoLayer::Memory,
        IoLayer::Bundle,
    ]);
    assert(format_layers(true, false) =~= seq![
        IoLayer::GenuineStdout,
        IoLayer::FormatPrimary,
        IoLayer::Memory,
    ]);
    assert(format_layers(false, false) =~= seq![IoLayer::FormatPrimary, IoLayer::Memory]);
}

/// A format file, going by the bytes at the end of its name.
pub open spec fn is_named_fmt(name: Seq<u8>) -> bool {
    name.len() > 0 && seq![46u8, 102u8, 109u8, 116u8].is_suffix_of(name)
}

/// The run of the TeX engine is one on the document: the settings say how.
pub open spec fn is_document_run(t: StateView, task: TexTaskView) -> bool {
    &&& task.layers == pass_layers(t.io.genuine_stdout, t.io.bundle is Some)
    &&& task.halt_on_error
    &&& task.initex == (t.settings.output_format == OutputFormat::Format)
    &&& task.synctex == t.settings.synctex_enabled
    &&& task.format_name == t.settings.format_path
    &&& task.input_name == t.settings.primary_input_tex_path
}

/// The run of the TeX engine makes a format file: only the bundle has a say in it.
pub open spec fn is_format_run(t: StateView, task: TexTaskView) -> bool {
    &&& task.layers == if t.io.genuine_stdout {
        seq![IoLayer::GenuineStdout, IoLayer::FormatPrimary, IoLayer::Memory, IoLayer::Bundle]
    } else {
        seq![IoLayer::FormatPrimary, IoLayer::Memory, IoLayer::Bundle]
    }
    &&& task.halt_on_error
    &&& task.initex
    &&& !task.synctex
    &&& task.format_name == "UNUSED.fmt"@
    &&& task.input_name == "texput"@
}

/// The action that a session asks for is as the settings say, and comes where it
/// has its place.
pub open spec fn is_as_set<E>(s: SessionView<E>, event: EventView<E>, turn: Turn<E>) -> bool {
    let t = s.state;
    let settings = t.settings;
    let layers_wanted = pass_layers(t.io.genuine_stdout, t.io.bundle is Some);
    let begins_pass = s.stage is ClearingMemory || (s.stage is OpeningFormat && event
        == EventView::<E>::Format(FormatReply::Available));
    match turn.action {
        ActionView::OpenFormat { .. } => false,
        ActionView::RunTex(task) => if s.stage is OpeningFormat && !begins_pass {
            &&& event == EventView::<E>::Format(FormatReply::NotAvailable)
            &&& t.io.bundle is Some
            &&& is_format_run(t, task)
            &&& turn.session.stage is GeneratingFormat
            &&& turn.session.state.io.format_primary == Some(
                "\\input tectonic-format-"@ + before_first_dot(settings.format_path) + ".tex"@,
            )
        } else {
            &&& is_document_run(t, task)
            &&& turn.session.stage is RunningTex
            &&& begins_pass ==> settings.pass != PassSetting::BibtexFirst
            &&& begins_pass || s.stage is RunningTex || s.stage is ReadingAux || s.stage
                is RunningBibtex
        },
        ActionView::RunBibtex { aux, layers } => {
            &&& aux == settings.tex_aux_path
            &&& layers == layers_wanted
            &&& turn.session.stage is RunningBibtex
            &&& s.stage is ReadingAux || (begins_pass && settings.pass == PassSetting::BibtexFirst)
        },
        ActionView::RunXdvipdfmx { xdv, pdf, layers } => {
            &&& xdv == settings.tex_xdv_path
            &&& pdf == settings.tex_pdf_path
            &&& layers == layers_wanted
            &&& settings.output_format == OutputFormat::Pdf
            &&& turn.session.stage is RunningXdvipdfmx
        },
        ActionView::ReadMemoryFile { name } => if event matches EventView::Engine(
            EngineReply::Failed(_),
        ) {
            name.len() == 0
        } else {
            &&& s.stage == StageView::<E>::RunningTex(Round::First)
            &&& name == encode_utf8(settings.tex_aux_path)
        },
        ActionView::ListMemory => turn.session.stage is ListingFormats || turn.session.stage
            is ListingOutputs || turn.session.stage is ListingLogs,
        ActionView::RemoveMemoryFile { name } => {
            &&& s.stage is RunningXdvipdfmx
            &&& name == encode_utf8(settings.tex_xdv_path)
        },
        ActionView::ClearMemory => s.stage is ListingFormats || s.stage is WritingFormat,
        ActionView::WriteFormat { stem, contents } => {
            &&& stem == before_first_dot(settings.format_path)
            &&& turn.session.stage matches StageView::WritingFormat { files, at } && 0 <= at
                < files.len() && contents == files[at].contents && is_named_fmt(files[at].name)
        },
        ActionView::CreateMakefile { path } => settings.makefile_output_path == Some(path),
        ActionView::WriteMakefile { .. } => s.stage is ListingOutputs || s.stage is SavingFile
            || s.stage is WritingTarget || s.stage is WritingRule,
        ActionView::SaveFile { path, contents } => turn.session.stage matches StageView::SavingFile {
            purpose,
            files,
            at,
            skipped,
        } && 0 <= at < files.len() && contents == files[at].contents && path == joined_path(
            settings.output_path,
            files[at].name,
        ) && file_fate(
            course::output_rules(settings, purpose),
            files[at],
            turn.session.state.log,
        ) == FileFate::Saved,
        ActionView::Finish(outcome) => {
            &&& turn.session.stage is Finished
            &&& s.stage is OpeningFormat ==> (outcome == Err::<i32, _>(
                FailureView::<E>::Refused("cannot create formats without using a bundle"@),
            ) && t.io.bundle is None || (event matches EventView::Format(FormatReply::Failed(error))
                && outcome == Err::<i32, _>(
                FailureView::InContext {
                    error,
                    context: "could not open format file "@ + settings.format_path,
                },
            )))
        },
    }
}

/// What a session knows changes in few ways: a rerun forgets what was read, a file
/// that is saved is marked, a complaint of the TeX engine is noted, and the making
/// of a format file has an input of its own.
pub open spec fn is_kept<E>(s: SessionView<E>, event: EventView<E>, turn: Turn<E>) -> bool {
    let t = s.state;
    let after = turn.session.state;
    &&& after.settings == t.settings
    &&& after.io == t.io || (s.stage is OpeningFormat && after.io == IoSetupView {
        format_primary: after.io.format_primary,
        ..t.io
    })
    &&& after.noted_tex_warnings == (t.noted_tex_warnings || (s.stage is RunningTex && (event
        matches EventView::Engine(reply) && (reply is Warnings || reply is Errors))))
    &&& !(turn.action is RunTex) ==> after.log == (match (s.stage, event) {
        (
            StageView::SavingFile { files, at, .. },
            EventView::Io(Ok(_)),
        ) => after_written_to_disk(t.log, files[at].name),
        _ => t.log,
    })
}

/// The stage of a turn is the one that belongs to its action.
spec fn is_paired<E>(turn: Turn<E>) -> bool {
    match turn.session.stage {
        StageView::Ready => false,
        StageView::OpeningFormat => turn.action is OpenFormat,
        StageView::GeneratingFormat => turn.action is RunTex,
        StageView::ReadingFormatOutput(_) => turn.action is ReadMemoryFile,
        StageView::ListingFormats => turn.action is ListMemory,
        StageView::WritingFormat { .. } => turn.action is WriteFormat,
        StageView::ClearingMemory => turn.action is ClearMemory,
        StageView::RunningTex(_) => turn.action is RunTex,
        StageView::ReadingTexOutput(_) => turn.action is ReadMemoryFile,
        StageView::ReadingAux => turn.action is ReadMemoryFile,
        StageView::RunningBibtex => turn.action is RunBibtex,
        StageView::ReadingBibtexOutput(_) => turn.action is ReadMemoryFile,
        StageView::RunningXdvipdfmx => turn.action is RunXdvipdfmx,
        StageView::RemovingXdv => turn.action is RemoveMemoryFile,
        StageView::ListingLogs(_) => turn.action is ListMemory,
        StageView::CreatingMakefile => turn.action is CreateMakefile,
        StageView::ListingOutputs => turn.action is ListMemory,
        StageView::SavingFile { .. } => turn.action is SaveFile,
        StageView::WritingTarget { .. } => turn.action is WriteMakefile,
        StageView::WritingRule { .. } => turn.action is WriteMakefile,
        StageView::Finished => turn.action is Finish,
    }
}

proof fn lemma_fmt(name: Seq<u8>)
    ensures
        course::is_format_name(name) <==> is_named_fmt(name),
{
    reveal_strlit(".fmt");
    lemma_ascii_suffix(name, ".fmt"@, seq![46u8, 102u8, 109u8, 116u8]);
    assert(name.len() == 0 ==> name =~= Seq::<u8>::empty());
}

proof fn lemma_next_format_is_one(files: Seq<MemoryFileView>, from: int)
    requires
        0 <= from <= files.len(),
    ensures
        course::next_format(files, from) < files.len() ==> is_named_fmt(
            files[course::next_format(files, from)].name,
        ),
        forall|i: int|
            from <= i < course::next_format(files, from) ==> !is_named_fmt(
                (#[trigger] files[i]).name,
            ),
    decreases files.len() - from,
{
    if from < files.len() {
        lemma_fmt(files[from].name);
        if !course::is_format_name(files[from].name) {
            lemma_next_format_is_one(files, from + 1);
        }
    }
}

proof fn lemma_format_actions<E>(s: SessionView<E>, event: EventView<E>)
    requires
        session_wf(s),
        answers(s, event),
        s.stage is OpeningFormat || s.stage is GeneratingFormat || s.stage is ReadingFormatOutput
            || s.stage is ListingFormats || s.stage is WritingFormat || s.stage is ClearingMemory,
    ensures
        is_as_set(s, event, next(s, event)),
        is_kept(s, event, next(s, event)),
        is_paired(next(s, event)),
{
    law_layers_one_by_one(s.state.io.genuine_stdout, s.state.io.bundle is Some);
    match s.stage {
        StageView::OpeningFormat => {
            reveal(course::on_format);
            reveal(course::begin_pass);
        },
        StageView::GeneratingFormat => {
            reveal(course::on_format_made);
        },
        StageView::ListingFormats => {
            reveal(course::store_format);
            lemma_next_format(event->Memory_0, 0);
            lemma_next_format_is_one(event->Memory_0, 0);
        },
        StageView::WritingFormat { files, at } => {
            reveal(course::on_format_stored);
            reveal(course::store_format);
            lemma_next_format(files, at + 1);
            lemma_next_format_is_one(files, at + 1);
        },
        StageView::ClearingMemory => {
            reveal(course::begin_pass);
        },
        _ => {},
    }
}

/// A turn with which the passes go on or come to their end.
spec fn is_pass_turn<E>(t: StateView, turn: Turn<E>) -> bool {
    let after = turn.session.state;
    &&& after.settings == t.settings
    &&& after.io == t.io
    &&& after.noted_tex_warnings == t.noted_tex_warnings
    &&& match turn.action {
        ActionView::RunTex(task) => is_document_run(t, task) && turn.session.stage is RunningTex,
        ActionView::RunXdvipdfmx { xdv, pdf, layers } => {
            &&& after.log == t.log
            &&& turn.session.stage is RunningXdvipdfmx
            &&& xdv == t.settings.tex_xdv_path
            &&& pdf == t.settings.tex_pdf_path
            &&& layers == pass_layers(t.io.genuine_stdout, t.io.bundle is Some)
            &&& t.settings.output_format == OutputFormat::Pdf
        },
        ActionView::CreateMakefile { path } => after.log == t.log && turn.session.stage
            is CreatingMakefile && t.settings.makefile_output_path == Some(path),
        ActionView::ListMemory => after.log == t.log && turn.session.stage is ListingOutputs,
        _ => false,
    }
}

proof fn lemma_pass_done<E>(t: StateView, messages: Seq<MessageView>)
    ensures
        is_pass_turn(t, course::pass_done::<E>(t, messages)),
        !(course::pass_done::<E>(t, messages).action is RunTex),
{
    reveal(course::pass_done);
}

proof fn lemma_rerun<E>(
    t: StateView,
    index: int,
    cause: Option<Seq<char>>,
    messages: Seq<MessageView>,
)
    ensures
        is_pass_turn(t, course::rerun::<E>(t, index, cause, messages)),
        is_pass_turn(t, course::engines_done::<E>(t, messages)),
{
    law_layers_one_by_one(t.io.genuine_stdout, t.io.bundle is Some);
    lemma_pass_done::<E>(t, messages);
}

proof fn lemma_after_tex<E>(t: StateView, round: Round, messages: Seq<MessageView>)
    ensures
        ({
            let turn = course::after_tex::<E>(t, round, messages);
            if round == Round::First {
                &&& turn.session.state == t
                &&& turn.session.stage is ReadingAux
                &&& turn.action == ActionView::<E>::ReadMemoryFile {
                    name: encode_utf8(t.settings.tex_aux_path),
                }
            } else {
                is_pass_turn(t, turn)
            }
        }),
{
    match round {
        Round::Only => lemma_pass_done::<E>(t, messages),
        Round::First => {},
        Round::Rerun(index) => {
            let told = messages + course::rerun_warnings(t.log);
            lemma_rerun::<E>(t, index + 1, None, messages);
            lemma_rerun::<E>(t, index + 1, course::rerun_cause(t.log), told);
            lemma_rerun::<E>(t, 0, None, told.push(course::enough_message()));
        },
    }
}

proof fn lemma_tex_actions<E>(s: SessionView<E>, event: EventView<E>)
    requires
        answers(s, event),
        s.stage is RunningTex,
    ensures
        is_as_set(s, event, next(s, event)),
        is_kept(s, event, next(s, event)),
        is_paired(next(s, event)),
{
    let t = s.state;
    let round = s.stage->RunningTex_0;
    let reply = event->Engine_0;
    let turn = next(s, event);
    if reply is Failed {
        reveal(course::on_tex);
    } else {
        let told = if t.noted_tex_warnings || reply is Spotless {
            Seq::empty()
        } else if reply is Warnings {
            seq![course::tex_warnings_note()]
        } else {
            seq![course::tex_errors_warning()]
        };
        let after = StateView {
            noted_tex_warnings: t.noted_tex_warnings || !(reply is Spotless),
            ..t
        };
        assert(turn == course::after_tex::<E>(after, round, told)) by {
            reveal(course::on_tex);
        }
        lemma_after_tex::<E>(after, round, told);
    }
}

proof fn lemma_bibtex_actions<E>(s: SessionView<E>, event: EventView<E>)
    requires
        answers(s, event),
        s.stage is RunningBibtex,
    ensures
        is_as_set(s, event, next(s, event)),
        is_kept(s, event, next(s, event)),
        is_paired(next(s, event)),
{
    let t = s.state;
    let turn = next(s, event);
    if event is Engine && !(event->Engine_0 is Failed) {
        assert(is_pass_turn(t, turn)) by {
            let none = Seq::<char>::empty();
            lemma_rerun::<E>(t, 0, Some(none), Seq::empty());
            lemma_rerun::<E>(
                t,
                0,
                Some(none),
                seq![
                    MessageView::Note(
                        "warnings were issued by BibTeX; use --print and/or --keep-logs for details."@,
                    ),
                ],
            );
            lemma_rerun::<E>(
                t,
                0,
                Some(none),
                seq![
                    MessageView::Warning(
                        "errors were issued by BibTeX, but were ignored; use --print and/or --keep-logs for details."@,
                    ),
                ],
            );
            reveal(course::on_bibtex);
        }
    } else {
        reveal(course::on_bibtex);
    }
}

proof fn lemma_pass_actions<E>(s: SessionView<E>, event: EventView<E>)
    requires
        answers(s, event),
        s.stage is RunningTex || s.stage is ReadingTexOutput || s.stage is ReadingAux
            || s.stage is RunningBibtex || s.stage is ReadingBibtexOutput || s.stage
            is RunningXdvipdfmx || s.stage is RemovingXdv,
    ensures
        is_as_set(s, event, next(s, event)),
        is_kept(s, event, next(s, event)),
        is_paired(next(s, event)),
{
    let t = s.state;
    match s.stage {
        StageView::RunningTex(_) => {
            lemma_tex_actions(s, event);
        },
        StageView::ReadingAux => {
            reveal(course::on_aux);
            law_layers_one_by_one(t.io.genuine_stdout, t.io.bundle is Some);
            lemma_rerun::<E>(t, 0, course::rerun_cause(t.log), course::rerun_warnings(t.log));
        },
        StageView::RunningBibtex => {
            lemma_bibtex_actions(s, event);
        },
        StageView::RunningXdvipdfmx => {
            reveal(course::on_xdvipdfmx);
        },
        StageView::RemovingXdv => {
            lemma_pass_done::<E>(t, Seq::empty());
        },
        _ => {},
    }
}

proof fn lemma_save_next_action<E>(
    t: StateView,
    purpose: Purpose<E>,
    files: Seq<MemoryFileView>,
    from: int,
    skipped: nat,
)
    requires
        0 <= from <= files.len(),
    ensures
        ({
            let turn = course::save_next(t, purpose, files, from, skipped);
            &&& turn.session.state == t
            &&& match turn.action {
                ActionView::SaveFile { path, contents } => turn.session.stage matches StageView::SavingFile {
                    purpose: p,
                    files: f,
                    at,
                    skipped: k,
                } && p == purpose && f == files && 0 <= at < files.len() && contents
                    == files[at].contents && path == joined_path(
                    t.settings.output_path,
                    files[at].name,
                ) && file_fate(course::output_rules(t.settings, purpose), files[at], t.log)
                    == FileFate::Saved,
                ActionView::WriteMakefile { .. } => turn.session.stage is WritingRule && purpose
                    is Outputs,
                ActionView::Finish(_) => turn.session.stage is Finished,
                _ => false,
            }
        }),
{
    reveal(course::save_next);
    lemma_survey(course::output_rules(t.settings, purpose), files, t.log, from);
}

proof fn lemma_saving_actions<E>(s: SessionView<E>, event: EventView<E>)
    requires
        session_wf(s),
        answers(s, event),
        s.stage is ListingLogs || s.stage is CreatingMakefile || s.stage is ListingOutputs
            || s.stage is SavingFile || s.stage is WritingTarget || s.stage is WritingRule,
    ensures
        is_as_set(s, event, next(s, event)),
        is_kept(s, event, next(s, event)),
        is_paired(next(s, event)),
{
    let t = s.state;
    match s.stage {
        StageView::ListingLogs(error) => {
            lemma_save_next_action(t, Purpose::Logs(error), event->Memory_0, 0, 0);
        },
        StageView::ListingOutputs => {
            lemma_save_next_action(t, Purpose::<E>::Outputs, event->Memory_0, 0, 0);
        },
        StageView::SavingFile { purpose, files, at, skipped } => {
            reveal(course::on_saved);
            let log = after_written_to_disk(t.log, files[at].name);
            lemma_save_next_action(StateView { log, ..t }, purpose, files, at + 1, skipped);
        },
        StageView::WritingTarget { files, at, skipped } => {
            lemma_save_next_action(t, Purpose::<E>::Outputs, files, at + 1, skipped);
        },
        _ => {},
    }
}

proof fn lemma_actions<E>(s: SessionView<E>, event: EventView<E>)
    requires
        session_wf(s),
        answers(s, event),
    ensures
        is_as_set(s, event, next(s, event)),
        is_kept(s, event, next(s, event)),
        is_paired(next(s, event)),
{
    if s.stage is OpeningFormat || s.stage is GeneratingFormat || s.stage is ReadingFormatOutput
        || s.stage is ListingFormats || s.stage is WritingFormat || s.stage is ClearingMemory {
        lemma_format_actions(s, event);
    } else if s.stage is RunningTex || s.stage is ReadingTexOutput || s.stage is ReadingAux
        || s.stage is RunningBibtex || s.stage is ReadingBibtexOutput || s.stage
        is RunningXdvipdfmx || s.stage is RemovingXdv {
        lemma_pass_actions(s, event);
    } else {
        lemma_saving_actions(s, event);
    }
}

/// Whatever a session is told, the action that it asks for is as the settings say,
/// and what it knows changes in few ways.
pub proof fn law_actions_are_as_set<E>(s: SessionView<E>, event: EventView<E>)
    requires
        session_wf(s),
        answers(s, event),
    ensures
        is_as_set(s, event, next(s, event)),
        is_kept(s, event, next(s, event)),
{
    lemma_actions(s, event);
}

/// A session begins with a look for its format file, unless it is to make one; in
/// that case it begins with the engine that comes first.
pub proof fn law_sessions_begin_with_the_format<E>(t: StateView)
    ensures
        t.settings.output_format != OutputFormat::Format ==> begin::<E>(t).action == (ActionView::<
            E,
        >::OpenFormat {
            format: t.settings.format_path,
            layers: pass_layers(t.io.genuine_stdout, t.io.bundle is Some),
        }),
        t.settings.output_format == OutputFormat::Format && t.settings.pass
            != PassSetting::BibtexFirst ==> (begin::<E>(t).action matches ActionView::RunTex(task)
            && is_document_run(t, task)),
        t.settings.output_format == OutputFormat::Format && t.settings.pass
            == PassSetting::BibtexFirst ==> begin::<E>(t).action is RunBibtex,
        begin::<E>(t).session.state == t,
{
    law_layers_one_by_one(t.io.genuine_stdout, t.io.bundle is Some);
    reveal(course::begin_pass);
}

/// A format file that is there leads to the engine that comes first; one that is
/// not is made, if there is a bundle; and every file in memory that is one by its
/// name is stored, one after the other, before the memory is cleared.
pub proof fn law_formats_are_all_stored<E>(
    s: SessionView<E>,
    files: Seq<MemoryFileView>,
    at: int,
)
    requires
        s.stage is ListingFormats && at == -1 || s.stage == (StageView::<E>::WritingFormat {
            files,
            at,
        }) && 0 <= at < files.len(),
    ensures
        ({
            let turn = if s.stage is ListingFormats {
                next(s, EventView::Memory(files))
            } else {
                next(s, EventView::Io(Ok(())))
            };
            match turn.session.stage {
                StageView::WritingFormat { files: f, at: then } => {
                    &&& f == files
                    &&& at < then < files.len()
                    &&& is_named_fmt(files[then].name)
                    &&& turn.action matches ActionView::WriteFormat { contents, .. } && contents
                        == files[then].contents
                    &&& forall|i: int| at < i < then ==> !is_named_fmt((#[trigger] files[i]).name)
                },
                StageView::ClearingMemory => {
                    &&& turn.action is ClearMemory
                    &&& forall|i: int|
                        at < i < files.len() ==> !is_named_fmt((#[trigger] files[i]).name)
                },
                _ => false,
            }
        }),
{
    reveal(course::on_format_stored);
    reveal(course::store_format);
    lemma_next_format(files, at + 1);
    lemma_next_format_is_one(files, at + 1);
}

/// An event is an answer to an action: what belongs to it. A list of files that
/// are to be saved only holds files that are recorded.
pub open spec fn is_answer_to<E>(turn: Turn<E>, event: EventView<E>) -> bool {
    match turn.action {
        ActionView::OpenFormat { .. } => event is Format,
        ActionView::RunTex(_) => event is Engine,
        ActionView::RunBibtex { .. } => event is Engine,
        ActionView::RunXdvipdfmx { .. } => event is Engine,
        ActionView::ReadMemoryFile { .. } => event is MemoryFile,
        ActionView::ListMemory => event matches EventView::Memory(files) && (turn.session.stage
            is ListingFormats || forall|i: int|
            0 <= i < files.len() ==> (#[trigger] files[i]).name.len() == 0 || exists|j: int|
                0 <= j < turn.session.state.log.len() && (#[trigger] turn.session.state.log[j]).name
                    == files[i].name),
        ActionView::RemoveMemoryFile { .. } => event is Done,
        ActionView::ClearMemory => event is Done,
        ActionView::WriteFormat { .. } => event is Io,
        ActionView::CreateMakefile { .. } => event is Io,
        ActionView::WriteMakefile { .. } => event is Io,
        ActionView::SaveFile { .. } => event is Io,
        ActionView::Finish(_) => false,
    }
}

proof fn lemma_files_are_recorded(files: Seq<MemoryFileView>, log: Log)
    ensures
        crate::output::all_recorded(files, log) <==> forall|i: int|
            0 <= i < files.len() ==> (#[trigger] files[i]).name.len() == 0 || exists|j: int|
                0 <= j < log.len() && (#[trigger] log[j]).name == files[i].name,
{
    assert forall|i: int| 0 <= i < files.len() implies ((#[trigger] files[i]).name
        == crate::events::stdout_name() || is_recorded(log, files[i].name)) == (
    files[i].name.len() == 0 || exists|j: int|
        0 <= j < log.len() && (#[trigger] log[j]).name == files[i].name) by {
        let name = files[i].name;
        assert(name.len() == 0 ==> name =~= Seq::<u8>::empty());
        if is_recorded(log, name) {
            let at = choose|at: int| names_at(log, name, at);
            assert(log[at].name == name);
        }
        if exists|j: int| 0 <= j < log.len() && (#[trigger] log[j]).name == name {
            let j = choose|j: int| 0 <= j < log.len() && (#[trigger] log[j]).name == name;
            assert(names_at(log, name, j));
        }
    }
}

/// What a session takes as an answer is what belongs to the action that it asked
/// for, and all of that.
pub proof fn law_answers_belong_to_actions<E>(
    s: SessionView<E>,
    event: EventView<E>,
    answer: EventView<E>,
)
    requires
        session_wf(s),
        answers(s, event),
    ensures
        answers(next(s, event).session, answer) <==> is_answer_to(next(s, event), answer),
        answers(begin::<E>(s.state).session, answer) <==> is_answer_to(
            begin::<E>(s.state),
            answer,
        ),
{
    let turn = next(s, event);
    lemma_actions(s, event);
    reveal(course::begin_pass);
    if let EventView::Memory(files) = answer {
        lemma_files_are_recorded(files, turn.session.state.log);
    }
}

} // verus!
