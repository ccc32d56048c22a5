//! In which order things happen in a session, and what the user is told, turn by
//! turn.
use crate::course;
use crate::course::{
    begin, next, rerun_cause, rerun_warnings, Purpose, Round, SessionView, StageView, StateView,
    Turn,
};
use crate::events::{changed, first_changed, is_first_changed, Log};
use crate::makefile::rule_pieces;
use crate::message::MessageView;
use crate::output::MemoryFileView;
use crate::outside::utf8_lossy;
use crate::protocol::{ActionView, EngineReply, EventView, FailureView, FormatReply};
use crate::rerun_laws::{
    any_stale, holds_bibdata, is_stale, law_rerun_is_needed_if_a_file_is_stale, lemma_bibdata,
    lemma_stale_is_changed,
};
use crate::settings::{OutputFormat, PassSetting};
use crate::text::decimal_text;
use vstd::prelude::*;

verus! {

/// A message with a highlighted phrase.
pub open spec fn announcement(
    before: Seq<char>,
    phrase: Seq<char>,
    after: Seq<char>,
) -> MessageView {
    MessageView::Highlighted { before, phrase, after }
}

/// The outputs are seen to: the file for the Makefile rules is created first, if
/// there is to be one, and then the files in memory are listed.
pub open spec fn outputs_follow<E>(t: StateView, turn: Turn<E>) -> bool {
    match t.settings.makefile_output_path {
        Some(path) => turn.session.stage is CreatingMakefile && turn.action == (ActionView::<
            E,
        >::CreateMakefile { path }),
        None => turn.session.stage is ListingOutputs && turn.action is ListMemory,
    }
}

/// The runs of TeX are over: for a PDF file xdvipdfmx is run, and otherwise the
/// outputs are seen to.
pub open spec fn engines_end<E>(
    t: StateView,
    turn: Turn<E>,
    messages: Seq<MessageView>,
) -> bool {
    if t.settings.output_format == OutputFormat::Pdf {
        &&& turn.session.stage is RunningXdvipdfmx
        &&& turn.action is RunXdvipdfmx
        &&& turn.messages == messages.push(announcement("Running "@, "xdvipdfmx"@, " ..."@))
    } else {
        &&& outputs_follow(t, turn)
        &&& turn.messages == messages
    }
}

/// The TeX engine is rerun, and the user is told why.
pub open spec fn tex_is_rerun<E>(
    turn: Turn<E>,
    index: int,
    messages: Seq<MessageView>,
    why: Seq<char>,
) -> bool {
    &&& turn.session.stage matches StageView::RunningTex(Round::Rerun(number)) && number == index
    &&& turn.action is RunTex
    &&& turn.messages == messages.push(announcement("Rerunning "@, "TeX"@, why))
}

/// What the user is told of the warnings and errors of a run of the TeX engine.
pub open spec fn complaint_on_tex<E>(noted: bool, reply: EngineReply<E>) -> Seq<MessageView> {
    if noted {
        Seq::empty()
    } else {
        match reply {
            EngineReply::Warnings => seq![
                MessageView::Note(
                    "warnings were issued by the TeX engine; use --print and/or --keep-logs for details."@,
                ),
            ],
            EngineReply::Errors => seq![
                MessageView::Warning(
                    "errors were issued by the TeX engine, but were ignored; use --print and/or --keep-logs for details."@,
                ),
            ],
            _ => Seq::empty(),
        }
    }
}

/// What the user is told of the warnings and errors of a run of BibTeX.
pub open spec fn complaint_on_bibtex<E>(reply: EngineReply<E>) -> Seq<MessageView> {
    match reply {
        EngineReply::Warnings => seq![
            MessageView::Note(
                "warnings were issued by BibTeX; use --print and/or --keep-logs for details."@,
            ),
        ],
        EngineReply::Errors => seq![
            MessageView::Warning(
                "errors were issued by BibTeX, but were ignored; use --print and/or --keep-logs for details."@,
            ),
        ],
        _ => Seq::empty(),
    }
}

/// The first stale file in the record.
pub open spec fn is_first_stale(log: Log, at: int) -> bool {
    &&& 0 <= at < log.len()
    &&& is_stale(log[at])
    &&& forall|i: int| 0 <= i < at ==> !is_stale(#[trigger] log[i])
}

/// What the user is told of a stale file of which it is not known what was written.
pub open spec fn complaint_on_file(log: Log, at: int) -> Seq<MessageView> {
    if log[at].summary.write_digest is None {
        seq![
            MessageView::Warning(
                "internal consistency problem when checking if "@ + utf8_lossy(log[at].name)
                    + " changed"@,
            ),
        ]
    } else {
        Seq::empty()
    }
}

/// Why the TeX engine is rerun when a file is stale.
pub open spec fn because_of(name: Seq<u8>) -> Seq<char> {
    if utf8_lossy(name).len() == 0 {
        " because bibtex was run ..."@
    } else {
        " because \""@ + utf8_lossy(name) + "\" changed ..."@
    }
}

proof fn lemma_reasons(cause: Seq<char>)
    ensures
        " because "@ + "I was told to"@ + " ..."@ == " because I was told to ..."@,
        " because "@ + course::rerun_reason(Seq::empty()) + " ..."@
            == " because bibtex was run ..."@,
        cause.len() > 0 ==> " because "@ + course::rerun_reason(cause) + " ..."@
            == " because \""@ + cause + "\" changed ..."@,
{
    reveal_strlit(" because ");
    reveal_strlit("I was told to");
    reveal_strlit(" ...");
    reveal_strlit(" because I was told to ...");
    reveal_strlit("bibtex was run");
    reveal_strlit(" because bibtex was run ...");
    reveal_strlit(" because \"");
    reveal_strlit("\"");
    reveal_strlit("\" changed");
    reveal_strlit("\" changed ...");
    assert(" because "@ + "I was told to"@ + " ..."@ =~= " because I was told to ..."@);
    assert(" because "@ + "bibtex was run"@ + " ..."@ =~= " because bibtex was run ..."@);
    assert(" because "@ + ("\""@ + cause + "\" changed"@) + " ..."@ =~= " because \""@ + cause
        + "\" changed ..."@);
}

proof fn lemma_engines_done<E>(t: StateView, messages: Seq<MessageView>)
    ensures
        engines_end(t, course::engines_done::<E>(t, messages), messages),
{
    reveal(course::pass_done);
}

proof fn lemma_pass_done<E>(t: StateView, messages: Seq<MessageView>)
    ensures
        outputs_follow(t, course::pass_done::<E>(t, messages)),
        course::pass_done::<E>(t, messages).messages == messages,
        course::pass_done::<E>(t, messages).session.state == t,
{
    reveal(course::pass_done);
}

/// What follows in the rerun loop, for a cause that may be given.
spec fn loop_goes_on<E>(
    t: StateView,
    turn: Turn<E>,
    index: int,
    cause: Option<Seq<char>>,
    messages: Seq<MessageView>,
) -> bool {
    match (t.settings.tex_rerun_specification, cause) {
        (Some(count), _) => if index < count {
            tex_is_rerun(turn, index, messages, " because I was told to ..."@)
        } else {
            engines_end(t, turn, messages)
        },
        (None, Some(cause)) => if index < 6 {
            tex_is_rerun(
                turn,
                index,
                messages,
                if cause.len() == 0 {
                    " because bibtex was run ..."@
                } else {
                    " because \""@ + cause + "\" changed ..."@
                },
            )
        } else {
            engines_end(t, turn, messages)
        },
        (None, None) => engines_end(t, turn, messages),
    }
}

proof fn lemma_loop<E>(
    t: StateView,
    index: int,
    cause: Option<Seq<char>>,
    messages: Seq<MessageView>,
)
    requires
        0 <= index,
    ensures
        loop_goes_on(t, course::rerun::<E>(t, index, cause, messages), index, cause, messages),
{
    lemma_engines_done::<E>(t, messages);
    match cause {
        Some(cause) => {
            lemma_reasons(cause);
            if cause.len() == 0 {
                assert(cause =~= Seq::<char>::empty());
            }
        },
        None => {
            lemma_reasons(Seq::empty());
        },
    }
}

proof fn lemma_first_stale(log: Log, at: int)
    requires
        is_first_stale(log, at),
    ensures
        any_stale(log),
        first_changed(log) == at,
        rerun_cause(log) == Some(utf8_lossy(log[at].name)),
        rerun_warnings(log) == complaint_on_file(log, at),
{
    law_rerun_is_needed_if_a_file_is_stale(log);
    lemma_stale_is_changed(log[at]);
    assert forall|i: int| 0 <= i < at implies !changed(#[trigger] log[i].summary) by {
        assert(!is_stale(log[i]));
        lemma_stale_is_changed(log[i]);
    }
    assert(is_first_changed(log, at));
    let first = first_changed(log);
    assert(is_first_changed(log, first));
}

proof fn lemma_none_stale(log: Log)
    requires
        !any_stale(log),
    ensures
        rerun_cause(log) is None,
        rerun_warnings(log).len() == 0,
        !crate::events::any_changed(log),
{
    law_rerun_is_needed_if_a_file_is_stale(log);
}

/// A session first runs the engine that the pass setting names: the TeX engine only
/// once, the TeX engine for the first time, or BibTeX.
pub proof fn law_first_engine<E>(s: SessionView<E>)
    requires
        s.stage is OpeningFormat || s.stage is ClearingMemory,
    ensures
        ({
            let turn = if s.stage is OpeningFormat {
                next(s, EventView::Format(FormatReply::Available))
            } else {
                next(s, EventView::Done)
            };
            &&& turn.session.state == s.state
            &&& s.state.settings.pass == PassSetting::Tex ==> turn.session.stage
                == StageView::<E>::RunningTex(Round::Only) && turn.action is RunTex
            &&& s.state.settings.pass == PassSetting::Default ==> turn.session.stage
                == StageView::<E>::RunningTex(Round::First) && turn.action is RunTex
            &&& s.state.settings.pass == PassSetting::BibtexFirst ==> turn.session.stage
                is RunningBibtex && turn.action is RunBibtex
            &&& turn.messages == seq![
                announcement(
                    "Running "@,
                    if s.state.settings.pass == PassSetting::BibtexFirst {
                        "BibTeX"@
                    } else {
                        "TeX"@
                    },
                    " ..."@,
                ),
            ]
        }),
{
    reveal(course::on_format);
    reveal(course::begin_pass);
    let turn = if s.stage is OpeningFormat {
        next(s, EventView::Format(FormatReply::Available))
    } else {
        next(s, EventView::Done)
    };
    assert(turn.messages =~= seq![turn.messages.last()]);
}

/// A session that makes a format file runs the same engine first, without a look
/// for a format file.
pub proof fn law_first_engine_without_a_format<E>(t: StateView)
    requires
        t.settings.output_format == OutputFormat::Format,
    ensures
        begin::<E>(t) == next(
            SessionView { state: t, stage: StageView::<E>::ClearingMemory },
            EventView::Done,
        ),
{
}

/// The only run of the TeX engine is followed by the outputs, and the first one by
/// a look at the `.aux` file. The user is told of warnings and errors, unless that
/// was told before.
pub proof fn law_after_a_first_run<E>(s: SessionView<E>, reply: EngineReply<E>)
    requires
        s.stage == StageView::<E>::RunningTex(Round::Only) || s.stage == StageView::<
            E,
        >::RunningTex(Round::First),
        !(reply is Failed),
    ensures
        ({
            let t = s.state;
            let turn = next(s, EventView::Engine(reply));
            &&& turn.messages == complaint_on_tex(t.noted_tex_warnings, reply)
            &&& turn.session.state == (StateView {
                noted_tex_warnings: t.noted_tex_warnings || reply is Warnings || reply is Errors,
                ..t
            })
            &&& s.stage == StageView::<E>::RunningTex(Round::Only) ==> outputs_follow(t, turn)
            &&& s.stage == StageView::<E>::RunningTex(Round::First) ==> turn.session.stage
                is ReadingAux && turn.action is ReadMemoryFile
        }),
{
    reveal(course::on_tex);
    reveal(course::pass_done);
}

/// A rerun is followed by another one as often as the user says; the count goes up
/// by one each time.
pub proof fn law_after_a_rerun_as_told<E>(
    s: SessionView<E>,
    index: usize,
    count: usize,
    reply: EngineReply<E>,
)
    requires
        s.stage == StageView::<E>::RunningTex(Round::Rerun(index)),
        s.state.settings.tex_rerun_specification == Some(count),
        !(reply is Failed),
    ensures
        ({
            let turn = next(s, EventView::Engine(reply));
            let told = complaint_on_tex(s.state.noted_tex_warnings, reply);
            &&& index + 1 < count ==> tex_is_rerun(
                turn,
                index + 1,
                told,
                " because I was told to ..."@,
            )
            &&& index + 1 >= count ==> engines_end(s.state, turn, told)
        }),
{
    reveal(course::on_tex);
    let told = complaint_on_tex(s.state.noted_tex_warnings, reply);
    let noted = StateView { noted_tex_warnings: true, ..s.state };
    lemma_loop::<E>(s.state, index + 1, None, told);
    lemma_loop::<E>(noted, index + 1, None, told);
}

/// A rerun is followed by another one as long as some file is stale, and six times
/// at most; the user is told which file it is, and in the end that it is enough.
pub proof fn law_after_a_rerun_with_a_stale_file<E>(
    s: SessionView<E>,
    index: usize,
    at: int,
    reply: EngineReply<E>,
)
    requires
        s.stage == StageView::<E>::RunningTex(Round::Rerun(index)),
        s.state.settings.tex_rerun_specification is None,
        index < 6,
        is_first_stale(s.state.log, at),
        !(reply is Failed),
    ensures
        ({
            let turn = next(s, EventView::Engine(reply));
            let told = complaint_on_tex(s.state.noted_tex_warnings, reply) + complaint_on_file(
                s.state.log,
                at,
            );
            &&& index + 1 < 6 ==> tex_is_rerun(
                turn,
                index + 1,
                told,
                because_of(s.state.log[at].name),
            )
            &&& index + 1 == 6 ==> engines_end(
                s.state,
                turn,
                told.push(
                    MessageView::Warning("TeX rerun seems needed, but stopping at 6 passes"@),
                ),
            )
        }),
{
    reveal(course::on_tex);
    let log = s.state.log;
    lemma_first_stale(log, at);
    let told = complaint_on_tex(s.state.noted_tex_warnings, reply) + complaint_on_file(log, at);
    let noted = StateView { noted_tex_warnings: true, ..s.state };
    lemma_loop::<E>(s.state, index + 1, rerun_cause(log), told);
    lemma_loop::<E>(noted, index + 1, rerun_cause(log), told);
    lemma_engines_done::<E>(s.state, told.push(course::enough_message()));
    lemma_engines_done::<E>(noted, told.push(course::enough_message()));
    lemma_enough();
}

proof fn lemma_enough()
    ensures
        course::enough_message() == MessageView::Warning(
            "TeX rerun seems needed, but stopping at 6 passes"@,
        ),
{
    reveal_strlit("TeX rerun seems needed, but stopping at ");
    reveal_strlit(" passes");
    reveal_strlit("TeX rerun seems needed, but stopping at 6 passes");
    assert(decimal_text(6) =~= seq!['6']);
    assert("TeX rerun seems needed, but stopping at "@ + decimal_text(6) + " passes"@
        =~= "TeX rerun seems needed, but stopping at 6 passes"@);
}

/// A rerun is the last one if no file is stale.
pub proof fn law_after_a_rerun_without_stale_files<E>(
    s: SessionView<E>,
    index: usize,
    reply: EngineReply<E>,
)
    requires
        s.stage == StageView::<E>::RunningTex(Round::Rerun(index)),
        s.state.settings.tex_rerun_specification is None,
        !any_stale(s.state.log),
        !(reply is Failed),
    ensures
        engines_end(
            s.state,
            next(s, EventView::Engine(reply)),
            complaint_on_tex(s.state.noted_tex_warnings, reply),
        ),
{
    reveal(course::on_tex);
    let log = s.state.log;
    lemma_none_stale(log);
    let told = complaint_on_tex(s.state.noted_tex_warnings, reply);
    let noted = StateView { noted_tex_warnings: true, ..s.state };
    assert(told + rerun_warnings(log) =~= told);
    lemma_loop::<E>(s.state, index + 1, None, told);
    lemma_loop::<E>(noted, index + 1, None, told);
}

/// What follows the look at the `.aux` file.
pub proof fn law_after_the_aux_file<E>(s: SessionView<E>, aux: Option<Seq<u8>>, at: int)
    requires
        s.stage is ReadingAux,
        is_first_stale(s.state.log, at) || !any_stale(s.state.log),
    ensures
        ({
            let t = s.state;
            let turn = next(s, EventView::MemoryFile(aux));
            let none = Seq::<MessageView>::empty();
            let told = if any_stale(t.log) {
                complaint_on_file(t.log, at)
            } else {
                none
            };
            if aux matches Some(contents) && holds_bibdata(contents) {
                &&& turn.session.stage is RunningBibtex
                &&& turn.action is RunBibtex
                &&& turn.messages == seq![announcement("Running "@, "BibTeX"@, " ..."@)]
            } else if t.settings.tex_rerun_specification == Some(0usize) {
                engines_end(t, turn, told)
            } else if t.settings.tex_rerun_specification is Some {
                tex_is_rerun(turn, 0, told, " because I was told to ..."@)
            } else if any_stale(t.log) {
                tex_is_rerun(turn, 0, told, because_of(t.log[at].name))
            } else {
                engines_end(t, turn, none)
            }
        }),
{
    let t = s.state;
    reveal(course::on_aux);
    if let Some(contents) = aux {
        lemma_bibdata(contents);
    }
    if any_stale(t.log) {
        lemma_first_stale(t.log, at);
    } else {
        lemma_none_stale(t.log);
        assert(rerun_warnings(t.log) =~= Seq::<MessageView>::empty());
    }
    lemma_loop::<E>(t, 0, rerun_cause(t.log), rerun_warnings(t.log));
}

/// After a run of BibTeX the TeX engine is run, unless the user says that it is not
/// to be rerun.
pub proof fn law_after_bibtex<E>(s: SessionView<E>, reply: EngineReply<E>)
    requires
        s.stage is RunningBibtex,
        !(reply is Failed),
    ensures
        ({
            let turn = next(s, EventView::Engine(reply));
            let told = complaint_on_bibtex(reply);
            match s.state.settings.tex_rerun_specification {
                Some(count) => if count > 0 {
                    tex_is_rerun(turn, 0, told, " because I was told to ..."@)
                } else {
                    engines_end(s.state, turn, told)
                },
                None => tex_is_rerun(turn, 0, told, " because bibtex was run ..."@),
            }
        }),
{
    reveal(course::on_bibtex);
    lemma_loop::<E>(s.state, 0, Some(Seq::empty()), complaint_on_bibtex(reply));
}

/// After a run of xdvipdfmx its input is removed from memory, and then the outputs
/// are seen to.
pub proof fn law_after_xdvipdfmx<E>(s: SessionView<E>, reply: EngineReply<E>)
    requires
        !(reply is Failed),
    ensures
        s.stage is RunningXdvipdfmx ==> ({
            let turn = next(s, EventView::Engine(reply));
            &&& turn.session.stage is RemovingXdv
            &&& turn.action is RemoveMemoryFile
            &&& turn.messages.len() == 0
            &&& turn.session.state == s.state
        }),
        s.stage is RemovingXdv ==> outputs_follow(s.state, next(s, EventView::Done)),
        s.stage is RemovingXdv ==> next(s, EventView::Done).messages.len() == 0,
{
    reveal(course::on_xdvipdfmx);
    lemma_pass_done::<E>(s.state, Seq::empty());
}

/// Once the file for the Makefile rules is there, the files in memory are listed; if
/// it cannot be created, the session ends with that error.
pub proof fn law_after_the_makefile<E>(s: SessionView<E>, result: Result<(), E>)
    requires
        s.stage is CreatingMakefile,
    ensures
        ({
            let turn = next(s, EventView::Io(result));
            &&& turn.messages.len() == 0
            &&& match result {
                Ok(_) => turn.session.stage is ListingOutputs && turn.action is ListMemory,
                Err(error) => turn.action == ActionView::<E>::Finish(
                    Err(FailureView::Outside(error)),
                ),
            }
        }),
{
}

/// When an engine gives up, what it printed is asked for; but after xdvipdfmx the
/// logs are seen to at once.
pub proof fn law_after_an_engine_gave_up<E>(s: SessionView<E>, error: E)
    ensures
        ({
            let turn = next(s, EventView::Engine(EngineReply::Failed(error)));
            &&& s.stage is RunningTex ==> turn.session.stage == StageView::ReadingTexOutput(error)
                && turn.action is ReadMemoryFile && turn.messages.len() == 0
            &&& s.stage is RunningBibtex ==> turn.session.stage == StageView::ReadingBibtexOutput(
                error,
            ) && turn.action is ReadMemoryFile && turn.messages.len() == 0
            &&& s.stage is GeneratingFormat ==> turn.session.stage
                == StageView::ReadingFormatOutput(error) && turn.action is ReadMemoryFile
                && turn.messages.len() == 0
            &&& s.stage is RunningXdvipdfmx ==> turn.session.stage == StageView::ListingLogs(error)
                && turn.action is ListMemory && turn.messages.len() == 0
        }),
{
    reveal(course::on_tex);
    reveal(course::on_bibtex);
    reveal(course::on_format_made);
    reveal(course::on_xdvipdfmx);
}

/// What the user is shown of what an engine printed before it gave up.
pub open spec fn shown_output(engine: Seq<char>, output: Option<Seq<u8>>) -> Seq<MessageView> {
    let ruler = MessageView::ErrorStyled(
        "==============================================================================="@,
    );
    match output {
        Some(bytes) => seq![
            MessageView::Error(
                "something bad happened inside "@ + engine + "; its output follows:\n"@,
            ),
            ruler,
            MessageView::Dump(bytes),
            ruler,
            MessageView::ErrorStyled(""@),
        ],
        None => Seq::empty(),
    }
}

/// What an engine printed before it gave up is shown, with the name of the engine;
/// then the logs are seen to, or the session ends with the error if a format file
/// was to be made.
pub proof fn law_after_the_output_of_an_engine<E>(
    s: SessionView<E>,
    error: E,
    output: Option<Seq<u8>>,
)
    ensures
        ({
            let turn = next(s, EventView::MemoryFile(output));
            &&& s.stage == StageView::ReadingTexOutput(error) ==> turn.session.stage
                == StageView::ListingLogs(error) && turn.action is ListMemory && turn.messages
                == shown_output("TeX"@, output)
            &&& s.stage == StageView::ReadingBibtexOutput(error) ==> turn.session.stage
                == StageView::ListingLogs(error) && turn.action is ListMemory && turn.messages
                == shown_output("BibTeX"@, output)
            &&& s.stage == StageView::ReadingFormatOutput(error) ==> turn.session.stage is Finished
                && turn.action == ActionView::<E>::Finish(Err(FailureView::Outside(error)))
                && turn.messages == shown_output("TeX"@, output)
        }),
{
}

/// A format file that is not there is made from the bundle, and the user is told;
/// without a bundle the session is refused. A format file that cannot be opened
/// ends the session.
pub proof fn law_missing_format_is_made<E>(s: SessionView<E>)
    requires
        s.stage is OpeningFormat,
    ensures
        ({
            let turn = next(s, EventView::Format(FormatReply::NotAvailable));
            &&& turn.messages == seq![
                MessageView::Note(
                    "generating format \""@ + s.state.settings.format_path + "\""@,
                ),
            ]
            &&& s.state.io.bundle is Some ==> turn.session.stage is GeneratingFormat && turn.action
                is RunTex
            &&& s.state.io.bundle is None ==> turn.action == ActionView::<E>::Finish(
                Err(FailureView::Refused("cannot create formats without using a bundle"@)),
            )
        }),
        forall|error: E|
            (#[trigger] next(s, EventView::Format(FormatReply::Failed(error)))).action
                == ActionView::<E>::Finish(
                Err(
                    FailureView::InContext {
                        error,
                        context: "could not open format file "@ + s.state.settings.format_path,
                    },
                ),
            ),
{
    reveal(course::on_format);
}

/// A format file that was made without errors is looked for in memory; one that was
/// made with errors is not used, and the session ends.
pub proof fn law_after_a_format_was_made<E>(s: SessionView<E>)
    requires
        s.stage is GeneratingFormat,
    ensures
        ({
            let spotless = next(s, EventView::Engine(EngineReply::Spotless));
            let warnings = next(s, EventView::Engine(EngineReply::Warnings));
            let errors = next(s, EventView::Engine(EngineReply::Errors));
            &&& spotless.session.stage is ListingFormats && spotless.action is ListMemory
            &&& spotless.messages.len() == 0
            &&& warnings.session.stage is ListingFormats && warnings.action is ListMemory
            &&& warnings.messages == seq![
                MessageView::Warning(
                    "warnings were issued by the TeX engine; use --print and/or --keep-logs for details."@,
                ),
            ]
            &&& errors.action == ActionView::<E>::Finish(
                Err(FailureView::Refused("unhandled TeX engine error"@)),
            )
            &&& errors.messages == seq![
                MessageView::Error(
                    "errors were issued by the TeX engine; use --print and/or --keep-logs for details."@,
                ),
            ]
        }),
{
    reveal(course::on_format_made);
}

/// A write that fails ends the session with that error; the user is told what was
/// to be written, if it was a format file or Makefile rules.
pub proof fn law_failed_writes_say_what_failed<E>(s: SessionView<E>, error: E)
    ensures
        ({
            let turn = next(s, EventView::Io(Err(error)));
            &&& s.stage matches StageView::WritingFormat { files, at } ==> turn.action
                == ActionView::<E>::Finish(
                Err(
                    FailureView::InContext {
                        error,
                        context: "cannot write format file "@ + utf8_lossy(files[at].name),
                    },
                ),
            )
            &&& s.stage is SavingFile ==> turn.action == ActionView::<E>::Finish(
                Err(FailureView::Outside(error)),
            )
            &&& s.stage is WritingTarget ==> turn.action == ActionView::<E>::Finish(
                Err(
                    FailureView::InContext {
                        error,
                        context: "couldn't write to Makefile-rules file"@,
                    },
                ),
            )
        }),
{
    reveal(course::on_format_stored);
    reveal(course::on_saved);
}

/// When nothing is left to be saved, a session that failed ends with its error; one
/// that did not ends with success, unless there are Makefile rules to be written.
pub proof fn law_end_of_the_saving<E>(
    s: SessionView<E>,
    purpose: Purpose<E>,
    files: Seq<MemoryFileView>,
)
    requires
        s.stage is ListingOutputs && purpose is Outputs || (purpose matches Purpose::Logs(error)
            && s.stage == StageView::ListingLogs(error)),
        !(next(s, EventView::Memory(files)).session.stage is SavingFile),
    ensures
        ({
            let turn = next(s, EventView::Memory(files));
            let pieces = rule_pieces(
                s.state.settings.primary_input_path,
                s.state.io.filesystem_root,
                s.state.log,
            );
            match purpose {
                Purpose::Logs(error) => turn.action == ActionView::<E>::Finish(
                    Err(FailureView::Outside(error)),
                ),
                Purpose::Outputs => if s.state.settings.makefile_output_path is Some {
                    &&& pieces.len() > 0
                    &&& turn.action == (ActionView::<E>::WriteMakefile { data: pieces[0].data })
                    &&& turn.session.stage == (StageView::<E>::WritingRule {
                        rest: pieces.drop_first(),
                    })
                } else {
                    turn.action == ActionView::<E>::Finish(Ok(0))
                },
            }
        }),
{
    reveal(course::save_next);
}

} // verus!
