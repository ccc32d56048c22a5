//! What holds of every session, whatever it is told.
use crate::access_laws::{after_events, can_all_happen};
use crate::course;
use crate::course::{
    answers, begin, next, rerun_limit, session_wf, Purpose, Round, SessionView, Settings, StageView,
    StateView, Turn, DEFAULT_MAX_TEX_PASSES,
};
use crate::events::{
    after_event, after_reads_cleared, after_written_to_disk, any_changed, distinct_names,
    is_recorded, names_at, place_of, IoEventView, Log,
};
use crate::io_setup::{format_layers, session_layers, IoLayer};
use crate::message::MessageView;
use crate::output::{
    all_recorded, file_fate, lemma_recorded_stays_on_save, survey, FileFate, MemoryFileView,
    OutputRules,
};
use crate::protocol::{ActionView, EngineReply, EventView};
use crate::settings::{OutputFormat, PassSetting};
use vstd::prelude::*;

verus! {

/// What happens between two turns of a session: the engines access files, and
/// then the session is told what came of its last action.
pub ghost struct Input<E> {
    pub accesses: Seq<IoEventView>,
    pub event: EventView<E>,
}

/// The session once the accesses of an input are recorded.
pub open spec fn with_accesses<E>(s: SessionView<E>, accesses: Seq<IoEventView>) -> SessionView<E> {
    SessionView {
        state: StateView { log: after_events(s.state.log, accesses), ..s.state },
        ..s
    }
}

/// The input is one that can come next.
pub open spec fn fits<E>(s: SessionView<E>, input: Input<E>) -> bool {
    can_all_happen(s.state.log, input.accesses) && answers(
        with_accesses(s, input.accesses),
        input.event,
    )
}

/// The turn that follows.
pub open spec fn turn_after<E>(turn: Turn<E>, input: Input<E>) -> Turn<E> {
    next(with_accesses(turn.session, input.accesses), input.event)
}

/// The inputs are ones that can come one after the other.
pub open spec fn all_fit<E>(turn: Turn<E>, inputs: Seq<Input<E>>) -> bool
    decreases inputs.len(),
{
    inputs.len() == 0 || (fits(turn.session, inputs[0]) && all_fit(
        turn_after(turn, inputs[0]),
        inputs.drop_first(),
    ))
}

/// The last turn.
pub open spec fn last_turn<E>(turn: Turn<E>, inputs: Seq<Input<E>>) -> Turn<E>
    decreases inputs.len(),
{
    if inputs.len() == 0 {
        turn
    } else {
        last_turn(turn_after(turn, inputs[0]), inputs.drop_first())
    }
}

/// All actions, from the given turn on.
pub open spec fn actions<E>(turn: Turn<E>, inputs: Seq<Input<E>>) -> Seq<ActionView<E>>
    decreases inputs.len(),
{
    if inputs.len() == 0 {
        seq![turn.action]
    } else {
        seq![turn.action] + actions(turn_after(turn, inputs[0]), inputs.drop_first())
    }
}

/// All that the user is told, from the given turn on.
pub open spec fn told<E>(turn: Turn<E>, inputs: Seq<Input<E>>) -> Seq<MessageView>
    decreases inputs.len(),
{
    if inputs.len() == 0 {
        turn.messages
    } else {
        turn.messages + told(turn_after(turn, inputs[0]), inputs.drop_first())
    }
}

/// A run of the TeX engine on the main input.
pub open spec fn is_tex_run<E>(action: ActionView<E>) -> bool {
    match action {
        ActionView::RunTex(task) => task.layers.contains(IoLayer::PrimaryInput),
        _ => false,
    }
}

/// How often engines were run.
pub ghost struct Tally {
    pub tex: nat,
    pub bibtex: nat,
    pub xdvipdfmx: nat,
}

/// The tally with one more action.
pub open spec fn tally_with<E>(tally: Tally, action: ActionView<E>) -> Tally {
    Tally {
        tex: tally.tex + if is_tex_run(action) {
            1nat
        } else {
            0nat
        },
        bibtex: tally.bibtex + if action is RunBibtex {
            1nat
        } else {
            0nat
        },
        xdvipdfmx: tally.xdvipdfmx + if action is RunXdvipdfmx {
            1nat
        } else {
            0nat
        },
    }
}

/// How often engines were run in all the actions.
pub open spec fn tally_of<E>(before: Tally, actions: Seq<ActionView<E>>) -> Tally
    decreases actions.len(),
{
    if actions.len() == 0 {
        before
    } else {
        tally_of(tally_with(before, actions[0]), actions.drop_first())
    }
}

/// No engine was run.
pub open spec fn no_runs() -> Tally {
    Tally { tex: 0, bibtex: 0, xdvipdfmx: 0 }
}

/// How often the TeX engine is run before the rerun loop.
pub open spec fn runs_before_loop(settings: Settings) -> nat {
    if settings.pass == PassSetting::BibtexFirst {
        0
    } else {
        1
    }
}

/// How often engines are run in a session that succeeds: just TeX, once, if the
/// settings say so; and otherwise TeX as often as they say, or else at least once
/// and up to the limit; BibTeX at most once, and surely if it comes first; and
/// xdvipdfmx for a PDF file.
pub open spec fn is_complete_tally(settings: Settings, tally: Tally) -> bool {
    if settings.pass == PassSetting::Tex {
        tally == Tally { tex: 1, bibtex: 0, xdvipdfmx: 0 }
    } else {
        &&& runs_before_loop(settings) <= tally.tex <= runs_before_loop(settings) + rerun_limit(
            settings,
        )
        &&& settings.tex_rerun_specification matches Some(count) ==> tally.tex
            == runs_before_loop(settings) + count
        &&& settings.tex_rerun_specification is None ==> tally.tex >= 1
        &&& tally.bibtex <= 1
        &&& settings.pass == PassSetting::BibtexFirst ==> tally.bibtex == 1
        &&& tally.xdvipdfmx == if settings.output_format == OutputFormat::Pdf {
            1nat
        } else {
            0nat
        }
    }
}

/// How often engines are run in any session.
pub open spec fn is_bounded_tally(settings: Settings, tally: Tally) -> bool {
    &&& tally.tex <= runs_before_loop(settings) + rerun_limit(settings)
    &&& tally.bibtex <= 1
    &&& tally.xdvipdfmx <= 1
}

/// How often engines have been run when no rerun of TeX is to follow.
pub open spec fn is_tally_after_loop(settings: Settings, tally: Tally) -> bool {
    &&& settings.pass != PassSetting::Tex
    &&& is_complete_tally(
        settings,
        Tally {
            xdvipdfmx: if settings.output_format == OutputFormat::Pdf {
                1
            } else {
                0
            },
            ..tally
        },
    )
    &&& tally.xdvipdfmx == 0
}

/// How often engines have been run when a rerun of TeX may follow.
pub open spec fn is_tally_in_loop(settings: Settings, tally: Tally, index: int) -> bool {
    &&& settings.pass != PassSetting::Tex
    &&& 0 <= index <= rerun_limit(settings)
    &&& tally.tex == runs_before_loop(settings) + index
    &&& tally.bibtex <= 1
    &&& settings.pass == PassSetting::BibtexFirst ==> tally.bibtex == 1
    &&& tally.xdvipdfmx == 0
}

/// How often engines have been run when a session is in a stage.
pub open spec fn is_tally_at<E>(settings: Settings, turn: Turn<E>, tally: Tally) -> bool {
    &&& is_bounded_tally(settings, tally)
    &&& turn.action is Finish ==> turn.session.stage is Finished
    &&& match turn.session.stage {
        StageView::Ready => tally == no_runs(),
        StageView::OpeningFormat => tally == no_runs(),
        StageView::GeneratingFormat => tally == no_runs(),
        StageView::ReadingFormatOutput(_) => true,
        StageView::ListingFormats => tally == no_runs(),
        StageView::WritingFormat { .. } => tally == no_runs(),
        StageView::ClearingMemory => tally == no_runs(),
        StageView::RunningTex(Round::Only) => settings.pass == PassSetting::Tex && tally == (
        Tally { tex: 1, bibtex: 0, xdvipdfmx: 0 }),
        StageView::RunningTex(Round::First) => settings.pass == PassSetting::Default && tally == (
        Tally { tex: 1, bibtex: 0, xdvipdfmx: 0 }),
        StageView::RunningTex(Round::Rerun(index)) => {
            &&& settings.pass != PassSetting::Tex
            &&& tally.tex == runs_before_loop(settings) + index + 1
            &&& settings.pass == PassSetting::BibtexFirst ==> tally.bibtex == 1
            &&& tally.xdvipdfmx == 0
        },
        StageView::ReadingTexOutput(_) => true,
        StageView::ReadingAux => settings.pass == PassSetting::Default && tally == (Tally {
            tex: 1,
            bibtex: 0,
            xdvipdfmx: 0,
        }),
        StageView::RunningBibtex => settings.pass != PassSetting::Tex && tally == (Tally {
            tex: runs_before_loop(settings),
            bibtex: 1,
            xdvipdfmx: 0,
        }),
        StageView::ReadingBibtexOutput(_) => true,
        StageView::RunningXdvipdfmx => is_complete_tally(settings, tally),
        StageView::RemovingXdv => is_complete_tally(settings, tally),
        StageView::ListingLogs(_) => true,
        StageView::CreatingMakefile => is_complete_tally(settings, tally),
        StageView::ListingOutputs => is_complete_tally(settings, tally),
        StageView::SavingFile { purpose, .. } => purpose is Outputs ==> is_complete_tally(
            settings,
            tally,
        ),
        StageView::WritingTarget { .. } => is_complete_tally(settings, tally),
        StageView::WritingRule { .. } => is_complete_tally(settings, tally),
        StageView::Finished => turn.action matches ActionView::Finish(Ok(_)) ==> is_complete_tally(
            settings,
            tally,
        ),
    }
}

/// A turn keeps the settings and leads to one of the states of a session; and
/// the engines have been run as often as the stage tells.
pub open spec fn is_good_turn<E>(before: StateView, turn: Turn<E>, tally: Tally) -> bool {
    &&& turn.session.state.settings == before.settings
    &&& session_wf(turn.session)
    &&& is_tally_at(before.settings, turn, tally_with(tally, turn.action))
}

/// The main input and the filesystem are part of the stack for the passes, and
/// not of the one for the making of a format file: only the bundle has an
/// effect on a format.
pub proof fn law_format_comes_from_bundle(genuine_stdout: bool, bundle: bool)
    ensures
        session_layers(genuine_stdout, bundle).contains(IoLayer::PrimaryInput),
        session_layers(genuine_stdout, bundle).contains(IoLayer::Filesystem),
        !format_layers(genuine_stdout, bundle).contains(IoLayer::PrimaryInput),
        !format_layers(genuine_stdout, bundle).contains(IoLayer::Filesystem),
{
    let layers = session_layers(genuine_stdout, bundle);
    let first: int = if genuine_stdout {
        1
    } else {
        0
    };
    assert(layers[first] == IoLayer::PrimaryInput);
    assert(layers[first + 2] == IoLayer::Filesystem);
}

proof fn lemma_pass_done<E>(t: StateView, messages: Seq<MessageView>, tally: Tally)
    requires
        distinct_names(t.log),
        is_bounded_tally(t.settings, tally),
        is_complete_tally(t.settings, tally),
    ensures
        is_good_turn(t, course::pass_done::<E>(t, messages), tally),
{
    reveal(course::pass_done);
}

proof fn lemma_engines_done<E>(t: StateView, messages: Seq<MessageView>, tally: Tally)
    requires
        distinct_names(t.log),
        is_tally_after_loop(t.settings, tally),
    ensures
        is_good_turn(t, course::engines_done::<E>(t, messages), tally),
{
    if t.settings.output_format != OutputFormat::Pdf {
        lemma_pass_done::<E>(t, messages, tally);
    }
}

proof fn lemma_rerun<E>(
    t: StateView,
    index: int,
    cause: Option<Seq<char>>,
    messages: Seq<MessageView>,
    tally: Tally,
)
    requires
        distinct_names(t.log),
        is_tally_in_loop(t.settings, tally, index),
        cause is None ==> tally.tex >= 1,
    ensures
        is_good_turn(t, course::rerun::<E>(t, index, cause, messages), tally),
{
    law_format_comes_from_bundle(t.io.genuine_stdout, t.io.bundle is Some);
    lemma_cleared_names_distinct(t.log);
    if index >= rerun_limit(t.settings) || (t.settings.tex_rerun_specification is None && cause
        is None) {
        lemma_engines_done::<E>(t, messages, tally);
    }
}

proof fn lemma_cleared_names_distinct(log: Log)
    requires
        distinct_names(log),
    ensures
        distinct_names(after_reads_cleared(log)),
{
    let after = after_reads_cleared(log);
    assert(forall|i: int| 0 <= i < log.len() ==> #[trigger] after[i].name == log[i].name);
}

proof fn lemma_begin_pass<E>(t: StateView, messages: Seq<MessageView>)
    requires
        distinct_names(t.log),
    ensures
        is_good_turn(t, course::begin_pass::<E>(t, messages), no_runs()),
{
    reveal(course::begin_pass);
    law_format_comes_from_bundle(t.io.genuine_stdout, t.io.bundle is Some);
}

proof fn lemma_on_tex<E>(t: StateView, round: Round, reply: EngineReply<E>, tally: Tally)
    requires
        distinct_names(t.log),
        is_tally_at(
            t.settings,
            course::turn_to::<E>(
                t,
                StageView::RunningTex(round),
                Seq::empty(),
                ActionView::ListMemory,
            ),
            tally,
        ),
        round matches Round::Rerun(index) ==> index < rerun_limit(t.settings),
    ensures
        is_good_turn(t, course::on_tex(t, round, reply), tally),
{
    reveal(course::on_tex);
    let noted = StateView { noted_tex_warnings: true, ..t };
    assert forall|told: Seq<MessageView>, state: StateView|
        state == t || state == noted implies is_good_turn(
        t,
        #[trigger] course::after_tex::<E>(state, round, told),
        tally,
    ) by {
        lemma_after_tex::<E>(state, round, told, tally);
    }
}

proof fn lemma_after_tex<E>(t: StateView, round: Round, messages: Seq<MessageView>, tally: Tally)
    requires
        distinct_names(t.log),
        is_tally_at(
            t.settings,
            course::turn_to::<E>(
                t,
                StageView::RunningTex(round),
                Seq::empty(),
                ActionView::ListMemory,
            ),
            tally,
        ),
        round matches Round::Rerun(index) ==> index < rerun_limit(t.settings),
    ensures
        is_good_turn(t, course::after_tex::<E>(t, round, messages), tally),
{
    match round {
        Round::Only => {
            lemma_pass_done::<E>(t, messages, tally);
        },
        Round::First => {},
        Round::Rerun(index) => {
            let warned = messages + course::rerun_warnings(t.log);
            if t.settings.tex_rerun_specification is Some {
                lemma_rerun::<E>(t, index + 1, None, messages, tally);
            } else if any_changed(t.log) && index == DEFAULT_MAX_TEX_PASSES - 1 {
                lemma_engines_done::<E>(t, warned.push(course::enough_message()), tally);
            } else {
                lemma_rerun::<E>(t, index + 1, course::rerun_cause(t.log), warned, tally);
            }
        },
    }
}

pub proof fn lemma_survey(rules: OutputRules, files: Seq<MemoryFileView>, log: Log, from: int)
    requires
        0 <= from <= files.len(),
    ensures
        from <= survey(rules, files, log, from).at <= files.len(),
        survey(rules, files, log, from).skipped <= survey(rules, files, log, from).at - from,
        survey(rules, files, log, from).at < files.len() ==> file_fate(
            rules,
            files[survey(rules, files, log, from).at],
            log,
        ) == FileFate::Saved,
        forall|i: int|
            from <= i < survey(rules, files, log, from).at ==> file_fate(
                rules,
                #[trigger] files[i],
                log,
            ) != FileFate::Saved,
    decreases files.len() - from,
{
    if from < files.len() && file_fate(rules, files[from], log) != FileFate::Saved {
        lemma_survey(rules, files, log, from + 1);
    }
}

proof fn lemma_save_next<E>(
    t: StateView,
    purpose: Purpose<E>,
    files: Seq<MemoryFileView>,
    from: int,
    skipped: nat,
    tally: Tally,
)
    requires
        distinct_names(t.log),
        0 <= from <= files.len(),
        skipped <= from,
        all_recorded(files, t.log),
        is_bounded_tally(t.settings, tally),
        purpose is Outputs ==> is_complete_tally(t.settings, tally),
    ensures
        is_good_turn(t, course::save_next(t, purpose, files, from, skipped), tally),
{
    reveal(course::save_next);
    lemma_survey(course::output_rules(t.settings, purpose), files, t.log, from);
}

proof fn lemma_on_saved<E>(
    t: StateView,
    purpose: Purpose<E>,
    files: Seq<MemoryFileView>,
    at: int,
    skipped: nat,
    result: Result<(), E>,
    tally: Tally,
)
    requires
        distinct_names(t.log),
        course::saving_wf(files, t.log, at, skipped),
        is_bounded_tally(t.settings, tally),
        purpose is Outputs ==> is_complete_tally(t.settings, tally),
    ensures
        is_good_turn(t, course::on_saved(t, purpose, files, at, skipped, result), tally),
{
    reveal(course::on_saved);
    let name = files[at].name;
    let log = after_written_to_disk(t.log, name);
    let marked = StateView { log, ..t };
    assert(is_recorded(t.log, name));
    assert(names_at(t.log, name, place_of(t.log, name)));
    assert(forall|i: int| 0 <= i < t.log.len() ==> #[trigger] log[i].name == t.log[i].name);
    lemma_recorded_stays_on_save(files, t.log, name);
    lemma_save_next(marked, purpose, files, at + 1, skipped, tally);
}

pub proof fn lemma_next_format(files: Seq<MemoryFileView>, from: int)
    requires
        0 <= from <= files.len(),
    ensures
        from <= course::next_format(files, from) <= files.len(),
    decreases files.len() - from,
{
    if from < files.len() && !course::is_format_name(files[from].name) {
        lemma_next_format(files, from + 1);
    }
}

/// A turn while the format file is seen to.
proof fn lemma_format_turn<E>(s: SessionView<E>, event: EventView<E>)
    requires
        session_wf(s),
        answers(s, event),
        s.stage is OpeningFormat || s.stage is GeneratingFormat || s.stage is ReadingFormatOutput
            || s.stage is ListingFormats || s.stage is WritingFormat || s.stage is ClearingMemory,
    ensures
        is_good_turn(s.state, next(s, event), no_runs()),
{
    let t = s.state;
    law_format_comes_from_bundle(t.io.genuine_stdout, true);
    match s.stage {
        StageView::OpeningFormat => {
            reveal(course::on_format);
            lemma_begin_pass::<E>(t, Seq::empty());
        },
        StageView::GeneratingFormat => {
            reveal(course::on_format_made);
        },
        StageView::ListingFormats => {
            reveal(course::store_format);
            lemma_next_format(event->Memory_0, 0);
        },
        StageView::WritingFormat { files, at } => {
            reveal(course::on_format_stored);
            reveal(course::store_format);
            lemma_next_format(files, at + 1);
        },
        StageView::ClearingMemory => {
            lemma_begin_pass::<E>(t, Seq::empty());
        },
        _ => {},
    }
}

/// A turn while the engines are run.
proof fn lemma_pass_turn<E>(s: SessionView<E>, event: EventView<E>, tally: Tally)
    requires
        session_wf(s),
        answers(s, event),
        s.stage is RunningTex || s.stage is ReadingTexOutput || s.stage is ReadingAux
            || s.stage is RunningBibtex || s.stage is ReadingBibtexOutput || s.stage
            is RunningXdvipdfmx || s.stage is RemovingXdv,
        is_tally_at(
            s.state.settings,
            course::turn_to(s.state, s.stage, Seq::empty(), ActionView::ListMemory),
            tally,
        ),
    ensures
        is_good_turn(s.state, next(s, event), tally),
{
    let t = s.state;
    match s.stage {
        StageView::RunningTex(round) => {
            lemma_on_tex(t, round, event->Engine_0, tally);
        },
        StageView::ReadingAux => {
            reveal(course::on_aux);
            lemma_rerun::<E>(
                t,
                0,
                course::rerun_cause(t.log),
                course::rerun_warnings(t.log),
                tally,
            );
        },
        StageView::RunningBibtex => {
            reveal(course::on_bibtex);
            assert forall|told: Seq<MessageView>| is_good_turn(
                t,
                #[trigger] course::rerun::<E>(t, 0, Some(Seq::empty()), told),
                tally,
            ) by {
                lemma_rerun::<E>(t, 0, Some(Seq::empty()), told, tally);
            }
        },
        StageView::RunningXdvipdfmx => {
            reveal(course::on_xdvipdfmx);
        },
        StageView::RemovingXdv => {
            lemma_pass_done::<E>(t, Seq::empty(), tally);
        },
        _ => {},
    }
}

/// A turn while files are saved.
proof fn lemma_saving_turn<E>(s: SessionView<E>, event: EventView<E>, tally: Tally)
    requires
        session_wf(s),
        answers(s, event),
        s.stage is ListingLogs || s.stage is CreatingMakefile || s.stage is ListingOutputs
            || s.stage is SavingFile || s.stage is WritingTarget || s.stage is WritingRule,
        is_tally_at(
            s.state.settings,
            course::turn_to(s.state, s.stage, Seq::empty(), ActionView::ListMemory),
            tally,
        ),
    ensures
        is_good_turn(s.state, next(s, event), tally),
{
    let t = s.state;
    match s.stage {
        StageView::ListingLogs(error) => {
            lemma_save_next(t, Purpose::Logs(error), event->Memory_0, 0, 0, tally);
        },
        StageView::ListingOutputs => {
            lemma_save_next(t, Purpose::<E>::Outputs, event->Memory_0, 0, 0, tally);
        },
        StageView::SavingFile { purpose, files, at, skipped } => {
            lemma_on_saved(t, purpose, files, at, skipped, event->Io_0, tally);
        },
        StageView::WritingTarget { files, at, skipped } => {
            lemma_save_next(t, Purpose::<E>::Outputs, files, at + 1, skipped, tally);
        },
        _ => {},
    }
}

/// Every turn is a good one.
proof fn lemma_turn<E>(s: SessionView<E>, event: EventView<E>, tally: Tally)
    requires
        session_wf(s),
        answers(s, event),
        is_tally_at(
            s.state.settings,
            course::turn_to(s.state, s.stage, Seq::empty(), ActionView::ListMemory),
            tally,
        ),
    ensures
        is_good_turn(s.state, next(s, event), tally),
{
    if s.stage is OpeningFormat || s.stage is GeneratingFormat || s.stage is ReadingFormatOutput
        || s.stage is ListingFormats || s.stage is WritingFormat || s.stage is ClearingMemory {
        lemma_format_turn(s, event);
    } else if s.stage is RunningTex || s.stage is ReadingTexOutput || s.stage is ReadingAux
        || s.stage is RunningBibtex || s.stage is ReadingBibtexOutput || s.stage
        is RunningXdvipdfmx || s.stage is RemovingXdv {
        lemma_pass_turn(s, event, tally);
    } else {
        lemma_saving_turn(s, event, tally);
    }
}

/// A session stays in one of its states when accesses are recorded.
pub proof fn lemma_stays_wf_with_accesses<E>(s: SessionView<E>, accesses: Seq<IoEventView>)
    requires
        session_wf(s),
        can_all_happen(s.state.log, accesses),
    ensures
        session_wf(with_accesses(s, accesses)),
    decreases accesses.len(),
{
    if accesses.len() > 0 {
        let after = SessionView {
            state: StateView { log: after_event(s.state.log, accesses[0]), ..s.state },
            ..s
        };
        course::lemma_session_stays_wf(s, accesses[0]);
        lemma_stays_wf_with_accesses(after, accesses.drop_first());
        assert(with_accesses(s, accesses) == with_accesses(after, accesses.drop_first()));
    } else {
        assert(with_accesses(s, accesses) == s);
    }
}

/// The turn that follows a good one is a good one.
pub proof fn lemma_turn_after<E>(turn: Turn<E>, input: Input<E>, tally: Tally)
    requires
        session_wf(turn.session),
        is_tally_at(turn.session.state.settings, turn, tally),
        fits(turn.session, input),
    ensures
        is_good_turn(turn.session.state, turn_after(turn, input), tally),
{
    let s = with_accesses(turn.session, input.accesses);
    lemma_stays_wf_with_accesses(turn.session, input.accesses);
    lemma_turn(s, input.event, tally);
}

/// All turns are good ones.
proof fn lemma_all_turns<E>(turn: Turn<E>, inputs: Seq<Input<E>>, tally: Tally)
    requires
        session_wf(turn.session),
        is_tally_at(turn.session.state.settings, turn, tally_with(tally, turn.action)),
        all_fit(turn, inputs),
    ensures
        session_wf(last_turn(turn, inputs).session),
        last_turn(turn, inputs).session.state.settings == turn.session.state.settings,
        is_tally_at(
            turn.session.state.settings,
            last_turn(turn, inputs),
            tally_of(tally, actions(turn, inputs)),
        ),
    decreases inputs.len(),
{
    let counted = tally_with(tally, turn.action);
    if inputs.len() == 0 {
        assert(actions(turn, inputs).drop_first() =~= Seq::<ActionView<E>>::empty());
        assert(tally_of(counted, Seq::<ActionView<E>>::empty()) == counted);
    } else {
        let following = turn_after(turn, inputs[0]);
        lemma_turn_after(turn, inputs[0], counted);
        lemma_all_turns(following, inputs.drop_first(), counted);
        assert(actions(turn, inputs).drop_first() =~= actions(following, inputs.drop_first()));
    }
}

/// The first turn is a good one.
pub proof fn lemma_begin<E>(t: StateView)
    requires
        distinct_names(t.log),
    ensures
        is_good_turn(t, begin::<E>(t), no_runs()),
{
    lemma_begin_pass::<E>(t, Seq::empty());
}

/// The settings of a session never change, and it stays in one of its states.
pub proof fn law_settings_stay<E>(t: StateView, inputs: Seq<Input<E>>)
    requires
        distinct_names(t.log),
        all_fit(begin::<E>(t), inputs),
    ensures
        session_wf(last_turn(begin::<E>(t), inputs).session),
        last_turn(begin::<E>(t), inputs).session.state.settings == t.settings,
{
    lemma_begin::<E>(t);
    lemma_all_turns(begin::<E>(t), inputs, no_runs());
}

/// In no session are engines run more often than the settings allow, and in a
/// session that succeeds they are all run as the settings say.
pub proof fn law_engine_runs<E>(t: StateView, inputs: Seq<Input<E>>)
    requires
        distinct_names(t.log),
        all_fit(begin::<E>(t), inputs),
    ensures
        is_bounded_tally(t.settings, tally_of(no_runs(), actions(begin::<E>(t), inputs))),
        last_turn(begin::<E>(t), inputs).action matches ActionView::Finish(Ok(_))
            ==> is_complete_tally(
            t.settings,
            tally_of(no_runs(), actions(begin::<E>(t), inputs)),
        ),
{
    lemma_begin::<E>(t);
    lemma_all_turns(begin::<E>(t), inputs, no_runs());
}

} // verus!
