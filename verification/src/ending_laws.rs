//! How sessions end: they all do, and what went wrong is reported.
use crate::course;
use crate::course::{
    begin, next, rerun_limit, session_wf, Purpose, Round, SessionView, StageView, StateView, Turn,
};
use crate::events::{after_written_to_disk, distinct_names};
use crate::output::MemoryFileView;
use crate::protocol::{ActionView, EngineReply, EventView, FailureView, FormatReply};
use crate::session_laws::{
    all_fit, fits, is_tally_at, last_turn, lemma_begin, lemma_next_format,
    lemma_stays_wf_with_accesses, lemma_survey, lemma_turn_after, no_runs, tally_with, turn_after,
    with_accesses, Input, Tally,
};
use vstd::prelude::*;

verus! {

/// How far a session is from its end, in stages that still may come.
pub open spec fn stages_left<E>(s: SessionView<E>) -> int {
    let limit = rerun_limit(s.state.settings) as int;
    match s.stage {
        StageView::Ready => 2 * limit + 17,
        StageView::OpeningFormat => 2 * limit + 16,
        StageView::GeneratingFormat => 2 * limit + 15,
        StageView::ReadingFormatOutput(_) => 2 * limit + 14,
        StageView::ListingFormats => 2 * limit + 14,
        StageView::WritingFormat { .. } => 2 * limit + 13,
        StageView::ClearingMemory => 2 * limit + 12,
        StageView::RunningTex(Round::Only) => 2 * limit + 11,
        StageView::RunningTex(Round::First) => 2 * limit + 11,
        StageView::ReadingAux => 2 * limit + 10,
        StageView::RunningBibtex => 2 * limit + 9,
        StageView::RunningTex(Round::Rerun(index)) => 2 * (limit - index) + 7,
        StageView::ReadingTexOutput(_) => 8,
        StageView::ReadingBibtexOutput(_) => 8,
        StageView::RunningXdvipdfmx => 8,
        StageView::RemovingXdv => 7,
        StageView::ListingLogs(_) => 7,
        StageView::CreatingMakefile => 6,
        StageView::ListingOutputs => 5,
        StageView::SavingFile { .. } => 4,
        StageView::WritingTarget { .. } => 4,
        StageView::WritingRule { .. } => 3,
        StageView::Finished => 0,
    }
}

/// How many writes may be left in the stage that a session is in.
pub open spec fn writes_left<E>(s: SessionView<E>) -> int {
    match s.stage {
        StageView::WritingFormat { files, at } => files.len() - at,
        StageView::SavingFile { purpose, files, at, skipped } => 2 * (files.len() - at) + 1,
        StageView::WritingTarget { files, at, skipped } => 2 * (files.len() - at),
        StageView::WritingRule { rest } => rest.len() as int,
        _ => 0,
    }
}

/// One session is closer to its end than another one.
pub open spec fn is_closer<E>(s: SessionView<E>, than: SessionView<E>) -> bool {
    &&& 0 <= stages_left(s)
    &&& 0 <= writes_left(s)
    &&& stages_left(s) < stages_left(than) || (stages_left(s) == stages_left(than) && writes_left(s)
        < writes_left(than))
}

proof fn lemma_save_next_is_closer<E>(
    t: StateView,
    purpose: Purpose<E>,
    files: Seq<MemoryFileView>,
    from: int,
    skipped: nat,
)
    requires
        0 <= from <= files.len(),
    ensures
        ({
            let s = course::save_next(t, purpose, files, from, skipped).session;
            &&& 0 <= stages_left(s) <= 4
            &&& 0 <= writes_left(s)
            &&& stages_left(s) == 4 ==> writes_left(s) <= 2 * (files.len() - from) + 1
        }),
{
    reveal(course::save_next);
    lemma_survey(course::output_rules(t.settings, purpose), files, t.log, from);
}

proof fn lemma_format_turn_is_closer<E>(s: SessionView<E>, event: EventView<E>)
    requires
        session_wf(s),
        course::answers(s, event),
        s.stage is OpeningFormat || s.stage is GeneratingFormat || s.stage is ReadingFormatOutput
            || s.stage is ListingFormats || s.stage is WritingFormat || s.stage is ClearingMemory,
    ensures
        is_closer(next(s, event).session, s),
{
    reveal(course::on_format);
    reveal(course::begin_pass);
    reveal(course::on_format_made);
    reveal(course::store_format);
    reveal(course::on_format_stored);
    match s.stage {
        StageView::ListingFormats => {
            lemma_next_format(event->Memory_0, 0);
        },
        StageView::WritingFormat { files, at } => {
            lemma_next_format(files, at + 1);
        },
        _ => {},
    }
}

proof fn lemma_pass_turn_is_closer<E>(s: SessionView<E>, event: EventView<E>)
    requires
        session_wf(s),
        course::answers(s, event),
        s.stage is RunningTex || s.stage is ReadingTexOutput || s.stage is ReadingAux
            || s.stage is RunningBibtex || s.stage is ReadingBibtexOutput || s.stage
            is RunningXdvipdfmx || s.stage is RemovingXdv,
    ensures
        is_closer(next(s, event).session, s),
{
    reveal(course::pass_done);
    match s.stage {
        StageView::RunningTex(round) => {
            reveal(course::on_tex);
        },
        StageView::ReadingAux => {
            reveal(course::on_aux);
        },
        StageView::RunningBibtex => {
            reveal(course::on_bibtex);
        },
        StageView::RunningXdvipdfmx => {
            reveal(course::on_xdvipdfmx);
        },
        _ => {},
    }
}

proof fn lemma_saving_turn_is_closer<E>(s: SessionView<E>, event: EventView<E>)
    requires
        session_wf(s),
        course::answers(s, event),
        s.stage is ListingLogs || s.stage is CreatingMakefile || s.stage is ListingOutputs
            || s.stage is SavingFile || s.stage is WritingTarget || s.stage is WritingRule,
    ensures
        is_closer(next(s, event).session, s),
{
    let t = s.state;
    match s.stage {
        StageView::ListingLogs(error) => {
            lemma_save_next_is_closer(t, Purpose::Logs(error), event->Memory_0, 0, 0);
        },
        StageView::ListingOutputs => {
            lemma_save_next_is_closer(t, Purpose::<E>::Outputs, event->Memory_0, 0, 0);
        },
        StageView::SavingFile { purpose, files, at, skipped } => {
            reveal(course::on_saved);
            let log = after_written_to_disk(t.log, files[at].name);
            lemma_save_next_is_closer(StateView { log, ..t }, purpose, files, at + 1, skipped);
        },
        StageView::WritingTarget { files, at, skipped } => {
            lemma_save_next_is_closer(t, Purpose::<E>::Outputs, files, at + 1, skipped);
        },
        _ => {},
    }
}

/// Whatever a session is told, it comes closer to its end.
pub proof fn law_every_turn_is_closer<E>(turn: Turn<E>, input: Input<E>)
    requires
        session_wf(turn.session),
        fits(turn.session, input),
    ensures
        is_closer(turn_after(turn, input).session, turn.session),
{
    let s = with_accesses(turn.session, input.accesses);
    lemma_stays_wf_with_accesses(turn.session, input.accesses);
    if s.stage is OpeningFormat || s.stage is GeneratingFormat || s.stage is ReadingFormatOutput
        || s.stage is ListingFormats || s.stage is WritingFormat || s.stage is ClearingMemory {
        lemma_format_turn_is_closer(s, input.event);
    } else if s.stage is RunningTex || s.stage is ReadingTexOutput || s.stage is ReadingAux
        || s.stage is RunningBibtex || s.stage is ReadingBibtexOutput || s.stage
        is RunningXdvipdfmx || s.stage is RemovingXdv {
        lemma_pass_turn_is_closer(s, input.event);
    } else {
        lemma_saving_turn_is_closer(s, input.event);
    }
}

/// The first so many things that a session is told.
pub open spec fn first_inputs<E>(inputs: spec_fn(nat) -> Input<E>, count: nat) -> Seq<Input<E>> {
    Seq::new(count, |i: int| inputs(i as nat))
}

proof fn lemma_session_ends<E>(
    turn: Turn<E>,
    inputs: spec_fn(nat) -> Input<E>,
    tally: Tally,
) -> (count: nat)
    requires
        session_wf(turn.session),
        is_tally_at(turn.session.state.settings, turn, tally),
        0 <= stages_left(turn.session),
        0 <= writes_left(turn.session),
    ensures
        !all_fit(turn, first_inputs(inputs, count)),
    decreases stages_left(turn.session), writes_left(turn.session),
{
    if !fits(turn.session, inputs(0)) {
        assert(first_inputs(inputs, 1)[0] == inputs(0));
        1
    } else {
        let following = turn_after(turn, inputs(0));
        let later = |i: nat| inputs(i + 1);
        law_every_turn_is_closer(turn, inputs(0));
        lemma_turn_after(turn, inputs(0), tally);
        let count = lemma_session_ends(following, later, tally_with(tally, following.action));
        let all = first_inputs(inputs, count + 1);
        assert(all[0] == inputs(0));
        assert(all.drop_first() =~= first_inputs(later, count));
        count + 1
    }
}

/// No session goes on for ever: whatever it is told, there comes a time when it
/// takes nothing more.
pub proof fn law_sessions_end<E>(t: StateView, inputs: spec_fn(nat) -> Input<E>)
    requires
        distinct_names(t.log),
    ensures
        exists|count: nat| !all_fit(begin::<E>(t), #[trigger] first_inputs(inputs, count)),
{
    reveal(course::begin_pass);
    let first = begin::<E>(t);
    lemma_begin::<E>(t);
    let count = lemma_session_ends(first, inputs, tally_with(no_runs(), first.action));
}

/// A turn that a session has taken: it is not waiting to begin; it hands over
/// its result exactly when it is at its end; and success has the code zero.
spec fn has_begun<E>(turn: Turn<E>) -> bool {
    &&& !(turn.session.stage is Ready)
    &&& turn.session.stage is Finished <==> turn.action is Finish
    &&& turn.action matches ActionView::Finish(Ok(code)) ==> code == 0
}

proof fn lemma_has_begun<E>(turn: Turn<E>, inputs: Seq<Input<E>>)
    requires
        has_begun(turn),
        all_fit(turn, inputs),
    ensures
        has_begun(last_turn(turn, inputs)),
    decreases inputs.len(),
{
    if inputs.len() > 0 {
        lemma_turn_is_regular(with_accesses(turn.session, inputs[0].accesses), inputs[0].event);
        lemma_has_begun(turn_after(turn, inputs[0]), inputs.drop_first());
    }
}

/// A session that still asks for something can be given an answer, so the only
/// end is the one at which it hands over its result.
pub proof fn law_only_results_end_sessions<E>(t: StateView, inputs: Seq<Input<E>>)
    requires
        distinct_names(t.log),
        all_fit(begin::<E>(t), inputs),
    ensures
        last_turn(begin::<E>(t), inputs).action is Finish || exists|input: Input<E>|
            fits(last_turn(begin::<E>(t), inputs).session, input),
{
    reveal(course::begin_pass);
    let s = last_turn(begin::<E>(t), inputs).session;
    lemma_has_begun(begin::<E>(t), inputs);
    let event = match s.stage {
        StageView::OpeningFormat => EventView::Format(FormatReply::Available),
        StageView::GeneratingFormat
        | StageView::RunningTex(_)
        | StageView::RunningBibtex
        | StageView::RunningXdvipdfmx => EventView::Engine(EngineReply::Spotless),
        StageView::ReadingFormatOutput(_)
        | StageView::ReadingTexOutput(_)
        | StageView::ReadingAux
        | StageView::ReadingBibtexOutput(_) => EventView::MemoryFile(None),
        StageView::ListingFormats
        | StageView::ListingLogs(_)
        | StageView::ListingOutputs => EventView::Memory(Seq::empty()),
        StageView::ClearingMemory | StageView::RemovingXdv => EventView::Done,
        _ => EventView::Io(Ok(())),
    };
    let input = Input { accesses: Seq::empty(), event };
    assert(with_accesses(s, input.accesses) == s);
    if !(s.stage is Finished) {
        assert(fits(s, input));
    }
}

/// The error with which an engine gave up, while it is being dealt with.
pub open spec fn pending_error<E>(stage: StageView<E>) -> Option<E> {
    match stage {
        StageView::ReadingFormatOutput(error) => Some(error),
        StageView::ReadingTexOutput(error) => Some(error),
        StageView::ReadingBibtexOutput(error) => Some(error),
        StageView::ListingLogs(error) => Some(error),
        StageView::SavingFile { purpose: Purpose::Logs(error), .. } => Some(error),
        _ => None,
    }
}

/// The error that a session reports, if it comes from the environment.
pub open spec fn reported_error<E>(failure: FailureView<E>) -> Option<E> {
    match failure {
        FailureView::Outside(error) => Some(error),
        FailureView::InContext { error, .. } => Some(error),
        FailureView::Refused(_) => None,
    }
}

/// The error that a session is told of.
pub open spec fn told_error<E>(event: EventView<E>) -> Option<E> {
    match event {
        EventView::Format(FormatReply::Failed(error)) => Some(error),
        EventView::Engine(EngineReply::Failed(error)) => Some(error),
        EventView::Io(Err(error)) => Some(error),
        _ => None,
    }
}

/// An error that a session is told of is dealt with, if it is from an engine,
/// and is otherwise reported at once.
proof fn lemma_error_is_noticed<E>(s: SessionView<E>, event: EventView<E>)
    requires
        course::answers(s, event),
        told_error(event) is Some,
    ensures
        event is Engine ==> pending_error(next(s, event).session.stage) == told_error(event),
        !(event is Engine) ==> {
            &&& next(s, event).session.stage is Finished
            &&& next(s, event).action matches ActionView::Finish(Err(failure)) && reported_error(
                failure,
            ) == told_error(event)
        },
{
    reveal(course::on_format);
    reveal(course::on_format_made);
    reveal(course::on_format_stored);
    reveal(course::on_tex);
    reveal(course::on_bibtex);
    reveal(course::on_xdvipdfmx);
    reveal(course::on_saved);
}

/// An error that is being dealt with is kept until it is reported.
proof fn lemma_error_is_kept<E>(s: SessionView<E>, event: EventView<E>)
    requires
        course::answers(s, event),
        pending_error(s.stage) is Some,
        told_error(event) is None,
    ensures
        ({
            let turn = next(s, event);
            ||| pending_error(turn.session.stage) == pending_error(s.stage)
            ||| turn.session.stage is Finished && turn.action == ActionView::<E>::Finish(
                Err(FailureView::Outside(pending_error(s.stage)->0)),
            )
        }),
{
    reveal(course::save_next);
    reveal(course::on_saved);
}

/// The session has failed, or is about to.
spec fn is_failing<E>(turn: Turn<E>) -> bool {
    ||| pending_error(turn.session.stage) is Some
    ||| turn.session.stage is Finished && turn.action matches ActionView::Finish(Err(_))
}

proof fn lemma_still_failing<E>(turn: Turn<E>, inputs: Seq<Input<E>>)
    requires
        is_failing(turn),
        all_fit(turn, inputs),
    ensures
        is_failing(last_turn(turn, inputs)),
    decreases inputs.len(),
{
    if inputs.len() > 0 {
        let s = with_accesses(turn.session, inputs[0].accesses);
        if told_error(inputs[0].event) is Some {
            lemma_error_is_noticed(s, inputs[0].event);
        } else {
            lemma_error_is_kept(s, inputs[0].event);
        }
        lemma_still_failing(turn_after(turn, inputs[0]), inputs.drop_first());
    }
}

/// A write that fails, or a format file that cannot be opened, ends the session
/// at once, with that error.
pub proof fn law_failed_write_is_reported<E>(turn: Turn<E>, input: Input<E>)
    requires
        fits(turn.session, input),
        told_error(input.event) is Some,
        !(input.event is Engine),
    ensures
        turn_after(turn, input).action matches ActionView::Finish(Err(failure)) && reported_error(
            failure,
        ) == told_error(input.event),
{
    lemma_error_is_noticed(with_accesses(turn.session, input.accesses), input.event);
}

/// When an engine gives up, the session ends with the error of the engine, unless
/// something goes wrong with the saving of the logs.
pub proof fn law_engine_error_is_reported<E>(turn: Turn<E>, inputs: Seq<Input<E>>, error: E)
    requires
        all_fit(turn, inputs),
        inputs.len() > 0,
        inputs[0].event == EventView::<E>::Engine(EngineReply::Failed(error)),
        forall|i: int| 0 < i < inputs.len() ==> told_error((#[trigger] inputs[i]).event) is None,
    ensures
        last_turn(turn, inputs).action is Finish ==> last_turn(turn, inputs).action
            == ActionView::<E>::Finish(Err(FailureView::Outside(error))),
{
    let s = with_accesses(turn.session, inputs[0].accesses);
    lemma_error_is_noticed(s, inputs[0].event);
    lemma_turn_is_regular(s, inputs[0].event);
    let rest = inputs.drop_first();
    assert forall|i: int| 0 <= i < rest.len() implies told_error((#[trigger] rest[i]).event)
        is None by {
        assert(rest[i] == inputs[i + 1]);
    }
    lemma_pending_error_is_reported(turn_after(turn, inputs[0]), rest, error);
}

proof fn lemma_pending_error_is_reported<E>(turn: Turn<E>, inputs: Seq<Input<E>>, error: E)
    requires
        has_begun(turn),
        all_fit(turn, inputs),
        forall|i: int| 0 <= i < inputs.len() ==> told_error((#[trigger] inputs[i]).event) is None,
        pending_error(turn.session.stage) == Some(error) || turn.action == ActionView::<E>::Finish(
            Err(FailureView::Outside(error)),
        ),
    ensures
        last_turn(turn, inputs).action is Finish ==> last_turn(turn, inputs).action
            == ActionView::<E>::Finish(Err(FailureView::Outside(error))),
    decreases inputs.len(),
{
    if inputs.len() > 0 {
        let s = with_accesses(turn.session, inputs[0].accesses);
        assert(told_error(inputs[0].event) is None);
        lemma_error_is_kept(s, inputs[0].event);
        lemma_turn_is_regular(s, inputs[0].event);
        let rest = inputs.drop_first();
        assert forall|i: int| 0 <= i < rest.len() implies told_error((#[trigger] rest[i]).event)
            is None by {
            assert(rest[i] == inputs[i + 1]);
        }
        lemma_pending_error_is_reported(turn_after(turn, inputs[0]), rest, error);
    }
}

proof fn lemma_success_without_errors<E>(turn: Turn<E>, inputs: Seq<Input<E>>, at: int)
    requires
        all_fit(turn, inputs),
        0 <= at < inputs.len(),
        told_error(inputs[at].event) is Some,
    ensures
        is_failing(last_turn(turn, inputs)),
    decreases inputs.len(),
{
    if at == 0 {
        lemma_error_is_noticed(
            with_accesses(turn.session, inputs[0].accesses),
            inputs[0].event,
        );
        lemma_still_failing(turn_after(turn, inputs[0]), inputs.drop_first());
    } else {
        assert(inputs.drop_first()[at - 1] == inputs[at]);
        lemma_success_without_errors(turn_after(turn, inputs[0]), inputs.drop_first(), at - 1);
    }
}

/// A session succeeds only if nothing went wrong, and its result is then zero.
pub proof fn law_success_means_no_errors<E>(t: StateView, inputs: Seq<Input<E>>)
    requires
        all_fit(begin::<E>(t), inputs),
        last_turn(begin::<E>(t), inputs).action matches ActionView::Finish(Ok(_)),
    ensures
        last_turn(begin::<E>(t), inputs).action == ActionView::<E>::Finish(Ok(0)),
        forall|i: int| 0 <= i < inputs.len() ==> told_error((#[trigger] inputs[i]).event) is None,
{
    reveal(course::begin_pass);
    lemma_has_begun(begin::<E>(t), inputs);
    assert forall|i: int| 0 <= i < inputs.len() implies told_error((#[trigger] inputs[i]).event)
        is None by {
        if told_error(inputs[i].event) is Some {
            lemma_success_without_errors(begin::<E>(t), inputs, i);
        }
    }
}

/// The session gives up of its own accord: a format file has to be made and there
/// is no bundle, or errors are issued while it is made.
pub open spec fn is_refused<E>(s: SessionView<E>, event: EventView<E>) -> bool {
    match s.stage {
        StageView::OpeningFormat => event == EventView::<E>::Format(FormatReply::NotAvailable)
            && s.state.io.bundle is None,
        StageView::GeneratingFormat => event == EventView::<E>::Engine(EngineReply::Errors),
        _ => false,
    }
}

/// The session is told of no error, and has no reason to give up of its own
/// accord.
pub open spec fn all_goes_well<E>(turn: Turn<E>, inputs: Seq<Input<E>>) -> bool
    decreases inputs.len(),
{
    inputs.len() == 0 || {
        &&& told_error(inputs[0].event) is None
        &&& !is_refused(with_accesses(turn.session, inputs[0].accesses), inputs[0].event)
        &&& all_goes_well(turn_after(turn, inputs[0]), inputs.drop_first())
    }
}

/// No error is being dealt with, and the end is a success.
spec fn is_untroubled<E>(turn: Turn<E>) -> bool {
    &&& pending_error(turn.session.stage) is None
    &&& turn.action is Finish ==> turn.action == ActionView::<E>::Finish(Ok(0))
}

/// What holds of a turn, whatever led to it; if all went well so far and still
/// does; and if no format file is or has to be made.
spec fn is_regular_turn<E>(s: SessionView<E>, event: EventView<E>, turn: Turn<E>) -> bool {
    &&& has_begun(turn)
    &&& pending_error(s.stage) is None && told_error(event) is None && !is_refused(s, event)
        ==> is_untroubled(turn)
    &&& !(s.stage is GeneratingFormat) && event != EventView::<E>::Format(
        FormatReply::NotAvailable,
    ) ==> !(turn.session.stage is GeneratingFormat)
}

proof fn lemma_format_turn_is_regular<E>(s: SessionView<E>, event: EventView<E>)
    requires
        course::answers(s, event),
        s.stage is OpeningFormat || s.stage is GeneratingFormat || s.stage is ReadingFormatOutput
            || s.stage is ListingFormats || s.stage is WritingFormat || s.stage is ClearingMemory,
    ensures
        is_regular_turn(s, event, next(s, event)),
{
    match s.stage {
        StageView::OpeningFormat => {
            reveal(course::on_format);
            reveal(course::begin_pass);
        },
        StageView::GeneratingFormat => {
            reveal(course::on_format_made);
        },
        StageView::ListingFormats => {
            reveal(course::store_format);
        },
        StageView::WritingFormat { .. } => {
            reveal(course::on_format_stored);
            reveal(course::store_format);
        },
        StageView::ClearingMemory => {
            reveal(course::begin_pass);
        },
        _ => {},
    }
}

proof fn lemma_pass_turn_is_regular<E>(s: SessionView<E>, event: EventView<E>)
    requires
        course::answers(s, event),
        s.stage is RunningTex || s.stage is ReadingTexOutput || s.stage is ReadingAux
            || s.stage is RunningBibtex || s.stage is ReadingBibtexOutput || s.stage
            is RunningXdvipdfmx || s.stage is RemovingXdv,
    ensures
        is_regular_turn(s, event, next(s, event)),
{
    reveal(course::pass_done);
    match s.stage {
        StageView::RunningTex(_) => {
            reveal(course::on_tex);
        },
        StageView::ReadingAux => {
            reveal(course::on_aux);
        },
        StageView::RunningBibtex => {
            reveal(course::on_bibtex);
        },
        StageView::RunningXdvipdfmx => {
            reveal(course::on_xdvipdfmx);
        },
        _ => {},
    }
}

proof fn lemma_saving_turn_is_regular<E>(s: SessionView<E>, event: EventView<E>)
    requires
        course::answers(s, event),
        s.stage is ListingLogs || s.stage is CreatingMakefile || s.stage is ListingOutputs
            || s.stage is SavingFile || s.stage is WritingTarget || s.stage is WritingRule,
    ensures
        is_regular_turn(s, event, next(s, event)),
{
    match s.stage {
        StageView::ListingLogs(_) => {
            reveal(course::save_next);
        },
        StageView::ListingOutputs => {
            reveal(course::save_next);
        },
        StageView::SavingFile { .. } => {
            reveal(course::on_saved);
            reveal(course::save_next);
        },
        StageView::WritingTarget { .. } => {
            reveal(course::save_next);
        },
        _ => {},
    }
}

proof fn lemma_turn_is_regular<E>(s: SessionView<E>, event: EventView<E>)
    requires
        course::answers(s, event),
    ensures
        is_regular_turn(s, event, next(s, event)),
{
    if s.stage is OpeningFormat || s.stage is GeneratingFormat || s.stage is ReadingFormatOutput
        || s.stage is ListingFormats || s.stage is WritingFormat || s.stage is ClearingMemory {
        lemma_format_turn_is_regular(s, event);
    } else if s.stage is RunningTex || s.stage is ReadingTexOutput || s.stage is ReadingAux
        || s.stage is RunningBibtex || s.stage is ReadingBibtexOutput || s.stage
        is RunningXdvipdfmx || s.stage is RemovingXdv {
        lemma_pass_turn_is_regular(s, event);
    } else {
        lemma_saving_turn_is_regular(s, event);
    }
}

proof fn lemma_ends_untroubled<E>(turn: Turn<E>, inputs: Seq<Input<E>>)
    requires
        is_untroubled(turn),
        all_fit(turn, inputs),
        all_goes_well(turn, inputs),
    ensures
        is_untroubled(last_turn(turn, inputs)),
    decreases inputs.len(),
{
    if inputs.len() > 0 {
        lemma_turn_is_regular(
            with_accesses(turn.session, inputs[0].accesses),
            inputs[0].event,
        );
        lemma_ends_untroubled(turn_after(turn, inputs[0]), inputs.drop_first());
    }
}

/// A session that is told of no error, and that has no reason to give up of its
/// own accord, succeeds if it comes to its end.
pub proof fn law_no_errors_means_success<E>(t: StateView, inputs: Seq<Input<E>>)
    requires
        all_fit(begin::<E>(t), inputs),
        all_goes_well(begin::<E>(t), inputs),
        last_turn(begin::<E>(t), inputs).action is Finish,
    ensures
        last_turn(begin::<E>(t), inputs).action == ActionView::<E>::Finish(Ok(0)),
{
    reveal(course::begin_pass);
    lemma_ends_untroubled(begin::<E>(t), inputs);
}

proof fn lemma_no_refusal<E>(turn: Turn<E>, inputs: Seq<Input<E>>)
    requires
        !(turn.session.stage is GeneratingFormat),
        all_fit(turn, inputs),
        forall|i: int|
            0 <= i < inputs.len() ==> told_error((#[trigger] inputs[i]).event) is None
                && inputs[i].event != EventView::<E>::Format(FormatReply::NotAvailable),
    ensures
        all_goes_well(turn, inputs),
    decreases inputs.len(),
{
    if inputs.len() > 0 {
        let rest = inputs.drop_first();
        let s = with_accesses(turn.session, inputs[0].accesses);
        assert(told_error(inputs[0].event) is None);
        lemma_turn_is_regular(s, inputs[0].event);
        assert forall|i: int| 0 <= i < rest.len() implies told_error((#[trigger] rest[i]).event)
            is None && rest[i].event != EventView::<E>::Format(FormatReply::NotAvailable) by {
            assert(rest[i] == inputs[i + 1]);
        }
        lemma_no_refusal(turn_after(turn, inputs[0]), rest);
    }
}

/// A session whose format file is there, and that is told of no error, succeeds
/// if it comes to its end.
pub proof fn law_success_with_a_format<E>(t: StateView, inputs: Seq<Input<E>>)
    requires
        all_fit(begin::<E>(t), inputs),
        forall|i: int|
            0 <= i < inputs.len() ==> told_error((#[trigger] inputs[i]).event) is None
                && inputs[i].event != EventView::<E>::Format(FormatReply::NotAvailable),
        last_turn(begin::<E>(t), inputs).action is Finish,
    ensures
        last_turn(begin::<E>(t), inputs).action == ActionView::<E>::Finish(Ok(0)),
{
    reveal(course::begin_pass);
    lemma_no_refusal(begin::<E>(t), inputs);
    law_no_errors_means_success(t, inputs);
}

} // verus!
