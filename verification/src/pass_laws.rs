//! What holds of the runs of the engines.
use crate::course;
use crate::course::{
    begin, next, tex_errors_warning, tex_warnings_note, Purpose, Round, SessionView, StageView,
    StateView, Turn, DEFAULT_MAX_TEX_PASSES,
};
use crate::events::{after_written_to_disk, any_changed, distinct_names, first_changed, Log};
use crate::makefile::{circular_message, rule_draft, rule_pieces, RulePieceView};
use crate::message::MessageView;
use crate::output::{empty_file_message, survey, MemoryFileView, OutputRules};
use crate::outside::utf8_lossy;
use crate::protocol::{ActionView, EngineReply, EventView};
use crate::session_laws::{
    actions, all_fit, fits, is_tex_run, last_turn, law_engine_runs, law_format_comes_from_bundle,
    no_runs, tally_of, told, turn_after, with_accesses, Input,
};
use crate::settings::PassSetting;
use crate::text::decimal_text;
use vstd::prelude::*;

verus! {

/// When the user says how often to rerun the TeX engine, it is rerun exactly that
/// often after the first run, in a session that succeeds.
pub proof fn law_reruns_as_told<E>(t: StateView, inputs: Seq<Input<E>>, count: usize)
    requires
        distinct_names(t.log),
        all_fit(begin::<E>(t), inputs),
        t.settings.pass == PassSetting::Default,
        t.settings.tex_rerun_specification == Some(count),
        last_turn(begin::<E>(t), inputs).action matches ActionView::Finish(Ok(_)),
    ensures
        tally_of(no_runs(), actions(begin::<E>(t), inputs)).tex == 1 + count,
{
    law_engine_runs(t, inputs);
}

/// When the user does not say how often to rerun the TeX engine, it is rerun at
/// most so many times after the first run, in any session.
pub proof fn law_reruns_are_limited<E>(t: StateView, inputs: Seq<Input<E>>)
    requires
        distinct_names(t.log),
        all_fit(begin::<E>(t), inputs),
        t.settings.tex_rerun_specification is None,
    ensures
        tally_of(no_runs(), actions(begin::<E>(t), inputs)).tex <= 1 + DEFAULT_MAX_TEX_PASSES,
{
    law_engine_runs(t, inputs);
}

/// When the user does not say how often to rerun the TeX engine, a rerun is
/// followed by another one exactly if there is a file that the engine read and
/// then rewrote with other contents, and the limit is not reached.
pub proof fn law_rerun_if_something_changed<E>(
    t: StateView,
    index: usize,
    reply: EngineReply<E>,
)
    requires
        t.settings.tex_rerun_specification is None,
        index < DEFAULT_MAX_TEX_PASSES,
        !(reply is Failed),
    ensures
        is_tex_run(course::on_tex(t, Round::Rerun(index), reply).action) <==> any_changed(t.log)
            && index + 1 < DEFAULT_MAX_TEX_PASSES,
{
    reveal(course::on_tex);
    reveal(course::pass_done);
    law_format_comes_from_bundle(t.io.genuine_stdout, t.io.bundle is Some);
}

/// After the first run of the TeX engine, BibTeX is run exactly if the `.aux`
/// file names a bibliography; and if it does not, the TeX engine is rerun
/// exactly if there is a file that it read and then rewrote with other contents,
/// unless the user says how often.
pub proof fn law_bibtex_if_there_is_a_bibliography<E>(t: StateView, aux: Option<Seq<u8>>)
    ensures
        course::on_aux::<E>(t, aux).action is RunBibtex <==> course::names_bibliography(aux),
        !course::names_bibliography(aux) && t.settings.tex_rerun_specification is None ==> (
        is_tex_run(course::on_aux::<E>(t, aux).action) <==> any_changed(t.log)),
{
    reveal(course::on_aux);
    reveal(course::pass_done);
    law_format_comes_from_bundle(t.io.genuine_stdout, t.io.bundle is Some);
}

/// After a run of BibTeX that did not give up, the TeX engine is run, unless the
/// user says that it is not to be rerun.
pub proof fn law_tex_after_bibtex<E>(t: StateView, reply: EngineReply<E>)
    requires
        !(reply is Failed),
        t.settings.tex_rerun_specification != Some(0usize),
    ensures
        is_tex_run(course::on_bibtex(t, reply).action),
{
    reveal(course::on_bibtex);
    law_format_comes_from_bundle(t.io.genuine_stdout, t.io.bundle is Some);
}

/// How often a message is among others.
pub open spec fn times(messages: Seq<MessageView>, message: MessageView) -> nat
    decreases messages.len(),
{
    if messages.len() == 0 {
        0
    } else {
        times(messages.drop_first(), message) + if messages[0] == message {
            1nat
        } else {
            0nat
        }
    }
}

/// How often the user is told of warnings or errors of the TeX engine.
pub open spec fn complaints(messages: Seq<MessageView>) -> nat {
    times(messages, tex_warnings_note()) + times(messages, tex_errors_warning())
}

/// Nothing of warnings or errors of the TeX engine is among the messages.
spec fn is_quiet(messages: Seq<MessageView>) -> bool {
    forall|i: int|
        0 <= i < messages.len() ==> #[trigger] messages[i] != tex_warnings_note() && messages[i]
            != tex_errors_warning()
}

/// Nothing of warnings or errors of the TeX engine is among the warnings that
/// the rest of the Makefile rules will bring.
spec fn is_quiet_stage<E>(stage: StageView<E>) -> bool {
    stage matches StageView::WritingRule { rest } ==> all_quiet(rest)
}

spec fn all_quiet(pieces: Seq<RulePieceView>) -> bool {
    forall|i: int| 0 <= i < pieces.len() ==> is_quiet((#[trigger] pieces[i]).warnings)
}

proof fn lemma_times_of_both(
    first: Seq<MessageView>,
    second: Seq<MessageView>,
    message: MessageView,
)
    ensures
        times(first + second, message) == times(first, message) + times(second, message),
    decreases first.len(),
{
    if first.len() == 0 {
        assert(first + second =~= second);
    } else {
        assert((first + second).drop_first() =~= first.drop_first() + second);
        lemma_times_of_both(first.drop_first(), second, message);
    }
}

proof fn lemma_quiet(messages: Seq<MessageView>)
    requires
        is_quiet(messages),
    ensures
        times(messages, tex_warnings_note()) == 0,
        times(messages, tex_errors_warning()) == 0,
    decreases messages.len(),
{
    if messages.len() > 0 {
        let rest = messages.drop_first();
        assert forall|i: int| 0 <= i < rest.len() implies #[trigger] rest[i] != tex_warnings_note()
            && rest[i] != tex_errors_warning() by {
            assert(rest[i] == messages[i + 1]);
        }
        lemma_quiet(rest);
        assert(messages[0] != tex_warnings_note());
    }
}

/// The other notes and warnings read differently.
proof fn lemma_other_texts(shown: Seq<char>)
    ensures
        tex_warnings_note() != tex_errors_warning(),
        is_quiet(seq![MessageView::Note("generating format \""@ + shown + "\""@)]),
        is_quiet(
            seq![
                MessageView::Warning(
                    "warnings were issued by the TeX engine; use --print and/or --keep-logs for details."@,
                ),
            ],
        ),
        is_quiet(
            seq![
                MessageView::Note(
                    "warnings were issued by BibTeX; use --print and/or --keep-logs for details."@,
                ),
            ],
        ),
        is_quiet(
            seq![
                MessageView::Warning(
                    "errors were issued by BibTeX, but were ignored; use --print and/or --keep-logs for details."@,
                ),
            ],
        ),
        is_quiet(seq![course::inconsistency_message(shown)]),
        is_quiet(seq![course::enough_message()]),
        is_quiet(seq![circular_message(shown)]),
{
    reveal_strlit(
        "warnings were issued by the TeX engine; use --print and/or --keep-logs for details.",
    );
    reveal_strlit(
        "errors were issued by the TeX engine, but were ignored; use --print and/or --keep-logs for details.",
    );
    reveal_strlit("warnings were issued by BibTeX; use --print and/or --keep-logs for details.");
    reveal_strlit(
        "errors were issued by BibTeX, but were ignored; use --print and/or --keep-logs for details.",
    );
    reveal_strlit("generating format \"");
    reveal_strlit("internal consistency problem when checking if ");
    reveal_strlit("TeX rerun seems needed, but stopping at ");
    reveal_strlit("omitting circular Makefile dependency for ");
    let generating = "generating format \""@ + shown + "\""@;
    let inconsistency = "internal consistency problem when checking if "@ + shown + " changed"@;
    let enough = "TeX rerun seems needed, but stopping at "@ + decimal_text(
        DEFAULT_MAX_TEX_PASSES as nat,
    ) + " passes"@;
    let circular = "omitting circular Makefile dependency for "@ + shown;
    assert(tex_warnings_note()->Note_0[0] == 'w');
    assert(tex_warnings_note()->Note_0.len() == 83);
    assert(tex_errors_warning()->Warning_0[0] == 'e');
    assert(tex_errors_warning()->Warning_0.len() == 99);
    assert(generating[0] == 'g');
    assert(inconsistency[0] == 'i');
    assert(enough[0] == 'T');
    assert(circular[0] == 'o');
}

/// What a turn after the runs of TeX adds to the messages is quiet.
proof fn lemma_rerun_is_quiet<E>(
    t: StateView,
    index: int,
    cause: Option<Seq<char>>,
    messages: Seq<MessageView>,
) -> (tail: Seq<MessageView>)
    ensures
        ({
            let turn = course::rerun::<E>(t, index, cause, messages);
            &&& turn.messages == messages + tail
            &&& is_quiet(tail)
            &&& is_quiet_stage(turn.session.stage)
            &&& turn.session.state.noted_tex_warnings == t.noted_tex_warnings
        }),
{
    reveal(course::pass_done);
    let turn = course::rerun::<E>(t, index, cause, messages);
    let tail = turn.messages.skip(messages.len() as int);
    assert(turn.messages =~= messages + tail);
    tail
}

proof fn lemma_engines_done_is_quiet<E>(t: StateView, messages: Seq<MessageView>) -> (tail: Seq<
    MessageView,
>)
    ensures
        ({
            let turn = course::engines_done::<E>(t, messages);
            &&& turn.messages == messages + tail
            &&& is_quiet(tail)
            &&& is_quiet_stage(turn.session.stage)
            &&& turn.session.state.noted_tex_warnings == t.noted_tex_warnings
        }),
{
    reveal(course::pass_done);
    let turn = course::engines_done::<E>(t, messages);
    let tail = turn.messages.skip(messages.len() as int);
    assert(turn.messages =~= messages + tail);
    tail
}

proof fn lemma_rerun_warnings_are_quiet(log: Log)
    ensures
        is_quiet(course::rerun_warnings(log)),
{
    if any_changed(log) {
        lemma_other_texts(utf8_lossy(log[first_changed(log)].name));
        assert(is_quiet(
            seq![course::inconsistency_message(utf8_lossy(log[first_changed(log)].name))],
        ));
    }
}

proof fn lemma_quiet_both(first: Seq<MessageView>, second: Seq<MessageView>)
    requires
        is_quiet(first),
        is_quiet(second),
    ensures
        is_quiet(first + second),
{
    let both = first + second;
    assert forall|i: int| 0 <= i < both.len() implies #[trigger] both[i] != tex_warnings_note()
        && both[i] != tex_errors_warning() by {
        if i < first.len() {
            assert(both[i] == first[i]);
        } else {
            assert(both[i] == second[i - first.len()]);
        }
    }
}

proof fn lemma_after_tex_is_quiet<E>(t: StateView, round: Round, messages: Seq<MessageView>) -> (tail:
    Seq<MessageView>)
    ensures
        ({
            let turn = course::after_tex::<E>(t, round, messages);
            &&& turn.messages == messages + tail
            &&& is_quiet(tail)
            &&& is_quiet_stage(turn.session.stage)
            &&& turn.session.state.noted_tex_warnings == t.noted_tex_warnings
        }),
{
    let none = Seq::<MessageView>::empty();
    match round {
        Round::Only => {
            reveal(course::pass_done);
            assert(messages + none =~= messages);
            none
        },
        Round::First => {
            assert(messages + none =~= messages);
            none
        },
        Round::Rerun(index) => {
            let warned = course::rerun_warnings(t.log);
            lemma_rerun_warnings_are_quiet(t.log);
            if t.settings.tex_rerun_specification is Some {
                lemma_rerun_is_quiet::<E>(t, index + 1, None, messages)
            } else if any_changed(t.log) && index == DEFAULT_MAX_TEX_PASSES - 1 {
                let more = warned.push(course::enough_message());
                lemma_other_texts(Seq::empty());
                lemma_quiet_both(warned, seq![course::enough_message()]);
                assert(more =~= warned + seq![course::enough_message()]);
                assert((messages + warned).push(course::enough_message()) =~= messages + more);
                let tail = lemma_engines_done_is_quiet::<E>(t, messages + more);
                lemma_quiet_both(more, tail);
                assert(messages + more + tail =~= messages + (more + tail));
                more + tail
            } else {
                let tail = lemma_rerun_is_quiet::<E>(
                    t,
                    index + 1,
                    course::rerun_cause(t.log),
                    messages + warned,
                );
                lemma_quiet_both(warned, tail);
                assert(messages + warned + tail =~= messages + (warned + tail));
                warned + tail
            }
        },
    }
}

/// A run of the TeX engine is noted if it issued warnings or errors. The user is
/// told exactly if nothing was noted before: of warnings by a note, and of errors
/// by a warning. From then on warnings and errors make no difference.
pub proof fn law_complaints_are_noted_once<E>(t: StateView, round: Round, reply: EngineReply<E>)
    ensures
        ({
            let turn = course::on_tex(t, round, reply);
            &&& turn.session.state.noted_tex_warnings == (t.noted_tex_warnings || reply is Warnings
                || reply is Errors)
            &&& times(turn.messages, tex_warnings_note()) == if !t.noted_tex_warnings
                && reply is Warnings {
                1nat
            } else {
                0nat
            }
            &&& times(turn.messages, tex_errors_warning()) == if !t.noted_tex_warnings
                && reply is Errors {
                1nat
            } else {
                0nat
            }
            &&& t.noted_tex_warnings && !(reply is Failed) ==> turn == course::on_tex::<E>(
                t,
                round,
                EngineReply::Spotless,
            )
        }),
{
    lemma_on_tex_complaints(t, round, reply);
    reveal(course::on_tex);
}

proof fn lemma_on_tex_complaints<E>(t: StateView, round: Round, reply: EngineReply<E>)
    ensures
        ({
            let turn = course::on_tex(t, round, reply);
            &&& turn.session.state.noted_tex_warnings == (t.noted_tex_warnings || reply is Warnings
                || reply is Errors)
            &&& times(turn.messages, tex_warnings_note()) == if !t.noted_tex_warnings
                && reply is Warnings {
                1nat
            } else {
                0nat
            }
            &&& times(turn.messages, tex_errors_warning()) == if !t.noted_tex_warnings
                && reply is Errors {
                1nat
            } else {
                0nat
            }
            &&& is_quiet_stage(turn.session.stage)
        }),
{
    reveal(course::on_tex);
    lemma_other_texts(Seq::empty());
    if !(reply is Failed) {
        let fresh = !t.noted_tex_warnings && !(reply is Spotless);
        let state = if fresh {
            StateView { noted_tex_warnings: true, ..t }
        } else {
            t
        };
        let said = if !fresh {
            Seq::empty()
        } else if reply is Warnings {
            seq![tex_warnings_note()]
        } else {
            seq![tex_errors_warning()]
        };
        let tail = lemma_after_tex_is_quiet::<E>(state, round, said);
        lemma_quiet(tail);
        lemma_times_of_both(said, tail, tex_warnings_note());
        lemma_times_of_both(said, tail, tex_errors_warning());
        if fresh {
            assert(said.drop_first() =~= Seq::<MessageView>::empty());
            assert(times(said.drop_first(), tex_warnings_note()) == 0);
            assert(times(said.drop_first(), tex_errors_warning()) == 0);
        }
    } else {
        lemma_quiet(Seq::empty());
    }
}

proof fn lemma_survey_is_quiet(
    rules: OutputRules,
    files: Seq<MemoryFileView>,
    log: Log,
    from: int,
)
    ensures
        is_quiet(survey(rules, files, log, from).messages),
    decreases files.len() - from,
{
    if 0 <= from < files.len() {
        let rest = survey(rules, files, log, from + 1).messages;
        let said = seq![empty_file_message(utf8_lossy(files[from].name))];
        lemma_survey_is_quiet(rules, files, log, from + 1);
        lemma_quiet_both(said, rest);
    }
}

proof fn lemma_draft_is_quiet(primary_input: Option<Seq<u8>>, directory: Seq<u8>, log: Log)
    ensures
        all_quiet(rule_draft(primary_input, directory, log).pieces),
        is_quiet(rule_draft(primary_input, directory, log).pending),
    decreases log.len(),
{
    if log.len() > 0 {
        let draft = rule_draft(primary_input, directory, log.drop_last());
        let message = circular_message(utf8_lossy(log.last().name));
        lemma_draft_is_quiet(primary_input, directory, log.drop_last());
        lemma_other_texts(utf8_lossy(log.last().name));
        lemma_quiet_both(draft.pending, seq![message]);
        assert(draft.pending.push(message) =~= draft.pending + seq![message]);
    }
}

proof fn lemma_save_next_is_quiet<E>(
    t: StateView,
    purpose: Purpose<E>,
    files: Seq<MemoryFileView>,
    from: int,
    skipped: nat,
)
    ensures
        ({
            let turn = course::save_next(t, purpose, files, from, skipped);
            &&& is_quiet(turn.messages)
            &&& is_quiet_stage(turn.session.stage)
            &&& turn.session.state.noted_tex_warnings == t.noted_tex_warnings
        }),
{
    reveal(course::save_next);
    let rules = course::output_rules(t.settings, purpose);
    let found = survey(rules, files, t.log, from);
    let turn = course::save_next(t, purpose, files, from, skipped);
    lemma_survey_is_quiet(rules, files, t.log, from);
    if found.at < files.len() {
        let said = seq![turn.messages.last()];
        assert(turn.messages =~= found.messages + said);
        lemma_quiet_both(found.messages, said);
    } else {
        let more = course::skipped_messages(skipped + found.skipped);
        let pieces = rule_pieces(
            t.settings.primary_input_path,
            t.io.filesystem_root,
            t.log,
        );
        lemma_draft_is_quiet(t.settings.primary_input_path, t.io.filesystem_root, t.log);
        assert(all_quiet(pieces));
        lemma_quiet_both(found.messages, more);
        lemma_quiet_both(found.messages + more, pieces[0].warnings);
        lemma_rest_is_quiet(pieces);
    }
}

proof fn lemma_rest_is_quiet(pieces: Seq<RulePieceView>)
    requires
        all_quiet(pieces),
        pieces.len() > 0,
    ensures
        is_quiet(pieces[0].warnings),
        all_quiet(pieces.drop_first()),
{
    let rest = pieces.drop_first();
    assert forall|i: int| 0 <= i < rest.len() implies is_quiet((#[trigger] rest[i]).warnings) by {
        assert(rest[i] == pieces[i + 1]);
    }
}

/// A turn that is quiet, if what the rest of the Makefile rules brings is, and in
/// which nothing is noted.
spec fn is_quiet_turn<E>(s: SessionView<E>, turn: Turn<E>) -> bool {
    &&& is_quiet_stage(s.stage) ==> is_quiet(turn.messages) && is_quiet_stage(turn.session.stage)
    &&& turn.session.state.noted_tex_warnings == s.state.noted_tex_warnings
}

proof fn lemma_format_turn_is_quiet<E>(s: SessionView<E>, event: EventView<E>)
    requires
        course::answers(s, event),
        s.stage is OpeningFormat || s.stage is GeneratingFormat || s.stage is ReadingFormatOutput
            || s.stage is ListingFormats || s.stage is WritingFormat || s.stage is ClearingMemory,
    ensures
        is_quiet_turn(s, next(s, event)),
{
    match s.stage {
        StageView::OpeningFormat => {
            reveal(course::on_format);
            reveal(course::begin_pass);
            lemma_other_texts(s.state.settings.format_path);
        },
        StageView::GeneratingFormat => {
            reveal(course::on_format_made);
            lemma_other_texts(Seq::empty());
        },
        StageView::ListingFormats => {
            reveal(course::store_format);
        },
        StageView::WritingFormat { .. } => {
            reveal(course::on_format_stored);
            reveal(course::store_format);
        },
        StageView::ClearingMemory => {
            reveal(course::begin_pass);
        },
        _ => {},
    }
}

proof fn lemma_pass_turn_is_quiet<E>(s: SessionView<E>, event: EventView<E>)
    requires
        course::answers(s, event),
        s.stage is ReadingTexOutput || s.stage is ReadingAux || s.stage is RunningBibtex || s.stage
            is ReadingBibtexOutput || s.stage is RunningXdvipdfmx || s.stage is RemovingXdv,
    ensures
        is_quiet_turn(s, next(s, event)),
{
    let t = s.state;
    match s.stage {
        StageView::ReadingAux => {
            reveal(course::on_aux);
            let warned = course::rerun_warnings(t.log);
            lemma_rerun_warnings_are_quiet(t.log);
            let tail = lemma_rerun_is_quiet::<E>(t, 0, course::rerun_cause(t.log), warned);
            lemma_quiet_both(warned, tail);
        },
        StageView::RunningBibtex => {
            lemma_on_bibtex_is_quiet(t, event->Engine_0);
        },
        StageView::RunningXdvipdfmx => {
            reveal(course::on_xdvipdfmx);
        },
        StageView::RemovingXdv => {
            reveal(course::pass_done);
        },
        _ => {},
    }
}

proof fn lemma_on_bibtex_is_quiet<E>(t: StateView, reply: EngineReply<E>)
    ensures
        ({
            let turn = course::on_bibtex(t, reply);
            &&& is_quiet(turn.messages)
            &&& is_quiet_stage(turn.session.stage)
            &&& turn.session.state.noted_tex_warnings == t.noted_tex_warnings
        }),
{
    reveal(course::on_bibtex);
    lemma_other_texts(Seq::empty());
    let said = match reply {
        EngineReply::Warnings => seq![
            MessageView::Note(
                "warnings were issued by BibTeX; use --print and/or --keep-logs for details."@,
            ),
        ],
        EngineReply::Errors => seq![
            MessageView::Warning(
                "errors were issued by BibTeX, but were ignored; use --print and/or --keep-logs for details."@,
            ),
        ],
        _ => Seq::empty(),
    };
    let tail = lemma_rerun_is_quiet::<E>(t, 0, Some(Seq::empty()), said);
    lemma_quiet_both(said, tail);
}

proof fn lemma_saving_turn_is_quiet<E>(s: SessionView<E>, event: EventView<E>)
    requires
        course::answers(s, event),
        s.stage is ListingLogs || s.stage is CreatingMakefile || s.stage is ListingOutputs
            || s.stage is SavingFile || s.stage is WritingTarget || s.stage is WritingRule,
    ensures
        is_quiet_turn(s, next(s, event)),
{
    let t = s.state;
    match s.stage {
        StageView::ListingLogs(error) => {
            lemma_save_next_is_quiet(t, Purpose::Logs(error), event->Memory_0, 0, 0);
        },
        StageView::ListingOutputs => {
            lemma_save_next_is_quiet(t, Purpose::<E>::Outputs, event->Memory_0, 0, 0);
        },
        StageView::SavingFile { purpose, files, at, skipped } => {
            reveal(course::on_saved);
            let log = after_written_to_disk(t.log, files[at].name);
            lemma_save_next_is_quiet(StateView { log, ..t }, purpose, files, at + 1, skipped);
        },
        StageView::WritingTarget { files, at, skipped } => {
            lemma_save_next_is_quiet(t, Purpose::<E>::Outputs, files, at + 1, skipped);
        },
        StageView::WritingRule { rest } => {
            if rest.len() > 0 && all_quiet(rest) {
                lemma_rest_is_quiet(rest);
                assert(Seq::<MessageView>::empty() + rest[0].warnings =~= rest[0].warnings);
            }
        },
        _ => {},
    }
}

/// A turn that does not follow on a run of the TeX engine in a pass is quiet.
proof fn lemma_other_turn_is_quiet<E>(s: SessionView<E>, event: EventView<E>)
    requires
        course::answers(s, event),
        !(s.stage is RunningTex),
    ensures
        is_quiet_turn(s, next(s, event)),
{
    if s.stage is OpeningFormat || s.stage is GeneratingFormat || s.stage is ReadingFormatOutput
        || s.stage is ListingFormats || s.stage is WritingFormat || s.stage is ClearingMemory {
        lemma_format_turn_is_quiet(s, event);
    } else if s.stage is ReadingTexOutput || s.stage is ReadingAux || s.stage is RunningBibtex
        || s.stage is ReadingBibtexOutput || s.stage is RunningXdvipdfmx || s.stage is RemovingXdv {
        lemma_pass_turn_is_quiet(s, event);
    } else {
        lemma_saving_turn_is_quiet(s, event);
    }
}

/// The user is told of warnings or errors of the TeX engine in a turn exactly if
/// that is the turn in which they are noted.
proof fn lemma_turn_complaints<E>(s: SessionView<E>, event: EventView<E>)
    requires
        course::answers(s, event),
        is_quiet_stage(s.stage),
    ensures
        is_quiet_stage(next(s, event).session.stage),
        complaints(next(s, event).messages) == newly_noted(s.state, next(s, event).session.state),
        s.state.noted_tex_warnings ==> next(s, event).session.state.noted_tex_warnings,
{
    match s.stage {
        StageView::RunningTex(round) => {
            lemma_on_tex_complaints(s.state, round, event->Engine_0);
        },
        _ => {
            lemma_other_turn_is_quiet(s, event);
            lemma_quiet(next(s, event).messages);
        },
    }
}

/// One if warnings or errors of the TeX engine are noted in the second state and
/// not in the first one.
pub open spec fn newly_noted(before: StateView, after: StateView) -> nat {
    if !before.noted_tex_warnings && after.noted_tex_warnings {
        1
    } else {
        0
    }
}

proof fn lemma_complaints_told<E>(turn: Turn<E>, inputs: Seq<Input<E>>)
    requires
        all_fit(turn, inputs),
        is_quiet_stage(turn.session.stage),
    ensures
        is_quiet_stage(last_turn(turn, inputs).session.stage),
        complaints(told(turn, inputs)) == complaints(turn.messages) + newly_noted(
            turn.session.state,
            last_turn(turn, inputs).session.state,
        ),
        turn.session.state.noted_tex_warnings ==> last_turn(
            turn,
            inputs,
        ).session.state.noted_tex_warnings,
    decreases inputs.len(),
{
    if inputs.len() > 0 {
        let following = turn_after(turn, inputs[0]);
        let rest = told(following, inputs.drop_first());
        lemma_turn_complaints(
            with_accesses(turn.session, inputs[0].accesses),
            inputs[0].event,
        );
        lemma_complaints_told(following, inputs.drop_first());
        lemma_times_of_both(turn.messages, rest, tex_warnings_note());
        lemma_times_of_both(turn.messages, rest, tex_errors_warning());
    }
}

/// A session is in the same place whether its inputs are gone through from the
/// first one or up to the last one.
proof fn lemma_last_turn<E>(turn: Turn<E>, inputs: Seq<Input<E>>)
    requires
        all_fit(turn, inputs),
        inputs.len() > 0,
    ensures
        all_fit(turn, inputs.drop_last()),
        fits(last_turn(turn, inputs.drop_last()).session, inputs.last()),
        last_turn(turn, inputs) == turn_after(
            last_turn(turn, inputs.drop_last()),
            inputs.last(),
        ),
    decreases inputs.len(),
{
    let rest = inputs.drop_first();
    let following = turn_after(turn, inputs[0]);
    if rest.len() == 0 {
        assert(last_turn(following, rest) == following);
        assert(last_turn(turn, inputs.drop_last()) == turn);
    } else {
        lemma_last_turn(following, rest);
        assert(inputs.drop_last().drop_first() =~= rest.drop_last());
        assert(inputs.drop_last()[0] == inputs[0]);
        assert(rest.last() == inputs.last());
    }
}

/// In a whole session the user is told of warnings or errors of the TeX engine
/// once if they come to be noted in it, and otherwise never; and that happens in
/// the very turn in which they come to be noted.
pub proof fn law_complaint_is_told_once<E>(t: StateView, inputs: Seq<Input<E>>)
    requires
        all_fit(begin::<E>(t), inputs),
    ensures
        complaints(told(begin::<E>(t), inputs)) == newly_noted(
            t,
            last_turn(begin::<E>(t), inputs).session.state,
        ),
        inputs.len() > 0 ==> complaints(last_turn(begin::<E>(t), inputs).messages) == newly_noted(
            last_turn(begin::<E>(t), inputs.drop_last()).session.state,
            last_turn(begin::<E>(t), inputs).session.state,
        ),
{
    let first = begin::<E>(t);
    reveal(course::begin_pass);
    assert(is_quiet(first.messages));
    lemma_quiet(first.messages);
    lemma_complaints_told(first, inputs);
    if inputs.len() > 0 {
        lemma_last_turn(first, inputs);
        let before = last_turn(first, inputs.drop_last());
        let input = inputs.last();
        lemma_complaints_told(first, inputs.drop_last());
        lemma_turn_complaints(with_accesses(before.session, input.accesses), input.event);
    }
}

/// That the user was told of warnings or errors of the TeX engine is never
/// forgotten.
pub proof fn law_note_stays<E>(turn: Turn<E>, inputs: Seq<Input<E>>)
    requires
        all_fit(turn, inputs),
        turn.session.state.noted_tex_warnings,
    ensures
        last_turn(turn, inputs).session.state.noted_tex_warnings,
    decreases inputs.len(),
{
    if inputs.len() > 0 {
        let s = with_accesses(turn.session, inputs[0].accesses);
        match s.stage {
            StageView::RunningTex(round) => {
                lemma_on_tex_complaints(s.state, round, inputs[0].event->Engine_0);
            },
            _ => {
                lemma_other_turn_is_quiet(s, inputs[0].event);
            },
        }
        law_note_stays(turn_after(turn, inputs[0]), inputs.drop_first());
    }
}

/// A turn on the way from the making of a format file to the clearing of the
/// memory, or to the end of the session.
spec fn is_preparatory<E>(turn: Turn<E>) -> bool {
    &&& turn.session.stage is ReadingFormatOutput || turn.session.stage is ListingFormats
        || turn.session.stage is WritingFormat || turn.session.stage is ClearingMemory
        || turn.session.stage is Finished
    &&& turn.session.stage is ClearingMemory ==> turn.action is ClearMemory
    &&& !is_tex_run(turn.action)
    &&& !(turn.action is RunBibtex)
}

proof fn lemma_memory_is_cleared<E>(turn: Turn<E>, inputs: Seq<Input<E>>)
    requires
        is_preparatory(turn),
        all_fit(turn, inputs),
        is_tex_run(last_turn(turn, inputs).action) || last_turn(turn, inputs).action is RunBibtex,
    ensures
        exists|i: int|
            0 <= i < actions(turn, inputs).len() && #[trigger] actions(turn, inputs)[i]
                is ClearMemory,
    decreases inputs.len(),
{
    let all = actions(turn, inputs);
    assert(all[0] == turn.action);
    if !(turn.session.stage is ClearingMemory) {
        let following = turn_after(turn, inputs[0]);
        let rest = actions(following, inputs.drop_first());
        reveal(course::store_format);
        reveal(course::on_format_stored);
        lemma_memory_is_cleared(following, inputs.drop_first());
        let i = choose|i: int| 0 <= i < rest.len() && #[trigger] rest[i] is ClearMemory;
        assert(all[i + 1] == rest[i]);
    }
}

/// The making of a format file is a preparatory step: the memory is cleared
/// before an engine is run on the document.
pub proof fn law_memory_is_cleared_after_a_format<E>(turn: Turn<E>, inputs: Seq<Input<E>>)
    requires
        turn.session.stage is GeneratingFormat,
        inputs.len() > 0,
        all_fit(turn, inputs),
        is_tex_run(last_turn(turn, inputs).action) || last_turn(turn, inputs).action is RunBibtex,
    ensures
        exists|i: int|
            0 <= i < actions(turn, inputs).len() && #[trigger] actions(turn, inputs)[i]
                is ClearMemory,
{
    let following = turn_after(turn, inputs[0]);
    let rest = actions(following, inputs.drop_first());
    reveal(course::on_format_made);
    lemma_memory_is_cleared(following, inputs.drop_first());
    let i = choose|i: int| 0 <= i < rest.len() && #[trigger] rest[i] is ClearMemory;
    assert(actions(turn, inputs)[i + 1] == rest[i]);
}

} // verus!
