//! What holds of the files that sessions save.
use crate::access_laws::{after_events, can_all_happen, lemma_entries_stay};
use crate::course;
use crate::course::{
    output_rules, skipped_messages, Purpose, SessionView, Settings, StageView, StateView, Turn,
};
use crate::events::{
    after_event, after_written_to_disk, distinct_names, is_recorded, lemma_names_stay_distinct,
    names_at, place_of, recorded, stdout_name, AccessPattern, IoEventView, Log,
};
use crate::makefile::{
    all_data, all_warnings, circular_messages, dependencies, is_dependency, plain_piece, rule_bytes,
    rule_draft, rule_pieces, target_bytes, RulePieceView,
};
use crate::message::MessageView;
use crate::output::{
    all_recorded, empty_file_message, fate_of, file_fate, is_intermediate_name, is_log_name,
    lemma_recorded_stays_on_save, saved_file_message, survey, wants_aux_only, FileFate,
    MemoryFileView, OutputRules,
};
use crate::outside::utf8_lossy;
use crate::protocol::{ActionView, EventView};
use crate::session_laws::{
    actions, all_fit, last_turn, lemma_survey, told, turn_after, with_accesses, Input,
};
use crate::text::{has_suffix, joined_path};
use vstd::prelude::*;
use vstd::utf8::encode_utf8;

verus! {

/// A file is saved exactly if it is not the standard output, there is something
/// in it, and it is wanted: of the logs if those are kept; of nothing but the
/// logs after a failure; of nothing but the `.aux` file if only that is asked
/// for; and otherwise, unless intermediate files are kept, of the files that the
/// engines only wrote, save for those that Beamer generates.
pub proof fn law_what_is_saved(rules: OutputRules, file: MemoryFileView, pattern: AccessPattern)
    ensures
        fate_of(rules, file, pattern) == FileFate::Saved <==> {
            &&& file.name != stdout_name()
            &&& file.contents.len() > 0
            &&& is_log_name(file.name) ==> rules.keep_logs
            &&& rules.only_logs ==> is_log_name(file.name)
            &&& if wants_aux_only(rules) {
                has_suffix(file.name, ".aux"@)
            } else {
                rules.keep_intermediates || (pattern == AccessPattern::Written
                    && !is_intermediate_name(file.name))
            }
        },
{
}

/// The actions that save those of the files from one place on that are to be
/// saved, in the order of the files.
pub open spec fn wanted_saves<E>(
    directory: Seq<u8>,
    rules: OutputRules,
    files: Seq<MemoryFileView>,
    log: Log,
    from: int,
) -> Seq<ActionView<E>>
    decreases files.len() - from,
{
    if from < 0 || from >= files.len() {
        Seq::empty()
    } else {
        let rest = wanted_saves(directory, rules, files, log, from + 1);
        if file_fate(rules, files[from], log) == FileFate::Saved {
            seq![
                ActionView::SaveFile {
                    path: joined_path(directory, files[from].name),
                    contents: files[from].contents,
                },
            ] + rest
        } else {
            rest
        }
    }
}

/// Those of the actions that save a file.
pub open spec fn saves_of<E>(actions: Seq<ActionView<E>>) -> Seq<ActionView<E>>
    decreases actions.len(),
{
    if actions.len() == 0 {
        Seq::empty()
    } else if actions[0] is SaveFile {
        seq![actions[0]] + saves_of(actions.drop_first())
    } else {
        saves_of(actions.drop_first())
    }
}

/// All writes succeed, and the engines are at rest.
pub open spec fn all_written<E>(inputs: Seq<Input<E>>) -> bool {
    forall|i: int|
        0 <= i < inputs.len() ==> (#[trigger] inputs[i]).accesses.len() == 0 && inputs[i].event
            == EventView::<E>::Io(Ok(()))
}

/// That a file was saved has no bearing on what becomes of the files.
proof fn lemma_save_changes_no_fate(
    rules: OutputRules,
    file: MemoryFileView,
    log: Log,
    saved: Seq<u8>,
)
    requires
        distinct_names(log),
        is_recorded(log, saved),
        is_recorded(log, file.name),
    ensures
        distinct_names(after_written_to_disk(log, saved)),
        file_fate(rules, file, after_written_to_disk(log, saved)) == file_fate(rules, file, log),
{
    let after = after_written_to_disk(log, saved);
    assert(names_at(log, saved, place_of(log, saved)));
    assert(names_at(log, file.name, place_of(log, file.name)));
    assert(forall|i: int| 0 <= i < log.len() ==> #[trigger] after[i].name == log[i].name);
    assert(names_at(after, file.name, place_of(log, file.name)));
    assert(names_at(after, file.name, place_of(after, file.name)));
}

proof fn lemma_save_changes_no_wants<E>(
    directory: Seq<u8>,
    rules: OutputRules,
    files: Seq<MemoryFileView>,
    log: Log,
    saved: Seq<u8>,
    from: int,
)
    requires
        distinct_names(log),
        is_recorded(log, saved),
        all_recorded(files, log),
    ensures
        wanted_saves::<E>(directory, rules, files, after_written_to_disk(log, saved), from)
            == wanted_saves::<E>(directory, rules, files, log, from),
    decreases files.len() - from,
{
    if 0 <= from < files.len() {
        lemma_save_changes_no_wants::<E>(directory, rules, files, log, saved, from + 1);
        if files[from].name != stdout_name() {
            lemma_save_changes_no_fate(rules, files[from], log, saved);
        }
    }
}

/// Where the survey stops, what is wanted goes on.
proof fn lemma_wanted_after_survey<E>(
    directory: Seq<u8>,
    rules: OutputRules,
    files: Seq<MemoryFileView>,
    log: Log,
    from: int,
)
    requires
        0 <= from <= files.len(),
    ensures
        wanted_saves::<E>(directory, rules, files, log, from) == wanted_saves::<E>(
            directory,
            rules,
            files,
            log,
            survey(rules, files, log, from).at,
        ),
    decreases files.len() - from,
{
    if from < files.len() && file_fate(rules, files[from], log) != FileFate::Saved {
        lemma_wanted_after_survey::<E>(directory, rules, files, log, from + 1);
    }
}

/// What is still to be saved at a turn, the action of the turn included.
spec fn saves_left<E>(turn: Turn<E>) -> Seq<ActionView<E>> {
    let t = turn.session.state;
    match turn.session.stage {
        StageView::SavingFile { purpose, files, at, skipped } => wanted_saves(
            t.settings.output_path,
            output_rules(t.settings, purpose),
            files,
            t.log,
            at,
        ),
        StageView::WritingTarget { files, at, skipped } => wanted_saves(
            t.settings.output_path,
            output_rules(t.settings, Purpose::<E>::Outputs),
            files,
            t.log,
            at + 1,
        ),
        _ => Seq::empty(),
    }
}

/// A turn while files are saved, or right after.
spec fn is_saving_turn<E>(turn: Turn<E>) -> bool {
    let t = turn.session.state;
    &&& distinct_names(t.log)
    &&& match turn.session.stage {
        StageView::SavingFile { purpose, files, at, skipped } => {
            &&& 0 <= at < files.len()
            &&& all_recorded(files, t.log)
            &&& file_fate(output_rules(t.settings, purpose), files[at], t.log) == FileFate::Saved
            &&& turn.action == ActionView::<E>::SaveFile {
                path: joined_path(t.settings.output_path, files[at].name),
                contents: files[at].contents,
            }
        },
        StageView::WritingTarget { files, at, skipped } => {
            &&& 0 <= at < files.len()
            &&& all_recorded(files, t.log)
            &&& turn.action is WriteMakefile
        },
        StageView::WritingRule { .. } => turn.action is WriteMakefile,
        StageView::Finished => turn.action is Finish,
        _ => false,
    }
}

proof fn lemma_save_next_saves<E>(
    t: StateView,
    purpose: Purpose<E>,
    files: Seq<MemoryFileView>,
    from: int,
    skipped: nat,
)
    requires
        distinct_names(t.log),
        0 <= from <= files.len(),
        all_recorded(files, t.log),
    ensures
        is_saving_turn(course::save_next(t, purpose, files, from, skipped)),
        course::save_next(t, purpose, files, from, skipped).session.state == t,
        saves_left(course::save_next(t, purpose, files, from, skipped)) == wanted_saves::<E>(
            t.settings.output_path,
            output_rules(t.settings, purpose),
            files,
            t.log,
            from,
        ),
{
    reveal(course::save_next);
    let rules = output_rules(t.settings, purpose);
    lemma_survey(rules, files, t.log, from);
    lemma_wanted_after_survey::<E>(t.settings.output_path, rules, files, t.log, from);
}

/// A turn of which the writes succeed saves what is left to be saved.
proof fn lemma_saving_turn_saves<E>(s: SessionView<E>, turn: Turn<E>)
    requires
        turn.session == s,
        is_saving_turn(turn),
        course::answers(s, EventView::Io(Ok(()))),
    ensures
        ({
            let following = course::next(s, EventView::Io(Ok(())));
            &&& is_saving_turn(following)
            &&& following.session.state.settings == s.state.settings
            &&& saves_left(turn) == (if turn.action is SaveFile {
                seq![turn.action] + saves_left(following)
            } else {
                saves_left(following)
            })
        }),
{
    let t = s.state;
    match s.stage {
        StageView::SavingFile { purpose, files, at, skipped } => {
            reveal(course::on_saved);
            let rules = output_rules(t.settings, purpose);
            let name = files[at].name;
            let log = after_written_to_disk(t.log, name);
            assert(is_recorded(t.log, name));
            lemma_save_changes_no_fate(rules, files[at], t.log, name);
            lemma_recorded_stays_on_save(files, t.log, name);
            lemma_save_changes_no_wants::<E>(
                t.settings.output_path,
                rules,
                files,
                t.log,
                name,
                at + 1,
            );
            lemma_save_next_saves(StateView { log, ..t }, purpose, files, at + 1, skipped);
        },
        StageView::WritingTarget { files, at, skipped } => {
            lemma_save_next_saves(t, Purpose::<E>::Outputs, files, at + 1, skipped);
        },
        _ => {},
    }
}

proof fn lemma_all_are_saved<E>(turn: Turn<E>, inputs: Seq<Input<E>>)
    requires
        is_saving_turn(turn),
        all_fit(turn, inputs),
        all_written(inputs),
        last_turn(turn, inputs).action is Finish,
    ensures
        saves_of(actions(turn, inputs)) == saves_left(turn),
    decreases inputs.len(),
{
    let all = actions(turn, inputs);
    assert(all[0] == turn.action);
    if inputs.len() == 0 {
        assert(all.drop_first() =~= Seq::<ActionView<E>>::empty());
        assert(saves_of(all.drop_first()) == Seq::<ActionView<E>>::empty());
    } else {
        let following = turn_after(turn, inputs[0]);
        assert(inputs[0].accesses.len() == 0);
        assert(with_accesses(turn.session, inputs[0].accesses) == turn.session);
        lemma_saving_turn_saves(turn.session, turn);
        let rest = inputs.drop_first();
        assert forall|i: int| 0 <= i < rest.len() implies (#[trigger] rest[i]).accesses.len() == 0
            && rest[i].event == EventView::<E>::Io(Ok(())) by {
            assert(rest[i] == inputs[i + 1]);
        }
        lemma_all_are_saved(following, rest);
        assert(all.drop_first() =~= actions(following, rest));
    }
}

/// Once the engines have done their work, exactly those of the files in memory
/// are saved that are to be saved, each one once, with all its contents, and in
/// the output directory.
pub proof fn law_outputs_are_saved<E>(
    turn: Turn<E>,
    files: Seq<MemoryFileView>,
    inputs: Seq<Input<E>>,
)
    requires
        distinct_names(turn.session.state.log),
        turn.session.stage is ListingOutputs,
        turn.action is ListMemory,
        inputs.len() > 0,
        inputs[0].accesses.len() == 0,
        inputs[0].event == EventView::<E>::Memory(files),
        all_written(inputs.drop_first()),
        all_fit(turn, inputs),
        last_turn(turn, inputs).action is Finish,
    ensures
        saves_of(actions(turn, inputs)) == wanted_saves::<E>(
            turn.session.state.settings.output_path,
            output_rules(turn.session.state.settings, Purpose::<E>::Outputs),
            files,
            turn.session.state.log,
            0,
        ),
{
    let t = turn.session.state;
    assert(with_accesses(turn.session, inputs[0].accesses) == turn.session);
    lemma_save_next_saves(t, Purpose::<E>::Outputs, files, 0, 0);
    lemma_all_are_saved(turn_after(turn, inputs[0]), inputs.drop_first());
    assert(actions(turn, inputs).drop_first() =~= actions(
        turn_after(turn, inputs[0]),
        inputs.drop_first(),
    ));
}

/// After an engine gave up, exactly those of the log files in memory are saved
/// that are to be saved.
pub proof fn law_logs_are_saved<E>(
    turn: Turn<E>,
    error: E,
    files: Seq<MemoryFileView>,
    inputs: Seq<Input<E>>,
)
    requires
        distinct_names(turn.session.state.log),
        turn.session.stage == StageView::ListingLogs(error),
        turn.action is ListMemory,
        inputs.len() > 0,
        inputs[0].accesses.len() == 0,
        inputs[0].event == EventView::<E>::Memory(files),
        all_written(inputs.drop_first()),
        all_fit(turn, inputs),
        last_turn(turn, inputs).action is Finish,
    ensures
        saves_of(actions(turn, inputs)) == wanted_saves::<E>(
            turn.session.state.settings.output_path,
            output_rules(turn.session.state.settings, Purpose::Logs(error)),
            files,
            turn.session.state.log,
            0,
        ),
{
    let t = turn.session.state;
    assert(with_accesses(turn.session, inputs[0].accesses) == turn.session);
    lemma_save_next_saves(t, Purpose::Logs(error), files, 0, 0);
    lemma_all_are_saved(turn_after(turn, inputs[0]), inputs.drop_first());
    assert(actions(turn, inputs).drop_first() =~= actions(
        turn_after(turn, inputs[0]),
        inputs.drop_first(),
    ));
}

/// How many of the files from one place on are intermediate files that are not
/// saved.
pub open spec fn intermediates(
    rules: OutputRules,
    files: Seq<MemoryFileView>,
    log: Log,
    from: int,
) -> nat
    decreases files.len() - from,
{
    if from < 0 || from >= files.len() {
        0
    } else {
        intermediates(rules, files, log, from + 1) + if file_fate(rules, files[from], log)
            == FileFate::Intermediate {
            1nat
        } else {
            0nat
        }
    }
}

proof fn lemma_survey_counts(
    rules: OutputRules,
    files: Seq<MemoryFileView>,
    log: Log,
    from: int,
)
    requires
        0 <= from <= files.len(),
    ensures
        survey(rules, files, log, from).skipped + intermediates(
            rules,
            files,
            log,
            survey(rules, files, log, from).at,
        ) == intermediates(rules, files, log, from),
    decreases files.len() - from,
{
    if from < files.len() && file_fate(rules, files[from], log) != FileFate::Saved {
        lemma_survey_counts(rules, files, log, from + 1);
    }
}

proof fn lemma_save_changes_no_count(
    rules: OutputRules,
    files: Seq<MemoryFileView>,
    log: Log,
    saved: Seq<u8>,
    from: int,
)
    requires
        distinct_names(log),
        is_recorded(log, saved),
        all_recorded(files, log),
    ensures
        intermediates(rules, files, after_written_to_disk(log, saved), from) == intermediates(
            rules,
            files,
            log,
            from,
        ),
    decreases files.len() - from,
{
    if 0 <= from < files.len() {
        lemma_save_changes_no_count(rules, files, log, saved, from + 1);
        if files[from].name != stdout_name() {
            lemma_save_changes_no_fate(rules, files[from], log, saved);
        }
    }
}

/// What the user is told of the files from one place on, one by one.
pub open spec fn file_messages(
    directory: Seq<u8>,
    rules: OutputRules,
    files: Seq<MemoryFileView>,
    log: Log,
    from: int,
) -> Seq<MessageView>
    decreases files.len() - from,
{
    if from < 0 || from >= files.len() {
        Seq::empty()
    } else {
        let rest = file_messages(directory, rules, files, log, from + 1);
        match file_fate(rules, files[from], log) {
            FileFate::Saved => seq![
                saved_file_message(
                    utf8_lossy(joined_path(directory, files[from].name)),
                    files[from].contents.len(),
                ),
            ] + rest,
            FileFate::Empty => seq![empty_file_message(utf8_lossy(files[from].name))] + rest,
            _ => rest,
        }
    }
}

/// What the user is told once all outputs are saved: how many files were skipped
/// because they are intermediate files, and which dependencies are left out of
/// the Makefile rules, if those are asked for.
pub open spec fn closing_messages(settings: Settings, skipped: nat, log: Log) -> Seq<MessageView> {
    skipped_messages(skipped) + (if settings.makefile_output_path is Some {
        circular_messages(log)
    } else {
        Seq::empty()
    })
}

proof fn lemma_file_messages_after_survey(
    directory: Seq<u8>,
    rules: OutputRules,
    files: Seq<MemoryFileView>,
    log: Log,
    from: int,
)
    requires
        0 <= from <= files.len(),
    ensures
        file_messages(directory, rules, files, log, from) == survey(
            rules,
            files,
            log,
            from,
        ).messages + file_messages(
            directory,
            rules,
            files,
            log,
            survey(rules, files, log, from).at,
        ),
    decreases files.len() - from,
{
    if from < files.len() && file_fate(rules, files[from], log) != FileFate::Saved {
        lemma_file_messages_after_survey(directory, rules, files, log, from + 1);
    }
    assert(file_messages(directory, rules, files, log, from) =~= survey(
        rules,
        files,
        log,
        from,
    ).messages + file_messages(
        directory,
        rules,
        files,
        log,
        survey(rules, files, log, from).at,
    ));
}

proof fn lemma_save_changes_no_messages(
    directory: Seq<u8>,
    rules: OutputRules,
    files: Seq<MemoryFileView>,
    log: Log,
    saved: Seq<u8>,
    from: int,
)
    requires
        distinct_names(log),
        is_recorded(log, saved),
        all_recorded(files, log),
    ensures
        file_messages(directory, rules, files, after_written_to_disk(log, saved), from)
            == file_messages(directory, rules, files, log, from),
    decreases files.len() - from,
{
    if 0 <= from < files.len() {
        lemma_save_changes_no_messages(directory, rules, files, log, saved, from + 1);
        if files[from].name != stdout_name() {
            lemma_save_changes_no_fate(rules, files[from], log, saved);
        }
    }
}

proof fn lemma_one_more_piece(pieces: Seq<RulePieceView>, piece: RulePieceView)
    ensures
        all_data(pieces.push(piece)) == all_data(pieces) + piece.data,
        all_warnings(pieces.push(piece)) == all_warnings(pieces) + piece.warnings,
    decreases pieces.len(),
{
    let more = pieces.push(piece);
    if pieces.len() == 0 {
        assert(more.drop_first() =~= Seq::<RulePieceView>::empty());
        assert(all_data(more.drop_first()) == Seq::<u8>::empty());
        assert(all_warnings(more.drop_first()) == Seq::<MessageView>::empty());
    } else {
        assert(more.drop_first() =~= pieces.drop_first().push(piece));
        lemma_one_more_piece(pieces.drop_first(), piece);
    }
    assert(all_data(more) =~= all_data(pieces) + piece.data);
    assert(all_warnings(more) =~= all_warnings(pieces) + piece.warnings);
}

proof fn lemma_draft(primary_input: Option<Seq<u8>>, directory: Seq<u8>, log: Log)
    ensures
        ({
            let draft = rule_draft(primary_input, directory, log);
            &&& all_data(draft.pieces) == encode_utf8(": "@) + (match primary_input {
                Some(path) => path,
                None => Seq::empty(),
            }) + dependencies(directory, log)
            &&& all_warnings(draft.pieces) + draft.pending == circular_messages(log)
        }),
    decreases log.len(),
{
    let draft = rule_draft(primary_input, directory, log);
    if log.len() == 0 {
        let none = Seq::<RulePieceView>::empty();
        let colon = plain_piece(encode_utf8(": "@));
        lemma_one_more_piece(none, colon);
        assert(seq![colon] =~= none.push(colon));
        if let Some(path) = primary_input {
            lemma_one_more_piece(seq![colon], plain_piece(path));
        }
    } else {
        let shorter = rule_draft(primary_input, directory, log.drop_last());
        lemma_draft(primary_input, directory, log.drop_last());
        if is_dependency(log.last()) {
            lemma_one_more_piece(shorter.pieces, draft.pieces.last());
        }
    }
    assert(all_data(draft.pieces) =~= encode_utf8(": "@) + (match primary_input {
        Some(path) => path,
        None => Seq::empty(),
    }) + dependencies(directory, log));
    assert(all_warnings(draft.pieces) + draft.pending =~= circular_messages(log));
}

/// Put together, the pieces in which the rule is written are the rule, and the
/// user is warned in their course of all dependencies that are left out.
pub proof fn law_pieces_make_the_rule(
    primary_input: Option<Seq<u8>>,
    directory: Seq<u8>,
    log: Log,
)
    ensures
        all_data(rule_pieces(primary_input, directory, log)) == rule_bytes(
            primary_input,
            directory,
            log,
        ),
        all_warnings(rule_pieces(primary_input, directory, log)) == circular_messages(log),
{
    let draft = rule_draft(primary_input, directory, log);
    lemma_draft(primary_input, directory, log);
    lemma_one_more_piece(draft.pieces, rule_pieces(primary_input, directory, log).last());
}

/// All writes of the rule succeed: the record stays as it is.
proof fn lemma_rule_keeps_the_log<E>(turn: Turn<E>, inputs: Seq<Input<E>>)
    requires
        turn.session.stage is WritingRule || turn.session.stage is Finished,
        all_fit(turn, inputs),
        all_written(inputs),
    ensures
        last_turn(turn, inputs).session.state.log == turn.session.state.log,
    decreases inputs.len(),
{
    if inputs.len() > 0 {
        assert(inputs[0].accesses.len() == 0);
        assert(with_accesses(turn.session, inputs[0].accesses) == turn.session);
        lemma_rest_is_written(inputs);
        lemma_rule_keeps_the_log(turn_after(turn, inputs[0]), inputs.drop_first());
    }
}

proof fn lemma_rest_is_written<E>(inputs: Seq<Input<E>>)
    requires
        all_written(inputs),
        inputs.len() > 0,
    ensures
        all_written(inputs.drop_first()),
{
    let rest = inputs.drop_first();
    assert forall|i: int| 0 <= i < rest.len() implies (#[trigger] rest[i]).accesses.len() == 0
        && rest[i].event == EventView::<E>::Io(Ok(())) by {
        assert(rest[i] == inputs[i + 1]);
    }
}

/// A turn while the outputs are saved, or while the rule is written, or the end.
spec fn is_output_turn<E>(turn: Turn<E>) -> bool {
    &&& is_saving_turn(turn)
    &&& match turn.session.stage {
        StageView::SavingFile { purpose, .. } => purpose is Outputs,
        StageView::WritingTarget { files, at, skipped } => {
            &&& turn.session.state.settings.makefile_output_path is Some
            &&& turn.messages.len() == 0
            &&& turn.action == ActionView::<E>::WriteMakefile {
                data: target_bytes(
                    utf8_lossy(
                        joined_path(
                            turn.session.state.settings.output_path,
                            files[at].name,
                        ),
                    ),
                ),
            }
        },
        _ => true,
    }
}

/// What the user is still to be told at a turn, the messages of the turn
/// included; `log` is the record at the end.
spec fn messages_left<E>(turn: Turn<E>, log: Log) -> Seq<MessageView> {
    let t = turn.session.state;
    let rules = output_rules(t.settings, Purpose::<E>::Outputs);
    match turn.session.stage {
        StageView::SavingFile { purpose, files, at, skipped } => turn.messages + (file_messages(
            t.settings.output_path,
            rules,
            files,
            t.log,
            at + 1,
        ) + closing_messages(
            t.settings,
            skipped + intermediates(rules, files, t.log, at + 1),
            log,
        )),
        StageView::WritingTarget { files, at, skipped } => turn.messages + (file_messages(
            t.settings.output_path,
            rules,
            files,
            t.log,
            at + 1,
        ) + closing_messages(
            t.settings,
            skipped + intermediates(rules, files, t.log, at + 1),
            log,
        )),
        StageView::WritingRule { rest } => turn.messages + all_warnings(rest),
        _ => turn.messages,
    }
}

/// What is still to be written to the file for the Makefile rules at a turn, the
/// action of the turn included; `log` is the record at the end.
spec fn data_left<E>(turn: Turn<E>, log: Log) -> Seq<u8> {
    let t = turn.session.state;
    let rule = rule_bytes(t.settings.primary_input_path, t.io.filesystem_root, log);
    match turn.session.stage {
        StageView::SavingFile { .. } => targets_of(saves_left(turn)) + rule,
        StageView::WritingTarget { .. } => turn.action->WriteMakefile_data + (targets_of(
            saves_left(turn),
        ) + rule),
        StageView::WritingRule { rest } => turn.action->WriteMakefile_data + all_data(rest),
        _ => Seq::empty(),
    }
}

proof fn lemma_save_next_outputs<E>(
    t: StateView,
    files: Seq<MemoryFileView>,
    from: int,
    skipped: nat,
    log: Log,
)
    requires
        distinct_names(t.log),
        0 <= from <= files.len(),
        all_recorded(files, t.log),
        course::save_next(t, Purpose::<E>::Outputs, files, from, skipped).session.stage
            is WritingRule ==> log == t.log,
    ensures
        ({
            let turn = course::save_next(t, Purpose::<E>::Outputs, files, from, skipped);
            let rules = output_rules(t.settings, Purpose::<E>::Outputs);
            let directory = t.settings.output_path;
            &&& is_output_turn(turn)
            &&& turn.session.state == t
            &&& messages_left(turn, log) == file_messages(directory, rules, files, t.log, from)
                + closing_messages(
                t.settings,
                skipped + intermediates(rules, files, t.log, from),
                log,
            )
            &&& t.settings.makefile_output_path is Some ==> data_left(turn, log) == targets_of(
                wanted_saves::<E>(directory, rules, files, t.log, from),
            ) + rule_bytes(t.settings.primary_input_path, t.io.filesystem_root, log)
        }),
{
    let turn = course::save_next(t, Purpose::<E>::Outputs, files, from, skipped);
    let rules = output_rules(t.settings, Purpose::<E>::Outputs);
    let directory = t.settings.output_path;
    let found = survey(rules, files, t.log, from);
    lemma_save_next_saves(t, Purpose::<E>::Outputs, files, from, skipped);
    lemma_survey(rules, files, t.log, from);
    lemma_survey_counts(rules, files, t.log, from);
    lemma_file_messages_after_survey(directory, rules, files, t.log, from);
    reveal(course::save_next);
    let total = skipped + intermediates(rules, files, t.log, from);
    if found.at >= files.len() {
        let pieces = rule_pieces(
            t.settings.primary_input_path,
            t.io.filesystem_root,
            t.log,
        );
        law_pieces_make_the_rule(
            t.settings.primary_input_path,
            t.io.filesystem_root,
            t.log,
        );
        assert(targets_of(Seq::<ActionView<E>>::empty()) == Seq::<u8>::empty());
        if t.settings.makefile_output_path is Some {
            assert(turn.messages + all_warnings(pieces.drop_first()) =~= found.messages
                + skipped_messages(total) + all_warnings(pieces));
            assert(data_left(turn, log) =~= targets_of(Seq::<ActionView<E>>::empty()) + all_data(
                pieces,
            ));
        }
    }
    assert(messages_left(turn, log) =~= file_messages(directory, rules, files, t.log, from)
        + closing_messages(t.settings, total, log));
}

/// The turn that follows on a write that succeeds.
proof fn lemma_output_turn<E>(turn: Turn<E>, log: Log)
    requires
        is_output_turn(turn),
        course::answers(turn.session, EventView::Io(Ok(()))),
        course::next(turn.session, EventView::Io(Ok(()))).session.stage is WritingRule ==> log
            == course::next(turn.session, EventView::Io(Ok(()))).session.state.log,
    ensures
        ({
            let following = course::next(turn.session, EventView::Io(Ok(())));
            let t = turn.session.state;
            &&& is_output_turn(following)
            &&& following.session.state.settings == t.settings
            &&& following.session.state.io == t.io
            &&& messages_left(turn, log) == turn.messages + messages_left(following, log)
            &&& t.settings.makefile_output_path is Some ==> data_left(turn, log)
                == if turn.action is WriteMakefile {
                turn.action->WriteMakefile_data + data_left(following, log)
            } else {
                data_left(following, log)
            }
        }),
{
    let s = turn.session;
    let t = s.state;
    let following = course::next(s, EventView::Io(Ok(())));
    lemma_saving_turn_saves(s, turn);
    match s.stage {
        StageView::SavingFile { purpose, files, at, skipped } => {
            reveal(course::on_saved);
            let rules = output_rules(t.settings, purpose);
            let directory = t.settings.output_path;
            let name = files[at].name;
            let marked = StateView { log: after_written_to_disk(t.log, name), ..t };
            assert(is_recorded(t.log, name));
            lemma_save_changes_no_fate(rules, files[at], t.log, name);
            lemma_recorded_stays_on_save(files, t.log, name);
            lemma_save_changes_no_count(rules, files, t.log, name, at + 1);
            lemma_save_changes_no_messages(directory, rules, files, t.log, name, at + 1);
            lemma_save_changes_no_wants::<E>(directory, rules, files, t.log, name, at + 1);
            if t.settings.makefile_output_path is None {
                lemma_save_next_saves(marked, purpose, files, at + 1, skipped);
                lemma_save_next_outputs::<E>(marked, files, at + 1, skipped, log);
            } else {
                let rest = saves_left(following);
                let all = saves_left(turn);
                assert(all == seq![turn.action] + rest);
                assert(all.drop_first() =~= rest);
                assert(messages_left(following, log) =~= file_messages(
                    directory,
                    rules,
                    files,
                    t.log,
                    at + 1,
                ) + closing_messages(
                    t.settings,
                    skipped + intermediates(rules, files, t.log, at + 1),
                    log,
                ));
                assert(data_left(turn, log) =~= data_left(following, log));
            }
        },
        StageView::WritingTarget { files, at, skipped } => {
            lemma_save_next_saves(t, Purpose::<E>::Outputs, files, at + 1, skipped);
            lemma_save_next_outputs::<E>(t, files, at + 1, skipped, log);
        },
        StageView::WritingRule { rest } => {
            if rest.len() == 0 {
                assert(all_warnings(rest) == Seq::<MessageView>::empty());
                assert(all_data(rest) == Seq::<u8>::empty());
            } else {
                assert(following.messages =~= rest[0].warnings);
            }
        },
        _ => {},
    }
}

proof fn lemma_all_outputs<E>(turn: Turn<E>, inputs: Seq<Input<E>>)
    requires
        is_output_turn(turn),
        turn.session.stage is WritingRule ==> last_turn(turn, inputs).session.state.log
            == turn.session.state.log,
        all_fit(turn, inputs),
        all_written(inputs),
        last_turn(turn, inputs).action is Finish,
    ensures
        told(turn, inputs) == messages_left(turn, last_turn(turn, inputs).session.state.log),
        turn.session.state.settings.makefile_output_path is Some ==> makefile_data(
            actions(turn, inputs),
        ) == data_left(turn, last_turn(turn, inputs).session.state.log),
    decreases inputs.len(),
{
    let all = actions(turn, inputs);
    let log = last_turn(turn, inputs).session.state.log;
    assert(all[0] == turn.action);
    if inputs.len() == 0 {
        assert(all.drop_first() =~= Seq::<ActionView<E>>::empty());
        assert(makefile_data(all.drop_first()) == Seq::<u8>::empty());
    } else {
        let following = turn_after(turn, inputs[0]);
        let rest = inputs.drop_first();
        assert(inputs[0].accesses.len() == 0);
        assert(with_accesses(turn.session, inputs[0].accesses) == turn.session);
        lemma_rest_is_written(inputs);
        if following.session.stage is WritingRule {
            lemma_rule_keeps_the_log(following, rest);
        }
        lemma_output_turn(turn, log);
        lemma_all_outputs(following, rest);
        assert(all.drop_first() =~= actions(following, rest));
    }
}

/// From the moment at which the files in memory are handed over to the end, the
/// user is told, in this order: of each file that is saved, or that is not
/// because there is nothing in it; how many files were skipped because they are
/// intermediate files; and which dependencies are left out of the Makefile rules,
/// if those are asked for.
pub proof fn law_outputs_are_told<E>(
    turn: Turn<E>,
    files: Seq<MemoryFileView>,
    inputs: Seq<Input<E>>,
)
    requires
        distinct_names(turn.session.state.log),
        turn.session.stage is ListingOutputs,
        inputs.len() > 0,
        inputs[0].accesses.len() == 0,
        inputs[0].event == EventView::<E>::Memory(files),
        all_written(inputs.drop_first()),
        all_fit(turn, inputs),
        last_turn(turn, inputs).action is Finish,
    ensures
        ({
            let t = turn.session.state;
            let rules = output_rules(t.settings, Purpose::<E>::Outputs);
            told(turn, inputs) == turn.messages + (file_messages(
                t.settings.output_path,
                rules,
                files,
                t.log,
                0,
            ) + closing_messages(
                t.settings,
                intermediates(rules, files, t.log, 0),
                last_turn(turn, inputs).session.state.log,
            ))
        }),
{
    lemma_outputs_from_listing(turn, files, inputs);
}

proof fn lemma_outputs_from_listing<E>(
    turn: Turn<E>,
    files: Seq<MemoryFileView>,
    inputs: Seq<Input<E>>,
)
    requires
        distinct_names(turn.session.state.log),
        turn.session.stage is ListingOutputs,
        inputs.len() > 0,
        inputs[0].accesses.len() == 0,
        inputs[0].event == EventView::<E>::Memory(files),
        all_written(inputs.drop_first()),
        all_fit(turn, inputs),
        last_turn(turn, inputs).action is Finish,
    ensures
        ({
            let t = turn.session.state;
            let rules = output_rules(t.settings, Purpose::<E>::Outputs);
            let following = turn_after(turn, inputs[0]);
            let rest = inputs.drop_first();
            let log = last_turn(turn, inputs).session.state.log;
            &&& told(following, rest) == file_messages(
                t.settings.output_path,
                rules,
                files,
                t.log,
                0,
            ) + closing_messages(t.settings, intermediates(rules, files, t.log, 0), log)
            &&& t.settings.makefile_output_path is Some ==> makefile_data(actions(following, rest))
                == targets_of(
                wanted_saves::<E>(t.settings.output_path, rules, files, t.log, 0),
            ) + rule_bytes(t.settings.primary_input_path, t.io.filesystem_root, log)
        }),
{
    let t = turn.session.state;
    let following = turn_after(turn, inputs[0]);
    let rest = inputs.drop_first();
    let log = last_turn(turn, inputs).session.state.log;
    assert(with_accesses(turn.session, inputs[0].accesses) == turn.session);
    lemma_save_next_saves(t, Purpose::<E>::Outputs, files, 0, 0);
    if following.session.stage is WritingRule {
        lemma_rule_keeps_the_log(following, rest);
    }
    lemma_save_next_outputs::<E>(t, files, 0, 0, log);
    lemma_all_outputs(following, rest);
}

/// Those of the actions that write to the file for the Makefile rules: their
/// data, put together.
pub open spec fn makefile_data<E>(actions: Seq<ActionView<E>>) -> Seq<u8>
    decreases actions.len(),
{
    if actions.len() == 0 {
        Seq::empty()
    } else {
        match actions[0] {
            ActionView::WriteMakefile { data } => data + makefile_data(actions.drop_first()),
            _ => makefile_data(actions.drop_first()),
        }
    }
}

/// The targets for actions that save files, in their order.
pub open spec fn targets_of<E>(saves: Seq<ActionView<E>>) -> Seq<u8>
    decreases saves.len(),
{
    if saves.len() == 0 {
        Seq::empty()
    } else {
        target_bytes(utf8_lossy(saves[0]->SaveFile_path)) + targets_of(saves.drop_first())
    }
}

/// The file for the Makefile rules, as a whole: the targets, which are exactly
/// the files that are saved, and then the rule.
pub proof fn law_makefile_rules_are_written<E>(
    turn: Turn<E>,
    files: Seq<MemoryFileView>,
    inputs: Seq<Input<E>>,
)
    requires
        distinct_names(turn.session.state.log),
        turn.session.stage is ListingOutputs,
        turn.action is ListMemory,
        turn.session.state.settings.makefile_output_path is Some,
        inputs.len() > 0,
        inputs[0].accesses.len() == 0,
        inputs[0].event == EventView::<E>::Memory(files),
        all_written(inputs.drop_first()),
        all_fit(turn, inputs),
        last_turn(turn, inputs).action is Finish,
    ensures
        makefile_data(actions(turn, inputs)) == targets_of(saves_of(actions(turn, inputs)))
            + rule_bytes(
            turn.session.state.settings.primary_input_path,
            turn.session.state.io.filesystem_root,
            last_turn(turn, inputs).session.state.log,
        ),
{
    lemma_outputs_from_listing(turn, files, inputs);
    law_outputs_are_saved(turn, files, inputs);
    assert(actions(turn, inputs)[0] == turn.action);
    assert(actions(turn, inputs).drop_first() =~= actions(
        turn_after(turn, inputs[0]),
        inputs.drop_first(),
    ));
}

/// A file that was saved is never a dependency in the Makefile rules, whatever
/// the engines do afterwards.
pub proof fn law_saved_file_is_no_dependency(log: Log, saved: Seq<u8>, events: Seq<IoEventView>)
    requires
        distinct_names(log),
        is_recorded(log, saved),
        can_all_happen(after_written_to_disk(log, saved), events),
    ensures
        is_recorded(after_events(after_written_to_disk(log, saved), events), saved),
        ({
            let after = after_events(after_written_to_disk(log, saved), events);
            !is_dependency(after[place_of(after, saved)])
        }),
{
    let marked = after_written_to_disk(log, saved);
    assert(names_at(log, saved, place_of(log, saved)));
    assert(forall|i: int| 0 <= i < log.len() ==> #[trigger] marked[i].name == log[i].name);
    assert(names_at(marked, saved, place_of(log, saved)));
    lemma_mark_stays(marked, saved, events);
}

proof fn lemma_mark_stays(log: Log, name: Seq<u8>, events: Seq<IoEventView>)
    requires
        distinct_names(log),
        is_recorded(log, name),
        recorded(log, name).got_written_to_disk,
        can_all_happen(log, events),
    ensures
        is_recorded(after_events(log, events), name),
        recorded(after_events(log, events), name).got_written_to_disk,
    decreases events.len(),
{
    if events.len() > 0 {
        lemma_names_stay_distinct(log, events[0]);
        lemma_entries_stay(log, events[0], name);
        assert(names_at(log, name, place_of(log, name)));
        lemma_mark_stays(after_event(log, events[0]), name, events.drop_first());
    }
}

} // verus!
