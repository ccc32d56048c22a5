//! Which files are saved, in the bytes of their names.
use crate::access_laws::law_record_is_the_entry;
use crate::course;
use crate::course::{next, Purpose, SessionView, Settings, StageView, StateView};
use crate::events::{distinct_names, recorded, AccessPattern, Log};
use crate::message::MessageView;
use crate::output::{
    fate_of, file_fate, survey, FileFate, MemoryFileView, OutputRules, Survey,
};
use crate::outside::utf8_lossy;
use crate::protocol::{ActionView, EventView};
use crate::session_laws::lemma_survey;
use crate::settings::OutputFormat;
use crate::text::{decimal_text, joined_path};
use crate::text_laws::lemma_ascii_suffix;
use vstd::prelude::*;
use vstd::utf8::encode_utf8;

verus! {

/// A name that ends in `.log` or `.blg`.
pub open spec fn ends_like_a_log(name: Seq<u8>) -> bool {
    seq![46u8, 108u8, 111u8, 103u8].is_suffix_of(name) || seq![
        46u8,
        98u8,
        108u8,
        103u8,
    ].is_suffix_of(name)
}

/// A name that ends in `.snm` or `.toc`.
pub open spec fn ends_like_beamer(name: Seq<u8>) -> bool {
    seq![46u8, 115u8, 110u8, 109u8].is_suffix_of(name) || seq![
        46u8,
        116u8,
        111u8,
        99u8,
    ].is_suffix_of(name)
}

/// A name that ends in `.aux`.
pub open spec fn ends_like_aux(name: Seq<u8>) -> bool {
    seq![46u8, 97u8, 117u8, 120u8].is_suffix_of(name)
}

/// The user cares for a file of that name, if there is something in it.
pub open spec fn is_of_interest(
    settings: Settings,
    failed: bool,
    name: Seq<u8>,
    pattern: AccessPattern,
) -> bool {
    &&& name.len() > 0
    &&& ends_like_a_log(name) ==> settings.keep_logs
    &&& failed ==> ends_like_a_log(name)
    &&& !failed && settings.output_format == OutputFormat::Aux ==> ends_like_aux(name)
    &&& (failed || settings.output_format != OutputFormat::Aux) && !settings.keep_intermediates
        ==> pattern == AccessPattern::Written && !ends_like_beamer(name)
}

/// The file counts as one that the user does not care for, but can ask for.
pub open spec fn is_in_between(
    settings: Settings,
    failed: bool,
    name: Seq<u8>,
    pattern: AccessPattern,
) -> bool {
    &&& name.len() > 0
    &&& failed || settings.output_format != OutputFormat::Aux
    &&& !settings.keep_intermediates
    &&& pattern != AccessPattern::Written || ends_like_beamer(name)
}

proof fn lemma_endings(name: Seq<u8>)
    ensures
        crate::output::is_log_name(name) <==> ends_like_a_log(name),
        crate::output::is_intermediate_name(name) <==> ends_like_beamer(name),
        crate::text::has_suffix(name, ".aux"@) <==> ends_like_aux(name),
{
    reveal_strlit(".log");
    reveal_strlit(".blg");
    reveal_strlit(".snm");
    reveal_strlit(".toc");
    reveal_strlit(".aux");
    lemma_ascii_suffix(name, ".log"@, seq![46u8, 108u8, 111u8, 103u8]);
    lemma_ascii_suffix(name, ".blg"@, seq![46u8, 98u8, 108u8, 103u8]);
    lemma_ascii_suffix(name, ".snm"@, seq![46u8, 115u8, 110u8, 109u8]);
    lemma_ascii_suffix(name, ".toc"@, seq![46u8, 116u8, 111u8, 99u8]);
    lemma_ascii_suffix(name, ".aux"@, seq![46u8, 97u8, 117u8, 120u8]);
}

/// A file is saved exactly if the user cares for it and there is something in it;
/// if there is nothing in it, that is told; and an intermediate file is counted. A
/// log file that is not wanted, and a file that is no log where only logs are, are
/// told apart.
pub proof fn law_fate_goes_by_the_bytes(
    settings: Settings,
    failed: bool,
    file: MemoryFileView,
    pattern: AccessPattern,
)
    ensures
        ({
            let fate = fate_of(
                OutputRules {
                    output_format: settings.output_format,
                    keep_intermediates: settings.keep_intermediates,
                    keep_logs: settings.keep_logs,
                    only_logs: failed,
                },
                file,
                pattern,
            );
            &&& fate == FileFate::Saved <==> is_of_interest(settings, failed, file.name, pattern)
                && file.contents.len() > 0
            &&& fate == FileFate::Empty <==> is_of_interest(settings, failed, file.name, pattern)
                && file.contents.len() == 0
            &&& fate == FileFate::Intermediate <==> is_in_between(
                settings,
                failed,
                file.name,
                pattern,
            )
            &&& fate == FileFate::Stdout <==> file.name.len() == 0
            &&& fate == FileFate::NotAux <==> file.name.len() > 0 && !failed
                && settings.output_format == OutputFormat::Aux && !ends_like_aux(file.name)
            &&& fate == FileFate::UnwantedLog ==> ends_like_a_log(file.name) && !settings.keep_logs
            &&& fate == FileFate::NotLog ==> !ends_like_a_log(file.name) && failed
        }),
{
    lemma_endings(file.name);
    assert(file.name.len() == 0 ==> file.name =~= Seq::<u8>::empty());
}

proof fn lemma_fate_in_a_session<E>(
    settings: Settings,
    purpose: Purpose<E>,
    file: MemoryFileView,
    log: Log,
)
    ensures
        ({
            let pattern = recorded(log, file.name).access_pattern;
            let failed = purpose is Logs;
            let fate = file_fate(course::output_rules(settings, purpose), file, log);
            &&& fate == FileFate::Saved <==> is_of_interest(settings, failed, file.name, pattern)
                && file.contents.len() > 0
            &&& fate == FileFate::Empty <==> is_of_interest(settings, failed, file.name, pattern)
                && file.contents.len() == 0
            &&& fate == FileFate::Intermediate <==> is_in_between(
                settings,
                failed,
                file.name,
                pattern,
            )
        }),
{
    law_fate_goes_by_the_bytes(
        settings,
        purpose is Logs,
        file,
        recorded(log, file.name).access_pattern,
    );
}

/// What the engines only wrote is saved, whatever it is called: unless it is empty,
/// is a log file, or comes from Beamer, or only the `.aux` file is asked for.
pub proof fn law_written_file_is_saved<E>(
    settings: Settings,
    file: MemoryFileView,
    log: Log,
    at: int,
)
    requires
        distinct_names(log),
        0 <= at < log.len(),
        log[at].name == file.name,
        log[at].summary.access_pattern == AccessPattern::Written,
        file.name.len() > 0,
        file.contents.len() > 0,
        settings.output_format != OutputFormat::Aux,
        !seq![46u8, 115u8, 110u8, 109u8].is_suffix_of(file.name),
        !seq![46u8, 116u8, 111u8, 99u8].is_suffix_of(file.name),
        !seq![46u8, 108u8, 111u8, 103u8].is_suffix_of(file.name),
        !seq![46u8, 98u8, 108u8, 103u8].is_suffix_of(file.name),
    ensures
        file_fate(course::output_rules(settings, Purpose::<E>::Outputs), file, log)
            == FileFate::Saved,
{
    law_record_is_the_entry(log, file.name);
    lemma_fate_in_a_session(settings, Purpose::<E>::Outputs, file, log);
}

/// If the `.xdv` file is asked for, one that the engine wrote is saved, unless
/// there is nothing in it; and likewise the `.pdf` file.
pub proof fn law_asked_for_file_is_saved<E>(
    settings: Settings,
    file: MemoryFileView,
    log: Log,
    at: int,
)
    requires
        distinct_names(log),
        0 <= at < log.len(),
        log[at].name == file.name,
        log[at].summary.access_pattern == AccessPattern::Written,
        file.contents.len() > 0,
        settings.output_format == OutputFormat::Xdv && seq![46u8, 120u8, 100u8, 118u8].is_suffix_of(
            file.name,
        ) || settings.output_format == OutputFormat::Pdf && seq![
            46u8,
            112u8,
            100u8,
            102u8,
        ].is_suffix_of(file.name),
    ensures
        file_fate(course::output_rules(settings, Purpose::<E>::Outputs), file, log)
            == FileFate::Saved,
{
    let name = file.name;
    lemma_last_byte(seq![46u8, 120u8, 100u8, 118u8], name);
    lemma_last_byte(seq![46u8, 112u8, 100u8, 102u8], name);
    lemma_last_byte(seq![46u8, 115u8, 110u8, 109u8], name);
    lemma_last_byte(seq![46u8, 116u8, 111u8, 99u8], name);
    lemma_last_byte(seq![46u8, 108u8, 111u8, 103u8], name);
    lemma_last_byte(seq![46u8, 98u8, 108u8, 103u8], name);
    law_written_file_is_saved::<E>(settings, file, log, at);
}

proof fn lemma_last_byte(tail: Seq<u8>, name: Seq<u8>)
    requires
        tail.len() == 4,
    ensures
        tail.is_suffix_of(name) ==> name.len() >= 4 && name[name.len() - 1] == tail[3],
{
    if tail.is_suffix_of(name) {
        assert(name.subrange(name.len() - 4, name.len() as int)[3] == name[name.len() - 1]);
    }
}

/// After a success, a log file that the engines only wrote and that is not empty
/// is saved exactly if logs are kept.
pub proof fn law_log_is_saved_if_kept<E>(
    settings: Settings,
    file: MemoryFileView,
    log: Log,
    at: int,
)
    requires
        distinct_names(log),
        0 <= at < log.len(),
        log[at].name == file.name,
        log[at].summary.access_pattern == AccessPattern::Written,
        file.contents.len() > 0,
        settings.output_format != OutputFormat::Aux,
        seq![46u8, 108u8, 111u8, 103u8].is_suffix_of(file.name) || seq![
            46u8,
            98u8,
            108u8,
            103u8,
        ].is_suffix_of(file.name),
    ensures
        file_fate(course::output_rules(settings, Purpose::<E>::Outputs), file, log)
            == FileFate::Saved <==> settings.keep_logs,
{
    let name = file.name;
    lemma_last_byte(seq![46u8, 108u8, 111u8, 103u8], name);
    lemma_last_byte(seq![46u8, 98u8, 108u8, 103u8], name);
    lemma_last_byte(seq![46u8, 115u8, 110u8, 109u8], name);
    lemma_last_byte(seq![46u8, 116u8, 111u8, 99u8], name);
    law_record_is_the_entry(log, name);
    lemma_fate_in_a_session(settings, Purpose::<E>::Outputs, file, log);
}

/// Two files that were accessed in the same way, whose names end in the same four
/// bytes, and that are both empty or both not, meet with the same fate: nothing
/// else counts.
pub proof fn law_only_the_ending_counts(
    rules: OutputRules,
    file: MemoryFileView,
    other: MemoryFileView,
    pattern: AccessPattern,
)
    requires
        file.name.len() >= 4,
        other.name.len() >= 4,
        file.name.skip(file.name.len() - 4) == other.name.skip(other.name.len() - 4),
        file.contents.len() == 0 <==> other.contents.len() == 0,
    ensures
        fate_of(rules, file, pattern) == fate_of(rules, other, pattern),
{
    lemma_endings(file.name);
    lemma_endings(other.name);
    lemma_same_ending(seq![46u8, 108u8, 111u8, 103u8], file.name, other.name);
    lemma_same_ending(seq![46u8, 98u8, 108u8, 103u8], file.name, other.name);
    lemma_same_ending(seq![46u8, 115u8, 110u8, 109u8], file.name, other.name);
    lemma_same_ending(seq![46u8, 116u8, 111u8, 99u8], file.name, other.name);
    lemma_same_ending(seq![46u8, 97u8, 117u8, 120u8], file.name, other.name);
}

proof fn lemma_same_ending(tail: Seq<u8>, name: Seq<u8>, other: Seq<u8>)
    requires
        tail.len() == 4,
        name.len() >= 4,
        other.len() >= 4,
        name.skip(name.len() - 4) == other.skip(other.len() - 4),
    ensures
        tail.is_suffix_of(name) <==> tail.is_suffix_of(other),
{
    assert(name.skip(name.len() - 4) =~= name.subrange(name.len() - 4, name.len() as int));
    assert(other.skip(other.len() - 4) =~= other.subrange(other.len() - 4, other.len() as int));
}

/// The file is one to be saved.
pub open spec fn is_to_be_saved(
    settings: Settings,
    failed: bool,
    file: MemoryFileView,
    log: Log,
) -> bool {
    file.contents.len() > 0 && is_of_interest(
        settings,
        failed,
        file.name,
        recorded(log, file.name).access_pattern,
    )
}

/// The files are gone through one by one. One that is to be saved ends the search;
/// one that the user would care for if it were not empty is told of; and an
/// intermediate file is counted.
pub proof fn law_files_are_gone_through<E>(
    settings: Settings,
    purpose: Purpose<E>,
    files: Seq<MemoryFileView>,
    log: Log,
    from: int,
)
    requires
        0 <= from <= files.len(),
    ensures
        ({
            let rules = course::output_rules(settings, purpose);
            let found = survey(rules, files, log, from);
            let rest = survey(rules, files, log, from + 1);
            let failed = purpose is Logs;
            if from == files.len() {
                found == (Survey { at: from, skipped: 0, messages: Seq::empty() })
            } else if is_to_be_saved(settings, failed, files[from], log) {
                found == (Survey { at: from, skipped: 0, messages: Seq::empty() })
            } else {
                let name = files[from].name;
                let pattern = recorded(log, name).access_pattern;
                &&& found.at == rest.at
                &&& found.skipped == rest.skipped + if is_in_between(
                    settings,
                    failed,
                    name,
                    pattern,
                ) {
                    1int
                } else {
                    0int
                }
                &&& found.messages == if is_of_interest(settings, failed, name, pattern) {
                    seq![
                        MessageView::Highlighted {
                            before: "Not writing "@,
                            phrase: utf8_lossy(name),
                            after: ": it would be empty."@,
                        },
                    ] + rest.messages
                } else {
                    rest.messages
                }
            }
        }),
{
    if from < files.len() {
        lemma_fate_in_a_session(settings, purpose, files[from], log);
    }
}

/// The search for a file to be saved has this outcome: the first one is saved, in
/// the output directory and with all its contents; or there is none, and after a
/// success the user is told how many intermediate files were passed over, if any.
pub open spec fn is_outcome_of_search<E>(
    t: StateView,
    purpose: Purpose<E>,
    files: Seq<MemoryFileView>,
    from: int,
    passed: nat,
    turn: course::Turn<E>,
) -> bool {
    let failed = purpose is Logs;
    let found = survey(course::output_rules(t.settings, purpose), files, t.log, from);
    match turn.session.stage {
        StageView::SavingFile { purpose: p, files: f, at, skipped } => {
            let path = joined_path(t.settings.output_path, files[at].name);
            &&& p == purpose
            &&& f == files
            &&& from <= at < files.len()
            &&& is_to_be_saved(t.settings, failed, files[at], t.log)
            &&& forall|i: int|
                from <= i < at ==> !is_to_be_saved(t.settings, failed, #[trigger] files[i], t.log)
            &&& turn.action == ActionView::<E>::SaveFile { path, contents: files[at].contents }
            &&& at == found.at
            &&& skipped == passed + found.skipped
            &&& turn.messages == found.messages.push(
                MessageView::Highlighted {
                    before: "Writing "@,
                    phrase: utf8_lossy(path),
                    after: " ("@ + decimal_text(files[at].contents.len()) + " bytes)"@,
                },
            )
        },
        _ => {
            &&& !(turn.action is SaveFile)
            &&& turn.action matches ActionView::Finish(outcome) ==> (outcome is Err <==> failed)
            &&& failed || passed + found.skipped == 0 ==> found.messages.is_prefix_of(turn.messages)
            &&& !failed && passed + found.skipped > 0 ==> found.messages.push(
                MessageView::Highlighted {
                    before: "Skipped writing "@,
                    phrase: decimal_text(passed + found.skipped),
                    after: " intermediate files (use --keep-intermediates to keep them)"@,
                },
            ).is_prefix_of(turn.messages)
            &&& turn.action is Finish && (failed || passed + found.skipped == 0)
                ==> turn.messages.len() == found.messages.len()
            &&& forall|i: int|
                from <= i < files.len() ==> !is_to_be_saved(
                    t.settings,
                    failed,
                    #[trigger] files[i],
                    t.log,
                )
        },
    }
}

proof fn lemma_search<E>(
    t: StateView,
    purpose: Purpose<E>,
    files: Seq<MemoryFileView>,
    from: int,
    skipped: nat,
)
    requires
        0 <= from <= files.len(),
    ensures
        is_outcome_of_search(
            t,
            purpose,
            files,
            from,
            skipped,
            course::save_next(t, purpose, files, from, skipped),
        ),
{
    let rules = course::output_rules(t.settings, purpose);
    reveal(course::save_next);
    lemma_survey(rules, files, t.log, from);
    let failed = purpose is Logs;
    assert forall|i: int| from <= i < files.len() implies (is_to_be_saved(
        t.settings,
        failed,
        #[trigger] files[i],
        t.log,
    ) <==> file_fate(rules, files[i], t.log) == FileFate::Saved) by {
        lemma_fate_in_a_session(t.settings, purpose, files[i], t.log);
    }
    let found = survey(rules, files, t.log, from);
    let turn = course::save_next(t, purpose, files, from, skipped);
    if found.at >= files.len() {
        let told = found.messages + course::skipped_messages(skipped + found.skipped);
        assert(found.messages + Seq::<MessageView>::empty() =~= found.messages);
        if purpose is Outputs {
            if skipped + found.skipped > 0 {
                let last = course::skipped_messages(skipped + found.skipped)[0];
                assert(told =~= found.messages.push(last));
            }
            assert(told =~= turn.messages.subrange(0, told.len() as int));
        } else {
            assert(turn.messages =~= found.messages.subrange(0, found.messages.len() as int));
        }
    }
}

/// When the files in memory are listed, after a success or a failure, the first
/// one that is to be saved is saved, if there is one.
pub proof fn law_search_begins_with_the_first_file<E>(
    s: SessionView<E>,
    files: Seq<MemoryFileView>,
)
    ensures
        s.stage is ListingOutputs ==> is_outcome_of_search(
            s.state,
            Purpose::<E>::Outputs,
            files,
            0,
            0,
            next(s, EventView::Memory(files)),
        ),
        s.stage matches StageView::ListingLogs(error) ==> is_outcome_of_search(
            s.state,
            Purpose::Logs(error),
            files,
            0,
            0,
            next(s, EventView::Memory(files)),
        ),
{
    lemma_search(s.state, Purpose::<E>::Outputs, files, 0, 0);
    if let StageView::ListingLogs(error) = s.stage {
        lemma_search(s.state, Purpose::Logs(error), files, 0, 0);
    }
}

/// When a file has been saved, and its path is written to the Makefile rules if
/// those are asked for, the next one that is to be saved is saved, if there is one.
pub proof fn law_search_goes_on_behind_the_file<E>(
    s: SessionView<E>,
    purpose: Purpose<E>,
    files: Seq<MemoryFileView>,
    at: int,
    skipped: nat,
)
    requires
        0 <= at < files.len(),
        s.stage == (StageView::SavingFile { purpose, files, at, skipped }) || (s.stage == (
        StageView::<E>::WritingTarget { files, at, skipped }) && purpose is Outputs),
    ensures
        ({
            let turn = next(s, EventView::Io(Ok(())));
            let settings = s.state.settings;
            let path = joined_path(settings.output_path, files[at].name);
            if s.stage is SavingFile && purpose is Outputs && settings.makefile_output_path
                is Some {
                &&& turn.session.stage == (StageView::<E>::WritingTarget { files, at, skipped })
                &&& turn.messages.len() == 0
                &&& turn.action == (ActionView::<E>::WriteMakefile {
                    data: encode_utf8(utf8_lossy(path)).push(32u8),
                })
            } else {
                is_outcome_of_search(turn.session.state, purpose, files, at + 1, skipped, turn)
            }
        }),
{
    reveal(course::on_saved);
    let t = s.state;
    let marked = StateView {
        log: crate::events::after_written_to_disk(t.log, files[at].name),
        ..t
    };
    lemma_search(t, purpose, files, at + 1, skipped);
    lemma_search(marked, purpose, files, at + 1, skipped);
    lemma_state_of_search(t, purpose, files, at + 1, skipped);
    lemma_state_of_search(marked, purpose, files, at + 1, skipped);
    reveal_strlit(" ");
    let shown = utf8_lossy(joined_path(t.settings.output_path, files[at].name));
    lemma_ascii_suffix(seq![32u8], " "@, seq![32u8]);
    assert(encode_utf8(shown) + seq![32u8] =~= encode_utf8(shown).push(32u8));
}

proof fn lemma_state_of_search<E>(
    t: StateView,
    purpose: Purpose<E>,
    files: Seq<MemoryFileView>,
    from: int,
    skipped: nat,
)
    ensures
        course::save_next(t, purpose, files, from, skipped).session.state == t,
{
    reveal(course::save_next);
}

} // verus!
