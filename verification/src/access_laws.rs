//! What holds of the record of file accesses, whatever the engines do.
use crate::digest::{digest_of_nothing, DigestData};
use crate::events::{
    accessed_name, after_event, after_input_closed, after_input_not_available, after_input_opened,
    after_output_closed, after_output_opened, after_reads_cleared, after_written_to_disk,
    can_happen, changed, distinct_names, is_recorded, lemma_names_stay_distinct, names_at,
    pattern_after_input, pattern_after_output, place_of, recorded, AccessPattern, FileSummary,
    InputOrigin, IoEventView, Log,
};
use vstd::prelude::*;

verus! {

/// A file with a circular or temporary access pattern.
pub open spec fn is_settled(pattern: AccessPattern) -> bool {
    pattern == AccessPattern::ReadThenWritten || pattern == AccessPattern::WrittenThenRead
}

/// The accesses can happen one after the other.
pub open spec fn can_all_happen(log: Log, events: Seq<IoEventView>) -> bool
    decreases events.len(),
{
    events.len() == 0 || (can_happen(log, events[0]) && can_all_happen(
        after_event(log, events[0]),
        events.drop_first(),
    ))
}

/// The log once all the accesses happened.
pub open spec fn after_events(log: Log, events: Seq<IoEventView>) -> Log
    decreases events.len(),
{
    if events.len() == 0 {
        log
    } else {
        after_events(after_event(log, events[0]), events.drop_first())
    }
}

/// In a log without doubles there is one place for a name.
proof fn lemma_one_place(log: Log, name: Seq<u8>, at: int)
    requires
        distinct_names(log),
        names_at(log, name, at),
    ensures
        is_recorded(log, name),
        place_of(log, name) == at,
{
    assert(names_at(log, name, place_of(log, name)));
}

/// An access leaves the other files as they are, and puts new ones behind.
pub proof fn lemma_entries_stay(log: Log, event: IoEventView, name: Seq<u8>)
    requires
        distinct_names(log),
        can_happen(log, event),
        is_recorded(log, name),
    ensures
        is_recorded(after_event(log, event), name),
        place_of(after_event(log, event), name) == place_of(log, name),
        accessed_name(event) != name ==> recorded(after_event(log, event), name) == recorded(
            log,
            name,
        ),
{
    let after = after_event(log, event);
    let accessed = accessed_name(event);
    let at = place_of(log, name);
    lemma_names_stay_distinct(log, event);
    if is_recorded(log, accessed) {
        assert(names_at(log, accessed, place_of(log, accessed)));
    }
    assert(names_at(after, name, at));
    lemma_one_place(after, name, at);
}

/// A file that was recorded stays recorded, in its place, and no file is
/// recorded twice, whatever the engines do.
pub proof fn law_record_only_grows(log: Log, events: Seq<IoEventView>, name: Seq<u8>)
    requires
        distinct_names(log),
        can_all_happen(log, events),
        is_recorded(log, name),
    ensures
        distinct_names(after_events(log, events)),
        is_recorded(after_events(log, events), name),
        place_of(after_events(log, events), name) == place_of(log, name),
    decreases events.len(),
{
    if events.len() > 0 {
        lemma_names_stay_distinct(log, events[0]);
        lemma_entries_stay(log, events[0], name);
        law_record_only_grows(after_event(log, events[0]), events.drop_first(), name);
    }
}

/// The access pattern of a file evolves in two ways only: a file that was only
/// read may turn out to be circular, and one that was only written may turn out
/// to be temporary.
pub proof fn law_pattern_evolves_once(log: Log, event: IoEventView, name: Seq<u8>)
    requires
        distinct_names(log),
        can_happen(log, event),
        is_recorded(log, name),
    ensures
        ({
            let before = recorded(log, name).access_pattern;
            let after = recorded(after_event(log, event), name).access_pattern;
            ||| after == before
            ||| after == pattern_after_output(before)
            ||| after == pattern_after_input(before)
        }),
{
    lemma_entries_stay(log, event, name);
    assert(names_at(log, name, place_of(log, name)));
}

/// Once a file is marked as read and then written, or as written and then read,
/// its pattern does not evolve further, whatever the engines do.
pub proof fn law_settled_pattern_stays(log: Log, events: Seq<IoEventView>, name: Seq<u8>)
    requires
        distinct_names(log),
        can_all_happen(log, events),
        is_recorded(log, name),
        is_settled(recorded(log, name).access_pattern),
    ensures
        is_recorded(after_events(log, events), name),
        recorded(after_events(log, events), name).access_pattern == recorded(
            log,
            name,
        ).access_pattern,
    decreases events.len(),
{
    if events.len() > 0 {
        lemma_names_stay_distinct(log, events[0]);
        lemma_entries_stay(log, events[0], name);
        law_pattern_evolves_once(log, events[0], name);
        law_settled_pattern_stays(after_event(log, events[0]), events.drop_first(), name);
    }
}

/// It is what was in a file the first time that it was read that matters: once
/// the digest of a read file is known it stays, whatever the engines do.
pub proof fn law_first_read_digest_stays(log: Log, events: Seq<IoEventView>, name: Seq<u8>)
    requires
        distinct_names(log),
        can_all_happen(log, events),
        is_recorded(log, name),
        recorded(log, name).read_digest is Some,
    ensures
        is_recorded(after_events(log, events), name),
        recorded(after_events(log, events), name).read_digest == recorded(log, name).read_digest,
    decreases events.len(),
{
    if events.len() > 0 {
        lemma_names_stay_distinct(log, events[0]);
        lemma_entries_stay(log, events[0], name);
        assert(names_at(log, name, place_of(log, name)));
        law_first_read_digest_stays(after_event(log, events[0]), events.drop_first(), name);
    }
}

/// The accesses of an engine that reads a file and then rewrites it.
pub open spec fn reread_and_rewritten(
    log: Log,
    name: Seq<u8>,
    origin: InputOrigin,
    read: Option<DigestData>,
    written: DigestData,
) -> Log {
    let opened = after_input_opened(log, name, origin);
    let closed = after_input_closed(opened, name, read);
    after_output_closed(after_output_opened(closed, name), name, written)
}

/// A file that was just added is recorded as it was added.
proof fn lemma_added(log: Log, name: Seq<u8>, event: IoEventView)
    requires
        distinct_names(log),
        !is_recorded(log, name),
        can_happen(log, event),
        accessed_name(event) == name,
    ensures
        distinct_names(after_event(log, event)),
        is_recorded(after_event(log, event), name),
        place_of(after_event(log, event), name) == log.len(),
{
    lemma_names_stay_distinct(log, event);
    assert(names_at(after_event(log, event), name, log.len() as int));
    lemma_one_place(after_event(log, event), name, log.len() as int);
}

/// A file that an engine reads and then rewrites calls for a rerun exactly if
/// the rewritten version is not known to be the version that was read.
pub proof fn law_rewriting_is_noticed(
    log: Log,
    name: Seq<u8>,
    origin: InputOrigin,
    read: Option<DigestData>,
    written: DigestData,
)
    requires
        distinct_names(log),
        !is_recorded(log, name),
    ensures
        is_recorded(reread_and_rewritten(log, name, origin, read, written), name),
        changed(recorded(reread_and_rewritten(log, name, origin, read, written), name)) <==> read
            != Some(written),
{
    let e0 = IoEventView::InputOpened(name, origin);
    let e1 = IoEventView::InputClosed(name, read);
    let e2 = IoEventView::OutputOpened(name);
    let e3 = IoEventView::OutputClosed(name, written);
    let l0 = after_event(log, e0);
    let l1 = after_event(l0, e1);
    let l2 = after_event(l1, e2);
    lemma_added(log, name, e0);
    lemma_names_stay_distinct(l0, e1);
    lemma_entries_stay(l0, e1, name);
    lemma_names_stay_distinct(l1, e2);
    lemma_entries_stay(l1, e2, name);
    lemma_entries_stay(l2, e3, name);
}

/// The accesses of an engine that looks for a file which is not there, and then
/// writes it.
pub open spec fn missed_and_written(log: Log, name: Seq<u8>, written: DigestData) -> Log {
    let missed = after_input_not_available(log, name);
    after_output_closed(after_output_opened(missed, name), name, written)
}

/// A file that did not exist when the engine looked for it, and that it then
/// wrote, calls for a rerun exactly if something is in it.
pub proof fn law_missing_file_counts_as_empty(log: Log, name: Seq<u8>, written: DigestData)
    requires
        distinct_names(log),
        !is_recorded(log, name),
    ensures
        is_recorded(missed_and_written(log, name, written), name),
        changed(recorded(missed_and_written(log, name, written), name)) <==> written
            != digest_of_nothing(),
{
    let e0 = IoEventView::InputNotAvailable(name);
    let e1 = IoEventView::OutputOpened(name);
    let e2 = IoEventView::OutputClosed(name, written);
    let l0 = after_event(log, e0);
    let l1 = after_event(l0, e1);
    lemma_added(log, name, e0);
    lemma_names_stay_distinct(l0, e1);
    lemma_entries_stay(l0, e1, name);
    lemma_entries_stay(l1, e2, name);
}

/// A file that is written before it is read never calls for a rerun, whatever
/// the engines do.
pub proof fn law_temporary_files_are_ignored(log: Log, events: Seq<IoEventView>, name: Seq<u8>)
    requires
        distinct_names(log),
        !is_recorded(log, name),
        can_all_happen(after_output_opened(log, name), events),
    ensures
        is_recorded(after_events(after_output_opened(log, name), events), name),
        !changed(recorded(after_events(after_output_opened(log, name), events), name)),
{
    let opening = IoEventView::OutputOpened(name);
    lemma_added(log, name, opening);
    lemma_never_circular(after_event(log, opening), events, name);
}

/// A file that was written first does not become circular.
proof fn lemma_never_circular(log: Log, events: Seq<IoEventView>, name: Seq<u8>)
    requires
        distinct_names(log),
        can_all_happen(log, events),
        is_recorded(log, name),
        recorded(log, name).access_pattern == AccessPattern::Written || recorded(
            log,
            name,
        ).access_pattern == AccessPattern::WrittenThenRead,
    ensures
        is_recorded(after_events(log, events), name),
        !changed(recorded(after_events(log, events), name)),
    decreases events.len(),
{
    if events.len() > 0 {
        lemma_names_stay_distinct(log, events[0]);
        lemma_entries_stay(log, events[0], name);
        law_pattern_evolves_once(log, events[0], name);
        lemma_never_circular(after_event(log, events[0]), events.drop_first(), name);
    }
}

/// A restart of the engine forgets what was read and nothing else: the files
/// stay recorded in their places, with their patterns, origins and outputs.
pub proof fn law_restart_forgets_reads_only(log: Log, name: Seq<u8>)
    requires
        distinct_names(log),
        is_recorded(log, name),
    ensures
        distinct_names(after_reads_cleared(log)),
        is_recorded(after_reads_cleared(log), name),
        recorded(after_reads_cleared(log), name) == (FileSummary {
            read_digest: None,
            ..recorded(log, name)
        }),
{
    let after = after_reads_cleared(log);
    assert(forall|i: int| 0 <= i < log.len() ==> #[trigger] after[i].name == log[i].name);
    assert(names_at(log, name, place_of(log, name)));
    assert(names_at(after, name, place_of(log, name)));
    lemma_one_place(after, name, place_of(log, name));
}

/// How a file is opened.
pub ghost enum Access {
    Input,
    Output,
}

/// How an access opens a file of the given name, if it does. A file that is to be
/// read but does not exist counts as opened.
pub open spec fn opening(event: IoEventView, name: Seq<u8>) -> Option<Access> {
    if accessed_name(event) != name {
        None
    } else {
        match event {
            IoEventView::OutputOpened(_) => Some(Access::Output),
            IoEventView::StdoutOpened => Some(Access::Output),
            IoEventView::InputNotAvailable(_) => Some(Access::Input),
            IoEventView::InputOpened(_, _) => Some(Access::Input),
            _ => None,
        }
    }
}

/// How a file of the given name is first opened, if it is.
pub open spec fn first_opening(events: Seq<IoEventView>, name: Seq<u8>) -> Option<Access>
    decreases events.len(),
{
    if events.len() == 0 {
        None
    } else if opening(events[0], name) is Some {
        opening(events[0], name)
    } else {
        first_opening(events.drop_first(), name)
    }
}

/// A file of the given name is opened in the given way.
pub open spec fn is_opened(events: Seq<IoEventView>, name: Seq<u8>, access: Access) -> bool {
    exists|i: int| 0 <= i < events.len() && opening(#[trigger] events[i], name) == Some(access)
}

/// The access pattern of a file that is first opened in the given way.
pub open spec fn pattern_of(
    first: Access,
    events: Seq<IoEventView>,
    name: Seq<u8>,
) -> AccessPattern {
    match first {
        Access::Input => if is_opened(events, name, Access::Output) {
            AccessPattern::ReadThenWritten
        } else {
            AccessPattern::Read
        },
        Access::Output => if is_opened(events, name, Access::Input) {
            AccessPattern::WrittenThenRead
        } else {
            AccessPattern::Written
        },
    }
}

proof fn lemma_opened_at_first_or_later(events: Seq<IoEventView>, name: Seq<u8>, access: Access)
    requires
        events.len() > 0,
    ensures
        is_opened(events, name, access) <==> (opening(events[0], name) == Some(access)
            || is_opened(events.drop_first(), name, access)),
{
    let rest = events.drop_first();
    if is_opened(rest, name, access) {
        let i = choose|i: int|
            0 <= i < rest.len() && opening(#[trigger] rest[i], name) == Some(access);
        assert(events[i + 1] == rest[i]);
    }
    if is_opened(events, name, access) {
        let i = choose|i: int|
            0 <= i < events.len() && opening(#[trigger] events[i], name) == Some(access);
        if i > 0 {
            assert(rest[i - 1] == events[i]);
        }
    }
}

/// How the pattern of a recorded file goes on.
spec fn later_pattern(
    pattern: AccessPattern,
    events: Seq<IoEventView>,
    name: Seq<u8>,
) -> AccessPattern {
    match pattern {
        AccessPattern::Read => pattern_of(Access::Input, events, name),
        AccessPattern::Written => pattern_of(Access::Output, events, name),
        _ => pattern,
    }
}

proof fn lemma_pattern_goes_on(log: Log, events: Seq<IoEventView>, name: Seq<u8>)
    requires
        distinct_names(log),
        can_all_happen(log, events),
        is_recorded(log, name),
    ensures
        is_recorded(after_events(log, events), name),
        recorded(after_events(log, events), name).access_pattern == later_pattern(
            recorded(log, name).access_pattern,
            events,
            name,
        ),
    decreases events.len(),
{
    if events.len() > 0 {
        lemma_names_stay_distinct(log, events[0]);
        lemma_entries_stay(log, events[0], name);
        assert(names_at(log, name, place_of(log, name)));
        lemma_opened_at_first_or_later(events, name, Access::Input);
        lemma_opened_at_first_or_later(events, name, Access::Output);
        lemma_pattern_goes_on(after_event(log, events[0]), events.drop_first(), name);
    }
}

/// The access pattern of a file depends only on how it is first opened, and on
/// whether it is also opened in the other way, before or after whatever else the
/// engines do. A file that is never opened is not recorded.
pub proof fn law_pattern_in_general(log: Log, events: Seq<IoEventView>, name: Seq<u8>)
    requires
        distinct_names(log),
        can_all_happen(log, events),
        !is_recorded(log, name),
    ensures
        is_recorded(after_events(log, events), name) <==> first_opening(events, name) is Some,
        first_opening(events, name) matches Some(first) ==> recorded(
            after_events(log, events),
            name,
        ).access_pattern == pattern_of(first, events, name),
    decreases events.len(),
{
    if events.len() > 0 {
        let after = after_event(log, events[0]);
        lemma_names_stay_distinct(log, events[0]);
        lemma_opened_at_first_or_later(events, name, Access::Input);
        lemma_opened_at_first_or_later(events, name, Access::Output);
        if opening(events[0], name) is Some {
            lemma_added(log, name, events[0]);
            lemma_pattern_goes_on(after, events.drop_first(), name);
        } else {
            lemma_not_added(log, events[0], name);
            law_pattern_in_general(after, events.drop_first(), name);
        }
    }
}

/// An access that does not open a file does not add it.
proof fn lemma_not_added(log: Log, event: IoEventView, name: Seq<u8>)
    requires
        can_happen(log, event),
        !is_recorded(log, name),
        opening(event, name) is None,
    ensures
        !is_recorded(after_event(log, event), name),
{
    let after = after_event(log, event);
    let accessed = accessed_name(event);
    if is_recorded(log, accessed) {
        assert(names_at(log, accessed, place_of(log, accessed)));
    }
    assert forall|at: int| !names_at(after, name, at) by {
        assert(!names_at(log, name, at));
    }
}

/// Where a file came from when it was first recorded stays known, whatever the
/// engines do.
pub proof fn law_origin_stays(log: Log, events: Seq<IoEventView>, name: Seq<u8>)
    requires
        distinct_names(log),
        can_all_happen(log, events),
        is_recorded(log, name),
    ensures
        is_recorded(after_events(log, events), name),
        recorded(after_events(log, events), name).input_origin == recorded(
            log,
            name,
        ).input_origin,
    decreases events.len(),
{
    if events.len() > 0 {
        lemma_names_stay_distinct(log, events[0]);
        lemma_entries_stay(log, events[0], name);
        assert(names_at(log, name, place_of(log, name)));
        law_origin_stays(after_event(log, events[0]), events.drop_first(), name);
    }
}

/// What is recorded of a name is the summary of the one entry with that name; and
/// of a name without an entry nothing is recorded.
pub proof fn law_record_is_the_entry(log: Log, name: Seq<u8>)
    requires
        distinct_names(log),
    ensures
        forall|i: int|
            0 <= i < log.len() && (#[trigger] log[i]).name == name ==> is_recorded(log, name)
                && recorded(log, name) == log[i].summary,
        (forall|i: int| 0 <= i < log.len() ==> (#[trigger] log[i]).name != name) ==> !is_recorded(
            log,
            name,
        ),
{
    assert forall|i: int| 0 <= i < log.len() && (#[trigger] log[i]).name == name implies
        is_recorded(log, name) && recorded(log, name) == log[i].summary by {
        assert(names_at(log, name, i));
        lemma_one_place(log, name, i);
    }
}

/// An access that is recorded of one file leaves all others as they were.
pub proof fn law_other_files_stay(log: Log, event: IoEventView, name: Seq<u8>, other: Seq<u8>)
    requires
        distinct_names(log),
        can_happen(log, event),
        other != name,
        match event {
            IoEventView::OutputOpened(accessed) => accessed == name,
            IoEventView::StdoutOpened => name.len() == 0,
            IoEventView::OutputClosed(accessed, _) => accessed == name,
            IoEventView::InputNotAvailable(accessed) => accessed == name,
            IoEventView::InputOpened(accessed, _) => accessed == name,
            IoEventView::InputClosed(accessed, _) => accessed == name,
        },
    ensures
        is_recorded(after_event(log, event), other) <==> is_recorded(log, other),
        is_recorded(log, other) ==> recorded(after_event(log, event), other) == recorded(
            log,
            other,
        ),
{
    assert(name.len() == 0 ==> name =~= Seq::<u8>::empty());
    if is_recorded(log, other) {
        lemma_entries_stay(log, event, other);
    } else {
        lemma_not_added(log, event, other);
    }
}

/// What is recorded of a file that was not recorded before, by the access that
/// comes first: a file that is opened for output is only written; one that is
/// opened for input is only read, and where it came from is known; one that does
/// not exist is only read, with nothing in it.
pub proof fn law_first_access(log: Log, name: Seq<u8>, origin: InputOrigin)
    requires
        distinct_names(log),
        !is_recorded(log, name),
    ensures
        ({
            let after = after_event(log, IoEventView::OutputOpened(name));
            is_recorded(after, name) && recorded(after, name) == (FileSummary {
                access_pattern: AccessPattern::Written,
                input_origin: InputOrigin::NotInput,
                read_digest: None,
                write_digest: None,
                got_written_to_disk: false,
            })
        }),
        ({
            let after = after_event(log, IoEventView::InputOpened(name, origin));
            is_recorded(after, name) && recorded(after, name) == (FileSummary {
                access_pattern: AccessPattern::Read,
                input_origin: origin,
                read_digest: None,
                write_digest: None,
                got_written_to_disk: false,
            })
        }),
        ({
            let after = after_event(log, IoEventView::InputNotAvailable(name));
            is_recorded(after, name) && recorded(after, name) == (FileSummary {
                access_pattern: AccessPattern::Read,
                input_origin: InputOrigin::NotInput,
                read_digest: Some(digest_of_nothing()),
                write_digest: None,
                got_written_to_disk: false,
            })
        }),
{
    lemma_added(log, name, IoEventView::OutputOpened(name));
    lemma_added(log, name, IoEventView::InputOpened(name, origin));
    lemma_added(log, name, IoEventView::InputNotAvailable(name));
}

/// What is recorded of a file that was recorded before: to open it for output
/// turns a file that was only read into a circular one; to open it for input, or
/// to look for it in vain, turns a file that was only written into a temporary
/// one; to close it sets the digest of what was written, or that of what was read
/// unless there is one; and nothing else changes.
pub proof fn law_later_access(
    log: Log,
    name: Seq<u8>,
    origin: InputOrigin,
    written: DigestData,
    read: Option<DigestData>,
)
    requires
        distinct_names(log),
        is_recorded(log, name),
    ensures
        ({
            let before = recorded(log, name);
            let output = recorded(after_event(log, IoEventView::OutputOpened(name)), name);
            let input = recorded(after_event(log, IoEventView::InputOpened(name, origin)), name);
            let missing = recorded(after_event(log, IoEventView::InputNotAvailable(name)), name);
            &&& output == FileSummary {
                access_pattern: if before.access_pattern == AccessPattern::Read {
                    AccessPattern::ReadThenWritten
                } else {
                    before.access_pattern
                },
                ..before
            }
            &&& input == FileSummary {
                access_pattern: if before.access_pattern == AccessPattern::Written {
                    AccessPattern::WrittenThenRead
                } else {
                    before.access_pattern
                },
                ..before
            }
            &&& missing == input
            &&& recorded(after_event(log, IoEventView::OutputClosed(name, written)), name) == (
            FileSummary { write_digest: Some(written), ..before })
            &&& recorded(after_event(log, IoEventView::InputClosed(name, read)), name) == (
            FileSummary {
                read_digest: if before.read_digest is Some {
                    before.read_digest
                } else {
                    read
                },
                ..before
            })
        }),
{
    assert(names_at(log, name, place_of(log, name)));
    lemma_entries_stay(log, IoEventView::OutputOpened(name), name);
    lemma_entries_stay(log, IoEventView::InputOpened(name, origin), name);
    lemma_entries_stay(log, IoEventView::InputNotAvailable(name), name);
    lemma_entries_stay(log, IoEventView::OutputClosed(name, written), name);
    lemma_entries_stay(log, IoEventView::InputClosed(name, read), name);
}

/// A file can be closed exactly if there is an entry of its name; and it can be
/// opened, or looked for in vain, at any time.
pub proof fn law_only_known_files_are_closed(
    log: Log,
    name: Seq<u8>,
    origin: InputOrigin,
    written: DigestData,
    read: Option<DigestData>,
)
    ensures
        can_happen(log, IoEventView::OutputClosed(name, written)) <==> exists|i: int|
            0 <= i < log.len() && (#[trigger] log[i]).name == name,
        can_happen(log, IoEventView::InputClosed(name, read)) <==> exists|i: int|
            0 <= i < log.len() && (#[trigger] log[i]).name == name,
        can_happen(log, IoEventView::OutputOpened(name)),
        can_happen(log, IoEventView::StdoutOpened),
        can_happen(log, IoEventView::InputOpened(name, origin)),
        can_happen(log, IoEventView::InputNotAvailable(name)),
{
    if is_recorded(log, name) {
        let at = choose|at: int| names_at(log, name, at);
        assert(log[at].name == name);
    }
    if exists|i: int| 0 <= i < log.len() && (#[trigger] log[i]).name == name {
        let i = choose|i: int| 0 <= i < log.len() && (#[trigger] log[i]).name == name;
        assert(names_at(log, name, i));
    }
}

/// The standard output is a file with an empty name that is opened for output.
pub proof fn law_standard_output_is_a_file(log: Log)
    ensures
        after_event(log, IoEventView::StdoutOpened) == after_event(
            log,
            IoEventView::OutputOpened(Seq::empty()),
        ),
{
}

/// The mark that a file was saved is set on that file and on no other one, and
/// nothing else changes.
pub proof fn law_saving_marks_one_file(log: Log, saved: Seq<u8>, other: Seq<u8>)
    requires
        distinct_names(log),
        is_recorded(log, saved),
    ensures
        is_recorded(after_written_to_disk(log, saved), saved),
        recorded(after_written_to_disk(log, saved), saved) == (FileSummary {
            got_written_to_disk: true,
            ..recorded(log, saved)
        }),
        other != saved ==> is_recorded(after_written_to_disk(log, saved), other) == is_recorded(
            log,
            other,
        ),
        other != saved && is_recorded(log, other) ==> recorded(
            after_written_to_disk(log, saved),
            other,
        ) == recorded(log, other),
{
    let after = after_written_to_disk(log, saved);
    let at = place_of(log, saved);
    assert(names_at(log, saved, at));
    assert(forall|i: int| 0 <= i < log.len() ==> #[trigger] after[i].name == log[i].name);
    assert(names_at(after, saved, at));
    lemma_one_place(after, saved, at);
    if is_recorded(log, other) {
        assert(names_at(log, other, place_of(log, other)));
        assert(names_at(after, other, place_of(log, other)));
        lemma_one_place(after, other, place_of(log, other));
    } else {
        assert forall|i: int| !names_at(after, other, i) by {
            assert(!names_at(log, other, i));
        }
    }
}

/// None of the accesses is to the file of the given name.
pub open spec fn leaves_alone(events: Seq<IoEventView>, name: Seq<u8>) -> bool {
    forall|i: int| 0 <= i < events.len() ==> accessed_name(#[trigger] events[i]) != name
}

/// Accesses to other files leave what is recorded of a file as it is.
pub proof fn lemma_left_alone(log: Log, events: Seq<IoEventView>, name: Seq<u8>)
    requires
        distinct_names(log),
        can_all_happen(log, events),
        leaves_alone(events, name),
        is_recorded(log, name),
    ensures
        distinct_names(after_events(log, events)),
        is_recorded(after_events(log, events), name),
        recorded(after_events(log, events), name) == recorded(log, name),
    decreases events.len(),
{
    if events.len() > 0 {
        let rest = events.drop_first();
        lemma_names_stay_distinct(log, events[0]);
        assert(accessed_name(events[0]) != name);
        lemma_entries_stay(log, events[0], name);
        assert forall|i: int| 0 <= i < rest.len() implies accessed_name(#[trigger] rest[i])
            != name by {
            assert(rest[i] == events[i + 1]);
        }
        lemma_left_alone(after_event(log, events[0]), rest, name);
    }
}

} // verus!
