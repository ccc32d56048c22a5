//! What leads from one run of an engine to the next, said of the recorded files
//! and of the bytes of the `.aux` file.
use crate::access_laws::{
    after_events, can_all_happen, law_first_access, law_later_access, leaves_alone,
    lemma_entries_stay, lemma_left_alone,
};
use crate::action_laws::law_actions_are_as_set;
use crate::course;
use crate::course::{
    answers, next, rerun_cause, session_wf, Round, SessionView, StageView,
};
use crate::digest::DigestData;
use crate::events::{
    after_event, any_changed, changed, distinct_names, first_changed, is_first_changed,
    is_recorded, lemma_names_stay_distinct, names_at, place_of, recorded, AccessPattern,
    FileSummary, InputOrigin, IoEventView, Log, LogEntry,
};
use crate::message::MessageView;
use crate::outside::{occurs_in, utf8_lossy};
use crate::protocol::{EngineReply, EventView};
use crate::settings::PassSetting;
use vstd::prelude::*;
use vstd::utf8::{encode_utf8, is_ascii_chars, is_ascii_chars_encode_utf8};

verus! {

/// The file was read and then rewritten, and it is not known that what was
/// written is what was read.
pub open spec fn is_stale(entry: LogEntry) -> bool {
    &&& entry.summary.access_pattern == AccessPattern::ReadThenWritten
    &&& entry.summary.read_digest is None || entry.summary.write_digest is None
        || entry.summary.read_digest->0.bytes@ != entry.summary.write_digest->0.bytes@
}

/// Some file is stale, whatever its name and its place.
pub open spec fn any_stale(log: Log) -> bool {
    exists|at: int| 0 <= at < log.len() && is_stale(#[trigger] log[at])
}

/// The message on a rerun because of a stale file. A file without a name, which is
/// the standard output, is told like a run of BibTeX.
pub open spec fn names_stale_file(log: Log, message: MessageView) -> bool {
    exists|at: int|
        0 <= at < log.len() && is_stale(#[trigger] log[at]) && message == (
        MessageView::Highlighted {
            before: "Rerunning "@,
            phrase: "TeX"@,
            after: if utf8_lossy(log[at].name).len() == 0 {
                " because bibtex was run ..."@
            } else {
                " because \""@ + utf8_lossy(log[at].name) + "\" changed ..."@
            },
        })
}

pub proof fn lemma_stale_is_changed(entry: LogEntry)
    ensures
        is_stale(entry) <==> changed(entry.summary),
{
    if let (Some(read), Some(written)) = (entry.summary.read_digest, entry.summary.write_digest) {
        if read.bytes@ == written.bytes@ {
            assert(read.bytes =~= written.bytes);
        }
    }
}

proof fn lemma_first_changed(log: Log, at: int)
    requires
        0 <= at < log.len(),
        changed(log[at].summary),
    ensures
        is_first_changed(log, first_changed(log)),
    decreases at,
{
    if exists|i: int| 0 <= i < at && changed(#[trigger] log[i].summary) {
        let i = choose|i: int| 0 <= i < at && changed(#[trigger] log[i].summary);
        lemma_first_changed(log, i);
    } else {
        assert(is_first_changed(log, at));
    }
}

/// A rerun is needed exactly if some file is stale; and the cause that is given is
/// the name of a stale file.
pub proof fn law_rerun_is_needed_if_a_file_is_stale(log: Log)
    ensures
        rerun_cause(log) is Some <==> any_stale(log),
        rerun_cause(log) matches Some(shown) ==> exists|at: int|
            0 <= at < log.len() && is_stale(#[trigger] log[at]) && shown == utf8_lossy(
                log[at].name,
            ),
{
    if any_stale(log) {
        let at = choose|at: int| 0 <= at < log.len() && is_stale(#[trigger] log[at]);
        lemma_stale_is_changed(log[at]);
        assert(changed(log[at].summary));
    }
    if any_changed(log) {
        let at = choose|at: int| 0 <= at < log.len() && changed(#[trigger] log[at].summary);
        lemma_first_changed(log, at);
        let first = first_changed(log);
        lemma_stale_is_changed(log[first]);
        assert(is_stale(log[first]));
    }
}

/// The bytes of a command that names a bibliography stand somewhere in a file.
pub open spec fn holds_bibdata(contents: Seq<u8>) -> bool {
    exists|at: int|
        0 <= at && at + 8 <= contents.len() && #[trigger] contents.subrange(at, at + 8) == seq![
            92u8,
            98u8,
            105u8,
            98u8,
            100u8,
            97u8,
            116u8,
            97u8,
        ]
}

pub proof fn lemma_bibdata(contents: Seq<u8>)
    ensures
        occurs_in(encode_utf8("\\bibdata"@), contents) <==> holds_bibdata(contents),
{
    reveal_strlit("\\bibdata");
    assert(is_ascii_chars("\\bibdata"@));
    is_ascii_chars_encode_utf8("\\bibdata"@);
    let bytes = encode_utf8("\\bibdata"@);
    assert("\\bibdata"@[0] as u8 == 92u8);
    assert("\\bibdata"@[1] as u8 == 98u8);
    assert("\\bibdata"@[2] as u8 == 105u8);
    assert("\\bibdata"@[3] as u8 == 98u8);
    assert("\\bibdata"@[4] as u8 == 100u8);
    assert("\\bibdata"@[5] as u8 == 97u8);
    assert("\\bibdata"@[6] as u8 == 116u8);
    assert("\\bibdata"@[7] as u8 == 97u8);
    assert(bytes =~= seq![92u8, 98u8, 105u8, 98u8, 100u8, 97u8, 116u8, 97u8]);
}

/// After the first run of the TeX engine BibTeX is run if and only if there is an
/// `.aux` file and the bytes of `\bibdata` stand somewhere in it. It is looked for
/// nothing else.
pub proof fn law_bibtex_follows_bibdata<E>(s: SessionView<E>, aux: Option<Seq<u8>>)
    requires
        s.stage is ReadingAux,
    ensures
        next(s, EventView::MemoryFile(aux)).action is RunBibtex <==> (aux matches Some(contents)
            && holds_bibdata(contents)),
        next(s, EventView::MemoryFile(aux)).action is RunBibtex <==> (aux matches Some(contents)
            && occurs_in(encode_utf8("\\bibdata"@), contents)),
{
    reveal(course::on_aux);
    reveal(course::pass_done);
    if let Some(contents) = aux {
        lemma_bibdata(contents);
    }
}

/// If BibTeX is run for an `.aux` file, it is run as well for one that has more in
/// it, before or behind.
pub proof fn law_bibdata_counts_anywhere<E>(
    s: SessionView<E>,
    before: Seq<u8>,
    contents: Seq<u8>,
    after: Seq<u8>,
)
    requires
        s.stage is ReadingAux,
        next(s, EventView::MemoryFile(Some(contents))).action is RunBibtex,
    ensures
        next(s, EventView::MemoryFile(Some(before + contents + after))).action is RunBibtex,
{
    let whole = before + contents + after;
    law_bibtex_follows_bibdata(s, Some(contents));
    law_bibtex_follows_bibdata(s, Some(whole));
    let at = choose|at: int|
        0 <= at && at + 8 <= contents.len() && #[trigger] contents.subrange(at, at + 8) == seq![
            92u8,
            98u8,
            105u8,
            98u8,
            100u8,
            97u8,
            116u8,
            97u8,
        ];
    let moved = before.len() as int + at;
    assert(whole.subrange(moved, moved + 8) =~= contents.subrange(at, at + 8));
}

/// A rerun of the TeX engine is followed by another one if some file is stale,
/// whatever its name, and the limit is not reached, when the user does not say how
/// often; the user is told of a stale file. Otherwise none follows.
pub proof fn law_rerun_follows_a_rerun<E>(s: SessionView<E>, index: usize, reply: EngineReply<E>)
    requires
        s.stage == StageView::<E>::RunningTex(Round::Rerun(index)),
        s.state.settings.tex_rerun_specification is None,
        index < 6,
        !(reply is Failed),
    ensures
        any_stale(s.state.log) && index + 1 < 6 ==> {
            let turn = next(s, EventView::Engine(reply));
            &&& turn.action is RunTex
            &&& turn.messages.len() > 0
            &&& names_stale_file(s.state.log, turn.messages.last())
        },
        !(any_stale(s.state.log) && index + 1 < 6) ==> !(next(
            s,
            EventView::Engine(reply),
        ).action is RunTex),
{
    reveal(course::on_tex);
    reveal(course::pass_done);
    lemma_cause(s.state.log);
}

/// After the first run of the TeX engine, if the `.aux` file has no `\bibdata` in
/// it, another run follows if and only if some file is stale, whatever its name,
/// when the user does not say how often; the user is told of a stale file.
pub proof fn law_rerun_follows_the_first_run<E>(s: SessionView<E>, aux: Option<Seq<u8>>)
    requires
        s.stage is ReadingAux,
        s.state.settings.tex_rerun_specification is None,
        aux matches Some(contents) ==> !holds_bibdata(contents),
    ensures
        any_stale(s.state.log) ==> {
            let turn = next(s, EventView::MemoryFile(aux));
            &&& turn.action is RunTex
            &&& turn.messages.len() > 0
            &&& names_stale_file(s.state.log, turn.messages.last())
        },
        !any_stale(s.state.log) ==> !(next(s, EventView::MemoryFile(aux)).action is RunTex),
{
    reveal(course::on_aux);
    reveal(course::pass_done);
    if let Some(contents) = aux {
        lemma_bibdata(contents);
    }
    lemma_cause(s.state.log);
}

/// The message on a rerun for the cause that is given names a stale file.
proof fn lemma_cause(log: Log)
    ensures
        rerun_cause(log) is Some <==> any_stale(log),
        rerun_cause(log) matches Some(cause) ==> names_stale_file(
            log,
            course::tex_message(Some(course::rerun_reason(cause))),
        ),
{
    law_rerun_is_needed_if_a_file_is_stale(log);
    if let Some(cause) = rerun_cause(log) {
        let at = choose|at: int|
            0 <= at < log.len() && is_stale(#[trigger] log[at]) && cause == utf8_lossy(
                log[at].name,
            );
        reveal_strlit("\" changed");
        reveal_strlit("\" changed ...");
        reveal_strlit(" ...");
        reveal_strlit("\"");
        reveal_strlit(" because ");
        reveal_strlit(" because \"");
        reveal_strlit("bibtex was run");
        reveal_strlit(" because bibtex was run ...");
        if cause.len() == 0 {
            assert(" because "@ + "bibtex was run"@ + " ..."@ =~= " because bibtex was run ..."@);
        } else {
            assert(" because "@ + ("\""@ + cause + "\" changed"@) + " ..."@ =~= " because \""@
                + cause + "\" changed ..."@);
        }
    }
}

/// A file that was read and then rewritten, with other contents as far as is known,
/// leads to a rerun, whatever its name and its place in the record, as long as the
/// limit is not reached and the user does not say how often.
pub proof fn law_rewritten_file_leads_to_a_rerun<E>(s: SessionView<E>, at: int)
    requires
        0 <= at < s.state.log.len(),
        s.state.log[at].summary.access_pattern == AccessPattern::ReadThenWritten,
        s.state.log[at].summary.read_digest is None || s.state.log[at].summary.write_digest is None
            || s.state.log[at].summary.read_digest->0@ != s.state.log[at].summary.write_digest->0@,
        s.state.settings.tex_rerun_specification is None,
    ensures
        rerun_cause(s.state.log) is Some,
        forall|reply: EngineReply<E>|
            (s.stage matches StageView::RunningTex(Round::Rerun(index)) && index + 1 < 6) && !(reply
                is Failed) ==> (#[trigger] next(s, EventView::Engine(reply))).action is RunTex,
        s.stage is ReadingAux ==> next(s, EventView::MemoryFile(None)).action is RunTex,
{
    assert(is_stale(s.state.log[at]));
    law_rerun_is_needed_if_a_file_is_stale(s.state.log);
    assert forall|reply: EngineReply<E>|
        (s.stage matches StageView::RunningTex(Round::Rerun(index)) && index + 1 < 6) && !(reply
            is Failed) implies (#[trigger] next(s, EventView::Engine(reply))).action is RunTex by {
        law_rerun_follows_a_rerun(s, s.stage->RunningTex_0->Rerun_0, reply);
    }
    if s.stage is ReadingAux {
        law_rerun_follows_the_first_run(s, None);
    }
}

/// The record once an engine has read a file and then rewritten it; it may have
/// accessed other files in between and afterwards.
pub open spec fn read_and_rewritten(
    log: Log,
    name: Seq<u8>,
    origin: InputOrigin,
    read: Option<DigestData>,
    between: Seq<IoEventView>,
    written: DigestData,
    afterwards: Seq<IoEventView>,
) -> Log {
    let opened = after_event(log, IoEventView::InputOpened(name, origin));
    let closed = after_events(after_event(opened, IoEventView::InputClosed(name, read)), between);
    let rewriting = after_event(closed, IoEventView::OutputOpened(name));
    after_events(after_event(rewriting, IoEventView::OutputClosed(name, written)), afterwards)
}

/// Those accesses to other files can happen.
pub open spec fn can_be_read_and_rewritten(
    log: Log,
    name: Seq<u8>,
    origin: InputOrigin,
    read: Option<DigestData>,
    between: Seq<IoEventView>,
    written: DigestData,
    afterwards: Seq<IoEventView>,
) -> bool {
    let opened = after_event(log, IoEventView::InputOpened(name, origin));
    let read_in = after_event(opened, IoEventView::InputClosed(name, read));
    let rewriting = after_event(after_events(read_in, between), IoEventView::OutputOpened(name));
    &&& leaves_alone(between, name)
    &&& leaves_alone(afterwards, name)
    &&& can_all_happen(read_in, between)
    &&& can_all_happen(
        after_event(rewriting, IoEventView::OutputClosed(name, written)),
        afterwards,
    )
}

proof fn lemma_read_and_rewritten(
    log: Log,
    name: Seq<u8>,
    origin: InputOrigin,
    read: Option<DigestData>,
    between: Seq<IoEventView>,
    written: DigestData,
    afterwards: Seq<IoEventView>,
)
    requires
        distinct_names(log),
        !is_recorded(log, name),
        can_be_read_and_rewritten(log, name, origin, read, between, written, afterwards),
    ensures
        ({
            let after = read_and_rewritten(
                log,
                name,
                origin,
                read,
                between,
                written,
                afterwards,
            );
            &&& distinct_names(after)
            &&& is_recorded(after, name)
            &&& recorded(after, name) == (FileSummary {
                access_pattern: AccessPattern::ReadThenWritten,
                input_origin: origin,
                read_digest: read,
                write_digest: Some(written),
                got_written_to_disk: false,
            })
        }),
{
    let e0 = IoEventView::InputOpened(name, origin);
    let e1 = IoEventView::InputClosed(name, read);
    let e2 = IoEventView::OutputOpened(name);
    let e3 = IoEventView::OutputClosed(name, written);
    let l0 = after_event(log, e0);
    let l1 = after_event(l0, e1);
    let l2 = after_events(l1, between);
    let l3 = after_event(l2, e2);
    let l4 = after_event(l3, e3);
    law_first_access(log, name, origin);
    lemma_names_stay_distinct(log, e0);
    law_later_access(l0, name, origin, written, read);
    lemma_names_stay_distinct(l0, e1);
    lemma_entries_stay(l0, e1, name);
    lemma_left_alone(l1, between, name);
    law_later_access(l2, name, origin, written, read);
    lemma_names_stay_distinct(l2, e2);
    lemma_entries_stay(l2, e2, name);
    law_later_access(l3, name, origin, written, read);
    lemma_names_stay_distinct(l3, e3);
    lemma_entries_stay(l3, e3, name);
    lemma_left_alone(l4, afterwards, name);
}

/// Once an engine has read a file, of whatever name, and rewritten it with other
/// contents, whatever it does to other files, a rerun is needed and follows, as
/// long as the limit is not reached and the user does not say how often.
pub proof fn law_rewriting_leads_to_a_rerun<E>(
    s: SessionView<E>,
    log: Log,
    name: Seq<u8>,
    origin: InputOrigin,
    read: Option<DigestData>,
    between: Seq<IoEventView>,
    written: DigestData,
    afterwards: Seq<IoEventView>,
)
    requires
        distinct_names(log),
        !is_recorded(log, name),
        can_be_read_and_rewritten(log, name, origin, read, between, written, afterwards),
        read is None || read->0.bytes@ != written.bytes@,
        s.state.log == read_and_rewritten(
            log,
            name,
            origin,
            read,
            between,
            written,
            afterwards,
        ),
        s.state.settings.tex_rerun_specification is None,
    ensures
        rerun_cause(s.state.log) is Some,
        forall|reply: EngineReply<E>|
            (s.stage matches StageView::RunningTex(Round::Rerun(index)) && index + 1
                < 6) && !(reply is Failed) ==> (#[trigger] next(
                s,
                EventView::Engine(reply),
            )).action is RunTex,
        forall|aux: Option<Seq<u8>>|
            s.stage is ReadingAux && !(aux matches Some(contents) && holds_bibdata(contents))
                ==> (#[trigger] next(s, EventView::MemoryFile(aux))).action is RunTex,
{
    let after = s.state.log;
    lemma_read_and_rewritten(log, name, origin, read, between, written, afterwards);
    let at = place_of(after, name);
    assert(names_at(after, name, at));
    assert(is_stale(after[at]));
    law_rerun_is_needed_if_a_file_is_stale(after);
    assert forall|reply: EngineReply<E>|
        (s.stage matches StageView::RunningTex(Round::Rerun(index)) && index + 1
            < 6) && !(reply is Failed) implies (#[trigger] next(
        s,
        EventView::Engine(reply),
    )).action is RunTex by {
        law_rerun_follows_a_rerun(s, s.stage->RunningTex_0->Rerun_0, reply);
    }
    assert forall|aux: Option<Seq<u8>>|
        s.stage is ReadingAux && !(aux matches Some(contents) && holds_bibdata(contents)) implies (
    #[trigger] next(s, EventView::MemoryFile(aux))).action is RunTex by {
        law_rerun_follows_the_first_run(s, aux);
    }
}

/// When the user says how often to rerun the TeX engine, nothing else counts: a
/// rerun is followed by another one exactly if there were fewer than that.
pub proof fn law_rerun_follows_as_told<E>(
    s: SessionView<E>,
    index: usize,
    count: usize,
    reply: EngineReply<E>,
)
    requires
        s.stage == StageView::<E>::RunningTex(Round::Rerun(index)),
        s.state.settings.tex_rerun_specification == Some(count),
        index < count,
        !(reply is Failed),
    ensures
        next(s, EventView::Engine(reply)).action is RunTex <==> index + 1 < count,
{
    reveal(course::on_tex);
    reveal(course::pass_done);
}

/// When the TeX engine is rerun, what it read before is forgotten of every file,
/// and nothing else is.
pub proof fn law_rerun_forgets_what_was_read<E>(s: SessionView<E>, event: EventView<E>)
    requires
        answers(s, event),
        s.stage is RunningTex || s.stage is ReadingAux || s.stage is RunningBibtex,
        next(s, event).action is RunTex,
    ensures
        ({
            let before = s.state.log;
            let after = next(s, event).session.state.log;
            &&& after.len() == before.len()
            &&& forall|i: int|
                0 <= i < before.len() ==> #[trigger] after[i] == (LogEntry {
                    name: before[i].name,
                    summary: FileSummary { read_digest: None, ..before[i].summary },
                })
        }),
{
    reveal(course::pass_done);
    match s.stage {
        StageView::RunningTex(_) => {
            reveal(course::on_tex);
        },
        StageView::ReadingAux => {
            reveal(course::on_aux);
        },
        _ => {
            reveal(course::on_bibtex);
        },
    }
}

/// BibTeX is run in two places only: at the beginning, if it is to come first, and
/// after the first run of the TeX engine.
pub proof fn law_bibtex_has_its_places<E>(s: SessionView<E>, event: EventView<E>)
    requires
        session_wf(s),
        answers(s, event),
        next(s, event).action is RunBibtex,
    ensures
        s.stage is ReadingAux || ((s.stage is OpeningFormat || s.stage is ClearingMemory)
            && s.state.settings.pass == PassSetting::BibtexFirst),
{
    law_actions_are_as_set(s, event);
}

} // verus!
