//! Makefile rules for a session.
use crate::events::{CliIoEvents, InputOrigin, Log, LogEntry};
use crate::io_setup::optional_bytes;
use crate::message::{message_views, no_messages, push_message, Message, MessageView};
use crate::outside::{from_utf8_lossy, utf8_lossy};
use crate::text::{append_text, concat, copy_bytes, join_path, joined_path};
use vstd::prelude::*;
use vstd::utf8::encode_utf8;

verus! {

/// The files that a session reads from the filesystem.
pub open spec fn is_filesystem_input(entry: LogEntry) -> bool {
    entry.summary.input_origin == InputOrigin::Filesystem
}

/// A file on which the outputs depend. A file that came from the filesystem and
/// was also written back to disk would be a circular dependency, which has no
/// place in a Makefile.
pub open spec fn is_dependency(entry: LogEntry) -> bool {
    is_filesystem_input(entry) && !entry.summary.got_written_to_disk
}

/// How a target stands in the rule.
pub open spec fn target_bytes(shown_path: Seq<char>) -> Seq<u8> {
    encode_utf8(shown_path) + encode_utf8(" "@)
}

/// How a dependency stands in the rule: on a line of its own.
pub open spec fn dependency_bytes(shown_path: Seq<char>) -> Seq<u8> {
    encode_utf8(" \\\n  "@) + encode_utf8(shown_path)
}

/// The dependencies of a log, in its order.
pub open spec fn dependencies(directory: Seq<u8>, log: Log) -> Seq<u8>
    decreases log.len(),
{
    if log.len() == 0 {
        Seq::empty()
    } else if is_dependency(log.last()) {
        dependencies(directory, log.drop_last()) + dependency_bytes(
            utf8_lossy(joined_path(directory, log.last().name)),
        )
    } else {
        dependencies(directory, log.drop_last())
    }
}

/// The warning on a dependency that is left out.
pub open spec fn circular_message(shown_name: Seq<char>) -> MessageView {
    MessageView::Warning("omitting circular Makefile dependency for "@ + shown_name)
}

/// The warnings on the dependencies of a log that are left out, in its order.
pub open spec fn circular_messages(log: Log) -> Seq<MessageView>
    decreases log.len(),
{
    if log.len() == 0 {
        Seq::empty()
    } else if is_filesystem_input(log.last()) && log.last().summary.got_written_to_disk {
        circular_messages(log.drop_last()).push(circular_message(utf8_lossy(log.last().name)))
    } else {
        circular_messages(log.drop_last())
    }
}

/// The rule behind its targets: the main input, if it is a file, and the
/// dependencies.
pub open spec fn rule_bytes(
    primary_input: Option<Seq<u8>>,
    directory: Seq<u8>,
    log: Log,
) -> Seq<u8> {
    encode_utf8(": "@) + (match primary_input {
        Some(path) => path,
        None => Seq::empty(),
    }) + dependencies(directory, log) + encode_utf8("\n"@)
}

/// A piece of the rule that is written in one go, and what the user is told
/// right before.
#[derive(Debug)]
pub struct RulePiece {
    pub warnings: Vec<Message>,
    pub data: Vec<u8>,
}

/// A piece of the rule as a mathematical value.
pub ghost struct RulePieceView {
    pub warnings: Seq<MessageView>,
    pub data: Seq<u8>,
}

impl View for RulePiece {
    type V = RulePieceView;

    open spec fn view(&self) -> RulePieceView {
        RulePieceView { warnings: message_views(self.warnings@), data: self.data@ }
    }
}

/// The pieces of a list, as mathematical values.
pub open spec fn piece_views(pieces: Seq<RulePiece>) -> Seq<RulePieceView> {
    pieces.map_values(|piece: RulePiece| piece@)
}

/// A rule that is not complete yet: its pieces so far, and the warnings that the
/// next one will bring.
pub ghost struct RuleDraft {
    pub pieces: Seq<RulePieceView>,
    pub pending: Seq<MessageView>,
}

/// A piece without warnings.
pub open spec fn plain_piece(data: Seq<u8>) -> RulePieceView {
    RulePieceView { warnings: Seq::empty(), data }
}

/// The pieces with which the rule opens: the colon, and the main input if it is
/// a file.
pub open spec fn opening_pieces(primary_input: Option<Seq<u8>>) -> Seq<RulePieceView> {
    let colon = seq![plain_piece(encode_utf8(": "@))];
    match primary_input {
        Some(path) => colon.push(plain_piece(path)),
        None => colon,
    }
}

/// The rule as far as a log goes: each dependency is a piece of its own, and each
/// one that is left out is warned of when its turn comes.
pub open spec fn rule_draft(
    primary_input: Option<Seq<u8>>,
    directory: Seq<u8>,
    log: Log,
) -> RuleDraft
    decreases log.len(),
{
    if log.len() == 0 {
        RuleDraft { pieces: opening_pieces(primary_input), pending: Seq::empty() }
    } else {
        let draft = rule_draft(primary_input, directory, log.drop_last());
        if is_dependency(log.last()) {
            RuleDraft {
                pieces: draft.pieces.push(
                    RulePieceView {
                        warnings: draft.pending,
                        data: dependency_bytes(
                            utf8_lossy(joined_path(directory, log.last().name)),
                        ),
                    },
                ),
                pending: Seq::empty(),
            }
        } else if is_filesystem_input(log.last()) {
            RuleDraft {
                pending: draft.pending.push(circular_message(utf8_lossy(log.last().name))),
                ..draft
            }
        } else {
            draft
        }
    }
}

/// The pieces in which the rule behind its targets is written, the end of the
/// line included.
pub open spec fn rule_pieces(
    primary_input: Option<Seq<u8>>,
    directory: Seq<u8>,
    log: Log,
) -> Seq<RulePieceView> {
    let draft = rule_draft(primary_input, directory, log);
    draft.pieces.push(RulePieceView { warnings: draft.pending, data: encode_utf8("\n"@) })
}

/// The data of all the pieces, put together.
pub open spec fn all_data(pieces: Seq<RulePieceView>) -> Seq<u8>
    decreases pieces.len(),
{
    if pieces.len() == 0 {
        Seq::empty()
    } else {
        pieces[0].data + all_data(pieces.drop_first())
    }
}

/// The warnings of all the pieces, put together.
pub open spec fn all_warnings(pieces: Seq<RulePieceView>) -> Seq<MessageView>
    decreases pieces.len(),
{
    if pieces.len() == 0 {
        Seq::empty()
    } else {
        pieces[0].warnings + all_warnings(pieces.drop_first())
    }
}

/// Writes a target.
pub fn target(shown_path: &str) -> (bytes: Vec<u8>)
    ensures
        bytes@ == target_bytes(shown_path@),
{
    let mut bytes: Vec<u8> = Vec::new();
    append_text(&mut bytes, shown_path);
    append_text(&mut bytes, " ");
    assert(bytes@ =~= target_bytes(shown_path@));
    bytes
}

/// Writes a dependency.
pub fn dependency(shown_path: &str) -> (bytes: Vec<u8>)
    ensures
        bytes@ == dependency_bytes(shown_path@),
{
    let mut bytes: Vec<u8> = Vec::new();
    append_text(&mut bytes, " \\\n  ");
    append_text(&mut bytes, shown_path);
    assert(bytes@ =~= dependency_bytes(shown_path@));
    bytes
}

/// Warns of a dependency that is left out.
pub fn report_circular(shown_name: &str) -> (message: Message)
    ensures
        message@ == circular_message(shown_name@),
{
    Message::Warning(concat("omitting circular Makefile dependency for ", shown_name))
}

/// Makes the pieces in which the rule behind its targets is written.
pub fn rule(
    primary_input: &Option<Vec<u8>>,
    directory: &[u8],
    events: &CliIoEvents,
) -> (pieces: Vec<RulePiece>)
    ensures
        piece_views(pieces@) == rule_pieces(
            optional_bytes(*primary_input),
            directory@,
            events@,
        ),
{
    let ghost primary = optional_bytes(*primary_input);
    let mut pieces: Vec<RulePiece> = Vec::new();
    let mut opening: Vec<u8> = Vec::new();
    append_text(&mut opening, ": ");
    assert(opening@ =~= encode_utf8(": "@));
    push_piece(&mut pieces, no_messages(), opening);
    if let Some(path) = primary_input {
        push_piece(&mut pieces, no_messages(), copy_bytes(path));
    }
    let mut pending = no_messages();
    let mut at: usize = 0;
    assert(piece_views(pieces@) =~= opening_pieces(primary));
    while at < events.len()
        invariant
            at <= events@.len(),
            piece_views(pieces@) == rule_draft(
                primary,
                directory@,
                events@.take(at as int),
            ).pieces,
            message_views(pending@) == rule_draft(
                primary,
                directory@,
                events@.take(at as int),
            ).pending,
        decreases events@.len() - at,
    {
        let ghost longer = events@.take(at + 1);
        assert(longer.drop_last() =~= events@.take(at as int));
        assert(longer.last() == events@[at as int]);
        let entry = events.entry(at);
        if entry.summary.input_origin == InputOrigin::Filesystem {
            if entry.summary.got_written_to_disk {
                let shown = from_utf8_lossy(&entry.name);
                push_message(&mut pending, report_circular(&shown));
            } else {
                let path = join_path(directory, &entry.name);
                let shown = from_utf8_lossy(&path);
                push_piece(&mut pieces, pending, dependency(&shown));
                pending = no_messages();
            }
        }
        at = at + 1;
    }
    assert(events@.take(at as int) =~= events@);
    let mut closing: Vec<u8> = Vec::new();
    append_text(&mut closing, "\n");
    assert(closing@ =~= encode_utf8("\n"@));
    push_piece(&mut pieces, pending, closing);
    pieces
}

/// Puts a piece behind the others.
fn push_piece(pieces: &mut Vec<RulePiece>, warnings: Vec<Message>, data: Vec<u8>)
    ensures
        piece_views(final(pieces)@) == piece_views(old(pieces)@).push(
            RulePieceView { warnings: message_views(warnings@), data: data@ },
        ),
{
    let ghost before = pieces@;
    pieces.push(RulePiece { warnings, data });
    assert(piece_views(pieces@) =~= piece_views(before).push(
        RulePieceView { warnings: message_views(warnings@), data: data@ },
    ));
}

} // verus!
