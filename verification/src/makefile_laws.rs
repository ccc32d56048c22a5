//! What holds of the Makefile rules, byte by byte, as files are added to the record.
use crate::course;
use crate::course::{next, SessionView, StageView};
use crate::digest::hex_text;
use crate::events::{AccessPattern, InputOrigin, Log, LogEntry};
use crate::makefile::{
    circular_messages, dependencies, rule_bytes, rule_draft, rule_pieces, target_bytes,
    RulePieceView,
};
use crate::message::MessageView;
use crate::output::MemoryFileView;
use crate::outside::utf8_lossy;
use crate::protocol::{ActionView, EventView, FailureView};
use crate::text::joined_path;
use crate::text_laws::lemma_ascii_suffix;
use vstd::prelude::*;
use vstd::utf8::encode_utf8;

verus! {

/// A file that was read from the filesystem and is not one of the outputs.
pub open spec fn stands_in_the_rule(entry: LogEntry) -> bool {
    entry.summary.input_origin == InputOrigin::Filesystem && !entry.summary.got_written_to_disk
}

/// A file that was read from the filesystem and is one of the outputs as well.
pub open spec fn is_circular(entry: LogEntry) -> bool {
    entry.summary.input_origin == InputOrigin::Filesystem && entry.summary.got_written_to_disk
}

/// A dependency in the rule: a space, a backslash, the end of the line, two spaces,
/// and the path.
pub open spec fn dependency_line(directory: Seq<u8>, name: Seq<u8>) -> Seq<u8> {
    seq![32u8, 92u8, 10u8, 32u8, 32u8] + encode_utf8(utf8_lossy(joined_path(directory, name)))
}

/// The warning that a file is left out of the rule.
pub open spec fn omission(name: Seq<u8>) -> MessageView {
    MessageView::Warning("omitting circular Makefile dependency for "@ + utf8_lossy(name))
}

proof fn lemma_separator()
    ensures
        encode_utf8(" \\\n  "@) == seq![32u8, 92u8, 10u8, 32u8, 32u8],
        encode_utf8(": "@) == seq![58u8, 32u8],
        encode_utf8("\n"@) == seq![10u8],
        encode_utf8(" "@) == seq![32u8],
{
    reveal_strlit(" \\\n  ");
    reveal_strlit(": ");
    reveal_strlit("\n");
    reveal_strlit(" ");
    let none = Seq::<u8>::empty();
    lemma_ascii_suffix(none, " \\\n  "@, seq![32u8, 92u8, 10u8, 32u8, 32u8]);
    lemma_ascii_suffix(none, ": "@, seq![58u8, 32u8]);
    lemma_ascii_suffix(none, "\n"@, seq![10u8]);
    lemma_ascii_suffix(none, " "@, seq![32u8]);
}

/// A target is its path and a space.
pub proof fn law_target_is_a_path_and_a_space(shown_path: Seq<char>)
    ensures
        target_bytes(shown_path) == encode_utf8(shown_path).push(32u8),
{
    lemma_separator();
    assert(encode_utf8(shown_path) + seq![32u8] =~= encode_utf8(shown_path).push(32u8));
}

/// One more file in the record is one more line if it was read from the filesystem
/// and is no output; a file that is an output as well is warned of instead; and
/// any other file makes no difference.
pub proof fn law_one_more_dependency(directory: Seq<u8>, log: Log, entry: LogEntry)
    ensures
        dependencies(directory, Seq::empty()).len() == 0,
        circular_messages(Seq::empty()).len() == 0,
        dependencies(directory, log.push(entry)) == if stands_in_the_rule(entry) {
            dependencies(directory, log) + dependency_line(directory, entry.name)
        } else {
            dependencies(directory, log)
        },
        circular_messages(log.push(entry)) == if is_circular(entry) {
            circular_messages(log).push(omission(entry.name))
        } else {
            circular_messages(log)
        },
{
    lemma_separator();
    assert(log.push(entry).drop_last() =~= log);
}

/// The rule behind its targets is a colon and a space, the path of the main input
/// if that is a file, the dependencies, and the end of the line.
pub proof fn law_rule_is_one_line(primary: Option<Seq<u8>>, directory: Seq<u8>, log: Log)
    ensures
        primary matches Some(path) ==> rule_bytes(primary, directory, log) == seq![58u8, 32u8]
            + path + dependencies(directory, log) + seq![10u8],
        primary is None ==> rule_bytes(primary, directory, log) == seq![58u8, 32u8] + dependencies(
            directory,
            log,
        ) + seq![10u8],
{
    lemma_separator();
    assert(seq![58u8, 32u8] + Seq::<u8>::empty() =~= seq![58u8, 32u8]);
}

/// The pieces in which the rule is written grow with the record: a dependency is a
/// piece of its own, which brings the warnings that were due; a file that is left
/// out adds a warning to those that are due; and any other file makes no
/// difference.
pub proof fn law_pieces_grow_with_the_record(
    primary: Option<Seq<u8>>,
    directory: Seq<u8>,
    log: Log,
    entry: LogEntry,
)
    ensures
        ({
            let before = rule_pieces(primary, directory, log);
            let after = rule_pieces(primary, directory, log.push(entry));
            let end = seq![10u8];
            &&& before.len() > 0
            &&& before.last().data == end
            &&& stands_in_the_rule(entry) ==> after == before.drop_last().push(
                RulePieceView {
                    warnings: before.last().warnings,
                    data: dependency_line(directory, entry.name),
                },
            ).push(RulePieceView { warnings: Seq::empty(), data: end })
            &&& is_circular(entry) ==> after == before.drop_last().push(
                RulePieceView {
                    warnings: before.last().warnings.push(omission(entry.name)),
                    data: end,
                },
            )
            &&& !stands_in_the_rule(entry) && !is_circular(entry) ==> after == before
        }),
{
    lemma_separator();
    assert(log.push(entry).drop_last() =~= log);
    let draft = rule_draft(primary, directory, log);
    let before = rule_pieces(primary, directory, log);
    assert(before.drop_last() =~= draft.pieces);
}

/// With nothing in the record the rule is a colon and a space, the path of the main
/// input if that is a file, and the end of the line.
pub proof fn law_rule_without_dependencies(primary: Option<Seq<u8>>, directory: Seq<u8>)
    ensures
        ({
            let pieces = rule_pieces(primary, directory, Seq::empty());
            let colon = RulePieceView { warnings: Seq::empty(), data: seq![58u8, 32u8] };
            let end = RulePieceView { warnings: Seq::empty(), data: seq![10u8] };
            &&& primary is None ==> pieces == seq![colon, end]
            &&& primary matches Some(path) ==> pieces == seq![
                colon,
                RulePieceView { warnings: Seq::empty(), data: path },
                end,
            ]
        }),
{
    lemma_separator();
    let pieces = rule_pieces(primary, directory, Seq::empty());
    let colon = RulePieceView { warnings: Seq::empty(), data: seq![58u8, 32u8] };
    let end = RulePieceView { warnings: Seq::empty(), data: seq![10u8] };
    match primary {
        None => {
            assert(pieces =~= seq![colon, end]);
        },
        Some(path) => {
            assert(pieces =~= seq![
                colon,
                RulePieceView { warnings: Seq::empty(), data: path },
                end,
            ]);
        },
    }
}

/// The pieces of the rule are written one after the other, each one after what the
/// user is told with it; then the session ends with success. A piece that cannot be
/// written ends it with a failure.
pub proof fn law_rule_is_written_piece_by_piece<E>(
    s: SessionView<E>,
    rest: Seq<RulePieceView>,
    result: Result<(), E>,
)
    requires
        s.stage == (StageView::<E>::WritingRule { rest }),
    ensures
        ({
            let turn = next(s, EventView::Io(result));
            match result {
                Err(error) => turn.action == ActionView::<E>::Finish(
                    Err(
                        FailureView::InContext {
                            error,
                            context: "couldn't write to Makefile-rules file"@,
                        },
                    ),
                ),
                Ok(_) => if rest.len() == 0 {
                    turn.action == ActionView::<E>::Finish(Ok(0)) && turn.messages.len() == 0
                } else {
                    &&& turn.action == (ActionView::<E>::WriteMakefile { data: rest[0].data })
                    &&& turn.messages == rest[0].warnings
                    &&& turn.session.stage == (StageView::<E>::WritingRule {
                        rest: rest.drop_first(),
                    })
                },
            }
        }),
{
    if rest.len() > 0 {
        assert(Seq::<MessageView>::empty() + rest[0].warnings =~= rest[0].warnings);
    }
}

/// Once all files are saved, the rule is begun if Makefile rules are asked for: its
/// dependencies are those of the record as it is by then.
pub proof fn law_rule_follows_the_targets<E>(
    s: SessionView<E>,
    files: Seq<MemoryFileView>,
    at: int,
    skipped: nat,
)
    requires
        0 <= at < files.len(),
        s.stage == (StageView::<E>::WritingTarget { files, at, skipped }),
        s.state.settings.makefile_output_path is Some,
        !(next(s, EventView::Io(Ok(()))).session.stage is SavingFile),
    ensures
        ({
            let turn = next(s, EventView::Io(Ok(())));
            let pieces = rule_pieces(
                s.state.settings.primary_input_path,
                s.state.io.filesystem_root,
                s.state.log,
            );
            &&& pieces.len() > 0
            &&& turn.action == (ActionView::<E>::WriteMakefile { data: pieces[0].data })
            &&& turn.session.stage == (StageView::<E>::WritingRule { rest: pieces.drop_first() })
        }),
{
    reveal(course::save_next);
}

/// How an access pattern is named to the user.
pub open spec fn name_of_pattern(pattern: AccessPattern) -> Seq<char> {
    match pattern {
        AccessPattern::Read => "Read"@,
        AccessPattern::Written => "Written"@,
        AccessPattern::ReadThenWritten => "ReadThenWritten"@,
        AccessPattern::WrittenThenRead => "WrittenThenRead"@,
    }
}

/// A closer look at the record tells of one file after the other: the name, the
/// access pattern, and the two digests, with a dash for one that is not known. A
/// file that was only read is not told of.
pub proof fn law_record_is_told_file_by_file(log: Log, entry: LogEntry)
    ensures
        course::access_notes(Seq::empty()).len() == 0,
        entry.summary.access_pattern == AccessPattern::Read ==> course::access_notes(
            log.push(entry),
        ) == course::access_notes(log),
        entry.summary.access_pattern != AccessPattern::Read ==> ({
            let read = match entry.summary.read_digest {
                Some(digest) => hex_text(digest@),
                None => "-"@,
            };
            let written = match entry.summary.write_digest {
                Some(digest) => hex_text(digest@),
                None => "-"@,
            };
            course::access_notes(log.push(entry)) == course::access_notes(log).push(
                MessageView::Note(
                    "ACCESS: "@ + utf8_lossy(entry.name) + " "@ + name_of_pattern(
                        entry.summary.access_pattern,
                    ) + " "@ + ("\""@ + read + "\""@) + " "@ + ("\""@ + written + "\""@),
                ),
            )
        }),
{
    assert(log.push(entry).drop_last() =~= log);
    reveal_strlit("\"-\"");
    reveal_strlit("\"");
    reveal_strlit("-");
    assert("\"-\""@ =~= "\""@ + "-"@ + "\""@);
}

} // verus!
