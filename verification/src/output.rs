//! Which of the files in memory are saved.
use crate::events::{
    after_event, after_written_to_disk, can_happen, is_recorded, lemma_stays_recorded,
    lemma_stays_recorded_with_summary, recorded, stdout_name, AccessPattern, CliIoEvents,
    FileSummary, IoEventView, Log,
};
use crate::message::{highlighted, message_views, push_message, Message, MessageView};
use crate::outside::{from_utf8_lossy, utf8_lossy};
use crate::settings::OutputFormat;
use crate::text::{concat3, decimal, decimal_text, ends_with, has_suffix};
use vstd::prelude::*;

verus! {

/// A file that the engines left in memory.
#[derive(Debug)]
pub struct MemoryFile {
    pub name: Vec<u8>,
    pub contents: Vec<u8>,
}

/// A file in memory as a mathematical value.
pub ghost struct MemoryFileView {
    pub name: Seq<u8>,
    pub contents: Seq<u8>,
}

impl View for MemoryFile {
    type V = MemoryFileView;

    open spec fn view(&self) -> MemoryFileView {
        MemoryFileView { name: self.name@, contents: self.contents@ }
    }
}

/// The files of a list, as mathematical values.
pub open spec fn file_views(files: Seq<MemoryFile>) -> Seq<MemoryFileView> {
    files.map_values(|file: MemoryFile| file@)
}

/// Which files a session saves.
#[derive(Clone, Copy, Debug)]
pub struct OutputRules {
    pub output_format: OutputFormat,
    pub keep_intermediates: bool,
    pub keep_logs: bool,
    /// The session failed, and only log files are of interest.
    pub only_logs: bool,
}

/// What becomes of a file in memory.
#[derive(Clone, Copy, Debug, PartialEq, Eq, Structural)]
pub enum FileFate {
    /// It holds the standard output of the engines, which is no file.
    Stdout,
    /// Only the `.aux` file was asked for, and this is another one.
    NotAux,
    /// It is an intermediate file. Such files are counted.
    Intermediate,
    /// It is a log file, and those are not kept.
    UnwantedLog,
    /// Only log files are of interest, and this is none.
    NotLog,
    /// There is nothing in it.
    Empty,
    /// It is written to disk.
    Saved,
}

/// A log file, going by its name.
pub open spec fn is_log_name(name: Seq<u8>) -> bool {
    has_suffix(name, ".log"@) || has_suffix(name, ".blg"@)
}

/// A file that is of no interest to the user, going by its name: Beamer
/// generates these.
pub open spec fn is_intermediate_name(name: Seq<u8>) -> bool {
    has_suffix(name, ".snm"@) || has_suffix(name, ".toc"@)
}

/// A file that the engines only wrote is a final output, unless its name tells
/// otherwise; all others are intermediate.
pub open spec fn is_intermediate(name: Seq<u8>, pattern: AccessPattern) -> bool {
    pattern != AccessPattern::Written || is_intermediate_name(name)
}

/// Only the `.aux` file is asked for.
pub open spec fn wants_aux_only(rules: OutputRules) -> bool {
    !rules.only_logs && rules.output_format == OutputFormat::Aux
}

/// What becomes of a file that the engines accessed in the given way.
pub open spec fn fate_of(rules: OutputRules, file: MemoryFileView, pattern: AccessPattern) -> FileFate {
    if file.name == stdout_name() {
        FileFate::Stdout
    } else if wants_aux_only(rules) && !has_suffix(file.name, ".aux"@) {
        FileFate::NotAux
    } else if !wants_aux_only(rules) && !rules.keep_intermediates && is_intermediate(
        file.name,
        pattern,
    ) {
        FileFate::Intermediate
    } else if is_log_name(file.name) && !rules.keep_logs {
        FileFate::UnwantedLog
    } else if !is_log_name(file.name) && rules.only_logs {
        FileFate::NotLog
    } else if file.contents.len() == 0 {
        FileFate::Empty
    } else {
        FileFate::Saved
    }
}

/// What becomes of a file, going by what is recorded of it.
pub open spec fn file_fate(rules: OutputRules, file: MemoryFileView, log: Log) -> FileFate {
    fate_of(rules, file, recorded(log, file.name).access_pattern)
}

/// Something is recorded of every file, save for the standard output.
pub open spec fn all_recorded(files: Seq<MemoryFileView>, log: Log) -> bool {
    forall|i: int|
        0 <= i < files.len() ==> (#[trigger] files[i]).name == stdout_name() || is_recorded(
            log,
            files[i].name,
        )
}

/// What comes of going through files one by one up to one that is saved.
pub ghost struct Survey {
    /// Where the file to be saved stands, or the number of files.
    pub at: int,
    /// How many intermediate files were skipped.
    pub skipped: nat,
    /// What the user is told.
    pub messages: Seq<MessageView>,
}

/// The message on a file that is not saved because there is nothing in it.
pub open spec fn empty_file_message(shown_name: Seq<char>) -> MessageView {
    MessageView::Highlighted {
        before: "Not writing "@,
        phrase: shown_name,
        after: ": it would be empty."@,
    }
}

/// The message on a file that is saved.
pub open spec fn saved_file_message(shown_path: Seq<char>, size: nat) -> MessageView {
    MessageView::Highlighted {
        before: "Writing "@,
        phrase: shown_path,
        after: " ("@ + decimal_text(size) + " bytes)"@,
    }
}

/// Goes through the files from one place on.
pub open spec fn survey(
    rules: OutputRules,
    files: Seq<MemoryFileView>,
    log: Log,
    from: int,
) -> Survey
    decreases files.len() - from,
{
    if from < 0 || from >= files.len() {
        Survey { at: from, skipped: 0, messages: Seq::empty() }
    } else {
        let rest = survey(rules, files, log, from + 1);
        match file_fate(rules, files[from], log) {
            FileFate::Saved => Survey { at: from, skipped: 0, messages: Seq::empty() },
            FileFate::Intermediate => Survey { skipped: rest.skipped + 1, ..rest },
            FileFate::Empty => Survey {
                messages: seq![empty_file_message(utf8_lossy(files[from].name))] + rest.messages,
                ..rest
            },
            _ => rest,
        }
    }
}

/// Decides what becomes of a file.
pub fn decide_fate(rules: OutputRules, file: &MemoryFile, pattern: AccessPattern) -> (fate: FileFate)
    ensures
        fate == fate_of(rules, file@, pattern),
{
    if file.name.len() == 0 {
        assert(file.name@ =~= stdout_name());
        return FileFate::Stdout;
    }
    if !rules.only_logs && rules.output_format == OutputFormat::Aux {
        if !ends_with(&file.name, ".aux") {
            return FileFate::NotAux;
        }
    } else if !rules.keep_intermediates && (pattern != AccessPattern::Written || ends_with(
        &file.name,
        ".snm",
    ) || ends_with(&file.name, ".toc")) {
        return FileFate::Intermediate;
    }
    let is_log = ends_with(&file.name, ".log") || ends_with(&file.name, ".blg");
    if is_log && !rules.keep_logs {
        FileFate::UnwantedLog
    } else if !is_log && rules.only_logs {
        FileFate::NotLog
    } else if file.contents.len() == 0 {
        FileFate::Empty
    } else {
        FileFate::Saved
    }
}

/// The message on a file that is not saved because there is nothing in it.
pub fn report_empty(shown_name: &str) -> (message: Message)
    ensures
        message@ == empty_file_message(shown_name@),
{
    highlighted("Not writing ", shown_name, ": it would be empty.")
}

/// The message on a file that is saved.
pub fn report_saved(shown_path: &str, size: usize) -> (message: Message)
    ensures
        message@ == saved_file_message(shown_path@, size as nat),
{
    let number = decimal(size);
    highlighted("Writing ", shown_path, concat3(" (", &number, " bytes)").as_str())
}

/// Goes through the files from one place on, up to one that is saved. Returns
/// where that one stands, or the number of files, and how many intermediate
/// files were skipped.
pub fn survey_files(
    rules: OutputRules,
    files: &Vec<MemoryFile>,
    events: &CliIoEvents,
    from: usize,
    messages: &mut Vec<Message>,
) -> (found: (usize, usize))
    requires
        events.wf(),
        all_recorded(file_views(files@), events@),
        from <= files@.len(),
    ensures
        found.0 == survey(rules, file_views(files@), events@, from as int).at,
        found.1 == survey(rules, file_views(files@), events@, from as int).skipped,
        message_views(final(messages)@) == message_views(old(messages)@) + survey(
            rules,
            file_views(files@),
            events@,
            from as int,
        ).messages,
        from <= found.0 <= files@.len(),
        found.1 <= found.0 - from,
        found.0 < files@.len() ==> file_fate(
            rules,
            file_views(files@)[found.0 as int],
            events@,
        ) == FileFate::Saved,
{
    let ghost views = file_views(files@);
    let ghost whole = survey(rules, views, events@, from as int);
    let ghost told = message_views(messages@);
    let mut at: usize = from;
    let mut skipped: usize = 0;
    assert(told + whole.messages =~= message_views(messages@) + whole.messages);
    while at < files.len()
        invariant
            events.wf(),
            views == file_views(files@),
            whole == survey(rules, views, events@, from as int),
            told == message_views(old(messages)@),
            all_recorded(views, events@),
            from <= at <= files@.len(),
            skipped <= at - from,
            whole.at == survey(rules, views, events@, at as int).at,
            whole.skipped == skipped + survey(rules, views, events@, at as int).skipped,
            told + whole.messages == message_views(messages@) + survey(
                rules,
                views,
                events@,
                at as int,
            ).messages,
        decreases files@.len() - at,
    {
        let ghost rest = survey(rules, views, events@, at + 1);
        assert(views[at as int] == files@[at as int]@);
        let pattern = match events.get(&files[at].name) {
            Some(summary) => summary.access_pattern,
            None => AccessPattern::Written,
        };
        let fate = decide_fate(rules, &files[at], pattern);
        assert(fate == file_fate(rules, views[at as int], events@));
        match fate {
            FileFate::Saved => {
                assert(told + whole.messages =~= message_views(messages@));
                return (at, skipped);
            },
            FileFate::Intermediate => {
                skipped = skipped + 1;
            },
            FileFate::Empty => {
                let shown = from_utf8_lossy(&files[at].name);
                let ghost before = message_views(messages@);
                push_message(messages, report_empty(&shown));
                assert(before + (seq![empty_file_message(shown@)] + rest.messages)
                    =~= message_views(messages@) + rest.messages);
            },
            _ => {},
        }
        at = at + 1;
    }
    assert(told + whole.messages =~= message_views(messages@));
    (at, skipped)
}

/// What is recorded of the files at hand stays recorded when one is saved.
pub proof fn lemma_recorded_stays_on_save(files: Seq<MemoryFileView>, log: Log, saved: Seq<u8>)
    requires
        all_recorded(files, log),
        is_recorded(log, saved),
    ensures
        all_recorded(files, after_written_to_disk(log, saved)),
{
    assert forall|i: int| 0 <= i < files.len() implies (#[trigger] files[i]).name == stdout_name()
        || is_recorded(after_written_to_disk(log, saved), files[i].name) by {
        if files[i].name != stdout_name() {
            lemma_stays_recorded_with_summary(
                log,
                saved,
                FileSummary { got_written_to_disk: true, ..recorded(log, saved) },
                files[i].name,
            );
        }
    }
}

/// What is recorded of the files at hand stays recorded, whatever the engines
/// do.
pub proof fn lemma_all_stay_recorded(files: Seq<MemoryFileView>, log: Log, event: IoEventView)
    requires
        all_recorded(files, log),
        can_happen(log, event),
    ensures
        all_recorded(files, after_event(log, event)),
{
    assert forall|i: int| 0 <= i < files.len() implies (#[trigger] files[i]).name == stdout_name()
        || is_recorded(after_event(log, event), files[i].name) by {
        if files[i].name != stdout_name() {
            lemma_stays_recorded(log, event, files[i].name);
        }
    }
}

} // verus!
