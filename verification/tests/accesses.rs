use tectonic_driver::digest::DigestData;
use tectonic_driver::events::{
    AccessPattern, CliIoEvents, FileSummary, InputOrigin, IoEvent,
};

fn digest(seed: u8) -> DigestData {
    DigestData::from_bytes([seed; 32])
}

fn pattern(events: &CliIoEvents, name: &[u8]) -> AccessPattern {
    events.get(name).unwrap().access_pattern
}

#[test]
fn new_summary_is_blank() {
    let summary = FileSummary::new(AccessPattern::Read, InputOrigin::Filesystem);
    assert_eq!(summary.access_pattern, AccessPattern::Read);
    assert_eq!(summary.input_origin, InputOrigin::Filesystem);
    assert!(summary.read_digest.is_none());
    assert!(summary.write_digest.is_none());
    assert!(!summary.got_written_to_disk);
}

#[test]
fn nothing_is_recorded_at_first() {
    let events = CliIoEvents::new();
    assert_eq!(events.len(), 0);
    assert!(events.get(b"a.tex").is_none());
    assert!(events.find(b"a.tex").is_none());
}

#[test]
fn file_that_is_read_then_written_is_circular() {
    let mut events = CliIoEvents::new();
    events.input_opened(b"a.aux", InputOrigin::Filesystem);
    assert_eq!(pattern(&events, b"a.aux"), AccessPattern::Read);
    events.output_opened(b"a.aux");
    assert_eq!(pattern(&events, b"a.aux"), AccessPattern::ReadThenWritten);
    events.input_opened(b"a.aux", InputOrigin::Other);
    events.output_opened(b"a.aux");
    assert_eq!(pattern(&events, b"a.aux"), AccessPattern::ReadThenWritten);
    assert_eq!(events.get(b"a.aux").unwrap().input_origin, InputOrigin::Filesystem);
    assert_eq!(events.len(), 1);
}

#[test]
fn file_that_is_written_then_read_is_temporary() {
    let mut events = CliIoEvents::new();
    events.output_opened(b"a.tmp");
    assert_eq!(pattern(&events, b"a.tmp"), AccessPattern::Written);
    assert_eq!(events.get(b"a.tmp").unwrap().input_origin, InputOrigin::NotInput);
    events.input_opened(b"a.tmp", InputOrigin::Other);
    assert_eq!(pattern(&events, b"a.tmp"), AccessPattern::WrittenThenRead);
    events.output_opened(b"a.tmp");
    events.input_not_available(b"a.tmp");
    assert_eq!(pattern(&events, b"a.tmp"), AccessPattern::WrittenThenRead);
    assert!(!events.get(b"a.tmp").unwrap().has_changed());
}

#[test]
fn missing_file_counts_as_read_and_empty() {
    let mut events = CliIoEvents::new();
    events.input_not_available(b"a.toc");
    let summary = events.get(b"a.toc").unwrap();
    assert_eq!(summary.access_pattern, AccessPattern::Read);
    assert_eq!(summary.input_origin, InputOrigin::NotInput);
    assert!(summary.read_digest == Some(DigestData::of_nothing()));

    events.output_opened(b"a.toc");
    events.output_closed(b"a.toc", DigestData::of_nothing());
    assert!(!events.get(b"a.toc").unwrap().has_changed());
    events.output_closed(b"a.toc", digest(1));
    assert!(events.get(b"a.toc").unwrap().has_changed());
}

#[test]
fn input_that_goes_missing_after_output_is_temporary() {
    let mut events = CliIoEvents::new();
    events.output_opened(b"a");
    events.input_not_available(b"a");
    let summary = events.get(b"a").unwrap();
    assert_eq!(summary.access_pattern, AccessPattern::WrittenThenRead);
    assert!(summary.read_digest.is_none());
}

#[test]
fn digest_of_the_first_read_stays() {
    let mut events = CliIoEvents::new();
    events.input_opened(b"a", InputOrigin::Filesystem);
    events.input_closed(b"a", None);
    assert!(events.get(b"a").unwrap().read_digest.is_none());
    events.input_closed(b"a", Some(digest(1)));
    events.input_closed(b"a", Some(digest(2)));
    assert!(events.get(b"a").unwrap().read_digest == Some(digest(1)));
}

#[test]
fn digest_of_the_last_write_counts() {
    let mut events = CliIoEvents::new();
    events.output_opened(b"a");
    events.output_closed(b"a", digest(1));
    events.output_closed(b"a", digest(2));
    assert!(events.get(b"a").unwrap().write_digest == Some(digest(2)));
}

#[test]
fn rewritten_file_has_changed_unless_the_digests_agree() {
    let mut events = CliIoEvents::new();
    events.input_opened(b"a", InputOrigin::Filesystem);
    events.input_closed(b"a", Some(digest(1)));
    assert!(!events.get(b"a").unwrap().has_changed());
    events.output_opened(b"a");
    assert!(events.get(b"a").unwrap().has_changed());
    events.output_closed(b"a", digest(1));
    assert!(!events.get(b"a").unwrap().has_changed());
    events.output_closed(b"a", digest(2));
    assert!(events.get(b"a").unwrap().has_changed());
}

#[test]
fn rewritten_file_of_unknown_digest_has_changed() {
    let mut events = CliIoEvents::new();
    events.input_opened(b"a", InputOrigin::Filesystem);
    events.input_closed(b"a", None);
    events.output_opened(b"a");
    events.output_closed(b"a", digest(1));
    assert!(events.get(b"a").unwrap().has_changed());
}

#[test]
fn standard_output_is_tracked_under_an_empty_name() {
    let mut events = CliIoEvents::new();
    events.stdout_opened();
    assert_eq!(pattern(&events, b""), AccessPattern::Written);
    events.stdout_opened();
    assert_eq!(events.len(), 1);
}

#[test]
fn standard_output_after_a_read_is_circular() {
    let mut events = CliIoEvents::new();
    events.input_opened(b"", InputOrigin::Filesystem);
    events.stdout_opened();
    assert_eq!(pattern(&events, b""), AccessPattern::ReadThenWritten);
}

#[test]
fn restart_forgets_reads_only() {
    let mut events = CliIoEvents::new();
    events.input_opened(b"a", InputOrigin::Filesystem);
    events.input_closed(b"a", Some(digest(1)));
    events.output_opened(b"a");
    events.output_closed(b"a", digest(2));
    events.output_opened(b"b");
    events.mark_written(b"b");
    events.clear_reads();
    let first = events.get(b"a").unwrap();
    assert!(first.read_digest.is_none());
    assert!(first.write_digest == Some(digest(2)));
    assert_eq!(first.access_pattern, AccessPattern::ReadThenWritten);
    assert_eq!(first.input_origin, InputOrigin::Filesystem);
    let second = events.get(b"b").unwrap();
    assert!(second.got_written_to_disk);
    assert_eq!(second.access_pattern, AccessPattern::Written);
}

#[test]
fn first_changed_file_is_found() {
    let mut events = CliIoEvents::new();
    events.output_opened(b"a");
    for name in [b"b", b"c"] {
        events.input_opened(name, InputOrigin::Filesystem);
        events.input_closed(name, Some(digest(1)));
        events.output_opened(name);
        events.output_closed(name, digest(2));
    }
    assert_eq!(events.find_changed(), Some(1));
    events.output_closed(b"b", digest(1));
    assert_eq!(events.find_changed(), Some(2));
    events.output_closed(b"c", digest(1));
    assert_eq!(events.find_changed(), None);
}

#[test]
fn entries_stand_in_the_order_of_first_access() {
    let mut events = CliIoEvents::new();
    events.record(&IoEvent::InputOpened(b"z".to_vec(), InputOrigin::Filesystem));
    events.record(&IoEvent::OutputOpened(b"a".to_vec()));
    events.record(&IoEvent::StdoutOpened);
    events.record(&IoEvent::InputNotAvailable(b"m".to_vec()));
    events.record(&IoEvent::OutputClosed(b"a".to_vec(), digest(3)));
    events.record(&IoEvent::InputClosed(b"z".to_vec(), Some(digest(4))));
    assert_eq!(events.len(), 4);
    let names: Vec<Vec<u8>> = (0..4).map(|at| events.entry(at).name.clone()).collect();
    assert_eq!(names, vec![b"z".to_vec(), b"a".to_vec(), b"".to_vec(), b"m".to_vec()]);
    assert_eq!(events.find(b"a"), Some(1));
    assert!(events.entry(1).summary.write_digest == Some(digest(3)));
    assert!(events.entry(0).summary.read_digest == Some(digest(4)));
}
