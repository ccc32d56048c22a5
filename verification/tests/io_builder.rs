use tectonic_driver::io_setup::{BundleSource, IoLayer, PrimaryInput};
use tectonic_driver::CliIoBuilder;

#[test]
fn default_builder_is_blank() {
    let builder = CliIoBuilder::default();
    assert!(builder.primary_input_path.is_none());
    assert!(builder.filesystem_root.is_empty());
    assert!(!builder.use_stdin);
    assert!(builder.bundle.is_none());
    assert!(!builder.use_genuine_stdout);
    assert!(builder.hidden_input_paths.is_empty());
}

#[test]
fn setup_reads_from_a_file() {
    let mut builder = CliIoBuilder::default();
    builder
        .primary_input_path(b"dir/a.tex")
        .filesystem_root(b"dir")
        .bundle(BundleSource::Zip("b.zip".to_string()));
    let setup = builder.create();
    assert!(matches!(setup.primary_input, PrimaryInput::File(ref path) if path == b"dir/a.tex"));
    assert!(matches!(setup.bundle, Some(BundleSource::Zip(ref path)) if path == "b.zip"));
    assert_eq!(setup.filesystem_root, b"dir".to_vec());
    assert!(setup.memory_takes_stdout);
    assert!(!setup.filesystem_writes_allowed);
    assert!(setup.filesystem_absolute_allowed);
    assert!(!setup.genuine_stdout);
    assert!(setup.format_primary.is_none());
}

#[test]
fn setup_reads_from_the_standard_input() {
    let mut builder = CliIoBuilder::default();
    builder.primary_input_stdin();
    assert!(matches!(builder.create().primary_input, PrimaryInput::Stdin));
}

#[test]
fn hidden_paths_are_a_set() {
    let mut builder = CliIoBuilder::default();
    builder.primary_input_stdin().hide_path(b"a").hide_path(b"b").hide_path(b"a");
    assert_eq!(builder.create().hidden_input_paths, vec![b"a".to_vec(), b"b".to_vec()]);
}

#[test]
fn stack_has_the_bundle_last() {
    let mut builder = CliIoBuilder::default();
    builder
        .primary_input_stdin()
        .use_genuine_stdout(true)
        .boxed_bundle(Box::new(BundleSource::Web("http://example.org/".to_string())));
    let setup = builder.create();
    assert_eq!(
        setup.as_stack(),
        vec![
            IoLayer::GenuineStdout,
            IoLayer::PrimaryInput,
            IoLayer::Memory,
            IoLayer::Filesystem,
            IoLayer::Bundle,
        ]
    );
}

#[test]
fn stack_without_options_has_three_layers() {
    let mut builder = CliIoBuilder::default();
    builder.primary_input_stdin();
    assert_eq!(
        builder.create().as_stack(),
        vec![IoLayer::PrimaryInput, IoLayer::Memory, IoLayer::Filesystem]
    );
}

#[test]
fn stack_for_formats_leaves_the_filesystem_out() {
    let mut builder = CliIoBuilder::default();
    builder.primary_input_stdin().bundle(BundleSource::Default);
    let mut setup = builder.create();
    assert_eq!(
        setup.as_stack_for_format("\\input x"),
        vec![IoLayer::FormatPrimary, IoLayer::Memory, IoLayer::Bundle]
    );
    assert_eq!(setup.format_primary.as_deref(), Some("\\input x"));
}
