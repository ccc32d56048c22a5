use tectonic_driver::{OutputFormat, PassSetting, ProcessingSessionBuilder};

#[test]
fn new_builder_is_blank() {
    let builder = ProcessingSessionBuilder::new();
    assert!(builder.format_path.is_none());
    assert!(builder.tex_input_stem.is_none());
    assert!(builder.output_format.is_none());
    assert!(builder.pass.is_none());
    assert!(builder.reruns.is_none());
    assert!(builder.output_path.is_none());
    assert!(builder.makefile_output_path.is_none());
    assert!(!builder.print_stdout);
    assert!(builder.hidden.is_empty());
    assert!(builder.bundle.is_none());
    assert!(builder.web_bundle.is_none());
    assert!(!builder.keep_intermediates);
    assert!(!builder.keep_logs);
    assert!(!builder.synctex);
}

#[test]
fn each_setting_is_kept() {
    let mut builder = ProcessingSessionBuilder::new();
    builder
        .format_path("plain")
        .tex_input_stem("a.tex")
        .output_format(OutputFormat::Aux)
        .pass(PassSetting::BibtexFirst)
        .reruns(4)
        .output_path(b"out")
        .makefile_output_path(b"rules")
        .print_stdout(true)
        .hide_paths(vec![b"x".to_vec(), b"x".to_vec()])
        .bundle("b.zip")
        .web_bundle("http://example.org/")
        .keep_logs(true)
        .keep_intermediates(true)
        .synctex(true);
    assert_eq!(builder.format_path.as_deref(), Some("plain"));
    assert_eq!(builder.tex_input_stem.as_deref(), Some("a.tex"));
    assert_eq!(builder.output_format, Some(OutputFormat::Aux));
    assert_eq!(builder.pass, Some(PassSetting::BibtexFirst));
    assert_eq!(builder.reruns, Some(4));
    assert_eq!(builder.output_path, Some(b"out".to_vec()));
    assert_eq!(builder.makefile_output_path, Some(b"rules".to_vec()));
    assert!(builder.print_stdout);
    assert_eq!(builder.hidden, vec![b"x".to_vec(), b"x".to_vec()]);
    assert_eq!(builder.bundle.as_deref(), Some("b.zip"));
    assert_eq!(builder.web_bundle.as_deref(), Some("http://example.org/"));
    assert!(builder.keep_logs);
    assert!(builder.keep_intermediates);
    assert!(builder.synctex);
}
