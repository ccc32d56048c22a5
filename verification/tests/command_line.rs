use tectonic_driver::cli::{
    chatter_named, input_path, output_format_named, pass_named, prepare, session_builder, Chatter,
    CliArgs, CliError, OutputDirectory,
};
use tectonic_driver::io_setup::BundleSource;
use tectonic_driver::message::Message;
use tectonic_driver::{OutputFormat, PassSetting};

fn file_args() -> CliArgs {
    CliArgs {
        input: b"dir/paper.tex".to_vec(),
        format: "latex".to_string(),
        outfmt: OutputFormat::Pdf,
        pass: PassSetting::Default,
        bundle: None,
        web_bundle: None,
        makefile_rules: None,
        reruns: None,
        outdir: None,
        hidden: Vec::new(),
        print_stdout: false,
        keep_intermediates: false,
        keep_logs: false,
        synctex: false,
    }
}

fn stdin_args() -> CliArgs {
    CliArgs { input: b"-".to_vec(), ..file_args() }
}

fn complaint_of(args: &CliArgs) -> String {
    match prepare(args).1 {
        Err(CliError::Complaint(text)) => text,
        other => panic!("unexpected result {:?}", other),
    }
}

#[test]
fn names_are_understood() {
    assert_eq!(output_format_named("aux"), Some(OutputFormat::Aux));
    assert_eq!(output_format_named("html"), Some(OutputFormat::Html));
    assert_eq!(output_format_named("xdv"), Some(OutputFormat::Xdv));
    assert_eq!(output_format_named("pdf"), Some(OutputFormat::Pdf));
    assert_eq!(output_format_named("format"), Some(OutputFormat::Format));
    assert_eq!(output_format_named("PDF"), None);
    assert_eq!(pass_named("default"), Some(PassSetting::Default));
    assert_eq!(pass_named("bibtex_first"), Some(PassSetting::BibtexFirst));
    assert_eq!(pass_named("tex"), Some(PassSetting::Tex));
    assert_eq!(pass_named(""), None);
    assert_eq!(chatter_named("default"), Some(Chatter::Normal));
    assert_eq!(chatter_named("minimal"), Some(Chatter::Minimal));
    assert_eq!(chatter_named("loud"), None);
}

#[test]
fn input_file_sets_the_directories() {
    let (messages, prepared) = prepare(&file_args());
    assert!(messages.is_empty());
    let preparation = prepared.unwrap();
    assert_eq!(preparation.output_path, b"dir".to_vec());
    assert_eq!(preparation.tex_input_stem, "paper.tex");
    assert_eq!(preparation.io.primary_input_path, Some(b"dir/paper.tex".to_vec()));
    assert_eq!(preparation.io.filesystem_root, b"dir".to_vec());
    assert!(!preparation.io.use_stdin);
    assert!(!preparation.io.use_genuine_stdout);
    assert!(matches!(preparation.io.bundle, Some(BundleSource::Default)));
}

#[test]
fn standard_input_is_called_texput() {
    let (messages, prepared) = prepare(&stdin_args());
    assert_eq!(messages.len(), 1);
    match &messages[0] {
        Message::Note(text) => assert_eq!(
            text,
            "reading from standard input; outputs will appear under the base name \"texput\""
        ),
        other => panic!("unexpected message {:?}", other),
    }
    let preparation = prepared.unwrap();
    assert_eq!(preparation.output_path, b"".to_vec());
    assert_eq!(preparation.tex_input_stem, "texput.tex");
    assert!(preparation.io.use_stdin);
    assert!(preparation.io.primary_input_path.is_none());
    assert!(preparation.io.filesystem_root.is_empty());
}

#[test]
fn input_without_a_file_name_is_refused() {
    let mut args = file_args();
    args.input = b"dir/..".to_vec();
    assert_eq!(
        complaint_of(&args),
        "can't figure out a basename for input path \"dir/..\""
    );
    args.input = b"/".to_vec();
    assert_eq!(complaint_of(&args), "can't figure out a basename for input path \"/\"");
}

#[test]
fn input_in_the_current_directory_has_an_empty_directory() {
    let mut args = file_args();
    args.input = b"paper.tex".to_vec();
    let preparation = prepare(&args).1.unwrap();
    assert_eq!(preparation.output_path, b"".to_vec());
    assert_eq!(preparation.io.filesystem_root, b"".to_vec());
    assert_eq!(preparation.tex_input_stem, "paper.tex");
}

#[test]
fn path_is_taken_apart() {
    for (path, name, parent) in [
        (&b"a/b.tex"[..], Some(&b"b.tex"[..]), Some(&b"a"[..])),
        (b"b.tex", Some(b"b.tex"), Some(b"")),
        (b"/b.tex", Some(b"b.tex"), Some(b"/")),
        (b"./b.tex", Some(b"b.tex"), Some(b".")),
        (b"a//b/./", Some(b"b"), Some(b"a")),
        (b"a/./b", Some(b"b"), Some(b"a")),
        (b"..", None, Some(b"")),
        (b".", None, Some(b"")),
        (b"", None, None),
        (b"//", None, None),
        (b"\xff/\xfe", Some(b"\xfe"), Some(b"\xff")),
    ] {
        let input = input_path(path);
        assert_eq!(input.path, path.to_vec());
        assert_eq!(input.file_name.as_deref(), name);
        assert_eq!(input.parent.as_deref(), parent);
    }
}

#[test]
fn path_is_taken_apart_as_the_standard_library_does() {
    let mut paths = vec![String::new()];
    let mut at = 0;
    while at < paths.len() {
        let path = paths[at].clone();
        if path.len() < 7 {
            for letter in ["/", ".", "a"] {
                paths.push(format!("{}{}", path, letter));
            }
        }
        let known = std::path::Path::new(&path);
        let input = input_path(path.as_bytes());
        let name = known.file_name().map(|name| name.to_str().unwrap().as_bytes().to_vec());
        let parent = known.parent().map(|parent| parent.to_str().unwrap().as_bytes().to_vec());
        assert_eq!(input.file_name, name, "file name of {:?}", path);
        assert_eq!(input.parent, parent, "parent of {:?}", path);
        assert!(input.file_name.is_none() || input.parent.is_some());
        at += 1;
    }
    assert_eq!(paths.len(), 3280);
}

#[test]
fn output_directory_must_exist() {
    let mut args = file_args();
    args.outdir = Some(OutputDirectory { path: b"out".to_vec(), exists: false });
    assert_eq!(complaint_of(&args), "output directory \"out\" does not exist");
    args.outdir = Some(OutputDirectory { path: b"out".to_vec(), exists: true });
    let preparation = prepare(&args).1.unwrap();
    assert_eq!(preparation.output_path, b"out".to_vec());
    assert_eq!(preparation.io.filesystem_root, b"dir".to_vec());
}

#[test]
fn complaint_about_standard_input_comes_with_the_note() {
    let mut args = stdin_args();
    args.outdir = Some(OutputDirectory { path: b"o\xfft".to_vec(), exists: false });
    let (messages, prepared) = prepare(&args);
    assert_eq!(messages.len(), 1);
    match prepared {
        Err(CliError::Complaint(text)) => {
            assert_eq!(text, "output directory \"o\u{fffd}t\" does not exist")
        }
        other => panic!("unexpected result {:?}", other),
    }
}

#[test]
fn bundle_file_takes_precedence() {
    let mut args = file_args();
    args.web_bundle = Some("http://example.org/".to_string());
    let web = prepare(&args).1.unwrap().io.bundle;
    assert!(matches!(web, Some(BundleSource::Web(ref url)) if url == "http://example.org/"));
    args.bundle = Some("b.zip".to_string());
    let zip = prepare(&args).1.unwrap().io.bundle;
    assert!(matches!(zip, Some(BundleSource::Zip(ref path)) if path == "b.zip"));
}

#[test]
fn flags_reach_the_io_setup() {
    let mut args = file_args();
    args.print_stdout = true;
    args.hidden = vec![b"x".to_vec(), b"y".to_vec(), b"x".to_vec()];
    let io = prepare(&args).1.unwrap().io;
    assert!(io.use_genuine_stdout);
    assert_eq!(io.hidden_input_paths, vec![b"x".to_vec(), b"y".to_vec()]);
}

#[test]
fn file_name_that_is_no_text_is_told_with_replacement_characters() {
    let mut args = file_args();
    args.input = b"p\xe9.tex".to_vec();
    assert_eq!(prepare(&args).1.unwrap().tex_input_stem, "p\u{fffd}.tex");
    args.input = "p\u{e9}.tex".as_bytes().to_vec();
    assert_eq!(prepare(&args).1.unwrap().tex_input_stem, "p\u{e9}.tex");
}

#[test]
fn settings_reach_the_session() {
    let mut args = file_args();
    args.format = "plain".to_string();
    args.outfmt = OutputFormat::Xdv;
    args.pass = PassSetting::Tex;
    args.makefile_rules = Some(b"rules.mk".to_vec());
    args.keep_intermediates = true;
    args.keep_logs = true;
    args.synctex = true;
    let builder = session_builder(&args, b"out", "paper.tex").unwrap();
    assert_eq!(builder.format_path.as_deref(), Some("plain"));
    assert_eq!(builder.tex_input_stem.as_deref(), Some("paper.tex"));
    assert_eq!(builder.output_format, Some(OutputFormat::Xdv));
    assert_eq!(builder.pass, Some(PassSetting::Tex));
    assert_eq!(builder.reruns, None);
    assert_eq!(builder.output_path, Some(b"out".to_vec()));
    assert_eq!(builder.makefile_output_path, Some(b"rules.mk".to_vec()));
    assert!(builder.keep_intermediates);
    assert!(builder.keep_logs);
    assert!(builder.synctex);
    assert!(!builder.print_stdout);
    assert!(builder.hidden.is_empty());
    assert!(builder.bundle.is_none());
    assert!(builder.web_bundle.is_none());
}

#[test]
fn number_of_reruns_is_read() {
    let mut args = file_args();
    for (text, count) in [("0", 0usize), ("3", 3), ("+12", 12), ("007", 7)] {
        args.reruns = Some(text.to_string());
        assert_eq!(session_builder(&args, b"", "a").unwrap().reruns, Some(count));
    }
}

#[test]
fn number_of_reruns_that_cannot_be_read_is_refused() {
    let mut args = file_args();
    for text in ["", "+", "-1", "1 ", "two", "99999999999999999999999"] {
        args.reruns = Some(text.to_string());
        assert!(matches!(session_builder(&args, b"", "a"), Err(CliError::Reruns(_))));
    }
}
