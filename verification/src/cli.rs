//! From the command line to a session.
use crate::course::{has_input, is_complete, planned_state};
use crate::io_setup::{
    optional_bytes, optional_text, path_set, BundleSource, BundleView, CliIoBuilder, IoPlan,
};
use crate::message::{message_views, no_messages, push_message, Message, MessageView};
use crate::outside::{
    decimal_value, from_utf8_lossy, reads_as_usize, usize_from_decimal, utf8_lossy, without_plus,
};
use crate::settings::{
    blank_session_plan, OutputFormat, PassSetting, ProcessingSessionBuilder, SessionPlan,
};
use crate::text::{concat3, copy_bytes, file_name, file_name_of, parent, parent_of, text_of};
use std::num::ParseIntError;
use vstd::prelude::*;

verus! {

/// How much the program tells while it is running.
#[derive(Clone, Copy, Debug, PartialEq, Eq, Structural)]
pub enum Chatter {
    Minimal,
    Normal,
}

/// A path that is given as the input: as a whole, its file name, and the
/// directory that it is in. A path may lack either.
#[derive(Debug)]
pub struct InputPath {
    pub path: Vec<u8>,
    pub file_name: Option<Vec<u8>>,
    pub parent: Option<Vec<u8>>,
}

/// The directory for the output files, and whether there is such a directory.
#[derive(Debug)]
pub struct OutputDirectory {
    pub path: Vec<u8>,
    pub exists: bool,
}

/// What was given on the command line.
#[derive(Debug)]
pub struct CliArgs {
    pub input: Vec<u8>,
    pub format: String,
    pub outfmt: OutputFormat,
    pub pass: PassSetting,
    pub bundle: Option<String>,
    pub web_bundle: Option<String>,
    pub makefile_rules: Option<Vec<u8>>,
    pub reruns: Option<String>,
    pub outdir: Option<OutputDirectory>,
    pub hidden: Vec<Vec<u8>>,
    pub print_stdout: bool,
    pub keep_intermediates: bool,
    pub keep_logs: bool,
    pub synctex: bool,
}

/// What follows from the command line before any file is opened.
#[derive(Debug)]
pub struct Preparation {
    pub io: CliIoBuilder,
    pub output_path: Vec<u8>,
    pub tex_input_stem: String,
}

/// Why the command line could not be followed.
#[derive(Debug)]
pub enum CliError {
    /// The text says what is wrong with it.
    Complaint(String),
    /// The number of reruns could not be read.
    Reruns(ParseIntError),
}

/// The byte that stands for the standard input when it is given as a path.
pub const DASH: u8 = 45;

/// The output format of a name.
pub open spec fn format_of_name(name: Seq<char>) -> Option<OutputFormat> {
    if name == "aux"@ {
        Some(OutputFormat::Aux)
    } else if name == "html"@ {
        Some(OutputFormat::Html)
    } else if name == "xdv"@ {
        Some(OutputFormat::Xdv)
    } else if name == "pdf"@ {
        Some(OutputFormat::Pdf)
    } else if name == "format"@ {
        Some(OutputFormat::Format)
    } else {
        None
    }
}

/// The pass setting of a name.
pub open spec fn pass_of_name(name: Seq<char>) -> Option<PassSetting> {
    if name == "default"@ {
        Some(PassSetting::Default)
    } else if name == "bibtex_first"@ {
        Some(PassSetting::BibtexFirst)
    } else if name == "tex"@ {
        Some(PassSetting::Tex)
    } else {
        None
    }
}

/// The chatter level of a name.
pub open spec fn chatter_of_name(name: Seq<char>) -> Option<Chatter> {
    if name == "default"@ {
        Some(Chatter::Normal)
    } else if name == "minimal"@ {
        Some(Chatter::Minimal)
    } else {
        None
    }
}

/// The input is read from the standard input.
pub open spec fn reads_stdin(args: CliArgs) -> bool {
    args.input@ == seq![DASH]
}

/// Why the command line cannot be followed, if that is so. The first complaint
/// is the one that counts.
pub open spec fn complaint(args: CliArgs) -> Option<Seq<char>> {
    if !reads_stdin(args) && file_name_of(args.input@) is None {
        Some(
            "can't figure out a basename for input path \""@ + utf8_lossy(args.input@)
                + "\""@,
        )
    } else if !reads_stdin(args) && parent_of(args.input@) is None {
        Some(
            "can't figure out a parent directory for input path \""@ + utf8_lossy(
                args.input@,
            ) + "\""@,
        )
    } else if args.outdir is Some && !args.outdir->0.exists {
        Some("output directory \""@ + utf8_lossy(args.outdir->0.path@) + "\" does not exist"@)
    } else {
        None
    }
}

/// The note that the standard input is read.
pub open spec fn stdin_note() -> MessageView {
    MessageView::Note(
        "reading from standard input; outputs will appear under the base name \"texput\""@,
    )
}

/// What the user is told about the command line.
pub open spec fn cli_notes(args: CliArgs) -> Seq<MessageView> {
    if reads_stdin(args) {
        seq![stdin_note()]
    } else {
        Seq::empty()
    }
}

/// The directory that holds the input; the current one for the standard input.
pub open spec fn input_directory(args: CliArgs) -> Seq<u8> {
    if reads_stdin(args) {
        Seq::empty()
    } else {
        parent_of(args.input@)->0
    }
}

/// The directory for the output files: the given one, or else the one that
/// holds the input.
pub open spec fn output_directory(args: CliArgs) -> Seq<u8> {
    match args.outdir {
        Some(directory) => directory.path@,
        None => input_directory(args),
    }
}

/// The name of the input that TeX is told.
pub open spec fn input_stem(args: CliArgs) -> Seq<char> {
    if reads_stdin(args) {
        "texput.tex"@
    } else {
        utf8_lossy(file_name_of(args.input@)->0)
    }
}

/// Where support files come from: a bundle file takes precedence over one on
/// the web, and that over the default.
pub open spec fn chosen_bundle(args: CliArgs) -> BundleView {
    match (args.bundle, args.web_bundle) {
        (Some(path), _) => BundleView::Zip(path@),
        (None, Some(url)) => BundleView::Web(url@),
        (None, None) => BundleView::Default,
    }
}

/// The I/O setup that the command line asks for.
pub open spec fn cli_io_plan(args: CliArgs) -> IoPlan {
    IoPlan {
        primary_input_path: if reads_stdin(args) {
            None
        } else {
            Some(args.input@)
        },
        filesystem_root: input_directory(args),
        use_stdin: reads_stdin(args),
        bundle: Some(chosen_bundle(args)),
        use_genuine_stdout: args.print_stdout,
        hidden_input_paths: path_set(args.hidden@),
    }
}

/// The number of reruns is one that can be read, or there is none.
pub open spec fn reruns_readable(args: CliArgs) -> bool {
    args.reruns matches Some(text) ==> reads_as_usize(text@)
}

/// The session that the command line asks for.
pub open spec fn cli_session_plan(args: CliArgs, output_path: Seq<u8>, stem: Seq<char>) -> SessionPlan {
    SessionPlan {
        format_path: Some(args.format@),
        tex_input_stem: Some(stem),
        output_format: Some(args.outfmt),
        pass: Some(args.pass),
        reruns: match args.reruns {
            Some(text) => Some(decimal_value(without_plus(text@)) as usize),
            None => None,
        },
        output_path: Some(output_path),
        makefile_output_path: optional_bytes(args.makefile_rules),
        keep_intermediates: args.keep_intermediates,
        keep_logs: args.keep_logs,
        synctex: args.synctex,
        ..blank_session_plan()
    }
}

/// Takes a path apart.
pub fn input_path(path: &[u8]) -> (input: InputPath)
    ensures
        input.path@ == path@,
        optional_bytes(input.file_name) == file_name_of(path@),
        optional_bytes(input.parent) == parent_of(path@),
{
    InputPath { path: copy_bytes(path), file_name: file_name(path), parent: parent(path) }
}

/// Reads the name of an output format.
pub fn output_format_named(name: &str) -> (format: Option<OutputFormat>)
    ensures
        format == format_of_name(name@),
{
    if same_text(name, "aux") {
        Some(OutputFormat::Aux)
    } else if same_text(name, "html") {
        Some(OutputFormat::Html)
    } else if same_text(name, "xdv") {
        Some(OutputFormat::Xdv)
    } else if same_text(name, "pdf") {
        Some(OutputFormat::Pdf)
    } else if same_text(name, "format") {
        Some(OutputFormat::Format)
    } else {
        None
    }
}

/// Reads the name of a pass setting.
pub fn pass_named(name: &str) -> (pass: Option<PassSetting>)
    ensures
        pass == pass_of_name(name@),
{
    if same_text(name, "default") {
        Some(PassSetting::Default)
    } else if same_text(name, "bibtex_first") {
        Some(PassSetting::BibtexFirst)
    } else if same_text(name, "tex") {
        Some(PassSetting::Tex)
    } else {
        None
    }
}

/// Reads the name of a chatter level.
pub fn chatter_named(name: &str) -> (chatter: Option<Chatter>)
    ensures
        chatter == chatter_of_name(name@),
{
    if same_text(name, "default") {
        Some(Chatter::Normal)
    } else if same_text(name, "minimal") {
        Some(Chatter::Minimal)
    } else {
        None
    }
}

/// Compares two texts.
fn same_text(a: &str, b: &str) -> (same: bool)
    ensures
        same == (a@ == b@),
{
    text_of(a) == text_of(b)
}

/// Chooses where support files come from.
fn choose_bundle(args: &CliArgs) -> (bundle: BundleSource)
    ensures
        bundle@ == chosen_bundle(*args),
{
    if let Some(path) = &args.bundle {
        BundleSource::Zip(path.clone())
    } else if let Some(url) = &args.web_bundle {
        BundleSource::Web(url.clone())
    } else {
        BundleSource::Default
    }
}

/// Sets up a session from the command line, as far as that goes before any file
/// is opened. Returns what the user is told, and the setup or a complaint.
pub fn prepare(args: &CliArgs) -> (prepared: (Vec<Message>, Result<Preparation, CliError>))
    ensures
        message_views(prepared.0@) == cli_notes(*args),
        match prepared.1 {
            Ok(preparation) => {
                &&& complaint(*args) is None
                &&& preparation.io@ == cli_io_plan(*args)
                &&& preparation.output_path@ == output_directory(*args)
                &&& preparation.tex_input_stem@ == input_stem(*args)
                &&& preparation.io.use_genuine_stdout == args.print_stdout
                &&& preparation.io.use_stdin == (args.input@ == seq![45u8])
                &&& preparation.io.use_stdin ==> preparation.io.primary_input_path is None
                &&& !preparation.io.use_stdin ==> optional_bytes(preparation.io.primary_input_path)
                    == Some(args.input@)
                &&& preparation.io.bundle is Some
            },
            Err(error) => error matches CliError::Complaint(text) && complaint(*args) == Some(text@),
        },
{
    let mut io = CliIoBuilder::default();
    let mut messages = no_messages();
    let mut output_path: Vec<u8> = Vec::new();
    let tex_input_stem;
    if args.input.len() == 1 && args.input[0] == DASH {
        assert(args.input@ =~= seq![DASH]);
        io.primary_input_stdin();
        tex_input_stem = text_of("texput.tex");
        push_message(
            &mut messages,
            Message::Note(
                text_of(
                    "reading from standard input; outputs will appear under the base name \"texput\"",
                ),
            ),
        );
        assert(message_views(messages@) =~= cli_notes(*args));
    } else {
        assert(!reads_stdin(*args));
        let input = input_path(&args.input);
        io.primary_input_path(&input.path);
        match &input.file_name {
            Some(name) => {
                tex_input_stem = from_utf8_lossy(name);
            },
            None => {
                let shown = from_utf8_lossy(&args.input);
                return (
                    messages,
                    Err(
                        CliError::Complaint(
                            concat3("can't figure out a basename for input path \"", &shown, "\""),
                        ),
                    ),
                );
            },
        }
        match &input.parent {
            Some(parent) => {
                output_path = copy_bytes(parent);
                io.filesystem_root(parent);
            },
            None => {
                let shown = from_utf8_lossy(&args.input);
                return (
                    messages,
                    Err(
                        CliError::Complaint(
                            concat3(
                                "can't figure out a parent directory for input path \"",
                                &shown,
                                "\"",
                            ),
                        ),
                    ),
                );
            },
        }
    }
    if let Some(directory) = &args.outdir {
        output_path = copy_bytes(&directory.path);
        if !directory.exists {
            let shown = from_utf8_lossy(&directory.path);
            return (
                messages,
                Err(
                    CliError::Complaint(
                        concat3("output directory \"", &shown, "\" does not exist"),
                    ),
                ),
            );
        }
    }
    io.use_genuine_stdout(args.print_stdout);
    let ghost unhidden = io@;
    let mut at: usize = 0;
    assert(path_set(args.hidden@.take(0)) =~= Set::<Seq<u8>>::empty());
    while at < args.hidden.len()
        invariant
            at <= args.hidden@.len(),
            io@ == (IoPlan { hidden_input_paths: path_set(args.hidden@.take(at as int)), ..unhidden }),
        decreases args.hidden@.len() - at,
    {
        io.hide_path(&args.hidden[at]);
        proof {
            lemma_path_set_grows(args.hidden@, at as int);
        }
        at = at + 1;
    }
    assert(args.hidden@.take(at as int) =~= args.hidden@);
    io.bundle(choose_bundle(args));
    assert(io@ == cli_io_plan(*args));
    (messages, Ok(Preparation { io, output_path, tex_input_stem }))
}

/// One more path in the list is one more path in the set.
proof fn lemma_path_set_grows(paths: Seq<Vec<u8>>, at: int)
    requires
        0 <= at < paths.len(),
    ensures
        path_set(paths.take(at + 1)) == path_set(paths.take(at)).insert(paths[at]@),
{
    let shorter = paths.take(at).map_values(|path: Vec<u8>| path@);
    let longer = paths.take(at + 1).map_values(|path: Vec<u8>| path@);
    assert(longer =~= shorter.push(paths[at]@));
    assert forall|path: Seq<u8>| longer.contains(path) == (shorter.contains(path) || path
        == paths[at]@) by {
        if shorter.contains(path) {
            let i = choose|i: int| 0 <= i < shorter.len() && shorter[i] == path;
            assert(longer[i] == path);
        }
        assert(longer[at] == paths[at]@);
    }
    assert(path_set(paths.take(at + 1)) =~= path_set(paths.take(at)).insert(paths[at]@));
}

/// Specifies the session that the command line asks for.
pub fn session_builder(args: &CliArgs, output_path: &[u8], tex_input_stem: &str) -> (builder: Result<
    ProcessingSessionBuilder,
    CliError,
>)
    ensures
        builder is Ok <==> reruns_readable(*args),
        builder matches Err(error) ==> error is Reruns,
        builder matches Ok(builder) ==> builder@ == cli_session_plan(
            *args,
            output_path@,
            tex_input_stem@,
        ),
        builder matches Ok(builder) ==> {
            &&& builder.keep_logs == args.keep_logs
            &&& builder.keep_intermediates == args.keep_intermediates
            &&& builder.synctex == args.synctex
            &&& builder.pass == Some(args.pass)
            &&& builder.output_format == Some(args.outfmt)
            &&& optional_text(builder.format_path) == Some(args.format@)
            &&& optional_text(builder.tex_input_stem) == Some(tex_input_stem@)
            &&& optional_bytes(builder.output_path) == Some(output_path@)
            &&& optional_bytes(builder.makefile_output_path) == optional_bytes(args.makefile_rules)
            &&& args.reruns is None ==> builder.reruns is None
            &&& args.reruns matches Some(text) ==> builder.reruns == Some(
                decimal_value(without_plus(text@)) as usize,
            )
        },
{
    let mut builder = ProcessingSessionBuilder::new();
    builder.format_path(&args.format);
    builder.output_path(output_path);
    builder.tex_input_stem(tex_input_stem);
    builder.output_format(args.outfmt);
    builder.pass(args.pass);
    builder.keep_intermediates(args.keep_intermediates);
    builder.keep_logs(args.keep_logs);
    builder.synctex(args.synctex);
    if let Some(text) = &args.reruns {
        match usize_from_decimal(text) {
            Ok(count) => {
                builder.reruns(count);
            },
            Err(error) => {
                return Err(CliError::Reruns(error));
            },
        }
    }
    if let Some(path) = &args.makefile_rules {
        builder.makefile_output_path(path);
    }
    Ok(builder)
}

/// A path that has a file name is in a directory, so the complaint that it is in
/// none never comes.
pub proof fn law_file_is_in_a_directory(args: CliArgs)
    ensures
        file_name_of(args.input@) is Some ==> parent_of(args.input@) is Some,
        complaint(args) is Some <==> {
            ||| !reads_stdin(args) && file_name_of(args.input@) is None
            ||| args.outdir is Some && !args.outdir->0.exists
        },
{
}

/// A command line that there is no complaint about has all that a session needs:
/// the settings that it cannot do without, and a main input.
pub proof fn law_command_line_suffices(args: CliArgs)
    ensures
        is_complete(cli_session_plan(args, output_directory(args), input_stem(args))),
        has_input(cli_io_plan(args)),
{
}

/// Output files are placed in the given directory, or else in the directory that
/// holds the input; and the engines read from the latter.
pub proof fn law_directories_are_as_told(args: CliArgs)
    ensures
        ({
            let state = planned_state(
                cli_session_plan(args, output_directory(args), input_stem(args)),
                cli_io_plan(args),
            );
            &&& args.outdir matches Some(directory) ==> state.settings.output_path
                == directory.path@
            &&& args.outdir is None ==> state.settings.output_path == input_directory(args)
            &&& state.io.filesystem_root == input_directory(args)
        }),
{
}

} // verus!
