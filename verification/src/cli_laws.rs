//! What comes of the command line, one argument at a time.
use crate::cli::{
    chatter_of_name, cli_io_plan, cli_notes, cli_session_plan, complaint, format_of_name,
    input_stem, output_directory, pass_of_name, Chatter, CliArgs,
};
use crate::course;
use crate::course::{planned_state, Purpose, StateView};
use crate::events::{distinct_names, AccessPattern, Log};
use crate::io_setup::{BundleView, IoPlan, PrimaryInputView};
use crate::message::MessageView;
use crate::output::{file_fate, FileFate, MemoryFileView};
use crate::outside::{decimal_value, extension_set, utf8_lossy, without_plus};
use crate::saving_laws::law_log_is_saved_if_kept;
use crate::settings::{OutputFormat, PassSetting, SessionPlan};
use crate::text::{file_name_of, parent_of};
use vstd::prelude::*;

verus! {

/// What a session knows at the beginning that comes out of a command line.
pub open spec fn state_from(args: CliArgs) -> StateView {
    planned_state(
        cli_session_plan(args, output_directory(args), input_stem(args)),
        cli_io_plan(args),
    )
}

/// Each option that is a matter of yes or no has its own effect, and no other
/// option has it.
pub proof fn law_flags_are_followed(args: CliArgs)
    ensures
        state_from(args).settings.keep_logs == args.keep_logs,
        state_from(args).settings.keep_intermediates == args.keep_intermediates,
        state_from(args).settings.synctex_enabled == args.synctex,
        state_from(args).io.genuine_stdout == args.print_stdout,
{
}

/// The other settings of a session are those of the command line.
pub proof fn law_settings_are_followed(args: CliArgs)
    ensures
        state_from(args).settings.pass == args.pass,
        state_from(args).settings.output_format == args.outfmt,
        state_from(args).settings.format_path == args.format@,
        args.makefile_rules is None <==> state_from(args).settings.makefile_output_path is None,
        args.makefile_rules matches Some(path) ==> state_from(args).settings.makefile_output_path
            == Some(path@),
        args.reruns is None <==> state_from(args).settings.tex_rerun_specification is None,
        args.reruns matches Some(text) ==> state_from(args).settings.tex_rerun_specification
            == Some(decimal_value(without_plus(text@)) as usize),
        args.outdir matches Some(directory) ==> state_from(args).settings.output_path
            == directory.path@,
        state_from(args).log.len() == 0,
        !state_from(args).noted_tex_warnings,
{
}

/// A dash stands for the standard input, which has no path and is in the current
/// directory; everything else is the path of the main input, which is in its
/// parent directory.
pub proof fn law_input_is_followed(args: CliArgs)
    ensures
        ({
            let state = state_from(args);
            if args.input@ == seq![45u8] {
                &&& state.io.primary_input is Stdin
                &&& state.settings.primary_input_path is None
                &&& state.settings.primary_input_tex_path == "texput.tex"@
                &&& state.io.filesystem_root.len() == 0
                &&& args.outdir is None ==> state.settings.output_path.len() == 0
            } else {
                &&& state.io.primary_input == PrimaryInputView::File(args.input@)
                &&& state.settings.primary_input_path == Some(args.input@)
                &&& file_name_of(args.input@) matches Some(name)
                    ==> state.settings.primary_input_tex_path == utf8_lossy(name)
                &&& parent_of(args.input@) matches Some(directory) ==> state.io.filesystem_root
                    == directory
                &&& parent_of(args.input@) matches Some(directory) ==> args.outdir is None
                    ==> state.settings.output_path == directory
            }
        }),
{
}

/// A bundle file takes precedence over a bundle on the web, and that over the
/// default; there always is one.
pub proof fn law_bundle_is_followed(args: CliArgs)
    ensures
        args.bundle matches Some(path) ==> state_from(args).io.bundle == Some(
            BundleView::Zip(path@),
        ),
        args.bundle is None ==> (args.web_bundle matches Some(url) ==> state_from(args).io.bundle
            == Some(BundleView::Web(url@))),
        args.bundle is None && args.web_bundle is None ==> state_from(args).io.bundle == Some(
            BundleView::Default,
        ),
{
}

/// A path is hidden from the engines exactly if it is one of those that are given.
pub proof fn law_given_paths_are_hidden(args: CliArgs, path: Seq<u8>)
    ensures
        state_from(args).io.hidden_input_paths.contains(path) <==> exists|i: int|
            0 <= i < args.hidden@.len() && (#[trigger] args.hidden@[i])@ == path,
{
    let views = args.hidden@.map_values(|path: Vec<u8>| path@);
    if views.contains(path) {
        let i = choose|i: int| 0 <= i < views.len() && views[i] == path;
        assert(args.hidden@[i]@ == path);
    }
    if exists|i: int| 0 <= i < args.hidden@.len() && (#[trigger] args.hidden@[i])@ == path {
        let i = choose|i: int|
            0 <= i < args.hidden@.len() && (#[trigger] args.hidden@[i])@ == path;
        assert(views[i] == path);
    }
}

/// The engines find files in memory for all that they print, cannot write to the
/// filesystem, and may read from it by absolute paths; and there is no input for
/// the making of a format file yet.
pub proof fn law_engines_are_confined(args: CliArgs)
    ensures
        state_from(args).io.memory_takes_stdout,
        !state_from(args).io.filesystem_writes_allowed,
        state_from(args).io.filesystem_absolute_allowed,
        state_from(args).io.format_primary is None,
{
}

/// Log files are kept exactly if that is asked for: after a success, a log file
/// that the engines only wrote and that is not empty is saved then, and otherwise
/// it is not, whatever becomes of intermediate files.
pub proof fn law_logs_are_kept_on_request<E>(
    args: CliArgs,
    file: MemoryFileView,
    log: Log,
    at: int,
)
    requires
        distinct_names(log),
        0 <= at < log.len(),
        log[at].name == file.name,
        log[at].summary.access_pattern == AccessPattern::Written,
        file.contents.len() > 0,
        args.outfmt != OutputFormat::Aux,
        seq![46u8, 108u8, 111u8, 103u8].is_suffix_of(file.name) || seq![
            46u8,
            98u8,
            108u8,
            103u8,
        ].is_suffix_of(file.name),
    ensures
        file_fate(
            course::output_rules(state_from(args).settings, Purpose::<E>::Outputs),
            file,
            log,
        ) == FileFate::Saved <==> args.keep_logs,
{
    law_log_is_saved_if_kept::<E>(state_from(args).settings, file, log, at);
}

/// A session is set up as it was specified, setting by setting.
pub proof fn law_specified_settings_are_used(plan: SessionPlan, io: IoPlan)
    ensures
        ({
            let state = planned_state(plan, io);
            let settings = state.settings;
            &&& settings.keep_logs == plan.keep_logs
            &&& settings.keep_intermediates == plan.keep_intermediates
            &&& settings.synctex_enabled == plan.synctex
            &&& settings.tex_rerun_specification == plan.reruns
            &&& settings.makefile_output_path == plan.makefile_output_path
            &&& settings.primary_input_path == io.primary_input_path
            &&& plan.pass matches Some(pass) ==> settings.pass == pass
            &&& plan.output_format matches Some(format) ==> settings.output_format == format
            &&& plan.format_path matches Some(path) ==> settings.format_path == path
            &&& plan.output_path matches Some(path) ==> settings.output_path == path
            &&& plan.output_path is None ==> settings.output_path == io.filesystem_root
            &&& state.io.bundle == io.bundle
            &&& state.io.filesystem_root == io.filesystem_root
            &&& state.io.hidden_input_paths == io.hidden_input_paths
            &&& state.io.genuine_stdout == io.use_genuine_stdout
            &&& state.io.primary_input is Stdin <==> io.use_stdin
            &&& !io.use_stdin ==> (io.primary_input_path matches Some(path)
                ==> state.io.primary_input == PrimaryInputView::File(path))
        }),
{
}

/// The files that the engines pass on are named after the input: the extension of
/// the input is replaced by that of the file.
pub proof fn law_files_are_named_after_the_input(plan: SessionPlan, io: IoPlan)
    requires
        plan.tex_input_stem is Some,
    ensures
        ({
            let settings = planned_state(plan, io).settings;
            let aux = settings.tex_aux_path;
            &&& settings.primary_input_tex_path == plan.tex_input_stem->0
            &&& aux == extension_set(settings.primary_input_tex_path, "aux"@)
            &&& settings.tex_pdf_path == extension_set(aux, "pdf"@)
            &&& plan.output_format == Some(OutputFormat::Html) ==> settings.tex_xdv_path
                == extension_set(aux, "spx"@)
            &&& plan.output_format matches Some(format) ==> format != OutputFormat::Html
                ==> settings.tex_xdv_path == extension_set(aux, "xdv"@)
        }),
{
}

/// Each output format has one name, and nothing else is the name of one.
pub proof fn law_output_formats_have_names(name: Seq<char>)
    ensures
        format_of_name(name) == Some(OutputFormat::Aux) <==> name == seq!['a', 'u', 'x'],
        format_of_name(name) == Some(OutputFormat::Html) <==> name == seq!['h', 't', 'm', 'l'],
        format_of_name(name) == Some(OutputFormat::Xdv) <==> name == seq!['x', 'd', 'v'],
        format_of_name(name) == Some(OutputFormat::Pdf) <==> name == seq!['p', 'd', 'f'],
        format_of_name(name) == Some(OutputFormat::Format) <==> name == seq![
            'f',
            'o',
            'r',
            'm',
            'a',
            't',
        ],
{
    reveal_strlit("aux");
    reveal_strlit("html");
    reveal_strlit("xdv");
    reveal_strlit("pdf");
    reveal_strlit("format");
    assert("aux"@ =~= seq!['a', 'u', 'x']);
    assert("html"@ =~= seq!['h', 't', 'm', 'l']);
    assert("xdv"@ =~= seq!['x', 'd', 'v']);
    assert("pdf"@ =~= seq!['p', 'd', 'f']);
    assert("format"@ =~= seq!['f', 'o', 'r', 'm', 'a', 't']);
    assert("aux"@[0] == 'a' && "xdv"@[0] == 'x' && "pdf"@[0] == 'p');
}

/// Each pass setting has one name, and nothing else is the name of one.
pub proof fn law_pass_settings_have_names(name: Seq<char>)
    ensures
        pass_of_name(name) == Some(PassSetting::Default) <==> name == seq![
            'd',
            'e',
            'f',
            'a',
            'u',
            'l',
            't',
        ],
        pass_of_name(name) == Some(PassSetting::BibtexFirst) <==> name == seq![
            'b',
            'i',
            'b',
            't',
            'e',
            'x',
            '_',
            'f',
            'i',
            'r',
            's',
            't',
        ],
        pass_of_name(name) == Some(PassSetting::Tex) <==> name == seq!['t', 'e', 'x'],
{
    reveal_strlit("default");
    reveal_strlit("bibtex_first");
    reveal_strlit("tex");
    assert("default"@ =~= seq!['d', 'e', 'f', 'a', 'u', 'l', 't']);
    assert("bibtex_first"@ =~= seq![
        'b',
        'i',
        'b',
        't',
        'e',
        'x',
        '_',
        'f',
        'i',
        'r',
        's',
        't',
    ]);
    assert("tex"@ =~= seq!['t', 'e', 'x']);
}

/// Each chatter level has one name, and nothing else is the name of one.
pub proof fn law_chatter_levels_have_names(name: Seq<char>)
    ensures
        chatter_of_name(name) == Some(Chatter::Normal) <==> name == seq![
            'd',
            'e',
            'f',
            'a',
            'u',
            'l',
            't',
        ],
        chatter_of_name(name) == Some(Chatter::Minimal) <==> name == seq![
            'm',
            'i',
            'n',
            'i',
            'm',
            'a',
            'l',
        ],
{
    reveal_strlit("default");
    reveal_strlit("minimal");
    assert("default"@ =~= seq!['d', 'e', 'f', 'a', 'u', 'l', 't']);
    assert("minimal"@ =~= seq!['m', 'i', 'n', 'i', 'm', 'a', 'l']);
    assert("default"@[0] == 'd' && "minimal"@[0] == 'm');
}

/// There is a complaint exactly if a path is given that has no file name, or a
/// directory for the outputs that does not exist; and the path comes first.
pub proof fn law_complaints_are_justified(args: CliArgs)
    ensures
        ({
            let nameless = args.input@ != seq![45u8] && file_name_of(args.input@) is None;
            let homeless = args.outdir matches Some(directory) && !directory.exists;
            &&& complaint(args) is Some <==> nameless || homeless
            &&& nameless ==> complaint(args) == Some(
                "can't figure out a basename for input path \""@ + utf8_lossy(args.input@)
                    + "\""@,
            )
            &&& !nameless && homeless ==> complaint(args) == Some(
                "output directory \""@ + utf8_lossy(args.outdir->0.path@) + "\" does not exist"@,
            )
        }),
{
}

/// The user is told when, and only when, the standard input is read.
pub proof fn law_standard_input_is_told(args: CliArgs)
    ensures
        args.input@ == seq![45u8] ==> cli_notes(args) == seq![
            MessageView::Note(
                "reading from standard input; outputs will appear under the base name \"texput\""@,
            ),
        ],
        args.input@ != seq![45u8] ==> cli_notes(args).len() == 0,
{
}

} // verus!
