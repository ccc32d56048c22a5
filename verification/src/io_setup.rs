//! The layers through which the engines read and write.
use crate::text::{bytes_equal, copy_bytes, text_of};
use vstd::prelude::*;

verus! {

/// Where the support files of the engines come from.
#[derive(Debug)]
pub enum BundleSource {
    /// A Zip-format bundle file on disk.
    Zip(String),
    /// An indexed bundle on the web.
    Web(String),
    /// The bundle that the configuration names.
    Default,
}

/// A bundle as a mathematical value.
pub ghost enum BundleView {
    Zip(Seq<char>),
    Web(Seq<char>),
    Default,
}

impl View for BundleSource {
    type V = BundleView;

    open spec fn view(&self) -> BundleView {
        match self {
            BundleSource::Zip(path) => BundleView::Zip(path@),
            BundleSource::Web(url) => BundleView::Web(url@),
            BundleSource::Default => BundleView::Default,
        }
    }
}

/// What the TeX engine is given as its main input.
#[derive(Debug)]
pub enum PrimaryInput {
    /// The standard input of the process.
    Stdin,
    /// A file.
    File(Vec<u8>),
}

/// A main input as a mathematical value.
pub ghost enum PrimaryInputView {
    Stdin,
    File(Seq<u8>),
}

impl View for PrimaryInput {
    type V = PrimaryInputView;

    open spec fn view(&self) -> PrimaryInputView {
        match self {
            PrimaryInput::Stdin => PrimaryInputView::Stdin,
            PrimaryInput::File(path) => PrimaryInputView::File(path@),
        }
    }
}

/// One layer of the I/O stack of an engine. A file is opened by the first layer
/// that has it.
#[derive(Clone, Copy, Debug, PartialEq, Eq, Structural)]
pub enum IoLayer {
    /// The standard output of the process.
    GenuineStdout,
    /// The main input of the session.
    PrimaryInput,
    /// The main input for the making of a format file.
    FormatPrimary,
    /// The files in memory.
    Memory,
    /// The filesystem.
    Filesystem,
    /// The bundle of support files.
    Bundle,
}

/// The layer, if it is there.
pub open spec fn optional_layer(present: bool, layer: IoLayer) -> Seq<IoLayer> {
    if present {
        seq![layer]
    } else {
        Seq::empty()
    }
}

/// The stack for the passes of a session.
pub open spec fn session_layers(genuine_stdout: bool, bundle: bool) -> Seq<IoLayer> {
    optional_layer(genuine_stdout, IoLayer::GenuineStdout) + seq![
        IoLayer::PrimaryInput,
        IoLayer::Memory,
        IoLayer::Filesystem,
    ] + optional_layer(bundle, IoLayer::Bundle)
}

/// The stack for the making of a format file. The filesystem is not in it, so
/// that only the bundle has an effect on the format.
pub open spec fn format_layers(genuine_stdout: bool, bundle: bool) -> Seq<IoLayer> {
    optional_layer(genuine_stdout, IoLayer::GenuineStdout) + seq![
        IoLayer::FormatPrimary,
        IoLayer::Memory,
    ] + optional_layer(bundle, IoLayer::Bundle)
}

/// The byte strings of a list, as a set.
pub open spec fn path_set(paths: Seq<Vec<u8>>) -> Set<Seq<u8>> {
    paths.map_values(|path: Vec<u8>| path@).to_set()
}

/// The byte string that may be there, as a mathematical value.
pub open spec fn optional_bytes(bytes: Option<Vec<u8>>) -> Option<Seq<u8>> {
    match bytes {
        Some(bytes) => Some(bytes@),
        None => None,
    }
}

/// The text that may be there, as a mathematical value.
pub open spec fn optional_text(text: Option<String>) -> Option<Seq<char>> {
    match text {
        Some(text) => Some(text@),
        None => None,
    }
}

/// The bundle that may be there, as a mathematical value.
pub open spec fn optional_bundle(bundle: Option<BundleSource>) -> Option<BundleView> {
    match bundle {
        Some(bundle) => Some(bundle@),
        None => None,
    }
}

/// The input and output setup of a session: which layers there are and how they
/// are set.
#[derive(Debug)]
pub struct CliIoSetup {
    pub primary_input: PrimaryInput,
    pub bundle: Option<BundleSource>,
    /// The memory layer takes what the engines write to the standard output.
    pub memory_takes_stdout: bool,
    pub filesystem_root: Vec<u8>,
    /// The filesystem layer accepts output.
    pub filesystem_writes_allowed: bool,
    /// The filesystem layer accepts absolute paths.
    pub filesystem_absolute_allowed: bool,
    /// The files that the filesystem layer does not show.
    pub hidden_input_paths: Vec<Vec<u8>>,
    pub genuine_stdout: bool,
    /// The text that stands in for the main input when a format is made.
    pub format_primary: Option<String>,
}

/// A setup as a mathematical value.
pub ghost struct IoSetupView {
    pub primary_input: PrimaryInputView,
    pub bundle: Option<BundleView>,
    pub memory_takes_stdout: bool,
    pub filesystem_root: Seq<u8>,
    pub filesystem_writes_allowed: bool,
    pub filesystem_absolute_allowed: bool,
    pub hidden_input_paths: Set<Seq<u8>>,
    pub genuine_stdout: bool,
    pub format_primary: Option<Seq<char>>,
}

impl View for CliIoSetup {
    type V = IoSetupView;

    open spec fn view(&self) -> IoSetupView {
        IoSetupView {
            primary_input: self.primary_input@,
            bundle: optional_bundle(self.bundle),
            memory_takes_stdout: self.memory_takes_stdout,
            filesystem_root: self.filesystem_root@,
            filesystem_writes_allowed: self.filesystem_writes_allowed,
            filesystem_absolute_allowed: self.filesystem_absolute_allowed,
            hidden_input_paths: path_set(self.hidden_input_paths@),
            genuine_stdout: self.genuine_stdout,
            format_primary: optional_text(self.format_primary),
        }
    }
}

fn push_layer(layers: &mut Vec<IoLayer>, present: bool, layer: IoLayer)
    ensures
        final(layers)@ == old(layers)@ + optional_layer(present, layer),
{
    if present {
        layers.push(layer);
    }
    assert(layers@ =~= old(layers)@ + optional_layer(present, layer));
}

impl CliIoSetup {
    /// The layers for the passes of a session, first to last.
    pub fn as_stack(&self) -> (layers: Vec<IoLayer>)
        ensures
            layers@ == session_layers(self.genuine_stdout, self.bundle is Some),
    {
        let mut layers: Vec<IoLayer> = Vec::new();
        push_layer(&mut layers, self.genuine_stdout, IoLayer::GenuineStdout);
        layers.push(IoLayer::PrimaryInput);
        layers.push(IoLayer::Memory);
        layers.push(IoLayer::Filesystem);
        push_layer(&mut layers, self.bundle.is_some(), IoLayer::Bundle);
        assert(layers@ =~= session_layers(self.genuine_stdout, self.bundle is Some));
        layers
    }

    /// The layers for the making of a format file, first to last. `kickstart`
    /// takes the place of the main input.
    pub fn as_stack_for_format(&mut self, kickstart: &str) -> (layers: Vec<IoLayer>)
        ensures
            layers@ == format_layers(old(self).genuine_stdout, old(self).bundle is Some),
            final(self)@ == (IoSetupView { format_primary: Some(kickstart@), ..old(self)@ }),
            final(self).bundle == old(self).bundle,
    {
        let mut layers: Vec<IoLayer> = Vec::new();
        push_layer(&mut layers, self.genuine_stdout, IoLayer::GenuineStdout);
        self.format_primary = Some(text_of(kickstart));
        layers.push(IoLayer::FormatPrimary);
        layers.push(IoLayer::Memory);
        push_layer(&mut layers, self.bundle.is_some(), IoLayer::Bundle);
        assert(layers@ =~= format_layers(self.genuine_stdout, self.bundle is Some));
        layers
    }
}

/// A builder interface for specifying the I/O setup.
#[derive(Debug)]
pub struct CliIoBuilder {
    pub primary_input_path: Option<Vec<u8>>,
    pub filesystem_root: Vec<u8>,
    pub use_stdin: bool,
    pub bundle: Option<BundleSource>,
    pub use_genuine_stdout: bool,
    pub hidden_input_paths: Vec<Vec<u8>>,
}

/// The state of the builder as a mathematical value.
pub ghost struct IoPlan {
    pub primary_input_path: Option<Seq<u8>>,
    pub filesystem_root: Seq<u8>,
    pub use_stdin: bool,
    pub bundle: Option<BundleView>,
    pub use_genuine_stdout: bool,
    pub hidden_input_paths: Set<Seq<u8>>,
}

impl View for CliIoBuilder {
    type V = IoPlan;

    open spec fn view(&self) -> IoPlan {
        IoPlan {
            primary_input_path: optional_bytes(self.primary_input_path),
            filesystem_root: self.filesystem_root@,
            use_stdin: self.use_stdin,
            bundle: optional_bundle(self.bundle),
            use_genuine_stdout: self.use_genuine_stdout,
            hidden_input_paths: path_set(self.hidden_input_paths@),
        }
    }
}

/// The builder before anything was specified.
pub open spec fn blank_io_plan() -> IoPlan {
    IoPlan {
        primary_input_path: None,
        filesystem_root: Seq::empty(),
        use_stdin: false,
        bundle: None,
        use_genuine_stdout: false,
        hidden_input_paths: Set::empty(),
    }
}

/// The setup that comes out of a plan which names a main input.
pub open spec fn planned_setup(plan: IoPlan) -> IoSetupView {
    IoSetupView {
        primary_input: if plan.use_stdin {
            PrimaryInputView::Stdin
        } else {
            PrimaryInputView::File(plan.primary_input_path->0)
        },
        bundle: plan.bundle,
        memory_takes_stdout: true,
        filesystem_root: plan.filesystem_root,
        filesystem_writes_allowed: false,
        filesystem_absolute_allowed: true,
        hidden_input_paths: plan.hidden_input_paths,
        genuine_stdout: plan.use_genuine_stdout,
        format_primary: None,
    }
}

impl Default for CliIoBuilder {
    fn default() -> (builder: CliIoBuilder)
        ensures
            builder@ == blank_io_plan(),
    {
        let builder = CliIoBuilder {
            primary_input_path: None,
            filesystem_root: Vec::new(),
            use_stdin: false,
            bundle: None,
            use_genuine_stdout: false,
            hidden_input_paths: Vec::new(),
        };
        assert(builder@.hidden_input_paths =~= Set::<Seq<u8>>::empty());
        builder
    }
}

impl CliIoBuilder {
    /// Takes the main input from a file. The standard input must not have been
    /// chosen before.
    pub fn primary_input_path(&mut self, path: &[u8]) -> (this: &mut Self)
        requires
            !old(self).use_stdin,
        ensures
            (*this)@ == (IoPlan { primary_input_path: Some(path@), ..old(self)@ }),
            this.primary_input_path matches Some(bytes) && bytes@ == path@,
            *final(self) == *final(this),
    {
        self.primary_input_path = Some(copy_bytes(path));
        self
    }

    /// Takes the main input from the standard input. No file must have been
    /// chosen before.
    pub fn primary_input_stdin(&mut self) -> (this: &mut Self)
        requires
            old(self).primary_input_path is None,
        ensures
            (*this)@ == (IoPlan { use_stdin: true, ..old(self)@ }),
            this.use_stdin,
            *final(self) == *final(this),
    {
        self.use_stdin = true;
        self
    }

    /// Sets the directory from which the engines read.
    pub fn filesystem_root(&mut self, path: &[u8]) -> (this: &mut Self)
        ensures
            (*this)@ == (IoPlan { filesystem_root: path@, ..old(self)@ }),
            this.filesystem_root@ == path@,
            *final(self) == *final(this),
    {
        self.filesystem_root = copy_bytes(path);
        self
    }

    /// Sets the bundle.
    pub fn bundle(&mut self, bundle: BundleSource) -> (this: &mut Self)
        ensures
            (*this)@ == (IoPlan { bundle: Some(bundle@), ..old(self)@ }),
            this.bundle == Some(bundle),
            *final(self) == *final(this),
    {
        self.bundle = Some(bundle);
        self
    }

    /// Sets the bundle from a box.
    pub fn boxed_bundle(&mut self, bundle: Box<BundleSource>) -> (this: &mut Self)
        ensures
            (*this)@ == (IoPlan { bundle: Some(bundle@), ..old(self)@ }),
            this.bundle == Some(*bundle),
            *final(self) == *final(this),
    {
        self.bundle = Some(*bundle);
        self
    }

    /// Chooses whether the chatter of the engines goes to the standard output.
    pub fn use_genuine_stdout(&mut self, setting: bool) -> (this: &mut Self)
        ensures
            (*this)@ == (IoPlan { use_genuine_stdout: setting, ..old(self)@ }),
            this.use_genuine_stdout == setting,
            *final(self) == *final(this),
    {
        self.use_genuine_stdout = setting;
        self
    }

    /// Hides a path: the engines are told that there is no such file.
    pub fn hide_path(&mut self, path: &[u8]) -> (this: &mut Self)
        ensures
            (*this)@ == (IoPlan {
                hidden_input_paths: old(self)@.hidden_input_paths.insert(path@),
                ..old(self)@
            }),
            *final(self) == *final(this),
    {
        let ghost before = self.hidden_input_paths@.map_values(|path: Vec<u8>| path@);
        let mut at: usize = 0;
        let mut known = false;
        while at < self.hidden_input_paths.len() && !known
            invariant
                at <= self.hidden_input_paths@.len(),
                *self == *old(self),
                before == self.hidden_input_paths@.map_values(|path: Vec<u8>| path@),
                known ==> before.contains(path@),
            decreases self.hidden_input_paths@.len() - at + if known { 0int } else { 1int },
        {
            if bytes_equal(&self.hidden_input_paths[at], path) {
                assert(before[at as int] == path@);
                known = true;
            } else {
                at = at + 1;
            }
        }
        if !known {
            self.hidden_input_paths.push(copy_bytes(path));
            proof {
                let after = self.hidden_input_paths@.map_values(|path: Vec<u8>| path@);
                assert(after =~= before.push(path@));
                assert forall|other: Seq<u8>| after.contains(other) == (before.contains(other)
                    || other == path@) by {
                    if before.contains(other) {
                        let i = choose|i: int| 0 <= i < before.len() && before[i] == other;
                        assert(after[i] == other);
                    }
                    assert(after[before.len() as int] == path@);
                }
            }
        }
        assert(self@.hidden_input_paths =~= old(self)@.hidden_input_paths.insert(path@));
        self
    }

    /// Makes the setup. A main input must have been chosen.
    pub fn create(self) -> (setup: CliIoSetup)
        requires
            self.use_stdin || self.primary_input_path is Some,
        ensures
            setup@ == planned_setup(self@),
            self.use_stdin ==> setup.primary_input is Stdin,
            !self.use_stdin ==> setup.primary_input == PrimaryInput::File(
                self.primary_input_path->0,
            ),
            setup.bundle == self.bundle,
            setup.filesystem_root == self.filesystem_root,
            setup.hidden_input_paths == self.hidden_input_paths,
            setup.genuine_stdout == self.use_genuine_stdout,
            setup.memory_takes_stdout,
            !setup.filesystem_writes_allowed,
            setup.filesystem_absolute_allowed,
            setup.format_primary is None,
    {
        let primary_input = if self.use_stdin {
            PrimaryInput::Stdin
        } else {
            PrimaryInput::File(self.primary_input_path.unwrap())
        };
        CliIoSetup {
            primary_input,
            bundle: self.bundle,
            memory_takes_stdout: true,
            filesystem_root: self.filesystem_root,
            filesystem_writes_allowed: false,
            filesystem_absolute_allowed: true,
            hidden_input_paths: self.hidden_input_paths,
            genuine_stdout: self.use_genuine_stdout,
            format_primary: None,
        }
    }
}

} // verus!
