//! What the driver asks for, and what it is told.
//!
//! The driver does no I/O and runs no engine. It asks its environment for one
//! action at a time and is told what came of it.
use crate::io_setup::IoLayer;
use crate::message::{message_views, Message, MessageView};
use crate::output::{file_views, MemoryFile, MemoryFileView};
use vstd::prelude::*;

verus! {

/// How the TeX engine is run.
#[derive(Debug)]
pub struct TexTask {
    /// The I/O layers, first to last.
    pub layers: Vec<IoLayer>,
    pub halt_on_error: bool,
    /// The engine makes a format file rather than a document.
    pub initex: bool,
    pub synctex: bool,
    pub format_name: String,
    pub input_name: String,
}

/// A run of the TeX engine as a mathematical value.
pub ghost struct TexTaskView {
    pub layers: Seq<IoLayer>,
    pub halt_on_error: bool,
    pub initex: bool,
    pub synctex: bool,
    pub format_name: Seq<char>,
    pub input_name: Seq<char>,
}

impl View for TexTask {
    type V = TexTaskView;

    open spec fn view(&self) -> TexTaskView {
        TexTaskView {
            layers: self.layers@,
            halt_on_error: self.halt_on_error,
            initex: self.initex,
            synctex: self.synctex,
            format_name: self.format_name@,
            input_name: self.input_name@,
        }
    }
}

/// Why a session failed. `E` is the type of the errors of the environment.
#[derive(Debug)]
pub enum Failure<E> {
    /// An action failed with this error.
    Outside(E),
    /// An action failed with this error; the text says what was being done.
    InContext { error: E, context: String },
    /// The driver itself gives up.
    Refused(String),
}

/// A failure as a mathematical value.
pub ghost enum FailureView<E> {
    Outside(E),
    InContext { error: E, context: Seq<char> },
    Refused(Seq<char>),
}

impl<E> View for Failure<E> {
    type V = FailureView<E>;

    open spec fn view(&self) -> FailureView<E> {
        match self {
            Failure::Outside(error) => FailureView::Outside(*error),
            Failure::InContext { error, context } => FailureView::InContext {
                error: *error,
                context: context@,
            },
            Failure::Refused(text) => FailureView::Refused(text@),
        }
    }
}

/// The result of a session as a mathematical value.
pub open spec fn outcome_view<E>(outcome: Result<i32, Failure<E>>) -> Result<i32, FailureView<E>> {
    match outcome {
        Ok(code) => Ok(code),
        Err(failure) => Err(failure@),
    }
}

/// What the driver asks for.
#[derive(Debug)]
pub enum Action<E> {
    /// Try to open a format file, to see if there is one.
    OpenFormat { format: String, layers: Vec<IoLayer> },
    /// Run the TeX engine.
    RunTex(TexTask),
    /// Run BibTeX on an `.aux` file.
    RunBibtex { aux: String, layers: Vec<IoLayer> },
    /// Run xdvipdfmx.
    RunXdvipdfmx { xdv: String, pdf: String, layers: Vec<IoLayer> },
    /// Hand over one of the files in memory, if it is there.
    ReadMemoryFile { name: Vec<u8> },
    /// Hand over all the files in memory.
    ListMemory,
    /// Remove a file from memory.
    RemoveMemoryFile { name: Vec<u8> },
    /// Remove all files from memory.
    ClearMemory,
    /// Have the bundle store a format file.
    WriteFormat { stem: String, contents: Vec<u8> },
    /// Create the file for the Makefile rules.
    CreateMakefile { path: Vec<u8> },
    /// Append to the file for the Makefile rules.
    WriteMakefile { data: Vec<u8> },
    /// Create a file with the given contents.
    SaveFile { path: Vec<u8>, contents: Vec<u8> },
    /// Nothing more: this is the result of the session.
    Finish(Result<i32, Failure<E>>),
}

/// An action as a mathematical value.
pub ghost enum ActionView<E> {
    OpenFormat { format: Seq<char>, layers: Seq<IoLayer> },
    RunTex(TexTaskView),
    RunBibtex { aux: Seq<char>, layers: Seq<IoLayer> },
    RunXdvipdfmx { xdv: Seq<char>, pdf: Seq<char>, layers: Seq<IoLayer> },
    ReadMemoryFile { name: Seq<u8> },
    ListMemory,
    RemoveMemoryFile { name: Seq<u8> },
    ClearMemory,
    WriteFormat { stem: Seq<char>, contents: Seq<u8> },
    CreateMakefile { path: Seq<u8> },
    WriteMakefile { data: Seq<u8> },
    SaveFile { path: Seq<u8>, contents: Seq<u8> },
    Finish(Result<i32, FailureView<E>>),
}

impl<E> View for Action<E> {
    type V = ActionView<E>;

    open spec fn view(&self) -> ActionView<E> {
        match self {
            Action::OpenFormat { format, layers } => ActionView::OpenFormat {
                format: format@,
                layers: layers@,
            },
            Action::RunTex(task) => ActionView::RunTex(task@),
            Action::RunBibtex { aux, layers } => ActionView::RunBibtex {
                aux: aux@,
                layers: layers@,
            },
            Action::RunXdvipdfmx { xdv, pdf, layers } => ActionView::RunXdvipdfmx {
                xdv: xdv@,
                pdf: pdf@,
                layers: layers@,
            },
            Action::ReadMemoryFile { name } => ActionView::ReadMemoryFile { name: name@ },
            Action::ListMemory => ActionView::ListMemory,
            Action::RemoveMemoryFile { name } => ActionView::RemoveMemoryFile { name: name@ },
            Action::ClearMemory => ActionView::ClearMemory,
            Action::WriteFormat { stem, contents } => ActionView::WriteFormat {
                stem: stem@,
                contents: contents@,
            },
            Action::CreateMakefile { path } => ActionView::CreateMakefile { path: path@ },
            Action::WriteMakefile { data } => ActionView::WriteMakefile { data: data@ },
            Action::SaveFile { path, contents } => ActionView::SaveFile {
                path: path@,
                contents: contents@,
            },
            Action::Finish(outcome) => ActionView::Finish(outcome_view(*outcome)),
        }
    }
}

/// What came of the attempt to open a format file.
#[derive(Debug)]
pub enum FormatReply<E> {
    Available,
    NotAvailable,
    Failed(E),
}

/// What came of a run of an engine.
#[derive(Debug)]
pub enum EngineReply<E> {
    /// There was nothing to complain about.
    Spotless,
    /// The engine issued warnings.
    Warnings,
    /// The engine issued errors, but went on.
    Errors,
    /// The engine gave up.
    Failed(E),
}

/// What the driver is told.
#[derive(Debug)]
pub enum Event<E> {
    /// The answer to `OpenFormat`.
    Format(FormatReply<E>),
    /// The answer to `RunTex`, `RunBibtex` and `RunXdvipdfmx`.
    Engine(EngineReply<E>),
    /// The answer to `ReadMemoryFile`.
    MemoryFile(Option<Vec<u8>>),
    /// The answer to `ListMemory`.
    Memory(Vec<MemoryFile>),
    /// The answer to `WriteFormat`, `CreateMakefile`, `WriteMakefile` and
    /// `SaveFile`.
    Io(Result<(), E>),
    /// The answer to `RemoveMemoryFile` and `ClearMemory`.
    Done,
}

/// An event as a mathematical value.
pub ghost enum EventView<E> {
    Format(FormatReply<E>),
    Engine(EngineReply<E>),
    MemoryFile(Option<Seq<u8>>),
    Memory(Seq<MemoryFileView>),
    Io(Result<(), E>),
    Done,
}

impl<E> View for Event<E> {
    type V = EventView<E>;

    open spec fn view(&self) -> EventView<E> {
        match self {
            Event::Format(reply) => EventView::Format(*reply),
            Event::Engine(reply) => EventView::Engine(*reply),
            Event::MemoryFile(contents) => EventView::MemoryFile(
                match *contents {
                    Some(bytes) => Some(bytes@),
                    None => None,
                },
            ),
            Event::Memory(files) => EventView::Memory(file_views(files@)),
            Event::Io(result) => EventView::Io(*result),
            Event::Done => EventView::Done,
        }
    }
}

/// What the driver has to say: messages for the user, and then an action.
#[derive(Debug)]
pub struct Step<E> {
    pub messages: Vec<Message>,
    pub action: Action<E>,
}

/// A step as a mathematical value.
pub ghost struct StepView<E> {
    pub messages: Seq<MessageView>,
    pub action: ActionView<E>,
}

impl<E> View for Step<E> {
    type V = StepView<E>;

    open spec fn view(&self) -> StepView<E> {
        StepView { messages: message_views(self.messages@), action: self.action@ }
    }
}

} // verus!
