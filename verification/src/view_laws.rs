//! What is said of actions, events and messages is said of all that they hold.
use crate::events::{FileEntry, IoEvent, IoEventView, LogEntry};
use crate::io_setup::{BundleSource, BundleView, PrimaryInput, PrimaryInputView};
use crate::makefile::{piece_views, RulePiece};
use crate::message::{message_views, Message, MessageView};
use crate::output::{file_views, MemoryFile};
use crate::protocol::{
    outcome_view, Action, ActionView, Event, EventView, Failure, FailureView, Step, TexTask,
};
use vstd::prelude::*;

verus! {

/// Each action stands for itself.
pub proof fn law_actions_stand_for_themselves<E>(action: Action<E>)
    ensures
        match action {
            Action::OpenFormat { format, layers } => action@ == (ActionView::<E>::OpenFormat {
                format: format@,
                layers: layers@,
            }),
            Action::RunTex(task) => action@ == ActionView::<E>::RunTex(task@),
            Action::RunBibtex { aux, layers } => action@ == (ActionView::<E>::RunBibtex {
                aux: aux@,
                layers: layers@,
            }),
            Action::RunXdvipdfmx { xdv, pdf, layers } => action@ == (ActionView::<
                E,
            >::RunXdvipdfmx { xdv: xdv@, pdf: pdf@, layers: layers@ }),
            Action::ReadMemoryFile { name } => action@ == (ActionView::<E>::ReadMemoryFile {
                name: name@,
            }),
            Action::ListMemory => action@ == ActionView::<E>::ListMemory,
            Action::RemoveMemoryFile { name } => action@ == (ActionView::<E>::RemoveMemoryFile {
                name: name@,
            }),
            Action::ClearMemory => action@ == ActionView::<E>::ClearMemory,
            Action::WriteFormat { stem, contents } => action@ == (ActionView::<E>::WriteFormat {
                stem: stem@,
                contents: contents@,
            }),
            Action::CreateMakefile { path } => action@ == (ActionView::<E>::CreateMakefile {
                path: path@,
            }),
            Action::WriteMakefile { data } => action@ == (ActionView::<E>::WriteMakefile {
                data: data@,
            }),
            Action::SaveFile { path, contents } => action@ == (ActionView::<E>::SaveFile {
                path: path@,
                contents: contents@,
            }),
            Action::Finish(outcome) => action@ == ActionView::<E>::Finish(outcome_view(outcome)),
        },
{
}

/// The result of a session stands for itself.
pub proof fn law_outcomes_stand_for_themselves<E>(outcome: Result<i32, Failure<E>>)
    ensures
        match outcome {
            Ok(code) => outcome_view(outcome) == Ok::<i32, FailureView<E>>(code),
            Err(Failure::Outside(error)) => outcome_view(outcome) == Err::<i32, _>(
                FailureView::Outside(error),
            ),
            Err(Failure::InContext { error, context }) => outcome_view(outcome) == Err::<i32, _>(
                FailureView::InContext { error, context: context@ },
            ),
            Err(Failure::Refused(text)) => outcome_view(outcome) == Err::<i32, _>(
                FailureView::<E>::Refused(text@),
            ),
        },
{
}

/// A run of the TeX engine stands for itself.
pub proof fn law_tex_tasks_stand_for_themselves(task: TexTask)
    ensures
        task@.layers == task.layers@,
        task@.halt_on_error == task.halt_on_error,
        task@.initex == task.initex,
        task@.synctex == task.synctex,
        task@.format_name == task.format_name@,
        task@.input_name == task.input_name@,
{
}

/// Each event stands for itself.
pub proof fn law_events_stand_for_themselves<E>(event: Event<E>)
    ensures
        match event {
            Event::Format(reply) => event@ == EventView::<E>::Format(reply),
            Event::Engine(reply) => event@ == EventView::<E>::Engine(reply),
            Event::MemoryFile(Some(bytes)) => event@ == EventView::<E>::MemoryFile(Some(bytes@)),
            Event::MemoryFile(None) => event@ == EventView::<E>::MemoryFile(None),
            Event::Memory(files) => event@ == EventView::<E>::Memory(file_views(files@)),
            Event::Io(result) => event@ == EventView::<E>::Io(result),
            Event::Done => event@ == EventView::<E>::Done,
        },
{
}

/// Each access stands for itself, and so does each recorded file.
pub proof fn law_accesses_stand_for_themselves(event: IoEvent, entry: FileEntry)
    ensures
        match event {
            IoEvent::OutputOpened(name) => event@ == IoEventView::OutputOpened(name@),
            IoEvent::StdoutOpened => event@ == IoEventView::StdoutOpened,
            IoEvent::OutputClosed(name, digest) => event@ == IoEventView::OutputClosed(
                name@,
                digest,
            ),
            IoEvent::InputNotAvailable(name) => event@ == IoEventView::InputNotAvailable(name@),
            IoEvent::InputOpened(name, origin) => event@ == IoEventView::InputOpened(
                name@,
                origin,
            ),
            IoEvent::InputClosed(name, digest) => event@ == IoEventView::InputClosed(
                name@,
                digest,
            ),
        },
        entry@ == (LogEntry { name: entry.name@, summary: entry.summary }),
{
}

/// Each message stands for itself.
pub proof fn law_messages_stand_for_themselves(message: Message)
    ensures
        match message {
            Message::Note(text) => message@ == MessageView::Note(text@),
            Message::Highlighted { before, phrase, after } => message@ == (
            MessageView::Highlighted { before: before@, phrase: phrase@, after: after@ }),
            Message::Warning(text) => message@ == MessageView::Warning(text@),
            Message::Error(text) => message@ == MessageView::Error(text@),
            Message::ErrorStyled(text) => message@ == MessageView::ErrorStyled(text@),
            Message::Dump(bytes) => message@ == MessageView::Dump(bytes@),
        },
{
}

/// The main input stands for itself, and so does the bundle.
pub proof fn law_inputs_stand_for_themselves(input: PrimaryInput, bundle: BundleSource)
    ensures
        match input {
            PrimaryInput::Stdin => input@ == PrimaryInputView::Stdin,
            PrimaryInput::File(path) => input@ == PrimaryInputView::File(path@),
        },
        match bundle {
            BundleSource::Zip(path) => bundle@ == BundleView::Zip(path@),
            BundleSource::Web(url) => bundle@ == BundleView::Web(url@),
            BundleSource::Default => bundle@ == BundleView::Default,
        },
{
}

/// A list is taken item by item, in its order: messages, files in memory, and the
/// pieces of a Makefile rule.
pub proof fn law_lists_are_taken_item_by_item<E>(
    step: Step<E>,
    files: Seq<MemoryFile>,
    pieces: Seq<RulePiece>,
)
    ensures
        step@.action == step.action@,
        step@.messages == message_views(step.messages@),
        step@.messages.len() == step.messages@.len(),
        forall|i: int|
            0 <= i < step.messages@.len() ==> #[trigger] step@.messages[i] == step.messages@[i]@,
        file_views(files).len() == files.len(),
        forall|i: int|
            0 <= i < files.len() ==> (#[trigger] file_views(files)[i]).name == files[i].name@
                && file_views(files)[i].contents == files[i].contents@,
        piece_views(pieces).len() == pieces.len(),
        forall|i: int|
            0 <= i < pieces.len() ==> (#[trigger] piece_views(pieces)[i]).warnings == message_views(
                pieces[i].warnings@,
            ) && piece_views(pieces)[i].data == pieces[i].data@,
{
}

} // verus!
