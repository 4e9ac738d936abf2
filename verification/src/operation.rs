//! Operations that take several calls of the runtime, as a state machine.
//! The manager never calls the runtime itself. It hands out an `Action`,
//! the caller carries it out and hands back an `Event`, and `step` says what
//! the manager does with it. This file holds the vocabulary and the rules;
//! the rules are mathematical functions, so that what holds of every run can
//! be stated and proved about them.

use vstd::prelude::*;
use crate::executor::{
    build_args,
    commit_args,
    create_args,
    inspect_args,
    list_containers_args,
    list_image_references_args,
    list_images_args,
    list_names_args,
    load_args,
    start_args,
    completion_view,
    ExecutionError,
    ExecutionResult,
    ExecutionView,
    FailureReason,
};
use crate::parser::{parsed_containers, parsed_images, warnings_of_lines, ParseWarning};
use crate::paths::{is_absolute, is_archive, is_iso, optional_text, suggested_name};
use crate::records::{ContainerRecord, ImageRecord};
use crate::text::{lines, same_text, strings, trim};

verus! {

/// Why an operation did not do what was asked.
#[derive(Clone, Copy, Debug, PartialEq, Eq, Structural)]
pub enum OperationError {
    /// A container was to be created without a name.
    EmptyContainerName,
    /// A container of that name exists already.
    DuplicateName,
    /// No image of the available ones was chosen.
    NoImageSelected,
    /// The manager or the runtime knows no container of that name.
    ContainerNotFound,
    /// An image was to be made without a name.
    EmptyImageName,
    /// The container was created, but starting it failed: it exists and is
    /// stopped.
    CreatedButNotStarted,
    /// The interactive session could not be opened.
    AttachFailed,
    /// The build directory could not be set up.
    StagingFailed,
    /// The file to build from was not given by an absolute path.
    RelativePath,
    /// The file is neither an ISO file nor an archive of images.
    UnsupportedFile,
    /// The runtime ran the call and reported a failure.
    CommandFailed,
    /// Another operation is under way.
    Busy,
    /// An event arrived while no operation was under way.
    NothingPending,
    /// The event is not the answer to the action that was handed out.
    UnexpectedEvent,
    /// The call of the runtime gave no result.
    Execution(FailureReason),
}

/// How far an operation has come: what the manager waits for.
#[derive(Clone, Copy, Debug, PartialEq, Eq, Structural)]
pub enum Stage {
    /// Creating: waits for the list of names, to see that the name is free.
    CheckingName,
    /// Creating: waits for the list of image references.
    ListingImages,
    /// Creating: waits for the choice of an image.
    AwaitingImage,
    /// Creating: waits for the result of the create call.
    Creating,
    /// Creating: waits for the result of starting the new container.
    StartingCreated,
    /// Starting, stopping or removing: waits for the result of the call.
    Changing,
    /// Saving a container as an image: waits for the result of the call.
    Committing,
    /// Loading an archive: waits for the result of the call.
    Loading,
    /// Building from an ISO file: waits for the build directory.
    Staging,
    /// Building from an ISO file: waits for the result of the build.
    Building,
    /// Building from an ISO file: waits for the build directory to be gone.
    CleaningUp,
    /// Opening a session: waits to hear whether the container runs.
    Inspecting,
    /// Opening a session: waits for the result of starting the container.
    StartingForSession,
    /// Opening a session: waits to hear whether the session opened.
    Attaching,
    /// Waits for the list of containers, to replace the cache with.
    RefreshingContainers,
    /// Waits for the list of images, to replace the cache with.
    RefreshingImages,
}

/// An operation under way: its stage, the name (of a container, an image or
/// a file) that it is about, and how it has gone so far.
#[derive(Debug, PartialEq, Eq)]
pub struct PendingOperation {
    pub stage: Stage,
    pub subject: String,
    pub outcome: Result<(), OperationError>,
}

/// What a `PendingOperation` holds, as mathematical text.
pub struct PendingView {
    pub stage: Stage,
    pub subject: Seq<char>,
    pub outcome: Result<(), OperationError>,
}

impl View for PendingOperation {
    type V = PendingView;

    open spec fn view(&self) -> PendingView {
        PendingView { stage: self.stage, subject: self.subject@, outcome: self.outcome }
    }
}

/// Where a build was staged: the path of the build descriptor and the path
/// of the build directory.
#[derive(Clone, Debug, PartialEq, Eq)]
pub struct BuildContext {
    pub descriptor: String,
    pub directory: String,
}

/// What a `BuildContext` holds, as mathematical text.
pub struct BuildContextView {
    pub descriptor: Seq<char>,
    pub directory: Seq<char>,
}

impl View for BuildContext {
    type V = BuildContextView;

    open spec fn view(&self) -> BuildContextView {
        BuildContextView { descriptor: self.descriptor@, directory: self.directory@ }
    }
}

/// The view of a build context that may be missing.
pub open spec fn optional_context(c: Option<BuildContext>) -> Option<BuildContextView> {
    match c {
        Some(x) => Some(x@),
        None => None,
    }
}

/// What the caller reports back after carrying out an action.
#[derive(Debug, PartialEq, Eq)]
pub enum Event {
    /// A call of the runtime ended, with a result or without one.
    Completed(Result<ExecutionResult, ExecutionError>),
    /// An image was chosen, or the choice was called off.
    ImageChosen(Option<String>),
    /// The build directory was set up, or setting it up failed.
    Staged(Option<BuildContext>),
    /// The build directory is gone.
    Cleaned,
    /// The interactive session was opened, or opening it failed.
    Attached(bool),
}

/// What an `Event` holds, as mathematical text.
pub enum EventView {
    Completed(Result<ExecutionView, ExecutionError>),
    ImageChosen(Option<Seq<char>>),
    Staged(Option<BuildContextView>),
    Cleaned,
    Attached(bool),
}

impl View for Event {
    type V = EventView;

    open spec fn view(&self) -> EventView {
        match *self {
            Event::Completed(c) => EventView::Completed(completion_view(c)),
            Event::ImageChosen(i) => EventView::ImageChosen(optional_text(i)),
            Event::Staged(c) => EventView::Staged(optional_context(c)),
            Event::Cleaned => EventView::Cleaned,
            Event::Attached(b) => EventView::Attached(b),
        }
    }
}

/// What the manager asks the caller to do next.
#[derive(Debug, PartialEq, Eq)]
pub enum Action {
    /// Call the runtime with these arguments; answer with `Completed`.
    Run(Vec<String>),
    /// Let an image be chosen among these references; answer with
    /// `ImageChosen`.
    ChooseImage(Vec<String>),
    /// Set up a fresh build directory that holds this build descriptor;
    /// answer with `Staged`.
    Stage(String),
    /// Remove the build directory; answer with `Cleaned`.
    Cleanup,
    /// Open an interactive session in this container; answer with
    /// `Attached`.
    Attach(String),
    /// Nothing: the operation is over, and this is how it went.
    Finish(Result<(), OperationError>),
}

/// What an `Action` holds, as mathematical text.
pub enum ActionView {
    Run(Seq<Seq<char>>),
    ChooseImage(Seq<Seq<char>>),
    Stage(Seq<char>),
    Cleanup,
    Attach(Seq<char>),
    Finish(Result<(), OperationError>),
}

impl View for Action {
    type V = ActionView;

    open spec fn view(&self) -> ActionView {
        match *self {
            Action::Run(args) => ActionView::Run(strings(args@)),
            Action::ChooseImage(refs) => ActionView::ChooseImage(strings(refs@)),
            Action::Stage(descriptor) => ActionView::Stage(descriptor@),
            Action::Cleanup => ActionView::Cleanup,
            Action::Attach(name) => ActionView::Attach(name@),
            Action::Finish(outcome) => ActionView::Finish(outcome),
        }
    }
}

impl ActionView {
    /// Whether the action changes what the runtime holds: a call of the
    /// runtime that is neither a listing nor an inspection.
    pub open spec fn mutates(self) -> bool {
        match self {
            ActionView::Run(args) => args.len() > 0 && args[0] != "ps"@ && args[0] != "images"@
                && args[0] != "inspect"@,
            _ => false,
        }
    }
}

impl Action {
    /// Whether the action changes what the runtime holds.
    pub fn is_mutating(&self) -> (r: bool)
        ensures
            r == self@.mutates(),
    {
        match self {
            Action::Run(args) => {
                if args.len() == 0 {
                    return false;
                }
                assert(strings(args@)[0] == args@[0]@);
                let first = args[0].as_str();
                !same_text(first, "ps") && !same_text(first, "images") && !same_text(
                    first,
                    "inspect",
                )
            },
            _ => false,
        }
    }
}

/// What the manager holds: the containers and images of the last listings,
/// a warning for each line of the last container listing that was passed
/// over, the image references offered for the container being created, and
/// the operation under way.
pub struct ManagerView {
    pub containers: Seq<ContainerRecord>,
    pub warnings: Seq<ParseWarning>,
    pub images: Seq<ImageRecord>,
    pub available_images: Seq<Seq<char>>,
    pub pending: Option<PendingView>,
}

/// Whether a name is on a list of names, one per line, white space around
/// a name not counting.
pub open spec fn name_listed(listing: Seq<char>, name: Seq<char>) -> bool {
    exists|i: int| 0 <= i < lines(listing).len() && trim(#[trigger] lines(listing)[i]) == name
}

/// Whether the cache holds a container of that name.
pub open spec fn cached(containers: Seq<ContainerRecord>, name: Seq<char>) -> bool {
    exists|i: int| 0 <= i < containers.len() && (#[trigger] containers[i]).name == name
}

/// How a call of the runtime went, going by its exit code: a call without
/// result is an execution error, a result with an exit code other than zero
/// is `CommandFailed`, and every result with exit code zero is a success,
/// whatever it printed.
pub open spec fn verdict(c: Result<ExecutionView, ExecutionError>) -> Result<(), OperationError> {
    match c {
        Err(e) => Err(OperationError::Execution(e.reason)),
        Ok(r) => if r.succeeded() {
            Ok(())
        } else {
            Err(OperationError::CommandFailed)
        },
    }
}

/// How a call that names a container went: as `verdict` says, but for a
/// failed call of which the runtime says that it knows no such container,
/// which is `ContainerNotFound`.
pub open spec fn container_verdict(c: Result<ExecutionView, ExecutionError>) -> Result<
    (),
    OperationError,
> {
    match c {
        Err(e) => Err(OperationError::Execution(e.reason)),
        Ok(r) => if r.succeeded() {
            Ok(())
        } else if r.reports_missing_container() {
            Err(OperationError::ContainerNotFound)
        } else {
            Err(OperationError::CommandFailed)
        },
    }
}

/// How the call that creates a container went: as `verdict` says, but that
/// a call which printed `Error` failed even with exit code zero. What this
/// call prints on success is the identifier of the new container, never a
/// name that a user chose.
pub open spec fn create_verdict(c: Result<ExecutionView, ExecutionError>) -> Result<
    (),
    OperationError,
> {
    match c {
        Err(e) => Err(OperationError::Execution(e.reason)),
        Ok(r) => if r.succeeded() && !r.mentions_error() {
            Ok(())
        } else {
            Err(OperationError::CommandFailed)
        },
    }
}

/// The text of the build descriptor for an ISO file.
pub open spec fn build_descriptor(iso: Seq<char>) -> Seq<char> {
    "\nFROM scratch\nADD "@ + iso + " /\nCMD [\"/bin/bash\"]\n"@
}

/// The tag of the image built under a chosen name.
pub open spec fn latest_tag(name: Seq<char>) -> Seq<char> {
    name + ":latest"@
}

/// The operation ends.
pub open spec fn finished(m: ManagerView, outcome: Result<(), OperationError>) -> (
    ManagerView,
    ActionView,
) {
    (ManagerView { pending: None, ..m }, ActionView::Finish(outcome))
}

/// The operation goes on to another stage.
pub open spec fn moved(
    m: ManagerView,
    stage: Stage,
    subject: Seq<char>,
    outcome: Result<(), OperationError>,
    action: ActionView,
) -> (ManagerView, ActionView) {
    (ManagerView { pending: Some(PendingView { stage, subject, outcome }), ..m }, action)
}

/// The request is turned down and nothing changes.
pub open spec fn refused(m: ManagerView, error: OperationError) -> (ManagerView, ActionView) {
    (m, ActionView::Finish(Err(error)))
}

/// The cache of containers is brought up to date, and the operation ends
/// with the given outcome.
pub open spec fn refresh_containers_then(
    m: ManagerView,
    subject: Seq<char>,
    outcome: Result<(), OperationError>,
) -> (ManagerView, ActionView) {
    moved(
        m,
        Stage::RefreshingContainers,
        subject,
        outcome,
        ActionView::Run(list_containers_args()),
    )
}

/// The cache of images is brought up to date, and the operation ends with
/// the given outcome.
pub open spec fn refresh_images_then(
    m: ManagerView,
    subject: Seq<char>,
    outcome: Result<(), OperationError>,
) -> (ManagerView, ActionView) {
    moved(m, Stage::RefreshingImages, subject, outcome, ActionView::Run(list_images_args()))
}

/// Creating a container begins: the name must be there, and the runtime is
/// asked for the names it knows. The cache is not consulted.
pub open spec fn begin_create(m: ManagerView, name: Seq<char>) -> (ManagerView, ActionView) {
    if m.pending is Some {
        refused(m, OperationError::Busy)
    } else if name.len() == 0 {
        refused(m, OperationError::EmptyContainerName)
    } else {
        moved(m, Stage::CheckingName, name, Ok(()), ActionView::Run(list_names_args()))
    }
}

/// Creating a container from a given image begins.
pub open spec fn begin_create_with_image(m: ManagerView, name: Seq<char>, image: Seq<char>) -> (
    ManagerView,
    ActionView,
) {
    if m.pending is Some {
        refused(m, OperationError::Busy)
    } else if name.len() == 0 {
        refused(m, OperationError::EmptyContainerName)
    } else if image.len() == 0 {
        refused(m, OperationError::NoImageSelected)
    } else {
        moved(m, Stage::Creating, name, Ok(()), ActionView::Run(create_args(name, image)))
    }
}

/// Starting, stopping or removing a container begins: the cache must hold
/// the container.
pub open spec fn begin_change(m: ManagerView, name: Seq<char>, args: Seq<Seq<char>>) -> (
    ManagerView,
    ActionView,
) {
    if m.pending is Some {
        refused(m, OperationError::Busy)
    } else if !cached(m.containers, name) {
        refused(m, OperationError::ContainerNotFound)
    } else {
        moved(m, Stage::Changing, name, Ok(()), ActionView::Run(args))
    }
}

/// Saving a container as an image begins: the image name must not be
/// blank, and the cache must hold the container.
pub open spec fn begin_commit(m: ManagerView, name: Seq<char>, image: Seq<char>) -> (
    ManagerView,
    ActionView,
) {
    if m.pending is Some {
        refused(m, OperationError::Busy)
    } else if trim(image).len() == 0 {
        refused(m, OperationError::EmptyImageName)
    } else if !cached(m.containers, name) {
        refused(m, OperationError::ContainerNotFound)
    } else {
        moved(m, Stage::Committing, name, Ok(()), ActionView::Run(commit_args(name, image)))
    }
}

/// Loading an archive begins.
pub open spec fn begin_load(m: ManagerView, path: Seq<char>) -> (ManagerView, ActionView) {
    if m.pending is Some {
        refused(m, OperationError::Busy)
    } else {
        moved(m, Stage::Loading, path, Ok(()), ActionView::Run(load_args(path)))
    }
}

/// Building an image from an ISO file begins: the image name must not be
/// blank and the path must be absolute.
pub open spec fn begin_convert(m: ManagerView, iso: Seq<char>, name: Seq<char>) -> (
    ManagerView,
    ActionView,
) {
    if m.pending is Some {
        refused(m, OperationError::Busy)
    } else if trim(name).len() == 0 {
        refused(m, OperationError::EmptyImageName)
    } else if !is_absolute(iso) {
        refused(m, OperationError::RelativePath)
    } else {
        moved(m, Stage::Staging, latest_tag(name), Ok(()), ActionView::Stage(build_descriptor(iso)))
    }
}

/// Importing a file begins: an ISO file is built from, under the name that
/// its file name suggests; an archive is loaded; any other file is turned
/// down, and nothing is asked of the runtime.
pub open spec fn begin_import(m: ManagerView, path: Seq<char>) -> (ManagerView, ActionView) {
    if is_iso(path) {
        begin_convert(m, path, suggested_name(path))
    } else if is_archive(path) {
        begin_load(m, path)
    } else if m.pending is Some {
        refused(m, OperationError::Busy)
    } else {
        refused(m, OperationError::UnsupportedFile)
    }
}

/// Opening an interactive session begins: the cache must hold the
/// container, and the runtime is asked whether it runs.
pub open spec fn begin_session(m: ManagerView, name: Seq<char>) -> (ManagerView, ActionView) {
    if m.pending is Some {
        refused(m, OperationError::Busy)
    } else if !cached(m.containers, name) {
        refused(m, OperationError::ContainerNotFound)
    } else {
        moved(m, Stage::Inspecting, name, Ok(()), ActionView::Run(inspect_args(name)))
    }
}

/// Bringing the cache of containers up to date begins.
pub open spec fn begin_container_refresh(m: ManagerView) -> (ManagerView, ActionView) {
    if m.pending is Some {
        refused(m, OperationError::Busy)
    } else {
        refresh_containers_then(m, Seq::empty(), Ok(()))
    }
}

/// Bringing the cache of images up to date begins.
pub open spec fn begin_image_refresh(m: ManagerView) -> (ManagerView, ActionView) {
    if m.pending is Some {
        refused(m, OperationError::Busy)
    } else {
        refresh_images_then(m, Seq::empty(), Ok(()))
    }
}

/// The names arrived: a name that is listed is a duplicate, whatever the
/// cache holds; a free name goes on to the choice of an image.
pub open spec fn after_name_check(m: ManagerView, p: PendingView, e: EventView) -> (
    ManagerView,
    ActionView,
) {
    match e {
        EventView::Completed(c) => match verdict(c) {
            Ok(_) => if name_listed(c->Ok_0.stdout, p.subject) {
                finished(m, Err(OperationError::DuplicateName))
            } else {
                moved(
                    m,
                    Stage::ListingImages,
                    p.subject,
                    Ok(()),
                    ActionView::Run(list_image_references_args()),
                )
            },
            Err(x) => finished(m, Err(x)),
        },
        _ => finished(m, Err(OperationError::UnexpectedEvent)),
    }
}

/// The image references arrived: they are kept, and offered for a choice.
pub open spec fn after_image_list(m: ManagerView, p: PendingView, e: EventView) -> (
    ManagerView,
    ActionView,
) {
    match e {
        EventView::Completed(c) => match verdict(c) {
            Ok(_) => moved(
                ManagerView { available_images: lines(c->Ok_0.stdout), ..m },
                Stage::AwaitingImage,
                p.subject,
                Ok(()),
                ActionView::ChooseImage(lines(c->Ok_0.stdout)),
            ),
            Err(x) => finished(m, Err(x)),
        },
        _ => finished(m, Err(OperationError::UnexpectedEvent)),
    }
}

/// The choice arrived: one of the images on offer is created from; no
/// choice, or a choice that was not on offer, ends the operation.
pub open spec fn after_image_choice(m: ManagerView, p: PendingView, e: EventView) -> (
    ManagerView,
    ActionView,
) {
    match e {
        EventView::ImageChosen(Some(image)) => if m.available_images.contains(image) {
            moved(
                m,
                Stage::Creating,
                p.subject,
                Ok(()),
                ActionView::Run(create_args(p.subject, image)),
            )
        } else {
            finished(m, Err(OperationError::NoImageSelected))
        },
        EventView::ImageChosen(None) => finished(m, Err(OperationError::NoImageSelected)),
        _ => finished(m, Err(OperationError::UnexpectedEvent)),
    }
}

/// The create call ended: a created container is started.
pub open spec fn after_create(m: ManagerView, p: PendingView, e: EventView) -> (
    ManagerView,
    ActionView,
) {
    match e {
        EventView::Completed(c) => match create_verdict(c) {
            Ok(_) => moved(
                m,
                Stage::StartingCreated,
                p.subject,
                Ok(()),
                ActionView::Run(start_args(p.subject)),
            ),
            Err(x) => finished(m, Err(x)),
        },
        _ => finished(m, Err(OperationError::UnexpectedEvent)),
    }
}

/// The new container was started, or not: either way the cache is brought
/// up to date, and a failed start is reported as `CreatedButNotStarted`.
pub open spec fn after_first_start(m: ManagerView, p: PendingView, e: EventView) -> (
    ManagerView,
    ActionView,
) {
    match e {
        EventView::Completed(c) => refresh_containers_then(
            m,
            p.subject,
            match container_verdict(c) {
                Ok(_) => Ok(()),
                Err(_) => Err(OperationError::CreatedButNotStarted),
            },
        ),
        _ => finished(m, Err(OperationError::UnexpectedEvent)),
    }
}

/// The call that starts, stops or removes ended: the cache is brought up to
/// date, and the operation will end as the call went.
pub open spec fn after_change(m: ManagerView, p: PendingView, e: EventView) -> (
    ManagerView,
    ActionView,
) {
    match e {
        EventView::Completed(c) => refresh_containers_then(m, p.subject, container_verdict(c)),
        _ => finished(m, Err(OperationError::UnexpectedEvent)),
    }
}

/// The commit call ended: after a success the cache of images is brought
/// up to date.
pub open spec fn after_commit(m: ManagerView, p: PendingView, e: EventView) -> (
    ManagerView,
    ActionView,
) {
    match e {
        EventView::Completed(c) => match container_verdict(c) {
            Ok(_) => refresh_images_then(m, p.subject, Ok(())),
            Err(x) => finished(m, Err(x)),
        },
        _ => finished(m, Err(OperationError::UnexpectedEvent)),
    }
}

/// The load call ended: after a success the cache of images is brought up
/// to date.
pub open spec fn after_load(m: ManagerView, p: PendingView, e: EventView) -> (
    ManagerView,
    ActionView,
) {
    match e {
        EventView::Completed(c) => match verdict(c) {
            Ok(_) => refresh_images_then(m, p.subject, Ok(())),
            Err(x) => finished(m, Err(x)),
        },
        _ => finished(m, Err(OperationError::UnexpectedEvent)),
    }
}

/// The build directory is there, or not: in a directory that is there, the
/// build is run.
pub open spec fn after_staging(m: ManagerView, p: PendingView, e: EventView) -> (
    ManagerView,
    ActionView,
) {
    match e {
        EventView::Staged(Some(context)) => moved(
            m,
            Stage::Building,
            p.subject,
            Ok(()),
            ActionView::Run(build_args(p.subject, context.descriptor, context.directory)),
        ),
        EventView::Staged(None) => finished(m, Err(OperationError::StagingFailed)),
        _ => finished(m, Err(OperationError::UnexpectedEvent)),
    }
}

/// The build ended: whatever happened, the build directory is removed.
pub open spec fn after_build(m: ManagerView, p: PendingView, e: EventView) -> (
    ManagerView,
    ActionView,
) {
    moved(
        m,
        Stage::CleaningUp,
        p.subject,
        match e {
            EventView::Completed(c) => verdict(c),
            _ => Err(OperationError::UnexpectedEvent),
        },
        ActionView::Cleanup,
    )
}

/// The build directory is gone: the cache of images is brought up to date,
/// and the operation will end as the build went.
pub open spec fn after_cleanup(m: ManagerView, p: PendingView, e: EventView) -> (
    ManagerView,
    ActionView,
) {
    refresh_images_then(m, p.subject, p.outcome)
}

/// The runtime said whether the container runs: a running container is
/// attached to, any other is started first.
pub open spec fn after_inspection(m: ManagerView, p: PendingView, e: EventView) -> (
    ManagerView,
    ActionView,
) {
    match e {
        EventView::Completed(c) => match container_verdict(c) {
            Ok(_) => if trim(c->Ok_0.stdout) == "true"@ {
                moved(m, Stage::Attaching, p.subject, Ok(()), ActionView::Attach(p.subject))
            } else {
                moved(
                    m,
                    Stage::StartingForSession,
                    p.subject,
                    Ok(()),
                    ActionView::Run(start_args(p.subject)),
                )
            },
            Err(x) => finished(m, Err(x)),
        },
        _ => finished(m, Err(OperationError::UnexpectedEvent)),
    }
}

/// The container was started for the session: it is attached to.
pub open spec fn after_session_start(m: ManagerView, p: PendingView, e: EventView) -> (
    ManagerView,
    ActionView,
) {
    match e {
        EventView::Completed(c) => match container_verdict(c) {
            Ok(_) => moved(m, Stage::Attaching, p.subject, Ok(()), ActionView::Attach(p.subject)),
            Err(x) => finished(m, Err(x)),
        },
        _ => finished(m, Err(OperationError::UnexpectedEvent)),
    }
}

/// The session opened, or not: the operation ends, and nothing that it did
/// before is undone.
pub open spec fn after_attach(m: ManagerView, p: PendingView, e: EventView) -> (
    ManagerView,
    ActionView,
) {
    match e {
        EventView::Attached(true) => finished(m, Ok(())),
        EventView::Attached(false) => finished(m, Err(OperationError::AttachFailed)),
        _ => finished(m, Err(OperationError::UnexpectedEvent)),
    }
}

/// How an operation ends whose closing listing did not arrive: as it had
/// gone wrong before, or else as the listing went wrong.
pub open spec fn stale_outcome(
    before: Result<(), OperationError>,
    listing: Result<(), OperationError>,
) -> Result<(), OperationError> {
    match before {
        Err(_) => before,
        Ok(_) => listing,
    }
}

/// The manager after a container listing was read: the containers are
/// those that the listing describes, the warnings those that its lines give
/// rise to, and nothing is left of what the manager held of either before.
pub open spec fn with_container_listing(m: ManagerView, listing: Seq<char>) -> ManagerView {
    ManagerView {
        containers: parsed_containers(listing),
        warnings: warnings_of_lines(lines(listing)),
        ..m
    }
}

/// The list of containers arrived: it replaces the cache as a whole. A
/// listing that failed leaves the cache as it was.
pub open spec fn after_container_list(m: ManagerView, p: PendingView, e: EventView) -> (
    ManagerView,
    ActionView,
) {
    match e {
        EventView::Completed(c) => match verdict(c) {
            Ok(_) => finished(with_container_listing(m, c->Ok_0.stdout), p.outcome),
            Err(x) => finished(m, stale_outcome(p.outcome, Err(x))),
        },
        _ => finished(m, stale_outcome(p.outcome, Err(OperationError::UnexpectedEvent))),
    }
}

/// The list of images arrived: it replaces the cache as a whole. A listing
/// that failed leaves the cache as it was.
pub open spec fn after_image_listing(m: ManagerView, p: PendingView, e: EventView) -> (
    ManagerView,
    ActionView,
) {
    match e {
        EventView::Completed(c) => match verdict(c) {
            Ok(_) => finished(
                ManagerView { images: parsed_images(c->Ok_0.stdout), ..m },
                p.outcome,
            ),
            Err(x) => finished(m, stale_outcome(p.outcome, Err(x))),
        },
        _ => finished(m, stale_outcome(p.outcome, Err(OperationError::UnexpectedEvent))),
    }
}

/// What the manager does with an event: the state it goes to and the action
/// it hands out.
pub open spec fn step(m: ManagerView, e: EventView) -> (ManagerView, ActionView) {
    match m.pending {
        None => refused(m, OperationError::NothingPending),
        Some(p) => match p.stage {
            Stage::CheckingName => after_name_check(m, p, e),
            Stage::ListingImages => after_image_list(m, p, e),
            Stage::AwaitingImage => after_image_choice(m, p, e),
            Stage::Creating => after_create(m, p, e),
            Stage::StartingCreated => after_first_start(m, p, e),
            Stage::Changing => after_change(m, p, e),
            Stage::Committing => after_commit(m, p, e),
            Stage::Loading => after_load(m, p, e),
            Stage::Staging => after_staging(m, p, e),
            Stage::Building => after_build(m, p, e),
            Stage::CleaningUp => after_cleanup(m, p, e),
            Stage::Inspecting => after_inspection(m, p, e),
            Stage::StartingForSession => after_session_start(m, p, e),
            Stage::Attaching => after_attach(m, p, e),
            Stage::RefreshingContainers => after_container_list(m, p, e),
            Stage::RefreshingImages => after_image_listing(m, p, e),
        },
    }
}

/// A manager that is creating a container and learns that the name is
/// listed ends the operation with `DuplicateName`, whatever its cache
/// holds; and from the request to the refusal it has asked for nothing but
/// the list of names.
pub proof fn lemma_duplicate_name_is_refused(
    m: ManagerView,
    name: Seq<char>,
    listing: ExecutionView,
)
    requires
        m.pending is None,
        name.len() > 0,
        listing.succeeded(),
        name_listed(listing.stdout, name),
    ensures
        begin_create(m, name).1 == ActionView::Run(list_names_args()),
        !begin_create(m, name).1.mutates(),
        step(begin_create(m, name).0, EventView::Completed(Ok(listing))) == (
            m,
            ActionView::Finish(Err(OperationError::DuplicateName)),
        ),
{
    let asked = begin_create(m, name);
    assert(asked.0.pending == Some(
        PendingView { stage: Stage::CheckingName, subject: name, outcome: Ok(()) },
    ));
    let done = step(asked.0, EventView::Completed(Ok(listing)));
    assert(done.0.pending is None);
    assert(done.0 == m);
}

/// Whether a name is taken depends on the listing alone: two managers with
/// different caches come to the same verdict on the same listing.
pub proof fn lemma_name_check_ignores_cache(
    a: ManagerView,
    b: ManagerView,
    name: Seq<char>,
    e: EventView,
)
    requires
        a.pending is None,
        b.pending is None,
    ensures
        begin_create(a, name).1 == begin_create(b, name).1,
        step(begin_create(a, name).0, e).1 == step(begin_create(b, name).0, e).1,
{
}

/// The list of containers that arrives replaces the cache as a whole:
/// afterwards the cache holds what the listing describes and nothing of
/// what it held before.
pub proof fn lemma_refresh_replaces_cache(m: ManagerView, listing: ExecutionView)
    requires
        m.pending is Some,
        m.pending->Some_0.stage == Stage::RefreshingContainers,
        listing.succeeded(),
    ensures
        step(m, EventView::Completed(Ok(listing))).0.containers == parsed_containers(
            listing.stdout,
        ),
        step(m, EventView::Completed(Ok(listing))).0.warnings == warnings_of_lines(
            lines(listing.stdout),
        ),
        step(m, EventView::Completed(Ok(listing))).0.images == m.images,
        step(m, EventView::Completed(Ok(listing))).0.pending is None,
        step(m, EventView::Completed(Ok(listing))).1 == ActionView::Finish(
            m.pending->Some_0.outcome,
        ),
{
}

/// The cache holds what the runtime listed last and nothing else: whatever
/// the event, afterwards each half of the cache is what it was or what the
/// listing that just arrived describes; and beginning an operation never
/// touches it.
pub proof fn lemma_cache_reflects_listings(m: ManagerView, e: EventView, name: Seq<char>)
    ensures
        step(m, e).0.containers == m.containers || (e is Completed && e->Completed_0 is Ok && step(
            m,
            e,
        ).0.containers == parsed_containers(e->Completed_0->Ok_0.stdout)),
        step(m, e).0.images == m.images || (e is Completed && e->Completed_0 is Ok && step(
            m,
            e,
        ).0.images == parsed_images(e->Completed_0->Ok_0.stdout)),
        begin_create(m, name).0.containers == m.containers,
        begin_change(m, name, start_args(name)).0.containers == m.containers,
        begin_session(m, name).0.containers == m.containers,
        begin_import(m, name).0.containers == m.containers,
        begin_import(m, name).0.images == m.images,
{
}

/// A listing that did not arrive leaves the cache untouched.
pub proof fn lemma_failed_refresh_keeps_cache(m: ManagerView, e: EventView)
    requires
        m.pending is Some,
        m.pending->Some_0.stage == Stage::RefreshingContainers,
        !(e is Completed && e->Completed_0 is Ok && e->Completed_0->Ok_0.succeeded()),
    ensures
        step(m, e).0.containers == m.containers,
        step(m, e).0.warnings == m.warnings,
        step(m, e).0.images == m.images,
        step(m, e).1 is Finish,
        step(m, e).1->Finish_0 is Err,
{
}

/// Once the build directory is there, it is removed again: whatever event
/// follows the build, the next action is `Cleanup`, and only after the
/// cleanup does the operation go on.
pub proof fn lemma_build_is_cleaned_up(m: ManagerView, built: EventView, cleaned: EventView)
    requires
        m.pending is Some,
        m.pending->Some_0.stage == Stage::Building,
    ensures
        step(m, built).1 == ActionView::Cleanup,
        step(m, built).0.pending is Some,
        step(m, built).0.pending->Some_0.stage == Stage::CleaningUp,
        step(step(m, built).0, cleaned).1 == ActionView::Run(list_images_args()),
        step(step(m, built).0, cleaned).0.pending->Some_0.outcome == (match built {
            EventView::Completed(c) => verdict(c),
            _ => Err(OperationError::UnexpectedEvent),
        }),
{
}

/// Staging is the only way into the build, and a staging that failed runs
/// no build and needs no cleanup.
pub proof fn lemma_failed_staging_ends(m: ManagerView)
    requires
        m.pending is Some,
        m.pending->Some_0.stage == Stage::Staging,
    ensures
        step(m, EventView::Staged(None)) == finished(m, Err(OperationError::StagingFailed)),
{
}

/// A session with a container that does not run: the container is started
/// first, and attached to once the start has succeeded.
pub proof fn lemma_stopped_container_is_started_first(
    m: ManagerView,
    name: Seq<char>,
    inspected: ExecutionView,
    started: ExecutionView,
)
    requires
        m.pending is None,
        cached(m.containers, name),
        inspected.succeeded(),
        trim(inspected.stdout) != "true"@,
        started.succeeded(),
    ensures
        begin_session(m, name).1 == ActionView::Run(inspect_args(name)),
        step(begin_session(m, name).0, EventView::Completed(Ok(inspected))).1 == ActionView::Run(
            start_args(name),
        ),
        step(
            step(begin_session(m, name).0, EventView::Completed(Ok(inspected))).0,
            EventView::Completed(Ok(started)),
        ).1 == ActionView::Attach(name),
{
}

/// A session that could not be opened ends with `AttachFailed` and asks for
/// nothing more: the container that was started for it stays started.
pub proof fn lemma_failed_attach_undoes_nothing(m: ManagerView)
    requires
        m.pending is Some,
        m.pending->Some_0.stage == Stage::Attaching,
    ensures
        step(m, EventView::Attached(false)) == finished(m, Err(OperationError::AttachFailed)),
{
}

/// A container that was created but could not be started is reported as
/// such, after the cache was brought up to date.
pub proof fn lemma_failed_first_start_is_reported(
    m: ManagerView,
    start: Result<ExecutionView, ExecutionError>,
    listing: ExecutionView,
)
    requires
        m.pending is Some,
        m.pending->Some_0.stage == Stage::StartingCreated,
        !(start is Ok && start->Ok_0.succeeded()),
        listing.succeeded(),
    ensures
        step(m, EventView::Completed(start)).1 == ActionView::Run(list_containers_args()),
        step(step(m, EventView::Completed(start)).0, EventView::Completed(Ok(listing))).1
            == ActionView::Finish(Err(OperationError::CreatedButNotStarted)),
        step(
            step(m, EventView::Completed(start)).0,
            EventView::Completed(Ok(listing)),
        ).0.containers == parsed_containers(listing.stdout),
{
}

/// A call is a success exactly when it ended with exit code zero, whatever
/// it printed; the call that creates a container must, besides, not have
/// printed `Error`.
pub proof fn lemma_success_goes_by_exit_code(r: ExecutionView)
    ensures
        verdict(Ok(r)) is Ok <==> r.succeeded(),
        container_verdict(Ok(r)) is Ok <==> r.succeeded(),
        create_verdict(Ok(r)) is Ok <==> r.succeeded() && !r.mentions_error(),
        container_verdict(Ok(r)) == Err::<(), OperationError>(OperationError::ContainerNotFound)
            <==> !r.succeeded() && r.reports_missing_container(),
{
}

/// A free name goes on to the choice of an image: where the fresh listing
/// does not hold the name, the image references are asked for, and those
/// that arrive are kept and offered, whatever the two listings printed.
pub proof fn lemma_free_name_is_offered_images(
    m: ManagerView,
    name: Seq<char>,
    listing: ExecutionView,
    references: ExecutionView,
)
    requires
        m.pending is None,
        name.len() > 0,
        listing.succeeded(),
        !name_listed(listing.stdout, name),
        references.succeeded(),
    ensures
        step(begin_create(m, name).0, EventView::Completed(Ok(listing))).1 == ActionView::Run(
            list_image_references_args(),
        ),
        step(
            step(begin_create(m, name).0, EventView::Completed(Ok(listing))).0,
            EventView::Completed(Ok(references)),
        ).1 == ActionView::ChooseImage(lines(references.stdout)),
        step(
            step(begin_create(m, name).0, EventView::Completed(Ok(listing))).0,
            EventView::Completed(Ok(references)),
        ).0.available_images == lines(references.stdout),
        step(
            step(begin_create(m, name).0, EventView::Completed(Ok(listing))).0,
            EventView::Completed(Ok(references)),
        ).0.containers == m.containers,
{
}

/// Creating is the create call, the start call and a listing, in that
/// order; the cache afterwards is what the listing describes, and the
/// operation ends well if the start went well and with
/// `CreatedButNotStarted` if it did not.
pub proof fn lemma_create_is_create_start_refresh(
    m: ManagerView,
    name: Seq<char>,
    image: Seq<char>,
    created: ExecutionView,
    started: Result<ExecutionView, ExecutionError>,
    listing: ExecutionView,
)
    requires
        m.pending is None,
        name.len() > 0,
        image.len() > 0,
        created.succeeded(),
        !created.mentions_error(),
        listing.succeeded(),
    ensures
        begin_create_with_image(m, name, image).1 == ActionView::Run(create_args(name, image)),
        step(
            begin_create_with_image(m, name, image).0,
            EventView::Completed(Ok(created)),
        ).1 == ActionView::Run(start_args(name)),
        step(
            step(begin_create_with_image(m, name, image).0, EventView::Completed(Ok(created))).0,
            EventView::Completed(started),
        ).1 == ActionView::Run(list_containers_args()),
        step(
            step(
                step(
                    begin_create_with_image(m, name, image).0,
                    EventView::Completed(Ok(created)),
                ).0,
                EventView::Completed(started),
            ).0,
            EventView::Completed(Ok(listing)),
        ) == finished(
            with_container_listing(m, listing.stdout),
            if started is Ok && started->Ok_0.succeeded() {
                Ok(())
            } else {
                Err(OperationError::CreatedButNotStarted)
            },
        ),
{
}

/// Starting, stopping and removing are one call and a listing, in that
/// order; the cache afterwards is what the listing describes, whatever the
/// call or the listing printed, and the operation ends as the call went.
pub proof fn lemma_change_ends_in_refresh(
    m: ManagerView,
    name: Seq<char>,
    args: Seq<Seq<char>>,
    call: Result<ExecutionView, ExecutionError>,
    listing: ExecutionView,
)
    requires
        m.pending is None,
        cached(m.containers, name),
        listing.succeeded(),
    ensures
        begin_change(m, name, args).1 == ActionView::Run(args),
        step(begin_change(m, name, args).0, EventView::Completed(call)).1 == ActionView::Run(
            list_containers_args(),
        ),
        step(
            step(begin_change(m, name, args).0, EventView::Completed(call)).0,
            EventView::Completed(Ok(listing)),
        ) == finished(with_container_listing(m, listing.stdout), container_verdict(call)),
{
}

/// Saving a container as an image and loading an archive are one call and,
/// after a success, a listing of the images; the cache of images afterwards
/// is what that listing describes, whatever it printed.
pub proof fn lemma_image_change_ends_in_refresh(
    m: ManagerView,
    name: Seq<char>,
    image: Seq<char>,
    path: Seq<char>,
    call: ExecutionView,
    listing: ExecutionView,
)
    requires
        m.pending is None,
        cached(m.containers, name),
        trim(image).len() > 0,
        call.succeeded(),
        listing.succeeded(),
    ensures
        begin_commit(m, name, image).1 == ActionView::Run(commit_args(name, image)),
        step(begin_commit(m, name, image).0, EventView::Completed(Ok(call))).1 == ActionView::Run(
            list_images_args(),
        ),
        step(
            step(begin_commit(m, name, image).0, EventView::Completed(Ok(call))).0,
            EventView::Completed(Ok(listing)),
        ) == finished(ManagerView { images: parsed_images(listing.stdout), ..m }, Ok(())),
        begin_load(m, path).1 == ActionView::Run(load_args(path)),
        step(begin_load(m, path).0, EventView::Completed(Ok(call))).1 == ActionView::Run(
            list_images_args(),
        ),
        step(
            step(begin_load(m, path).0, EventView::Completed(Ok(call))).0,
            EventView::Completed(Ok(listing)),
        ) == finished(ManagerView { images: parsed_images(listing.stdout), ..m }, Ok(())),
{
}

/// A file that is neither an ISO file nor an archive is turned down, and
/// nothing is asked of the runtime.
pub proof fn lemma_other_files_are_refused(m: ManagerView, path: Seq<char>)
    requires
        m.pending is None,
        !is_iso(path),
        !is_archive(path),
    ensures
        begin_import(m, path) == refused(m, OperationError::UnsupportedFile),
{
}

/// While no operation is under way, every event is turned down and changes
/// nothing; while one is under way, every request is.
pub proof fn lemma_one_operation_at_a_time(m: ManagerView, e: EventView, name: Seq<char>)
    ensures
        m.pending is None ==> step(m, e) == refused(m, OperationError::NothingPending),
        m.pending is Some ==> begin_create(m, name) == refused(m, OperationError::Busy),
        m.pending is Some ==> begin_change(m, name, start_args(name)) == refused(
            m,
            OperationError::Busy,
        ),
        m.pending is Some ==> begin_session(m, name) == refused(m, OperationError::Busy),
{
}

} // verus!
