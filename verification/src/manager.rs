//! The manager: the cache of what the runtime listed last, and the
//! operation that is under way. It decides; the caller acts. Every public
//! function either reads the cache, replaces it by a listing, begins an
//! operation, or takes an event and says what to do next.

use vstd::prelude::*;
use crate::executor::{
    build_command,
    commit_command,
    completion_view,
    create_command,
    inspect_command,
    list_containers_command,
    list_image_references_command,
    list_images_command,
    list_names_command,
    load_command,
    remove_args,
    remove_command,
    start_args,
    start_command,
    stop_args,
    stop_command,
    ExecutionError,
    ExecutionResult,
};
use crate::lifecycle::{listed_state, state_of, ContainerState};
use crate::log::{appended, is_clock_stamp, log_line, DebugLog, LOG_CAPACITY};
use crate::operation::{
    begin_change,
    begin_commit,
    begin_container_refresh,
    begin_convert,
    begin_create,
    begin_create_with_image,
    begin_image_refresh,
    begin_import,
    begin_load,
    begin_session,
    build_descriptor,
    cached,
    container_verdict,
    create_verdict,
    latest_tag,
    moved,
    name_listed,
    step,
    verdict,
    with_container_listing,
    Action,
    Event,
    ManagerView,
    OperationError,
    PendingOperation,
    PendingView,
    Stage,
};
use crate::parser::{
    parse_image_listing,
    parsed_images,
    scan_container_listing,
    ParseWarning,
};
use crate::paths::{
    file_name,
    has_archive_extension,
    has_iso_extension,
    is_absolute,
    is_absolute_path,
    remembered,
    suggested_image_name,
    PathStorage,
    PathStorageView,
};
use crate::records::{
    container_views,
    copy_containers,
    copy_images,
    image_views,
    Container,
    Image,
};
use crate::text::{
    copy_strings,
    is_blank,
    line_chars,
    lines,
    pieces,
    same_chars,
    same_text,
    strings,
    text_lines,
    to_chars,
    trim,
    trim_chars,
};

verus! {

/// The view of an operation that may be under way.
pub open spec fn pending_view(p: Option<PendingOperation>) -> Option<PendingView> {
    match p {
        Some(op) => Some(op@),
        None => None,
    }
}

/// The state of the manager: the cache, the operation under way, the log
/// and the store of recent paths.
pub struct ContainerManager {
    containers: Vec<Container>,
    warnings: Vec<ParseWarning>,
    images: Vec<Image>,
    available_images: Vec<String>,
    pending: Option<PendingOperation>,
    log: DebugLog,
    path_storage: PathStorage,
}

impl View for ContainerManager {
    type V = ManagerView;

    closed spec fn view(&self) -> ManagerView {
        ManagerView {
            containers: container_views(self.containers@),
            warnings: self.warnings@,
            images: image_views(self.images@),
            available_images: strings(self.available_images@),
            pending: pending_view(self.pending),
        }
    }
}

/// How a call of the runtime went, going by its exit code.
pub fn judge(c: &Result<ExecutionResult, ExecutionError>) -> (v: Result<(), OperationError>)
    ensures
        v == verdict(completion_view(*c)),
{
    match c {
        Err(e) => Err(OperationError::Execution(e.reason)),
        Ok(r) => {
            if r.succeeded() {
                Ok(())
            } else {
                Err(OperationError::CommandFailed)
            }
        },
    }
}

/// How a call that names a container went.
pub fn judge_container(c: &Result<ExecutionResult, ExecutionError>) -> (v: Result<
    (),
    OperationError,
>)
    ensures
        v == container_verdict(completion_view(*c)),
{
    match c {
        Err(e) => Err(OperationError::Execution(e.reason)),
        Ok(r) => {
            if r.succeeded() {
                Ok(())
            } else if r.reports_missing_container() {
                Err(OperationError::ContainerNotFound)
            } else {
                Err(OperationError::CommandFailed)
            }
        },
    }
}

/// How the call that creates a container went.
pub fn judge_create(c: &Result<ExecutionResult, ExecutionError>) -> (v: Result<
    (),
    OperationError,
>)
    ensures
        v == create_verdict(completion_view(*c)),
{
    match c {
        Err(e) => Err(OperationError::Execution(e.reason)),
        Ok(r) => {
            if r.succeeded() && !r.mentions_error() {
                Ok(())
            } else {
                Err(OperationError::CommandFailed)
            }
        },
    }
}

/// The result of a call, where the call was judged to have gone well, and
/// else how it went wrong.
fn result_if(c: Result<ExecutionResult, ExecutionError>, v: Result<(), OperationError>) -> (s: Result<
    ExecutionResult,
    OperationError,
>)
    requires
        v is Ok ==> c is Ok,
    ensures
        s is Ok ==> v is Ok && c == Ok::<ExecutionResult, ExecutionError>(s->Ok_0),
        s is Err ==> v == Err::<(), OperationError>(s->Err_0),
{
    match v {
        Ok(_) => match c {
            Ok(r) => Ok(r),
            Err(e) => Err(OperationError::Execution(e.reason)),
        },
        Err(x) => Err(x),
    }
}

/// The result of a call that ended with exit code zero, or how the call
/// went wrong.
pub fn settle(c: Result<ExecutionResult, ExecutionError>) -> (s: Result<
    ExecutionResult,
    OperationError,
>)
    ensures
        s is Ok ==> c == Ok::<ExecutionResult, ExecutionError>(s->Ok_0) && verdict(
            completion_view(c),
        ) is Ok,
        s is Err ==> verdict(completion_view(c)) == Err::<(), OperationError>(s->Err_0),
{
    let v = judge(&c);
    result_if(c, v)
}

/// The result of a call that names a container and ended with exit code
/// zero, or how the call went wrong.
pub fn settle_container(c: Result<ExecutionResult, ExecutionError>) -> (s: Result<
    ExecutionResult,
    OperationError,
>)
    ensures
        s is Ok ==> c == Ok::<ExecutionResult, ExecutionError>(s->Ok_0) && container_verdict(
            completion_view(c),
        ) is Ok,
        s is Err ==> container_verdict(completion_view(c)) == Err::<(), OperationError>(
            s->Err_0,
        ),
{
    let v = judge_container(&c);
    result_if(c, v)
}

impl ContainerManager {
    /// The lines of the log, oldest first.
    pub closed spec fn log_lines(&self) -> Seq<Seq<char>> {
        self.log@
    }

    /// What the store of recent paths holds.
    pub closed spec fn paths(&self) -> PathStorageView {
        self.path_storage@
    }

    /// Records a message in the log under the current time of day.
    pub fn log_debug(&mut self, message: &str)
        ensures
            exists|stamp: Seq<char>|
                is_clock_stamp(stamp) && final(self).log_lines() == appended(
                    old(self).log_lines(),
                    #[trigger] log_line(stamp, message@),
                ),
            final(self).log_lines().len() <= LOG_CAPACITY,
            final(self)@ == old(self)@,
            final(self).paths() == old(self).paths(),
    {
        self.log.log_debug(message);
    }

    /// Records a message in the log under a given time stamp.
    pub fn record(&mut self, stamp: &str, message: &str)
        ensures
            final(self).log_lines() == appended(
                old(self).log_lines(),
                log_line(stamp@, message@),
            ),
            final(self).log_lines().len() <= LOG_CAPACITY,
            final(self)@ == old(self)@,
            final(self).paths() == old(self).paths(),
    {
        self.log.record(stamp, message);
    }

    /// Copies of the lines of the log, oldest first.
    pub fn debug_messages(&self) -> (out: Vec<String>)
        ensures
            strings(out@) == self.log_lines(),
    {
        self.log.messages()
    }

    /// The store of recent paths.
    pub fn path_storage(&self) -> (store: &PathStorage)
        ensures
            store@ == self.paths(),
    {
        &self.path_storage
    }

    /// Puts a store of recent paths in the place of the one held.
    pub fn restore_paths(&mut self, store: PathStorage)
        ensures
            final(self).paths() == store@,
            final(self)@ == old(self)@,
            final(self).log_lines() == old(self).log_lines(),
    {
        self.path_storage = store;
    }

    /// A manager that knows no container and no image and has nothing under
    /// way.
    pub fn new() -> (manager: ContainerManager)
        ensures
            manager@ == (ManagerView {
                containers: Seq::empty(),
                warnings: Seq::empty(),
                images: Seq::empty(),
                available_images: Seq::empty(),
                pending: None,
            }),
            manager.log_lines() == Seq::<Seq<char>>::empty(),
            manager.paths().recent_paths == Map::<Seq<char>, Seq<char>>::empty(),
            manager.paths().last_directory is None,
    {
        let manager = ContainerManager {
            containers: Vec::new(),
            warnings: Vec::new(),
            images: Vec::new(),
            available_images: Vec::new(),
            pending: None,
            log: DebugLog::new(),
            path_storage: PathStorage::new(),
        };
        assert(manager@.containers =~= Seq::empty());
        assert(manager@.images =~= Seq::empty());
        assert(manager@.available_images =~= Seq::empty());
        manager
    }

    /// A snapshot of the containers: copies, which the caller may change
    /// without touching the cache.
    pub fn get_containers(&self) -> (snapshot: Vec<Container>)
        ensures
            container_views(snapshot@) == self@.containers,
    {
        copy_containers(&self.containers)
    }

    /// The lines of the last container listing that were passed over.
    pub fn get_warnings(&self) -> (snapshot: Vec<ParseWarning>)
        ensures
            snapshot@ == self@.warnings,
    {
        let mut snapshot: Vec<ParseWarning> = Vec::new();
        let mut i: usize = 0;
        while i < self.warnings.len()
            invariant
                i <= self.warnings.len(),
                snapshot@ == self.warnings@.take(i as int),
            decreases self.warnings.len() - i,
        {
            snapshot.push(self.warnings[i]);
            proof {
                assert(self.warnings@.take(i + 1) =~= self.warnings@.take(i as int).push(
                    self.warnings@[i as int],
                ));
            }
            i += 1;
        }
        proof {
            assert(self.warnings@.take(self.warnings.len() as int) =~= self.warnings@);
        }
        snapshot
    }

    /// A snapshot of the images.
    pub fn get_images(&self) -> (snapshot: Vec<Image>)
        ensures
            image_views(snapshot@) == self@.images,
    {
        copy_images(&self.images)
    }

    /// The image references offered for the container being created.
    pub fn get_available_images(&self) -> (snapshot: Vec<String>)
        ensures
            strings(snapshot@) == self@.available_images,
    {
        copy_strings(&self.available_images)
    }

    /// Whether an operation is under way.
    pub fn is_busy(&self) -> (busy: bool)
        ensures
            busy == self@.pending is Some,
    {
        self.pending.is_some()
    }

    /// The stage of the operation under way.
    pub fn pending_stage(&self) -> (stage: Option<Stage>)
        ensures
            stage is Some <==> self@.pending is Some,
            stage is Some ==> stage->Some_0 == self@.pending->Some_0.stage,
    {
        match &self.pending {
            Some(p) => Some(p.stage),
            None => None,
        }
    }

    fn position(&self, name: &str) -> (at: usize)
        ensures
            at <= self@.containers.len(),
            at < self@.containers.len() ==> self@.containers[at as int].name == name@,
            forall|i: int| 0 <= i < at ==> self@.containers[i].name != name@,
            at < self@.containers.len() <==> cached(self@.containers, name@),
            self@.containers.len() == self.containers@.len(),
    {
        let mut i: usize = 0;
        while i < self.containers.len()
            invariant
                i <= self.containers.len(),
                forall|j: int| 0 <= j < i ==> self@.containers[j].name != name@,
            decreases self.containers.len() - i,
        {
            if same_text(self.containers[i].name.as_str(), name) {
                assert(self@.containers[i as int].name == name@);
                return i;
            }
            i += 1;
        }
        i
    }

    /// The first container of that name in the cache.
    pub fn find_container(&self, name: &str) -> (found: Option<Container>)
        ensures
            found is Some <==> cached(self@.containers, name@),
            found is Some ==> exists|at: int|
                0 <= at < self@.containers.len() && #[trigger] self@.containers[at]
                    == found->Some_0@ && found->Some_0@.name == name@ && forall|i: int|
                    0 <= i < at ==> self@.containers[i].name != name@,
    {
        let at = self.position(name);
        if at < self.containers.len() {
            let c = self.containers[at].duplicate();
            assert(self@.containers[at as int] == c@);
            Some(c)
        } else {
            None
        }
    }

    /// Where a container stands in its life, going by the cache: unknown
    /// when the cache does not hold it, else what its status says.
    pub fn container_state(&self, name: &str) -> (state: ContainerState)
        ensures
            !cached(self@.containers, name@) ==> state == ContainerState::Unknown,
            cached(self@.containers, name@) ==> exists|at: int|
                0 <= at < self@.containers.len() && state == listed_state(
                    #[trigger] self@.containers[at],
                ) && self@.containers[at].name == name@ && forall|i: int|
                    0 <= i < at ==> self@.containers[i].name != name@,
    {
        let at = self.position(name);
        if at < self.containers.len() {
            let state = state_of(&self.containers[at]);
            assert(self@.containers[at as int] == self.containers@[at as int]@);
            state
        } else {
            ContainerState::Unknown
        }
    }

    /// Whether a name is on a list of names as the runtime prints it, one
    /// name per line.
    pub fn container_exists(&self, listing: &str, name: &str) -> (exists: bool)
        ensures
            exists == name_listed(listing@, name@),
    {
        let chars = to_chars(listing);
        let wanted = to_chars(name);
        let ls = line_chars(&chars);
        let mut i: usize = 0;
        while i < ls.len()
            invariant
                i <= ls.len(),
                pieces(ls@) == lines(listing@),
                wanted@ == name@,
                forall|j: int| 0 <= j < i ==> trim(#[trigger] lines(listing@)[j]) != name@,
            decreases ls.len() - i,
        {
            let trimmed = trim_chars(&ls[i]);
            assert(pieces(ls@)[i as int] == ls@[i as int]@);
            if same_chars(&trimmed, &wanted) {
                return true;
            }
            i += 1;
        }
        false
    }

    /// Replaces the cache of containers by what a listing describes. The
    /// containers held before are gone, whether the listing names them or
    /// not.
    pub fn refresh_containers(&mut self, listing: &str)
        ensures
            final(self)@ == with_container_listing(old(self)@, listing@),
            final(self).log_lines() == old(self).log_lines(),
            final(self).paths() == old(self).paths(),
    {
        let listing = scan_container_listing(listing);
        self.containers = listing.records;
        self.warnings = listing.warnings;
    }

    /// Replaces the cache of images by what a listing describes.
    pub fn refresh_images(&mut self, listing: &str)
        ensures
            final(self)@ == (ManagerView { images: parsed_images(listing@), ..old(self)@ }),
            final(self).log_lines() == old(self).log_lines(),
            final(self).paths() == old(self).paths(),
    {
        self.images = parse_image_listing(listing);
    }

    fn proceed(
        &mut self,
        stage: Stage,
        subject: String,
        outcome: Result<(), OperationError>,
        action: Action,
    ) -> (next: Action)
        ensures
            (final(self)@, next@) == moved(old(self)@, stage, subject@, outcome, action@),
            final(self).log_lines() == old(self).log_lines(),
            final(self).paths() == old(self).paths(),
    {
        self.pending = Some(PendingOperation { stage, subject, outcome });
        action
    }

    /// Begins the creation of a container: asks for the names that the
    /// runtime knows. The cache plays no part.
    pub fn create_container(&mut self, name: &str) -> (action: Action)
        ensures
            (final(self)@, action@) == begin_create(old(self)@, name@),
            final(self).log_lines() == old(self).log_lines(),
            final(self).paths() == old(self).paths(),
    {
        if self.pending.is_some() {
            return Action::Finish(Err(OperationError::Busy));
        }
        if name.is_empty() {
            return Action::Finish(Err(OperationError::EmptyContainerName));
        }
        self.proceed(
            Stage::CheckingName,
            name.to_owned(),
            Ok(()),
            Action::Run(list_names_command()),
        )
    }

    /// Begins the creation of a container from a given image.
    pub fn create_container_with_image(&mut self, name: &str, image: &str) -> (action: Action)
        ensures
            (final(self)@, action@) == begin_create_with_image(old(self)@, name@, image@),
            final(self).log_lines() == old(self).log_lines(),
            final(self).paths() == old(self).paths(),
    {
        if self.pending.is_some() {
            return Action::Finish(Err(OperationError::Busy));
        }
        if name.is_empty() {
            return Action::Finish(Err(OperationError::EmptyContainerName));
        }
        if image.is_empty() {
            return Action::Finish(Err(OperationError::NoImageSelected));
        }
        self.proceed(
            Stage::Creating,
            name.to_owned(),
            Ok(()),
            Action::Run(create_command(name, image)),
        )
    }

    fn change(&mut self, name: &str, args: Vec<String>) -> (action: Action)
        ensures
            (final(self)@, action@) == begin_change(old(self)@, name@, strings(args@)),
            final(self).log_lines() == old(self).log_lines(),
            final(self).paths() == old(self).paths(),
    {
        if self.pending.is_some() {
            return Action::Finish(Err(OperationError::Busy));
        }
        let at = self.position(name);
        if at >= self.containers.len() {
            return Action::Finish(Err(OperationError::ContainerNotFound));
        }
        self.proceed(Stage::Changing, name.to_owned(), Ok(()), Action::Run(args))
    }

    /// Begins the start of a container that the cache holds.
    pub fn start_container(&mut self, name: &str) -> (action: Action)
        ensures
            (final(self)@, action@) == begin_change(old(self)@, name@, start_args(name@)),
            final(self).log_lines() == old(self).log_lines(),
            final(self).paths() == old(self).paths(),
    {
        self.change(name, start_command(name))
    }

    /// Begins the stop of a container that the cache holds.
    pub fn stop_container(&mut self, name: &str) -> (action: Action)
        ensures
            (final(self)@, action@) == begin_change(old(self)@, name@, stop_args(name@)),
            final(self).log_lines() == old(self).log_lines(),
            final(self).paths() == old(self).paths(),
    {
        self.change(name, stop_command(name))
    }

    /// Begins the removal of a container that the cache holds.
    pub fn remove_container(&mut self, name: &str) -> (action: Action)
        ensures
            (final(self)@, action@) == begin_change(old(self)@, name@, remove_args(name@)),
            final(self).log_lines() == old(self).log_lines(),
            final(self).paths() == old(self).paths(),
    {
        self.change(name, remove_command(name))
    }

    /// Begins saving the state of a container as an image.
    pub fn save_container_state(&mut self, name: &str, image: &str) -> (action: Action)
        ensures
            (final(self)@, action@) == begin_commit(old(self)@, name@, image@),
            final(self).log_lines() == old(self).log_lines(),
            final(self).paths() == old(self).paths(),
    {
        if self.pending.is_some() {
            return Action::Finish(Err(OperationError::Busy));
        }
        if is_blank(image) {
            return Action::Finish(Err(OperationError::EmptyImageName));
        }
        let at = self.position(name);
        if at >= self.containers.len() {
            return Action::Finish(Err(OperationError::ContainerNotFound));
        }
        self.proceed(
            Stage::Committing,
            name.to_owned(),
            Ok(()),
            Action::Run(commit_command(name, image)),
        )
    }

    fn load_archive(&mut self, path: &str) -> (action: Action)
        ensures
            (final(self)@, action@) == begin_load(old(self)@, path@),
            final(self).log_lines() == old(self).log_lines(),
            final(self).paths() == old(self).paths(),
    {
        if self.pending.is_some() {
            return Action::Finish(Err(OperationError::Busy));
        }
        self.proceed(Stage::Loading, path.to_owned(), Ok(()), Action::Run(load_command(path)))
    }

    /// Begins building an image from an ISO file under a chosen name: asks
    /// for a build directory with the build descriptor in it.
    pub fn convert_iso_to_image(&mut self, iso_path: &str, name: &str) -> (action: Action)
        ensures
            (final(self)@, action@) == begin_convert(old(self)@, iso_path@, name@),
            final(self).log_lines() == old(self).log_lines(),
            final(self).paths() == old(self).paths(),
    {
        if self.pending.is_some() {
            return Action::Finish(Err(OperationError::Busy));
        }
        if is_blank(name) {
            return Action::Finish(Err(OperationError::EmptyImageName));
        }
        if !is_absolute_path(iso_path) {
            return Action::Finish(Err(OperationError::RelativePath));
        }
        let mut tag = name.to_owned();
        tag = vstd::string::StringExecFns::concat(tag, ":latest");
        let mut descriptor = "\nFROM scratch\nADD ".to_owned();
        descriptor = vstd::string::StringExecFns::concat(descriptor, iso_path);
        descriptor = vstd::string::StringExecFns::concat(descriptor, " /\nCMD [\"/bin/bash\"]\n");
        assert(tag@ == latest_tag(name@));
        assert(descriptor@ == build_descriptor(iso_path@));
        self.proceed(Stage::Staging, tag, Ok(()), Action::Stage(descriptor))
    }

    /// Remembers a file that was picked among the recent paths, and says
    /// whether its path was stored.
    pub fn remember_file(&mut self, path: &str) -> (stored: bool)
        ensures
            stored == (file_name(path@).len() > 0 && is_absolute(path@)),
            final(self).paths() == remembered(old(self).paths(), path@),
            final(self)@ == old(self)@,
            final(self).log_lines() == old(self).log_lines(),
    {
        self.path_storage.remember(path)
    }

    /// Takes in a file that was picked: remembers it among the recent
    /// paths, then builds from it if it is an ISO file, loads it if it is an
    /// archive, and asks for nothing if it is neither.
    pub fn import_file(&mut self, path: &str) -> (action: Action)
        ensures
            (final(self)@, action@) == begin_import(old(self)@, path@),
            final(self).paths() == remembered(old(self).paths(), path@),
            final(self).log_lines() == old(self).log_lines(),
    {
        self.path_storage.remember(path);
        if has_iso_extension(path) {
            let name = suggested_image_name(path);
            self.convert_iso_to_image(path, name.as_str())
        } else if has_archive_extension(path) {
            self.load_archive(path)
        } else if self.pending.is_some() {
            Action::Finish(Err(OperationError::Busy))
        } else {
            Action::Finish(Err(OperationError::UnsupportedFile))
        }
    }

    /// Begins opening an interactive session in a container that the cache
    /// holds: asks whether the container runs.
    pub fn open_container_terminal(&mut self, name: &str) -> (action: Action)
        ensures
            (final(self)@, action@) == begin_session(old(self)@, name@),
            final(self).log_lines() == old(self).log_lines(),
            final(self).paths() == old(self).paths(),
    {
        if self.pending.is_some() {
            return Action::Finish(Err(OperationError::Busy));
        }
        let at = self.position(name);
        if at >= self.containers.len() {
            return Action::Finish(Err(OperationError::ContainerNotFound));
        }
        self.proceed(
            Stage::Inspecting,
            name.to_owned(),
            Ok(()),
            Action::Run(inspect_command(name)),
        )
    }

    /// Begins bringing the cache of containers up to date.
    pub fn request_containers(&mut self) -> (action: Action)
        ensures
            (final(self)@, action@) == begin_container_refresh(old(self)@),
            final(self).log_lines() == old(self).log_lines(),
            final(self).paths() == old(self).paths(),
    {
        if self.pending.is_some() {
            return Action::Finish(Err(OperationError::Busy));
        }
        self.proceed(
            Stage::RefreshingContainers,
            String::new(),
            Ok(()),
            Action::Run(list_containers_command()),
        )
    }

    /// Begins bringing the cache of images up to date.
    pub fn request_images(&mut self) -> (action: Action)
        ensures
            (final(self)@, action@) == begin_image_refresh(old(self)@),
            final(self).log_lines() == old(self).log_lines(),
            final(self).paths() == old(self).paths(),
    {
        if self.pending.is_some() {
            return Action::Finish(Err(OperationError::Busy));
        }
        self.proceed(
            Stage::RefreshingImages,
            String::new(),
            Ok(()),
            Action::Run(list_images_command()),
        )
    }

    fn offered(&self, image: &str) -> (found: bool)
        ensures
            found == self@.available_images.contains(image@),
    {
        let mut i: usize = 0;
        while i < self.available_images.len()
            invariant
                i <= self.available_images.len(),
                forall|j: int| 0 <= j < i ==> self@.available_images[j] != image@,
            decreases self.available_images.len() - i,
        {
            if same_text(self.available_images[i].as_str(), image) {
                assert(self@.available_images[i as int] == image@);
                return true;
            }
            i += 1;
        }
        false
    }

    fn refresh_containers_next(&mut self, subject: String, outcome: Result<(), OperationError>) -> (next: Action)
        ensures
            (final(self)@, next@) == crate::operation::refresh_containers_then(
                old(self)@,
                subject@,
                outcome,
            ),
            final(self).log_lines() == old(self).log_lines(),
            final(self).paths() == old(self).paths(),
    {
        self.proceed(
            Stage::RefreshingContainers,
            subject,
            outcome,
            Action::Run(list_containers_command()),
        )
    }

    fn refresh_images_next(&mut self, subject: String, outcome: Result<(), OperationError>) -> (next: Action)
        ensures
            (final(self)@, next@) == crate::operation::refresh_images_then(
                old(self)@,
                subject@,
                outcome,
            ),
            final(self).log_lines() == old(self).log_lines(),
            final(self).paths() == old(self).paths(),
    {
        self.proceed(Stage::RefreshingImages, subject, outcome, Action::Run(list_images_command()))
    }

    /// Takes the answer to the action handed out last, and hands out the
    /// next action. What it does is what `step` says.
    pub fn advance(&mut self, event: Event) -> (action: Action)
        ensures
            (final(self)@, action@) == step(old(self)@, event@),
            final(self).log_lines() == old(self).log_lines(),
            final(self).paths() == old(self).paths(),
    {
        let ghost before = self@;
        let taken = self.pending.take();
        let p = match taken {
            Some(p) => p,
            None => {
                return Action::Finish(Err(OperationError::NothingPending));
            },
        };
        assert(self@ == (ManagerView { pending: None, ..before }));
        assert(before.pending == Some(p@));
        let unexpected = Action::Finish(Err(OperationError::UnexpectedEvent));
        match p.stage {
            Stage::CheckingName => match event {
                Event::Completed(c) => match settle(c) {
                    Ok(r) => {
                        if self.container_exists(r.stdout.as_str(), p.subject.as_str()) {
                            Action::Finish(Err(OperationError::DuplicateName))
                        } else {
                            self.proceed(
                                Stage::ListingImages,
                                p.subject,
                                Ok(()),
                                Action::Run(list_image_references_command()),
                            )
                        }
                    },
                    Err(x) => Action::Finish(Err(x)),
                },
                _ => unexpected,
            },
            Stage::ListingImages => match event {
                Event::Completed(c) => match settle(c) {
                    Ok(r) => {
                        self.available_images = text_lines(r.stdout.as_str());
                        let offer = copy_strings(&self.available_images);
                        self.proceed(
                            Stage::AwaitingImage,
                            p.subject,
                            Ok(()),
                            Action::ChooseImage(offer),
                        )
                    },
                    Err(x) => Action::Finish(Err(x)),
                },
                _ => unexpected,
            },
            Stage::AwaitingImage => match event {
                Event::ImageChosen(Some(image)) => {
                    if self.offered(image.as_str()) {
                        let args = create_command(p.subject.as_str(), image.as_str());
                        self.proceed(Stage::Creating, p.subject, Ok(()), Action::Run(args))
                    } else {
                        Action::Finish(Err(OperationError::NoImageSelected))
                    }
                },
                Event::ImageChosen(None) => Action::Finish(Err(OperationError::NoImageSelected)),
                _ => unexpected,
            },
            Stage::Creating => match event {
                Event::Completed(c) => match judge_create(&c) {
                    Ok(_) => {
                        let args = start_command(p.subject.as_str());
                        self.proceed(Stage::StartingCreated, p.subject, Ok(()), Action::Run(args))
                    },
                    Err(x) => Action::Finish(Err(x)),
                },
                _ => unexpected,
            },
            Stage::StartingCreated => match event {
                Event::Completed(c) => {
                    let outcome = match judge_container(&c) {
                        Ok(_) => Ok(()),
                        Err(_) => Err(OperationError::CreatedButNotStarted),
                    };
                    self.refresh_containers_next(p.subject, outcome)
                },
                _ => unexpected,
            },
            Stage::Changing => match event {
                Event::Completed(c) => {
                    let outcome = judge_container(&c);
                    self.refresh_containers_next(p.subject, outcome)
                },
                _ => unexpected,
            },
            Stage::Committing => match event {
                Event::Completed(c) => match judge_container(&c) {
                    Ok(_) => self.refresh_images_next(p.subject, Ok(())),
                    Err(x) => Action::Finish(Err(x)),
                },
                _ => unexpected,
            },
            Stage::Loading => match event {
                Event::Completed(c) => match judge(&c) {
                    Ok(_) => self.refresh_images_next(p.subject, Ok(())),
                    Err(x) => Action::Finish(Err(x)),
                },
                _ => unexpected,
            },
            Stage::Staging => match event {
                Event::Staged(Some(context)) => {
                    let args = build_command(
                        p.subject.as_str(),
                        context.descriptor.as_str(),
                        context.directory.as_str(),
                    );
                    self.proceed(Stage::Building, p.subject, Ok(()), Action::Run(args))
                },
                Event::Staged(None) => Action::Finish(Err(OperationError::StagingFailed)),
                _ => unexpected,
            },
            Stage::Building => {
                let outcome = match event {
                    Event::Completed(c) => judge(&c),
                    _ => Err(OperationError::UnexpectedEvent),
                };
                self.proceed(Stage::CleaningUp, p.subject, outcome, Action::Cleanup)
            },
            Stage::CleaningUp => self.refresh_images_next(p.subject, p.outcome),
            Stage::Inspecting => match event {
                Event::Completed(c) => match settle_container(c) {
                    Ok(r) => {
                        let answer = crate::text::trim_text(r.stdout.as_str());
                        if same_text(answer.as_str(), "true") {
                            let name = p.subject.clone();
                            self.proceed(Stage::Attaching, p.subject, Ok(()), Action::Attach(name))
                        } else {
                            let args = start_command(p.subject.as_str());
                            self.proceed(
                                Stage::StartingForSession,
                                p.subject,
                                Ok(()),
                                Action::Run(args),
                            )
                        }
                    },
                    Err(x) => Action::Finish(Err(x)),
                },
                _ => unexpected,
            },
            Stage::StartingForSession => match event {
                Event::Completed(c) => match judge_container(&c) {
                    Ok(_) => {
                        let name = p.subject.clone();
                        self.proceed(Stage::Attaching, p.subject, Ok(()), Action::Attach(name))
                    },
                    Err(x) => Action::Finish(Err(x)),
                },
                _ => unexpected,
            },
            Stage::Attaching => match event {
                Event::Attached(true) => Action::Finish(Ok(())),
                Event::Attached(false) => Action::Finish(Err(OperationError::AttachFailed)),
                _ => unexpected,
            },
            Stage::RefreshingContainers => match event {
                Event::Completed(c) => match settle(c) {
                    Ok(r) => {
                        self.refresh_containers(r.stdout.as_str());
                        Action::Finish(p.outcome)
                    },
                    Err(x) => Action::Finish(stale(p.outcome, Err(x))),
                },
                _ => Action::Finish(stale(p.outcome, Err(OperationError::UnexpectedEvent))),
            },
            Stage::RefreshingImages => match event {
                Event::Completed(c) => match settle(c) {
                    Ok(r) => {
                        self.images = parse_image_listing(r.stdout.as_str());
                        Action::Finish(p.outcome)
                    },
                    Err(x) => Action::Finish(stale(p.outcome, Err(x))),
                },
                _ => Action::Finish(stale(p.outcome, Err(OperationError::UnexpectedEvent))),
            },
        }
    }
}

/// How an operation ends whose closing listing did not arrive.
fn stale(before: Result<(), OperationError>, listing: Result<(), OperationError>) -> (out: Result<
    (),
    OperationError,
>)
    ensures
        out == crate::operation::stale_outcome(before, listing),
{
    match before {
        Err(_) => before,
        Ok(_) => listing,
    }
}

} // verus!
