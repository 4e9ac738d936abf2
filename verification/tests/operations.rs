use container_manager::executor::{ExecutionError, ExecutionResult, FailureReason};
use container_manager::manager::ContainerManager;
use container_manager::operation::{Action, BuildContext, Event, OperationError, Stage};
use container_manager::parser::ParseWarning;
use container_manager::records::{Container, Image};

const LISTING: &str = "web\tUp 2 hours\tnginx:latest\tabc123\t80/tcp\tnginx\t2024-01-01\nworker\tExited (0) 1 hour ago\tbusybox:1\tdef456\t\tsh\t2024-01-02\n";

fn strs(v: &[&str]) -> Vec<String> {
    v.iter().map(|s| s.to_string()).collect()
}

fn run(v: &[&str]) -> Action {
    Action::Run(strs(v))
}

fn ok(stdout: &str) -> Event {
    Event::Completed(Ok(ExecutionResult {
        stdout: stdout.to_string(),
        stderr: String::new(),
        exit_code: 0,
    }))
}

fn failed(stderr: &str, exit_code: i32) -> Event {
    Event::Completed(Ok(ExecutionResult {
        stdout: String::new(),
        stderr: stderr.to_string(),
        exit_code,
    }))
}

fn broken(reason: FailureReason) -> Event {
    Event::Completed(Err(ExecutionError { reason }))
}

fn list_all() -> Action {
    run(&[
        "ps",
        "-a",
        "--format",
        "{{.Names}}\t{{.Status}}\t{{.Image}}\t{{.ID}}\t{{.Ports}}\t{{.Command}}\t{{.CreatedAt}}",
    ])
}

fn list_names() -> Action {
    run(&["ps", "-a", "--format", "{{.Names}}"])
}

fn list_images() -> Action {
    run(&["images", "--format", "{{json .}}"])
}

fn list_references() -> Action {
    run(&["images", "--format", "{{.Repository}}:{{.Tag}}"])
}

fn finish(outcome: Result<(), OperationError>) -> Action {
    Action::Finish(outcome)
}

fn manager_with_listing() -> ContainerManager {
    let mut m = ContainerManager::new();
    m.refresh_containers(LISTING);
    m
}

fn names(m: &ContainerManager) -> Vec<String> {
    m.get_containers().into_iter().map(|c| c.name).collect()
}

#[test]
fn a_new_manager_is_empty_and_idle() {
    let m = ContainerManager::new();
    assert_eq!(m.get_containers(), Vec::<Container>::new());
    assert_eq!(m.get_images(), Vec::<Image>::new());
    assert_eq!(m.get_available_images(), Vec::<String>::new());
    assert!(!m.is_busy());
    assert!(m.path_storage().entries().is_empty());
}

#[test]
fn refresh_replaces_the_whole_cache() {
    let mut m = manager_with_listing();
    assert_eq!(names(&m), strs(&["web", "worker"]));
    m.refresh_containers("db\tCreated\tpostgres:14\t1\t\tpostgres\t2024-02-01\n");
    assert_eq!(names(&m), strs(&["db"]));
    m.refresh_containers("");
    assert_eq!(names(&m), Vec::<String>::new());
    m.refresh_images("{\"name\":\"nginx\",\"tag\":\"latest\"}\n");
    assert_eq!(m.get_images(), vec![Image { name: "nginx".into(), tag: "latest".into() }]);
    m.refresh_images("{\"name\":\"redis\",\"tag\":\"7\"}\n");
    assert_eq!(m.get_images(), vec![Image { name: "redis".into(), tag: "7".into() }]);
}

#[test]
fn a_snapshot_is_a_copy() {
    let m = manager_with_listing();
    let mut snapshot = m.get_containers();
    snapshot.clear();
    assert_eq!(names(&m), strs(&["web", "worker"]));
    let mut snapshot = m.get_containers();
    snapshot[0].name = "changed".to_string();
    assert_eq!(m.find_container("web").unwrap().status, "Up 2 hours");
    assert_eq!(m.find_container("changed"), None);
}

#[test]
fn find_gives_the_first_container_of_that_name() {
    let mut m = ContainerManager::new();
    m.refresh_containers("a\tfirst\ti\t1\t\tc\tt\nb\tother\ti\t2\t\tc\tt\na\tsecond\ti\t3\t\tc\tt\n");
    assert_eq!(m.find_container("a").unwrap().status, "first");
    assert_eq!(m.find_container("b").unwrap().id, "2");
    assert_eq!(m.find_container("c"), None);
    assert_eq!(m.find_container(""), None);
}

#[test]
fn container_exists_reads_one_name_per_line() {
    let m = ContainerManager::new();
    assert!(m.container_exists("web\ndb\n", "db"));
    assert!(m.container_exists("web\r\n  db \r\n", "db"));
    assert!(!m.container_exists("web\ndatabase\n", "db"));
    assert!(!m.container_exists("", "db"));
    assert!(!m.container_exists("web db\n", "db"));
    assert!(!m.container_exists("db\n", " db"));
    assert!(m.container_exists("\n", ""));
}

#[test]
fn create_refuses_an_empty_name() {
    let mut m = ContainerManager::new();
    assert_eq!(m.create_container(""), finish(Err(OperationError::EmptyContainerName)));
    assert!(!m.is_busy());
}

#[test]
fn create_with_an_existing_name_is_a_duplicate_and_changes_nothing() {
    let mut m = ContainerManager::new();
    let mut handed_out = Vec::new();
    handed_out.push(m.create_container("db"));
    assert_eq!(handed_out[0], list_names());
    handed_out.push(m.advance(ok("web\ndb\n")));
    assert_eq!(handed_out[1], finish(Err(OperationError::DuplicateName)));
    assert!(handed_out.iter().all(|a| !a.is_mutating()));
    assert!(!m.is_busy());
}

#[test]
fn create_twice_gives_duplicate_whatever_the_cache_says() {
    let mut m = ContainerManager::new();
    assert_eq!(m.create_container("db"), list_names());
    assert_eq!(m.advance(ok("web\n")), list_references());
    assert_eq!(
        m.advance(ok("postgres:14\nnginx:latest\n")),
        Action::ChooseImage(strs(&["postgres:14", "nginx:latest"]))
    );
    assert_eq!(
        m.advance(Event::ImageChosen(Some("postgres:14".to_string()))),
        run(&["create", "-it", "--name", "db", "postgres:14", "/bin/bash"])
    );
    assert_eq!(m.advance(ok("0123abcd\n")), run(&["start", "db"]));
    assert_eq!(m.advance(ok("db\n")), list_all());
    // The closing listing fails: the cache stays stale and does not know `db`.
    assert_eq!(
        m.advance(broken(FailureReason::Timeout)),
        finish(Err(OperationError::Execution(FailureReason::Timeout)))
    );
    assert_eq!(m.find_container("db"), None);
    // The second request goes by a fresh list of names.
    assert_eq!(m.create_container("db"), list_names());
    assert_eq!(m.advance(ok("web\ndb\n")), finish(Err(OperationError::DuplicateName)));
}

#[test]
fn create_runs_create_then_start_then_refresh() {
    let mut m = manager_with_listing();
    assert_eq!(m.create_container("db"), list_names());
    assert!(m.is_busy());
    assert_eq!(m.advance(ok("web\nworker\n")), list_references());
    assert_eq!(m.advance(ok("postgres:14\n")), Action::ChooseImage(strs(&["postgres:14"])));
    assert_eq!(m.get_available_images(), strs(&["postgres:14"]));
    assert_eq!(
        m.advance(Event::ImageChosen(Some("postgres:14".to_string()))),
        run(&["create", "-it", "--name", "db", "postgres:14", "/bin/bash"])
    );
    assert_eq!(m.advance(ok("0123abcd\n")), run(&["start", "db"]));
    assert_eq!(m.advance(ok("db\n")), list_all());
    let listing = format!("{}db\tUp 1 second\tpostgres:14\t0123abcd\t\tbash\t2024-03-01\n", LISTING);
    assert_eq!(m.advance(ok(&listing)), finish(Ok(())));
    assert_eq!(names(&m), strs(&["web", "worker", "db"]));
    assert!(!m.is_busy());
}

#[test]
fn create_without_a_choice_selects_no_image() {
    for choice in [None, Some("not-on-offer:1".to_string()), Some(String::new())] {
        let mut m = ContainerManager::new();
        m.create_container("db");
        m.advance(ok(""));
        m.advance(ok("postgres:14\n"));
        assert_eq!(
            m.advance(Event::ImageChosen(choice)),
            finish(Err(OperationError::NoImageSelected))
        );
        assert!(!m.is_busy());
    }
}

#[test]
fn create_with_image_checks_name_and_image() {
    let mut m = ContainerManager::new();
    assert_eq!(
        m.create_container_with_image("", "nginx"),
        finish(Err(OperationError::EmptyContainerName))
    );
    assert_eq!(
        m.create_container_with_image("web2", ""),
        finish(Err(OperationError::NoImageSelected))
    );
    assert_eq!(
        m.create_container_with_image("web2", "nginx:latest"),
        run(&["create", "-it", "--name", "web2", "nginx:latest", "/bin/bash"])
    );
}

#[test]
fn a_failed_create_ends_the_operation() {
    let mut m = ContainerManager::new();
    m.create_container_with_image("web2", "nginx:latest");
    assert_eq!(
        m.advance(ok("Error response from daemon: Conflict")),
        finish(Err(OperationError::CommandFailed))
    );
    assert!(!m.is_busy());
    m.create_container_with_image("web2", "nginx:latest");
    assert_eq!(m.advance(failed("no such image", 1)), finish(Err(OperationError::CommandFailed)));
    m.create_container_with_image("web2", "nginx:latest");
    assert_eq!(
        m.advance(broken(FailureReason::NotFound)),
        finish(Err(OperationError::Execution(FailureReason::NotFound)))
    );
}

#[test]
fn created_but_not_started_is_told_apart() {
    let mut m = ContainerManager::new();
    m.create_container_with_image("web2", "nginx:latest");
    assert_eq!(m.advance(ok("0123\n")), run(&["start", "web2"]));
    assert_eq!(m.advance(failed("port is already allocated", 125)), list_all());
    assert_eq!(
        m.advance(ok("web2\tCreated\tnginx:latest\t0123\t\tbash\tnow\n")),
        finish(Err(OperationError::CreatedButNotStarted))
    );
    assert_eq!(names(&m), strs(&["web2"]));
    assert_eq!(m.find_container("web2").unwrap().status, "Created");
}

#[test]
fn start_stop_and_remove_are_one_call_and_a_refresh() {
    let calls: Vec<(fn(&mut ContainerManager, &str) -> Action, Vec<&str>)> = vec![
        (ContainerManager::start_container, vec!["start", "worker"]),
        (ContainerManager::stop_container, vec!["stop", "worker"]),
        (ContainerManager::remove_container, vec!["rm", "-f", "worker"]),
    ];
    for (begin, args) in calls {
        let mut m = manager_with_listing();
        assert_eq!(begin(&mut m, "worker"), run(&args));
        assert!(m.is_busy());
        assert_eq!(m.advance(ok("worker\n")), list_all());
        assert_eq!(m.advance(ok("web\tUp\ti\t1\t\tc\tt\n")), finish(Ok(())));
        assert_eq!(names(&m), strs(&["web"]));
        assert!(!m.is_busy());
    }
}

#[test]
fn an_unknown_container_is_not_found_before_any_call() {
    let mut m = manager_with_listing();
    let missing = finish(Err(OperationError::ContainerNotFound));
    assert_eq!(m.start_container("ghost"), missing);
    assert_eq!(m.stop_container("ghost"), missing);
    assert_eq!(m.remove_container("ghost"), missing);
    assert_eq!(m.save_container_state("ghost", "snap"), missing);
    assert_eq!(m.open_container_terminal("ghost"), missing);
    assert!(!m.is_busy());
}

#[test]
fn the_runtime_may_report_not_found_itself() {
    let mut m = manager_with_listing();
    assert_eq!(m.stop_container("worker"), run(&["stop", "worker"]));
    assert_eq!(
        m.advance(failed("Error response from daemon: No such container: worker", 1)),
        list_all()
    );
    assert_eq!(
        m.advance(ok("web\tUp\ti\t1\t\tc\tt\n")),
        finish(Err(OperationError::ContainerNotFound))
    );
    assert_eq!(names(&m), strs(&["web"]));
}

#[test]
fn a_failed_listing_leaves_the_cache_as_it_was() {
    let mut m = manager_with_listing();
    m.start_container("worker");
    assert_eq!(m.advance(ok("worker\n")), list_all());
    assert_eq!(m.advance(failed("daemon gone", 1)), finish(Err(OperationError::CommandFailed)));
    assert_eq!(names(&m), strs(&["web", "worker"]));
    // An earlier failure is the one reported.
    m.start_container("worker");
    m.advance(failed("cannot start", 1));
    assert_eq!(
        m.advance(broken(FailureReason::IOFailure)),
        finish(Err(OperationError::CommandFailed))
    );
    assert_eq!(names(&m), strs(&["web", "worker"]));
}

#[test]
fn refresh_on_request() {
    let mut m = ContainerManager::new();
    assert_eq!(m.request_containers(), list_all());
    assert_eq!(m.advance(ok(LISTING)), finish(Ok(())));
    assert_eq!(names(&m), strs(&["web", "worker"]));
    assert_eq!(m.request_images(), list_images());
    assert_eq!(m.advance(ok("{\"name\":\"nginx\",\"tag\":\"latest\"}\n")), finish(Ok(())));
    assert_eq!(m.get_images().len(), 1);
    assert_eq!(m.request_images(), list_images());
    assert_eq!(
        m.advance(broken(FailureReason::NonZeroExit)),
        finish(Err(OperationError::Execution(FailureReason::NonZeroExit)))
    );
    assert_eq!(m.get_images().len(), 1);
    assert_eq!(m.request_containers(), list_all());
    assert_eq!(m.advance(Event::Cleaned), finish(Err(OperationError::UnexpectedEvent)));
    assert_eq!(names(&m), strs(&["web", "worker"]));
}

#[test]
fn commit_needs_an_image_name() {
    let mut m = manager_with_listing();
    assert_eq!(m.save_container_state("web", ""), finish(Err(OperationError::EmptyImageName)));
    assert_eq!(
        m.save_container_state("web", "  \t"),
        finish(Err(OperationError::EmptyImageName))
    );
    assert_eq!(
        m.save_container_state("ghost", ""),
        finish(Err(OperationError::EmptyImageName))
    );
    assert!(!m.is_busy());
}

#[test]
fn commit_refreshes_the_images_after_a_success() {
    let mut m = manager_with_listing();
    assert_eq!(m.save_container_state("web", "snap:1"), run(&["commit", "web", "snap:1"]));
    assert_eq!(m.advance(ok("sha256:abcd\n")), list_images());
    assert_eq!(m.advance(ok("{\"name\":\"snap\",\"tag\":\"1\"}\n")), finish(Ok(())));
    assert_eq!(m.get_images(), vec![Image { name: "snap".into(), tag: "1".into() }]);
    assert_eq!(m.save_container_state("web", "snap:2"), run(&["commit", "web", "snap:2"]));
    assert_eq!(m.advance(failed("no space", 1)), finish(Err(OperationError::CommandFailed)));
    assert_eq!(m.get_images().len(), 1);
}

#[test]
fn an_archive_is_loaded_and_remembered() {
    let mut m = ContainerManager::new();
    assert_eq!(m.import_file("/images/base.tar.gz"), run(&["load", "-i", "/images/base.tar.gz"]));
    assert_eq!(m.path_storage().get("base.tar.gz"), Some("/images/base.tar.gz".to_string()));
    assert_eq!(m.path_storage().last_directory(), Some("/images".to_string()));
    assert_eq!(m.advance(ok("Loaded image: base:latest\n")), list_images());
    assert_eq!(m.advance(ok("{\"name\":\"base\",\"tag\":\"latest\"}\n")), finish(Ok(())));
    assert_eq!(m.get_images().len(), 1);
}

#[test]
fn an_iso_is_built_from_and_the_build_directory_removed() {
    let mut m = ContainerManager::new();
    assert_eq!(
        m.import_file("/isos/tiny.ISO"),
        Action::Stage("\nFROM scratch\nADD /isos/tiny.ISO /\nCMD [\"/bin/bash\"]\n".to_string())
    );
    assert_eq!(m.path_storage().get("tiny.ISO"), Some("/isos/tiny.ISO".to_string()));
    let context = BuildContext {
        descriptor: "/tmp/iso_conversion/Dockerfile".to_string(),
        directory: "/tmp/iso_conversion".to_string(),
    };
    assert_eq!(
        m.advance(Event::Staged(Some(context))),
        run(&[
            "build",
            "-t",
            "tiny:latest",
            "-f",
            "/tmp/iso_conversion/Dockerfile",
            "/tmp/iso_conversion"
        ])
    );
    assert_eq!(m.advance(ok("Successfully built\n")), Action::Cleanup);
    assert_eq!(m.advance(Event::Cleaned), list_images());
    assert_eq!(m.advance(ok("{\"name\":\"tiny\",\"tag\":\"latest\"}\n")), finish(Ok(())));
    assert_eq!(m.get_images(), vec![Image { name: "tiny".into(), tag: "latest".into() }]);
}

#[test]
fn a_failing_build_is_cleaned_up_too() {
    let endings = vec![
        (failed("build failed", 1), OperationError::CommandFailed),
        (broken(FailureReason::Timeout), OperationError::Execution(FailureReason::Timeout)),
        (Event::Attached(true), OperationError::UnexpectedEvent),
    ];
    for (event, error) in endings {
        let mut m = ContainerManager::new();
        m.convert_iso_to_image("/isos/tiny.iso", "small");
        let context =
            BuildContext { descriptor: "/t/Dockerfile".to_string(), directory: "/t".to_string() };
        assert_eq!(
            m.advance(Event::Staged(Some(context))),
            run(&["build", "-t", "small:latest", "-f", "/t/Dockerfile", "/t"])
        );
        assert_eq!(m.advance(event), Action::Cleanup);
        assert_eq!(m.advance(Event::Cleaned), list_images());
        assert_eq!(m.advance(ok("")), finish(Err(error)));
        assert!(!m.is_busy());
    }
}

#[test]
fn a_failed_staging_runs_no_build() {
    let mut m = ContainerManager::new();
    m.convert_iso_to_image("/isos/tiny.iso", "small");
    assert_eq!(m.advance(Event::Staged(None)), finish(Err(OperationError::StagingFailed)));
    assert!(!m.is_busy());
}

#[test]
fn conversion_checks_name_and_path() {
    let mut m = ContainerManager::new();
    assert_eq!(
        m.convert_iso_to_image("/isos/tiny.iso", " "),
        finish(Err(OperationError::EmptyImageName))
    );
    assert_eq!(
        m.convert_iso_to_image("isos/tiny.iso", "small"),
        finish(Err(OperationError::RelativePath))
    );
    assert_eq!(m.import_file("tiny.iso"), finish(Err(OperationError::RelativePath)));
    assert!(!m.is_busy());
    assert!(m.path_storage().entries().is_empty());
}

#[test]
fn a_stopped_container_is_started_before_the_session() {
    let mut m = manager_with_listing();
    let mut handed_out = Vec::new();
    handed_out.push(m.open_container_terminal("worker"));
    handed_out.push(m.advance(ok("false\n")));
    handed_out.push(m.advance(ok("worker\n")));
    assert_eq!(
        handed_out,
        vec![
            run(&["inspect", "--format", "{{.State.Running}}", "worker"]),
            run(&["start", "worker"]),
            Action::Attach("worker".to_string()),
        ]
    );
    assert_eq!(m.advance(Event::Attached(true)), finish(Ok(())));
    assert!(!m.is_busy());
}

#[test]
fn a_running_container_is_attached_to_at_once() {
    let mut m = manager_with_listing();
    m.open_container_terminal("web");
    assert_eq!(m.advance(ok(" true\r\n")), Action::Attach("web".to_string()));
    assert_eq!(m.advance(Event::Attached(true)), finish(Ok(())));
}

#[test]
fn a_failed_attach_does_not_stop_the_container_again() {
    let mut m = manager_with_listing();
    m.open_container_terminal("worker");
    assert_eq!(m.advance(ok("false\n")), run(&["start", "worker"]));
    assert_eq!(m.advance(ok("worker\n")), Action::Attach("worker".to_string()));
    assert_eq!(m.advance(Event::Attached(false)), finish(Err(OperationError::AttachFailed)));
    assert!(!m.is_busy());
    assert_eq!(m.advance(Event::Cleaned), finish(Err(OperationError::NothingPending)));
}

#[test]
fn a_session_needs_the_container_to_start() {
    let mut m = manager_with_listing();
    m.open_container_terminal("worker");
    m.advance(ok("false\n"));
    assert_eq!(m.advance(failed("cannot start", 1)), finish(Err(OperationError::CommandFailed)));
    m.open_container_terminal("worker");
    assert_eq!(
        m.advance(failed("Error: No such container: worker", 1)),
        finish(Err(OperationError::ContainerNotFound))
    );
}

#[test]
fn one_operation_at_a_time() {
    let mut m = manager_with_listing();
    m.start_container("worker");
    let busy = finish(Err(OperationError::Busy));
    assert_eq!(m.create_container("x"), busy);
    assert_eq!(m.create_container_with_image("x", "i"), busy);
    assert_eq!(m.start_container("web"), busy);
    assert_eq!(m.stop_container("web"), busy);
    assert_eq!(m.remove_container("web"), busy);
    assert_eq!(m.save_container_state("web", "s"), busy);
    assert_eq!(m.open_container_terminal("web"), busy);
    assert_eq!(m.convert_iso_to_image("/a.iso", "a"), busy);
    assert_eq!(m.import_file("/a.tar"), busy);
    assert_eq!(m.request_containers(), busy);
    assert_eq!(m.request_images(), busy);
    assert!(m.is_busy());
    assert_eq!(m.advance(ok("worker\n")), Action::Run(container_manager::executor::list_containers_command()));
}

#[test]
fn an_event_out_of_place_ends_the_operation() {
    let mut m = ContainerManager::new();
    assert_eq!(m.advance(ok("")), finish(Err(OperationError::NothingPending)));
    m.create_container("db");
    assert_eq!(m.advance(Event::Attached(true)), finish(Err(OperationError::UnexpectedEvent)));
    assert!(!m.is_busy());
    m.create_container("db");
    m.advance(ok(""));
    m.advance(ok("a:1\n"));
    assert_eq!(m.advance(ok("")), finish(Err(OperationError::UnexpectedEvent)));
    let mut m = manager_with_listing();
    m.open_container_terminal("web");
    m.advance(ok("true"));
    assert_eq!(m.advance(Event::Cleaned), finish(Err(OperationError::UnexpectedEvent)));
}

#[test]
fn restored_paths_replace_the_store() {
    let mut m = ContainerManager::new();
    m.import_file("/a/x.tar");
    let mut other = container_manager::paths::PathStorage::new();
    other.insert("y", "/b/y");
    m.restore_paths(other);
    assert_eq!(m.path_storage().get("y"), Some("/b/y".to_string()));
    assert_eq!(m.path_storage().get("x.tar"), None);
    assert!(m.is_busy());
}

#[test]
fn the_cache_keeps_the_warnings_of_the_last_listing() {
    let mut m = ContainerManager::new();
    assert!(m.get_warnings().is_empty());
    m.refresh_containers("broken\nweb\tUp\ti\t1\t\tc\tt\na\tb\n");
    assert_eq!(
        m.get_warnings(),
        vec![ParseWarning { line: 0, fields: 1 }, ParseWarning { line: 2, fields: 2 }]
    );
    assert_eq!(names(&m), strs(&["web"]));
    m.request_containers();
    assert_eq!(m.advance(ok(LISTING)), finish(Ok(())));
    assert!(m.get_warnings().is_empty());
    m.request_containers();
    m.advance(ok("x\n"));
    assert_eq!(m.get_warnings(), vec![ParseWarning { line: 0, fields: 1 }]);
    m.request_containers();
    m.advance(failed("down", 1));
    assert_eq!(m.get_warnings(), vec![ParseWarning { line: 0, fields: 1 }]);
}

#[test]
fn the_stage_follows_the_operation() {
    let mut m = manager_with_listing();
    assert_eq!(m.pending_stage(), None);
    m.create_container("db");
    assert_eq!(m.pending_stage(), Some(Stage::CheckingName));
    m.advance(ok(""));
    assert_eq!(m.pending_stage(), Some(Stage::ListingImages));
    m.advance(ok("a:1\n"));
    assert_eq!(m.pending_stage(), Some(Stage::AwaitingImage));
    m.advance(Event::ImageChosen(Some("a:1".to_string())));
    assert_eq!(m.pending_stage(), Some(Stage::Creating));
    m.advance(ok("id"));
    assert_eq!(m.pending_stage(), Some(Stage::StartingCreated));
    m.advance(ok("db"));
    assert_eq!(m.pending_stage(), Some(Stage::RefreshingContainers));
    m.advance(ok(""));
    assert_eq!(m.pending_stage(), None);
    m.stop_container("web");
    assert_eq!(m.pending_stage(), None);
    m.refresh_containers(LISTING);
    m.stop_container("web");
    assert_eq!(m.pending_stage(), Some(Stage::Changing));
    let mut m = manager_with_listing();
    m.save_container_state("web", "s");
    assert_eq!(m.pending_stage(), Some(Stage::Committing));
    let mut m = manager_with_listing();
    m.import_file("/a/b.tar");
    assert_eq!(m.pending_stage(), Some(Stage::Loading));
    let mut m = manager_with_listing();
    m.import_file("/a/b.iso");
    assert_eq!(m.pending_stage(), Some(Stage::Staging));
    m.advance(Event::Staged(Some(BuildContext { descriptor: "d".into(), directory: "r".into() })));
    assert_eq!(m.pending_stage(), Some(Stage::Building));
    m.advance(ok(""));
    assert_eq!(m.pending_stage(), Some(Stage::CleaningUp));
    m.advance(Event::Cleaned);
    assert_eq!(m.pending_stage(), Some(Stage::RefreshingImages));
    let mut m = manager_with_listing();
    m.open_container_terminal("worker");
    assert_eq!(m.pending_stage(), Some(Stage::Inspecting));
    m.advance(ok("false"));
    assert_eq!(m.pending_stage(), Some(Stage::StartingForSession));
    m.advance(ok(""));
    assert_eq!(m.pending_stage(), Some(Stage::Attaching));
}

#[test]
fn remembering_a_file_touches_only_the_recent_paths() {
    let mut m = manager_with_listing();
    assert!(m.remember_file("/isos/a.iso"));
    assert!(!m.remember_file("b.iso"));
    assert_eq!(m.path_storage().get("a.iso"), Some("/isos/a.iso".to_string()));
    assert_eq!(m.path_storage().entries().len(), 1);
    assert!(!m.is_busy());
    assert_eq!(names(&m), strs(&["web", "worker"]));
}

#[test]
fn listings_and_inspections_do_not_mutate() {
    assert!(!list_all().is_mutating());
    assert!(!list_names().is_mutating());
    assert!(!list_images().is_mutating());
    assert!(!list_references().is_mutating());
    assert!(!run(&["inspect", "--format", "{{.State.Running}}", "web"]).is_mutating());
    assert!(!run(&[]).is_mutating());
    assert!(!Action::Cleanup.is_mutating());
    assert!(!finish(Ok(())).is_mutating());
    for first in ["create", "start", "stop", "rm", "commit", "load", "build"] {
        assert!(run(&[first, "x"]).is_mutating());
    }
}

fn printed(stdout: &str, stderr: &str) -> Event {
    Event::Completed(Ok(ExecutionResult {
        stdout: stdout.to_string(),
        stderr: stderr.to_string(),
        exit_code: 0,
    }))
}

const ERROR_LISTING: &str = "ErrorBox\tUp 1 hour\tError:1\t1\t\tsh\tt\nweb\tUp\ti\t2\t\tc\tt\n";

#[test]
fn a_listing_that_names_error_box_refreshes_the_cache() {
    let mut m = manager_with_listing();
    assert_eq!(m.request_containers(), list_all());
    assert_eq!(m.advance(ok(ERROR_LISTING)), finish(Ok(())));
    assert_eq!(names(&m), strs(&["ErrorBox", "web"]));
}

#[test]
fn creating_an_existing_my_error_is_a_duplicate() {
    let mut m = ContainerManager::new();
    assert_eq!(m.create_container("MyError"), list_names());
    assert_eq!(
        m.advance(printed("web\nMyError\n", "")),
        finish(Err(OperationError::DuplicateName))
    );
    let mut m = ContainerManager::new();
    assert_eq!(m.create_container("Error"), list_names());
    assert_eq!(m.advance(ok("Error")), finish(Err(OperationError::DuplicateName)));
}

#[test]
fn a_free_name_is_offered_images_whatever_the_listings_print() {
    let mut m = ContainerManager::new();
    assert_eq!(m.create_container("db"), list_names());
    assert_eq!(m.advance(printed("ErrorBox\nweb\n", "Error: a warning")), list_references());
    assert_eq!(
        m.advance(ok("Error/tools:1\npostgres:14\n")),
        Action::ChooseImage(strs(&["Error/tools:1", "postgres:14"]))
    );
    assert_eq!(m.get_available_images(), strs(&["Error/tools:1", "postgres:14"]));
    assert_eq!(
        m.advance(Event::ImageChosen(Some("Error/tools:1".to_string()))),
        run(&["create", "-it", "--name", "db", "Error/tools:1", "/bin/bash"])
    );
}

#[test]
fn the_closing_listing_counts_whatever_it_prints() {
    // create, start, listing
    let mut m = ContainerManager::new();
    m.create_container_with_image("ErrorBox", "i:1");
    assert_eq!(m.advance(ok("0123abcd\n")), run(&["start", "ErrorBox"]));
    assert_eq!(m.advance(ok("ErrorBox\n")), list_all());
    assert_eq!(m.advance(ok(ERROR_LISTING)), finish(Ok(())));
    assert_eq!(names(&m), strs(&["ErrorBox", "web"]));
    // created but not started
    let mut m = ContainerManager::new();
    m.create_container_with_image("db", "i:1");
    m.advance(ok("0123abcd\n"));
    assert_eq!(m.advance(failed("cannot start", 1)), list_all());
    assert_eq!(m.advance(ok(ERROR_LISTING)), finish(Err(OperationError::CreatedButNotStarted)));
    assert_eq!(names(&m), strs(&["ErrorBox", "web"]));
    // start, stop and remove
    let calls: Vec<fn(&mut ContainerManager, &str) -> Action> = vec![
        ContainerManager::start_container,
        ContainerManager::stop_container,
        ContainerManager::remove_container,
    ];
    for begin in calls {
        let mut m = ContainerManager::new();
        m.refresh_containers("MyError\tUp\ti\t1\t\tc\tt\nold\tUp\ti\t2\t\tc\tt\n");
        assert!(begin(&mut m, "MyError").is_mutating());
        assert_eq!(m.advance(ok("MyError\n")), list_all());
        assert_eq!(m.advance(ok(ERROR_LISTING)), finish(Ok(())));
        assert_eq!(names(&m), strs(&["ErrorBox", "web"]));
        assert_eq!(m.find_container("old"), None);
    }
}

#[test]
fn the_image_listing_counts_whatever_it_prints() {
    let images = "{\"name\":\"Error/tools\",\"tag\":\"1\"}\n";
    let expected = vec![Image { name: "Error/tools".into(), tag: "1".into() }];
    let mut m = manager_with_listing();
    assert_eq!(m.save_container_state("web", "Error/tools:1"), run(&["commit", "web", "Error/tools:1"]));
    assert_eq!(m.advance(ok("sha256:Error\n")), list_images());
    assert_eq!(m.advance(ok(images)), finish(Ok(())));
    assert_eq!(m.get_images(), expected);
    let mut m = ContainerManager::new();
    assert_eq!(m.import_file("/a/Error.tar"), run(&["load", "-i", "/a/Error.tar"]));
    assert_eq!(m.advance(ok("Loaded image: Error/tools:1\n")), list_images());
    assert_eq!(m.advance(ok(images)), finish(Ok(())));
    assert_eq!(m.get_images(), expected);
    let mut m = ContainerManager::new();
    m.convert_iso_to_image("/a/x.iso", "Error");
    m.advance(Event::Staged(Some(BuildContext { descriptor: "d".into(), directory: "r".into() })));
    assert_eq!(m.advance(ok("Successfully tagged Error:latest\n")), Action::Cleanup);
    assert_eq!(m.advance(Event::Cleaned), list_images());
    assert_eq!(m.advance(ok(images)), finish(Ok(())));
    assert_eq!(m.get_images(), expected);
}

#[test]
fn a_start_that_echoes_error_still_leads_to_the_session() {
    let mut m = ContainerManager::new();
    m.refresh_containers("MyError\tExited (0)\ti\t1\t\tc\tt\n");
    m.open_container_terminal("MyError");
    assert_eq!(m.advance(ok("false\n")), run(&["start", "MyError"]));
    assert_eq!(m.advance(ok("MyError\n")), Action::Attach("MyError".to_string()));
    assert_eq!(m.advance(Event::Attached(false)), finish(Err(OperationError::AttachFailed)));
}

#[test]
fn a_file_that_is_neither_iso_nor_archive_is_refused_without_a_call() {
    for path in ["/data/notes.txt", "/data/noextension", "/data/base.tgz", "relative.txt"] {
        let mut m = manager_with_listing();
        m.refresh_images("{\"name\":\"a\",\"tag\":\"1\"}\n");
        assert_eq!(m.import_file(path), finish(Err(OperationError::UnsupportedFile)), "{}", path);
        assert!(!m.is_busy());
        assert_eq!(m.get_images().len(), 1);
        assert_eq!(names(&m), strs(&["web", "worker"]));
    }
    let mut m = manager_with_listing();
    m.start_container("web");
    assert_eq!(m.import_file("/data/notes.txt"), finish(Err(OperationError::Busy)));
}
