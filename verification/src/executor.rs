//! What the runtime is asked to do and what it answers: the argument vector
//! of every call that the manager makes, and the result of a call with the
//! tests that the manager applies to it. Arguments always travel as a vector,
//! one text per argument; no call is ever put together as one command line
//! for a shell.

use vstd::prelude::*;
use vstd::string::StringExecFns;
use crate::text::{
    contains_chars,
    copy_range,
    from_chars,
    join,
    occurs,
    strings,
    to_chars,
};

verus! {

/// Why a call of the runtime gave no result.
#[derive(Clone, Copy, Debug, PartialEq, Eq, Structural)]
pub enum FailureReason {
    /// The runtime's program was not found.
    NotFound,
    /// The call did not end within the time it was given.
    Timeout,
    /// The call ended with an exit code other than zero.
    NonZeroExit,
    /// Starting the call, or reading what it printed, failed.
    IOFailure,
}

/// A call of the runtime that gave no result.
#[derive(Clone, Copy, Debug, PartialEq, Eq, Structural)]
pub struct ExecutionError {
    pub reason: FailureReason,
}

/// What a call of the runtime printed, and the exit code it ended with.
#[derive(Clone, Debug, PartialEq, Eq)]
pub struct ExecutionResult {
    pub stdout: String,
    pub stderr: String,
    pub exit_code: i32,
}

/// What an `ExecutionResult` holds, as mathematical text.
pub struct ExecutionView {
    pub stdout: Seq<char>,
    pub stderr: Seq<char>,
    pub exit_code: int,
}

impl View for ExecutionResult {
    type V = ExecutionView;

    open spec fn view(&self) -> ExecutionView {
        ExecutionView {
            stdout: self.stdout@,
            stderr: self.stderr@,
            exit_code: self.exit_code as int,
        }
    }
}

impl ExecutionView {
    /// The call ended with exit code zero.
    pub open spec fn succeeded(self) -> bool {
        self.exit_code == 0
    }

    /// What the call printed mentions `Error`.
    pub open spec fn mentions_error(self) -> bool {
        occurs(self.stdout, "Error"@)
    }

    /// The runtime says that it knows no such container.
    pub open spec fn reports_missing_container(self) -> bool {
        occurs(self.stderr, "No such container"@)
    }
}

impl ExecutionResult {
    /// Whether the call ended with exit code zero.
    pub fn succeeded(&self) -> (r: bool)
        ensures
            r == self@.succeeded(),
    {
        self.exit_code == 0
    }

    /// Whether what the call printed mentions `Error`.
    pub fn mentions_error(&self) -> (r: bool)
        ensures
            r == self@.mentions_error(),
    {
        let out = to_chars(self.stdout.as_str());
        let mark = to_chars("Error");
        contains_chars(&out, &mark)
    }

    /// Whether the runtime says that it knows no such container.
    pub fn reports_missing_container(&self) -> (r: bool)
        ensures
            r == self@.reports_missing_container(),
    {
        let err = to_chars(self.stderr.as_str());
        let mark = to_chars("No such container");
        contains_chars(&err, &mark)
    }

    /// The result itself when the call ended with exit code zero, and the
    /// error `NonZeroExit` when it did not.
    pub fn checked(self) -> (r: Result<ExecutionResult, ExecutionError>)
        ensures
            self@.succeeded() ==> r == Ok::<ExecutionResult, ExecutionError>(self),
            !self@.succeeded() ==> r == Err::<ExecutionResult, ExecutionError>(
                ExecutionError { reason: FailureReason::NonZeroExit },
            ),
    {
        if self.exit_code == 0 {
            Ok(self)
        } else {
            Err(ExecutionError { reason: FailureReason::NonZeroExit })
        }
    }
}

/// The view of what a call came back with.
pub open spec fn completion_view(c: Result<ExecutionResult, ExecutionError>) -> Result<
    ExecutionView,
    ExecutionError,
> {
    match c {
        Ok(r) => Ok(r@),
        Err(e) => Err(e),
    }
}

/// Lists every container, one per line, seven tab-separated fields each.
pub open spec fn list_containers_args() -> Seq<Seq<char>> {
    seq![
        "ps"@,
        "-a"@,
        "--format"@,
        "{{.Names}}\t{{.Status}}\t{{.Image}}\t{{.ID}}\t{{.Ports}}\t{{.Command}}\t{{.CreatedAt}}"@,
    ]
}

/// Lists the names of all containers, one per line.
pub open spec fn list_names_args() -> Seq<Seq<char>> {
    seq!["ps"@, "-a"@, "--format"@, "{{.Names}}"@]
}

/// Lists every image as one JSON object per line.
pub open spec fn list_images_args() -> Seq<Seq<char>> {
    seq!["images"@, "--format"@, "{{json .}}"@]
}

/// Lists the reference of every image, one per line.
pub open spec fn list_image_references_args() -> Seq<Seq<char>> {
    seq!["images"@, "--format"@, "{{.Repository}}:{{.Tag}}"@]
}

/// Creates a container with a terminal and a shell as its command.
pub open spec fn create_args(name: Seq<char>, image: Seq<char>) -> Seq<Seq<char>> {
    seq!["create"@, "-it"@, "--name"@, name, image, "/bin/bash"@]
}

/// Starts a container.
pub open spec fn start_args(name: Seq<char>) -> Seq<Seq<char>> {
    seq!["start"@, name]
}

/// Stops a container.
pub open spec fn stop_args(name: Seq<char>) -> Seq<Seq<char>> {
    seq!["stop"@, name]
}

/// Removes a container, running or not.
pub open spec fn remove_args(name: Seq<char>) -> Seq<Seq<char>> {
    seq!["rm"@, "-f"@, name]
}

/// Saves the state of a container as an image.
pub open spec fn commit_args(name: Seq<char>, image: Seq<char>) -> Seq<Seq<char>> {
    seq!["commit"@, name, image]
}

/// Loads an image from an archive.
pub open spec fn load_args(path: Seq<char>) -> Seq<Seq<char>> {
    seq!["load"@, "-i"@, path]
}

/// Builds an image from a build descriptor in a build directory.
pub open spec fn build_args(tag: Seq<char>, descriptor: Seq<char>, directory: Seq<char>) -> Seq<
    Seq<char>,
> {
    seq!["build"@, "-t"@, tag, "-f"@, descriptor, directory]
}

/// Asks whether a container is running; the answer is `true` or `false`.
pub open spec fn inspect_args(name: Seq<char>) -> Seq<Seq<char>> {
    seq!["inspect"@, "--format"@, "{{.State.Running}}"@, name]
}

/// Opens a shell in a running container.
pub open spec fn session_args(name: Seq<char>) -> Seq<Seq<char>> {
    seq!["exec"@, "-it"@, name, "bash"@]
}

/// The arguments that list every container.
pub fn list_containers_command() -> (args: Vec<String>)
    ensures
        strings(args@) == list_containers_args(),
{
    let mut args: Vec<String> = Vec::new();
    args.push("ps".to_owned());
    args.push("-a".to_owned());
    args.push("--format".to_owned());
    args.push(
        "{{.Names}}\t{{.Status}}\t{{.Image}}\t{{.ID}}\t{{.Ports}}\t{{.Command}}\t{{.CreatedAt}}".to_owned(),
    );
    assert(strings(args@) =~= list_containers_args());
    args
}

/// The arguments that list the names of all containers.
pub fn list_names_command() -> (args: Vec<String>)
    ensures
        strings(args@) == list_names_args(),
{
    let mut args: Vec<String> = Vec::new();
    args.push("ps".to_owned());
    args.push("-a".to_owned());
    args.push("--format".to_owned());
    args.push("{{.Names}}".to_owned());
    assert(strings(args@) =~= list_names_args());
    args
}

/// The arguments that list every image.
pub fn list_images_command() -> (args: Vec<String>)
    ensures
        strings(args@) == list_images_args(),
{
    let mut args: Vec<String> = Vec::new();
    args.push("images".to_owned());
    args.push("--format".to_owned());
    args.push("{{json .}}".to_owned());
    assert(strings(args@) =~= list_images_args());
    args
}

/// The arguments that list the reference of every image.
pub fn list_image_references_command() -> (args: Vec<String>)
    ensures
        strings(args@) == list_image_references_args(),
{
    let mut args: Vec<String> = Vec::new();
    args.push("images".to_owned());
    args.push("--format".to_owned());
    args.push("{{.Repository}}:{{.Tag}}".to_owned());
    assert(strings(args@) =~= list_image_references_args());
    args
}

/// The arguments that create a container.
pub fn create_command(name: &str, image: &str) -> (args: Vec<String>)
    ensures
        strings(args@) == create_args(name@, image@),
{
    let mut args: Vec<String> = Vec::new();
    args.push("create".to_owned());
    args.push("-it".to_owned());
    args.push("--name".to_owned());
    args.push(name.to_owned());
    args.push(image.to_owned());
    args.push("/bin/bash".to_owned());
    assert(strings(args@) =~= create_args(name@, image@));
    args
}

/// The arguments that start a container.
pub fn start_command(name: &str) -> (args: Vec<String>)
    ensures
        strings(args@) == start_args(name@),
{
    let mut args: Vec<String> = Vec::new();
    args.push("start".to_owned());
    args.push(name.to_owned());
    assert(strings(args@) =~= start_args(name@));
    args
}

/// The arguments that stop a container.
pub fn stop_command(name: &str) -> (args: Vec<String>)
    ensures
        strings(args@) == stop_args(name@),
{
    let mut args: Vec<String> = Vec::new();
    args.push("stop".to_owned());
    args.push(name.to_owned());
    assert(strings(args@) =~= stop_args(name@));
    args
}

/// The arguments that remove a container.
pub fn remove_command(name: &str) -> (args: Vec<String>)
    ensures
        strings(args@) == remove_args(name@),
{
    let mut args: Vec<String> = Vec::new();
    args.push("rm".to_owned());
    args.push("-f".to_owned());
    args.push(name.to_owned());
    assert(strings(args@) =~= remove_args(name@));
    args
}

/// The arguments that save a container as an image.
pub fn commit_command(name: &str, image: &str) -> (args: Vec<String>)
    ensures
        strings(args@) == commit_args(name@, image@),
{
    let mut args: Vec<String> = Vec::new();
    args.push("commit".to_owned());
    args.push(name.to_owned());
    args.push(image.to_owned());
    assert(strings(args@) =~= commit_args(name@, image@));
    args
}

/// The arguments that load an image from an archive.
pub fn load_command(path: &str) -> (args: Vec<String>)
    ensures
        strings(args@) == load_args(path@),
{
    let mut args: Vec<String> = Vec::new();
    args.push("load".to_owned());
    args.push("-i".to_owned());
    args.push(path.to_owned());
    assert(strings(args@) =~= load_args(path@));
    args
}

/// The arguments that build an image.
pub fn build_command(tag: &str, descriptor: &str, directory: &str) -> (args: Vec<String>)
    ensures
        strings(args@) == build_args(tag@, descriptor@, directory@),
{
    let mut args: Vec<String> = Vec::new();
    args.push("build".to_owned());
    args.push("-t".to_owned());
    args.push(tag.to_owned());
    args.push("-f".to_owned());
    args.push(descriptor.to_owned());
    args.push(directory.to_owned());
    assert(strings(args@) =~= build_args(tag@, descriptor@, directory@));
    args
}

/// The arguments that ask whether a container is running.
pub fn inspect_command(name: &str) -> (args: Vec<String>)
    ensures
        strings(args@) == inspect_args(name@),
{
    let mut args: Vec<String> = Vec::new();
    args.push("inspect".to_owned());
    args.push("--format".to_owned());
    args.push("{{.State.Running}}".to_owned());
    args.push(name.to_owned());
    assert(strings(args@) =~= inspect_args(name@));
    args
}

/// The arguments that open a shell in a container.
pub fn session_command(name: &str) -> (args: Vec<String>)
    ensures
        strings(args@) == session_args(name@),
{
    let mut args: Vec<String> = Vec::new();
    args.push("exec".to_owned());
    args.push("-it".to_owned());
    args.push(name.to_owned());
    args.push("bash".to_owned());
    assert(strings(args@) =~= session_args(name@));
    args
}

/// The texts put together with `sep` between neighbours.
pub fn join_text(parts: &Vec<String>, sep: &str) -> (out: String)
    ensures
        out@ == join(strings(parts@), sep@),
{
    let mut out = String::new();
    let mut i: usize = 0;
    assert(strings(parts@).take(0) =~= Seq::<Seq<char>>::empty());
    while i < parts.len()
        invariant
            i <= parts.len(),
            out@ == join(strings(parts@).take(i as int), sep@),
        decreases parts.len() - i,
    {
        proof {
            let all = strings(parts@);
            assert(all.take(i + 1).drop_last() =~= all.take(i as int));
            assert(all.take(i + 1).last() == parts@[i as int]@);
            if i == 0 {
                assert(all.take(1)[0] == parts@[0]@);
                assert(Seq::<char>::empty() + parts@[0]@ =~= parts@[0]@);
            }
        }
        if i > 0 {
            out.append(sep);
        }
        out.append(parts[i].as_str());
        i += 1;
    }
    proof {
        assert(strings(parts@).take(parts.len() as int) =~= strings(parts@));
    }
    out
}

/// The line that announces a call in the log.
pub open spec fn command_line(args: Seq<Seq<char>>) -> Seq<char> {
    "Running: docker "@ + join(args, " "@)
}

/// The line that announces a call in the log.
pub fn describe_command(args: &Vec<String>) -> (line: String)
    ensures
        line@ == command_line(strings(args@)),
{
    let mut line = "Running: docker ".to_owned();
    let joined = join_text(args, " ");
    line.append(joined.as_str());
    line
}

/// The most characters of a call's output that go into one line of the log.
pub const OUTPUT_LOG_LIMIT: usize = 1000;

/// The first `limit` characters of a text; the whole text when it is
/// shorter.
pub open spec fn truncated(text: Seq<char>, limit: int) -> Seq<char> {
    if text.len() <= limit {
        text
    } else {
        text.take(limit)
    }
}

/// The first `limit` characters of a text.
pub fn truncate_text(text: &str, limit: usize) -> (short: String)
    ensures
        short@ == truncated(text@, limit as int),
{
    let chars = to_chars(text);
    if chars.len() <= limit {
        proof {
            assert(chars@ == text@);
        }
        from_chars(&chars)
    } else {
        let head = copy_range(&chars, 0, limit);
        proof {
            assert(chars@.subrange(0, limit as int) =~= text@.take(limit as int));
        }
        from_chars(&head)
    }
}

/// The lines that a finished call adds to the log: what it printed as
/// errors, then what it printed as output, each cut to `OUTPUT_LOG_LIMIT`
/// characters and left out when empty.
pub open spec fn result_lines(r: ExecutionView) -> Seq<Seq<char>> {
    let errors = if r.stderr.len() > 0 {
        seq!["stderr: "@ + truncated(r.stderr, OUTPUT_LOG_LIMIT as int)]
    } else {
        Seq::<Seq<char>>::empty()
    };
    let output = if r.stdout.len() > 0 {
        seq!["stdout: "@ + truncated(r.stdout, OUTPUT_LOG_LIMIT as int)]
    } else {
        Seq::<Seq<char>>::empty()
    };
    errors + output
}

/// The lines that a finished call adds to the log.
pub fn describe_result(result: &ExecutionResult) -> (out: Vec<String>)
    ensures
        strings(out@) == result_lines(result@),
{
    let mut out: Vec<String> = Vec::new();
    if !result.stderr.as_str().is_empty() {
        let mut line = "stderr: ".to_owned();
        let short = truncate_text(result.stderr.as_str(), OUTPUT_LOG_LIMIT);
        line.append(short.as_str());
        out.push(line);
    }
    if !result.stdout.as_str().is_empty() {
        let mut line = "stdout: ".to_owned();
        let short = truncate_text(result.stdout.as_str(), OUTPUT_LOG_LIMIT);
        line.append(short.as_str());
        out.push(line);
    }
    assert(strings(out@) =~= result_lines(result@));
    out
}

} // verus!
