//! The three-step deployment of a script on one host: fetch it, make it
//! executable, run it; stopping at the first step that fails.
use vstd::prelude::*;
use crate::address::{AddressError, ExecutionTarget};
use crate::shell::{quoted, shell_quote};

verus! {

/// A transport fault while a command ran: the channel could not be opened,
/// read or closed, or gave no exit status.
#[derive(Debug, Clone, Copy, PartialEq, Eq, Structural)]
pub struct ChannelError;

/// Why a remote session could not be opened.
#[derive(Debug, Clone, Copy, PartialEq, Eq, Structural)]
pub enum ConnectError {
    /// The TCP connection failed.
    Network,
    /// The protocol handshake failed.
    Protocol,
    /// The agent identity was unavailable or refused.
    Auth,
}

/// Why the deployment on one host did not complete.
#[derive(Debug, Clone, Copy, PartialEq, Eq, Structural)]
pub enum DeployError {
    /// The script URL has no file name after its last `/`.
    InvalidScriptUrl,
    /// The fetch command exited nonzero.
    DownloadFailed,
    /// The permission change exited nonzero.
    PermissionFailed,
    /// The script exited nonzero.
    ExecutionFailed,
    /// The transport failed while a command ran.
    ChannelFailed,
}

/// Why one host was not deployed to.
#[derive(Debug, Clone, Copy, PartialEq, Eq, Structural)]
pub enum HostError {
    Address(AddressError),
    Connect(ConnectError),
    Deploy(DeployError),
}

/// Where the deployment on one host stands.
#[derive(Debug, Clone, Copy, PartialEq, Eq, Structural)]
pub enum DeployPhase {
    Fetching,
    Authorizing,
    Executing,
    Done,
    Failed(DeployError),
}

/// The remote side of a deployment, supplied by the caller: it opens a
/// session to one host and runs commands over it, each on a fresh channel.
pub trait RemoteExecutor {
    /// Opens and authenticates a session to `target`.
    fn connect(&mut self, target: &ExecutionTarget) -> Result<(), ConnectError>;

    /// Runs `command` verbatim on a new channel of the open session, drains
    /// its output, and gives its exit status.
    fn run_step(&mut self, command: &str) -> Result<i32, ChannelError>;

    /// Releases the open session.
    fn disconnect(&mut self);
}

/// Index just past the last `/` of `s`, or 0 when there is none.
pub open spec fn name_start(s: Seq<char>) -> int
    decreases s.len(),
{
    if s.len() == 0 {
        0
    } else if s.last() == '/' {
        s.len() as int
    } else {
        name_start(s.drop_last())
    }
}

/// The text after the last `/` of a URL.
pub open spec fn file_name_of(url: Seq<char>) -> Seq<char> {
    url.subrange(name_start(url), url.len() as int)
}

/// The file name that a script fetched from `url` is saved under; a URL
/// with nothing after its last `/` is refused.
pub fn script_file_name(url: &str) -> (r: Result<String, DeployError>)
    ensures
        match r {
            Ok(name) => name@ == file_name_of(url@) && name@.len() > 0,
            Err(e) => e == DeployError::InvalidScriptUrl && file_name_of(url@).len() == 0,
        },
{
    let n = url.unicode_len();
    let mut i: usize = n;
    assert(url@.subrange(0, n as int) =~= url@);
    while i > 0 && url.get_char(i - 1) != '/'
        invariant
            n == url@.len(),
            i <= n,
            name_start(url@.subrange(0, i as int)) == name_start(url@),
        decreases i,
    {
        assert(url@.subrange(0, i as int).drop_last() =~= url@.subrange(0, i as int - 1));
        i = i - 1;
    }
    assert(name_start(url@.subrange(0, i as int)) == i);
    if i == n {
        Err(DeployError::InvalidScriptUrl)
    } else {
        Ok(String::from_str(url.substring_char(i, n)))
    }
}

pub open spec fn fetch_command(url: Seq<char>) -> Seq<char> {
    seq!['c', 'u', 'r', 'l', ' ', '-', 'O', ' '] + quoted(url)
}

pub open spec fn authorize_command(name: Seq<char>) -> Seq<char> {
    seq!['c', 'h', 'm', 'o', 'd', ' ', '+', 'x', ' '] + quoted(name)
}

pub open spec fn execute_command(name: Seq<char>) -> Seq<char> {
    seq!['.', '/'] + quoted(name)
}

/// The command that downloads the script into the working directory.
pub fn fetch_command_for(url: &str) -> (r: String)
    ensures
        r@ == fetch_command(url@),
{
    proof {
        reveal_strlit("curl -O ");
    }
    let q = shell_quote(url);
    let mut c = String::from_str("curl -O ");
    c.append(q.as_str());
    assert(c@ =~= fetch_command(url@));
    c
}

/// The command that makes the downloaded script executable.
pub fn authorize_command_for(name: &str) -> (r: String)
    ensures
        r@ == authorize_command(name@),
{
    proof {
        reveal_strlit("chmod +x ");
    }
    let q = shell_quote(name);
    let mut c = String::from_str("chmod +x ");
    c.append(q.as_str());
    assert(c@ =~= authorize_command(name@));
    c
}

/// The command that runs the downloaded script.
pub fn execute_command_for(name: &str) -> (r: String)
    ensures
        r@ == execute_command(name@),
{
    proof {
        reveal_strlit("./");
    }
    let q = shell_quote(name);
    let mut c = String::from_str("./");
    c.append(q.as_str());
    assert(c@ =~= execute_command(name@));
    c
}

pub open spec fn is_active(p: DeployPhase) -> bool {
    match p {
        DeployPhase::Fetching | DeployPhase::Authorizing | DeployPhase::Executing => true,
        _ => false,
    }
}

/// The transition table: a zero exit moves on to the next step; a nonzero
/// exit or a channel fault fails with the error of the step that ran; the
/// end phases never change.
pub open spec fn next_phase(p: DeployPhase, outcome: Result<i32, ChannelError>) -> DeployPhase {
    match p {
        DeployPhase::Fetching => match outcome {
            Ok(0) => DeployPhase::Authorizing,
            Ok(_) => DeployPhase::Failed(DeployError::DownloadFailed),
            Err(_) => DeployPhase::Failed(DeployError::ChannelFailed),
        },
        DeployPhase::Authorizing => match outcome {
            Ok(0) => DeployPhase::Executing,
            Ok(_) => DeployPhase::Failed(DeployError::PermissionFailed),
            Err(_) => DeployPhase::Failed(DeployError::ChannelFailed),
        },
        DeployPhase::Executing => match outcome {
            Ok(0) => DeployPhase::Done,
            Ok(_) => DeployPhase::Failed(DeployError::ExecutionFailed),
            Err(_) => DeployPhase::Failed(DeployError::ChannelFailed),
        },
        _ => p,
    }
}

/// The phase reached from the start after the given step outcomes.
pub open spec fn phase_after(outcomes: Seq<Result<i32, ChannelError>>) -> DeployPhase
    decreases outcomes.len(),
{
    if outcomes.len() == 0 {
        DeployPhase::Fetching
    } else {
        next_phase(phase_after(outcomes.drop_last()), outcomes.last())
    }
}

/// Takes one step of the transition table.
pub fn advance(p: DeployPhase, outcome: Result<i32, ChannelError>) -> (r: DeployPhase)
    ensures
        r == next_phase(p, outcome),
{
    match p {
        DeployPhase::Fetching => match outcome {
            Ok(0) => DeployPhase::Authorizing,
            Ok(_) => DeployPhase::Failed(DeployError::DownloadFailed),
            Err(_) => DeployPhase::Failed(DeployError::ChannelFailed),
        },
        DeployPhase::Authorizing => match outcome {
            Ok(0) => DeployPhase::Executing,
            Ok(_) => DeployPhase::Failed(DeployError::PermissionFailed),
            Err(_) => DeployPhase::Failed(DeployError::ChannelFailed),
        },
        DeployPhase::Executing => match outcome {
            Ok(0) => DeployPhase::Done,
            Ok(_) => DeployPhase::Failed(DeployError::ExecutionFailed),
            Err(_) => DeployPhase::Failed(DeployError::ChannelFailed),
        },
        _ => p,
    }
}

/// The command that an active phase runs.
pub open spec fn command_of(p: DeployPhase, url: Seq<char>) -> Seq<char> {
    match p {
        DeployPhase::Fetching => fetch_command(url),
        DeployPhase::Authorizing => authorize_command(file_name_of(url)),
        _ => execute_command(file_name_of(url)),
    }
}

/// What the deployment on one host did: the commands it ran, in order, the
/// outcome of each, and its result.
pub struct HostReport {
    pub commands: Vec<String>,
    pub outcomes: Vec<Result<i32, ChannelError>>,
    pub result: Result<(), HostError>,
}

pub open spec fn result_of(p: DeployPhase) -> Result<(), HostError> {
    match p {
        DeployPhase::Failed(e) => Err(HostError::Deploy(e)),
        _ => Ok(()),
    }
}

/// The `i`-th command ran in a phase that still had a step to run, and is
/// the command of that phase.
pub open spec fn step_as_planned(
    url: Seq<char>,
    commands: Seq<String>,
    outcomes: Seq<Result<i32, ChannelError>>,
    i: int,
) -> bool {
    &&& is_active(phase_after(outcomes.take(i)))
    &&& commands[i]@ == command_of(phase_after(outcomes.take(i)), url)
}

/// The report is the fail-fast sequence for `url`: nothing runs for a URL
/// without a file name; otherwise each command is the one of the phase that
/// the earlier outcomes reached, it stops exactly when an end phase is
/// reached, and the result is that phase's.
pub open spec fn follows_sequence(url: Seq<char>, r: HostReport) -> bool {
    if file_name_of(url).len() == 0 {
        &&& r.commands@.len() == 0
        &&& r.outcomes@.len() == 0
        &&& r.result == Err::<(), HostError>(HostError::Deploy(DeployError::InvalidScriptUrl))
    } else {
        &&& r.commands@.len() == r.outcomes@.len()
        &&& forall|i: int|
            0 <= i < r.commands@.len() ==> #[trigger] step_as_planned(
                url,
                r.commands@,
                r.outcomes@,
                i,
            )
        &&& !is_active(phase_after(r.outcomes@))
        &&& r.result == result_of(phase_after(r.outcomes@))
    }
}

pub open spec fn rank(p: DeployPhase) -> nat {
    match p {
        DeployPhase::Fetching => 3,
        DeployPhase::Authorizing => 2,
        DeployPhase::Executing => 1,
        _ => 0,
    }
}

/// Runs fetch, authorize and execute over an open session, in that order,
/// stopping at the first that fails.
pub fn download_and_run_script<E: RemoteExecutor>(exec: &mut E, script_url: &str) -> (r: HostReport)
    ensures
        follows_sequence(script_url@, r),
{
    let mut commands: Vec<String> = Vec::new();
    let mut outcomes: Vec<Result<i32, ChannelError>> = Vec::new();
    let name = match script_file_name(script_url) {
        Ok(name) => name,
        Err(e) => {
            return HostReport { commands, outcomes, result: Err(HostError::Deploy(e)) };
        },
    };
    let mut phase = DeployPhase::Fetching;
    while is_active_phase(phase)
        invariant
            name@ == file_name_of(script_url@),
            phase == phase_after(outcomes@),
            commands@.len() == outcomes@.len(),
            forall|i: int|
                0 <= i < commands@.len() ==> #[trigger] step_as_planned(
                    script_url@,
                    commands@,
                    outcomes@,
                    i,
                ),
        decreases rank(phase),
    {
        let command = match phase {
            DeployPhase::Fetching => fetch_command_for(script_url),
            DeployPhase::Authorizing => authorize_command_for(name.as_str()),
            _ => execute_command_for(name.as_str()),
        };
        assert(command@ == command_of(phase, script_url@));
        let outcome = exec.run_step(command.as_str());
        let ghost before = outcomes@;
        let ghost before_commands = commands@;
        commands.push(command);
        outcomes.push(outcome);
        proof {
            assert(outcomes@.drop_last() =~= before);
            assert(outcomes@.take(before.len() as int) =~= before);
            assert forall|i: int| 0 <= i < commands@.len() implies #[trigger] step_as_planned(
                script_url@,
                commands@,
                outcomes@,
                i,
            ) by {
                if i < before.len() {
                    assert(outcomes@.take(i) =~= before.take(i));
                    assert(commands@[i] == before_commands[i]);
                    assert(step_as_planned(script_url@, before_commands, before, i));
                } else {
                    assert(i == before.len());
                    assert(outcomes@.take(i) == before);
                    assert(phase_after(outcomes@.take(i)) == phase);
                    assert(commands@[i]@ == command_of(phase, script_url@));
                }
            }
        }
        phase = advance(phase, outcome);
    }
    assert(outcomes@.take(outcomes@.len() as int) =~= outcomes@);
    let result = match phase {
        DeployPhase::Failed(e) => Err(HostError::Deploy(e)),
        _ => Ok(()),
    };
    HostReport { commands, outcomes, result }
}

/// Whether the phase still has a step to run.
pub fn is_active_phase(p: DeployPhase) -> (r: bool)
    ensures
        r == is_active(p),
{
    match p {
        DeployPhase::Fetching | DeployPhase::Authorizing | DeployPhase::Executing => true,
        _ => false,
    }
}

} // verus!
