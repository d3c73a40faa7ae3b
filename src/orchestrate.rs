//! Choosing what a run acts on, running the deployment on every target
//! independently, and summarizing the outcomes.
use vstd::prelude::*;
use crate::address::{AddressError, ExecutionTarget, address_of, parse_address};
use crate::deploy::{
    ChannelError,
    DeployError,
    DeployPhase,
    HostError,
    HostReport,
    RemoteExecutor,
    authorize_command,
    download_and_run_script,
    execute_command,
    fetch_command,
    file_name_of,
    command_of,
    follows_sequence,
    is_active,
    next_phase,
    phase_after,
    script_file_name,
    step_as_planned,
};

verus! {

/// What the operator asked for.
pub struct RunConfig {
    /// Deploy to every host of the inventory that is up and has a port.
    pub all: bool,
    /// One explicit `host:port` target; takes precedence over `all`.
    pub address: Option<String>,
    /// Where the script is fetched from.
    pub script_url: String,
}

/// The set of hosts that a run acts on.
pub enum RunPlan {
    /// The one target given explicitly.
    Single(ExecutionTarget),
    /// The hosts of the inventory.
    Inventory,
}

/// A configuration that no run can start from.
#[derive(Debug, Clone, Copy, PartialEq, Eq, Structural)]
pub enum ConfigError {
    /// The explicit address is malformed.
    InvalidAddress(AddressError),
    /// The script URL has no file name after its last `/`.
    InvalidScriptUrl,
    /// Neither an address nor `all` was given.
    NoTarget,
}

/// The plan for a configuration: the script URL must name a file; then an
/// explicit address is used alone, else `all` selects the inventory, else
/// nothing was chosen.
pub open spec fn plan_matches(
    url: Seq<char>,
    all: bool,
    address: Option<Seq<char>>,
    r: Result<RunPlan, ConfigError>,
) -> bool {
    if file_name_of(url).len() == 0 {
        r == Err::<RunPlan, ConfigError>(ConfigError::InvalidScriptUrl)
    } else {
        match address {
            Some(a) => match (address_of(a), r) {
                (Ok((h, p)), Ok(RunPlan::Single(t))) => t.host@ == h && t.port == p,
                (Err(e), Err(f)) => f == ConfigError::InvalidAddress(e),
                _ => false,
            },
            None => if all {
                r matches Ok(RunPlan::Inventory)
            } else {
                r == Err::<RunPlan, ConfigError>(ConfigError::NoTarget)
            },
        }
    }
}

/// Decides, before any network action, what a run acts on.
pub fn plan_run(config: &RunConfig) -> (r: Result<RunPlan, ConfigError>)
    ensures
        plan_matches(
            config.script_url@,
            config.all,
            match config.address {
                Some(a) => Some(a@),
                None => None,
            },
            r,
        ),
{
    if script_file_name(config.script_url.as_str()).is_err() {
        return Err(ConfigError::InvalidScriptUrl);
    }
    match &config.address {
        Some(a) => match parse_address(a.as_str()) {
            Ok(t) => Ok(RunPlan::Single(t)),
            Err(e) => Err(ConfigError::InvalidAddress(e)),
        },
        None => if config.all {
            Ok(RunPlan::Inventory)
        } else {
            Err(ConfigError::NoTarget)
        },
    }
}

/// What one host's report may be: the connection was refused before any
/// command ran, or the fail-fast sequence ran over the open session.
pub open spec fn host_follows(url: Seq<char>, r: HostReport) -> bool {
    ||| follows_sequence(url, r)
    ||| {
        &&& file_name_of(url).len() > 0
        &&& r.commands@.len() == 0
        &&& r.outcomes@.len() == 0
        &&& r.result matches Err(HostError::Connect(_))
    }
}

/// Deploys the script to one target: refuses a URL without a file name
/// before connecting, opens the session, runs the sequence, releases it.
pub fn execute_script<E: RemoteExecutor>(
    exec: &mut E,
    target: &ExecutionTarget,
    script_url: &str,
) -> (r: HostReport)
    ensures
        host_follows(script_url@, r),
{
    if let Err(e) = script_file_name(script_url) {
        return HostReport {
            commands: Vec::new(),
            outcomes: Vec::new(),
            result: Err(HostError::Deploy(e)),
        };
    }
    match exec.connect(target) {
        Err(e) => HostReport {
            commands: Vec::new(),
            outcomes: Vec::new(),
            result: Err(HostError::Connect(e)),
        },
        Ok(()) => {
            let r = download_and_run_script(exec, script_url);
            exec.disconnect();
            r
        },
    }
}

/// The report of one slot of the target list: an unusable address is
/// reported without any remote action; a target is deployed to.
pub open spec fn slot_reported(
    url: Seq<char>,
    slot: Result<ExecutionTarget, AddressError>,
    r: HostReport,
) -> bool {
    match slot {
        Err(e) => {
            &&& r.commands@.len() == 0
            &&& r.outcomes@.len() == 0
            &&& r.result == Err::<(), HostError>(HostError::Address(e))
        },
        Ok(_) => host_follows(url, r),
    }
}

/// Deploys to every target in turn, one report per target in the same
/// order; what happens on one host never stops the others.
pub fn run_all<E: RemoteExecutor>(
    exec: &mut E,
    targets: &Vec<Result<ExecutionTarget, AddressError>>,
    script_url: &str,
) -> (r: Vec<HostReport>)
    ensures
        r@.len() == targets@.len(),
        forall|i: int|
            0 <= i < r@.len() ==> slot_reported(script_url@, targets@[i], #[trigger] r@[i]),
{
    let mut reports: Vec<HostReport> = Vec::new();
    let n = targets.len();
    let mut k: usize = 0;
    while k < n
        invariant
            n == targets@.len(),
            k <= n,
            reports@.len() == k,
            forall|i: int|
                0 <= i < k ==> slot_reported(script_url@, targets@[i], #[trigger] reports@[i]),
        decreases n - k,
    {
        let report = match &targets[k] {
            Err(e) => HostReport {
                commands: Vec::new(),
                outcomes: Vec::new(),
                result: Err(HostError::Address(*e)),
            },
            Ok(t) => execute_script(exec, t, script_url),
        };
        reports.push(report);
        k = k + 1;
    }
    reports
}

pub open spec fn success_count(s: Seq<HostReport>) -> nat
    decreases s.len(),
{
    if s.len() == 0 {
        0
    } else {
        success_count(s.drop_last()) + if s.last().result is Ok {
            1nat
        } else {
            0nat
        }
    }
}

pub open spec fn failure_count(s: Seq<HostReport>) -> nat
    decreases s.len(),
{
    if s.len() == 0 {
        0
    } else {
        failure_count(s.drop_last()) + if s.last().result is Ok {
            0nat
        } else {
            1nat
        }
    }
}

/// How many hosts were deployed to and how many failed.
#[derive(Debug, Clone, Copy, PartialEq, Eq, Structural)]
pub struct RunSummary {
    pub succeeded: usize,
    pub failed: usize,
}

/// Counts the successful and the failed hosts of a run.
pub fn summarize(reports: &Vec<HostReport>) -> (r: RunSummary)
    ensures
        r.succeeded == success_count(reports@),
        r.failed == failure_count(reports@),
{
    let mut succeeded: usize = 0;
    let mut failed: usize = 0;
    let n = reports.len();
    let mut k: usize = 0;
    while k < n
        invariant
            n == reports@.len(),
            k <= n,
            succeeded == success_count(reports@.subrange(0, k as int)),
            failed == failure_count(reports@.subrange(0, k as int)),
            succeeded + failed == k,
        decreases n - k,
    {
        proof {
            lemma_every_host_counted(reports@.subrange(0, k as int + 1));
            assert(reports@.subrange(0, k as int + 1).drop_last() =~= reports@.subrange(
                0,
                k as int,
            ));
        }
        if reports[k].result.is_ok() {
            succeeded = succeeded + 1;
        } else {
            failed = failed + 1;
        }
        k = k + 1;
    }
    assert(reports@.subrange(0, n as int) =~= reports@);
    RunSummary { succeeded, failed }
}

/// Every host of a run is counted once, as a success or as a failure.
pub proof fn lemma_every_host_counted(s: Seq<HostReport>)
    ensures
        success_count(s) + failure_count(s) == s.len(),
    decreases s.len(),
{
    if s.len() > 0 {
        lemma_every_host_counted(s.drop_last());
    }
}

/// A failed fetch ends the sequence: only the fetch command ran, and the
/// host fails with a download or channel error.
pub proof fn lemma_failed_fetch_stops(url: Seq<char>, r: HostReport)
    requires
        follows_sequence(url, r),
        r.outcomes@.len() > 0,
        r.outcomes@[0] != Ok::<i32, ChannelError>(0),
    ensures
        r.commands@.len() == 1,
        r.result == Err::<(), HostError>(HostError::Deploy(DeployError::DownloadFailed))
            || r.result == Err::<(), HostError>(HostError::Deploy(DeployError::ChannelFailed)),
{
    let o = r.outcomes@;
    assert(o.take(1).drop_last() =~= o.take(0));
    assert(o.take(0) =~= Seq::<Result<i32, ChannelError>>::empty());
    assert(!is_active(phase_after(o.take(1))));
    if r.commands@.len() > 1 {
        assert(step_as_planned(url, r.commands@, o, 1));
    }
    assert(o.len() == 1);
    assert(o.take(1) =~= o);
    assert(o.drop_last() =~= Seq::<Result<i32, ChannelError>>::empty());
    assert(phase_after(o.drop_last()) == DeployPhase::Fetching);
    assert(o.last() == o[0]);
    assert(phase_after(o) == next_phase(DeployPhase::Fetching, o[0]));
}

/// Every target with a usable address is attempted: either its connection
/// was refused, or at least the fetch command ran on it.
pub proof fn lemma_target_attempted(url: Seq<char>, r: HostReport)
    requires
        host_follows(url, r),
        file_name_of(url).len() > 0,
    ensures
        r.result matches Err(HostError::Connect(_)) || r.commands@.len() >= 1,
{
    if r.commands@.len() == 0 && !(r.result matches Err(HostError::Connect(_))) {
        assert(r.outcomes@ =~= Seq::<Result<i32, ChannelError>>::empty());
        assert(phase_after(r.outcomes@) == DeployPhase::Fetching);
    }
}

/// A script URL that ends in `/` names no file: the host is refused before
/// any remote command, and before connecting.
pub proof fn lemma_trailing_slash_runs_nothing(url: Seq<char>, r: HostReport)
    requires
        url.len() > 0,
        url.last() == '/',
        host_follows(url, r),
    ensures
        r.commands@.len() == 0,
        r.result == Err::<(), HostError>(HostError::Deploy(DeployError::InvalidScriptUrl)),
{
    assert(file_name_of(url).len() == 0);
}

/// The phase in which the `i`-th step of an uninterrupted sequence runs.
pub open spec fn step_phase(i: int) -> DeployPhase {
    if i == 0 {
        DeployPhase::Fetching
    } else if i == 1 {
        DeployPhase::Authorizing
    } else {
        DeployPhase::Executing
    }
}

/// Every step of a report but the last ran after earlier steps that all
/// exited 0, in the phase of its position.
proof fn lemma_prefix_phases(url: Seq<char>, r: HostReport, i: int)
    requires
        follows_sequence(url, r),
        file_name_of(url).len() > 0,
        0 <= i < r.outcomes@.len(),
    ensures
        i <= 2,
        phase_after(r.outcomes@.take(i)) == step_phase(i),
        forall|j: int| 0 <= j < i ==> r.outcomes@[j] == Ok::<i32, ChannelError>(0),
    decreases i,
{
    let o = r.outcomes@;
    if i == 0 {
        assert(o.take(0) =~= Seq::<Result<i32, ChannelError>>::empty());
    } else {
        lemma_prefix_phases(url, r, i - 1);
        assert(o.take(i).drop_last() =~= o.take(i - 1));
        assert(o.take(i).last() == o[i - 1]);
        assert(step_as_planned(url, r.commands@, o, i));
        assert(is_active(next_phase(step_phase(i - 1), o[i - 1])));
    }
}

/// A host succeeds only when fetch, authorize and execute all ran, in that
/// order, and each exited 0.
pub proof fn lemma_success_ran_every_step(url: Seq<char>, r: HostReport)
    requires
        host_follows(url, r),
        r.result is Ok,
    ensures
        r.commands@.len() == 3,
        forall|j: int| 0 <= j < 3 ==> r.outcomes@[j] == Ok::<i32, ChannelError>(0),
        r.commands@[0]@ == fetch_command(url),
        r.commands@[1]@ == authorize_command(file_name_of(url)),
        r.commands@[2]@ == execute_command(file_name_of(url)),
{
    let o = r.outcomes@;
    let n = o.len() as int;
    if n == 0 {
        assert(o =~= Seq::<Result<i32, ChannelError>>::empty());
        assert(phase_after(o) == DeployPhase::Fetching);
    }
    lemma_prefix_phases(url, r, n - 1);
    assert(o.drop_last() =~= o.take(n - 1));
    assert(phase_after(o) == next_phase(step_phase(n - 1), o[n - 1]));
    assert(n == 3);
    assert forall|i: int| 0 <= i < 3 implies r.commands@[i]@ == command_of_step(url, i) by {
        lemma_prefix_phases(url, r, i);
        assert(step_as_planned(url, r.commands@, o, i));
    }
    assert(r.commands@[0]@ == command_of_step(url, 0));
    assert(r.commands@[1]@ == command_of_step(url, 1));
    assert(r.commands@[2]@ == command_of_step(url, 2));
}

/// The command of the `i`-th step of an uninterrupted sequence.
pub open spec fn command_of_step(url: Seq<char>, i: int) -> Seq<char> {
    command_of(step_phase(i), url)
}

} // verus!
