//! The plan that prepares the operator's machine and copies the client
//! binary to a host: what to install locally, then what to transfer.
use vstd::prelude::*;
use crate::address::{has_char, split_ip_port};

verus! {

/// A local program that the transfer needs.
#[derive(Debug, Clone, Copy, PartialEq, Eq, Structural)]
pub enum Dependency {
    /// The client binary, built from its source repository.
    Client,
    /// `git`, from the system's package manager.
    Git,
    /// `rsync`, from the system's package manager.
    Rsync,
}

/// Which of the local programs are already present.
#[derive(Debug, Clone, Copy, PartialEq, Eq, Structural)]
pub struct LocalTools {
    pub client_installed: bool,
    pub git_installed: bool,
    pub rsync_installed: bool,
}

/// One local action of the plan.
pub enum InstallAction {
    /// Install a missing program.
    Install(Dependency),
    /// Copy the client binary to `ip`, over a remote shell on port `port`.
    Transfer { ip: String, port: String },
}

/// The programs to install, in order: the client first, then git, then rsync;
/// each only when it is missing.
pub open spec fn missing_dependencies(t: LocalTools) -> Seq<Dependency> {
    (if t.client_installed {
        Seq::empty()
    } else {
        seq![Dependency::Client]
    }) + (if t.git_installed {
        Seq::empty()
    } else {
        seq![Dependency::Git]
    }) + (if t.rsync_installed {
        Seq::empty()
    } else {
        seq![Dependency::Rsync]
    })
}

/// Plans the preparation of the local machine and the transfer to `addr`:
/// the missing programs are installed, then, when `addr` holds a `:`, the
/// binary is sent to the host before it over the port after it.
pub fn install_on_machine(addr: &str, tools: LocalTools) -> (r: Vec<InstallAction>)
    ensures
        r@.len() == missing_dependencies(tools).len() + if has_char(addr@, ':') {
            1int
        } else {
            0int
        },
        forall|i: int|
            0 <= i < missing_dependencies(tools).len() ==> #[trigger] r@[i]
                == InstallAction::Install(missing_dependencies(tools)[i]),
        has_char(addr@, ':') ==> (r@.last() matches InstallAction::Transfer { ip, port } && ip@
            + seq![':'] + port@ == addr@ && !has_char(ip@, ':')),
{
    let mut plan: Vec<InstallAction> = Vec::new();
    if !tools.client_installed {
        plan.push(InstallAction::Install(Dependency::Client));
    }
    if !tools.git_installed {
        plan.push(InstallAction::Install(Dependency::Git));
    }
    if !tools.rsync_installed {
        plan.push(InstallAction::Install(Dependency::Rsync));
    }
    let ghost prepared = plan@;
    assert(prepared.len() == missing_dependencies(tools).len());
    assert(forall|i: int|
        0 <= i < prepared.len() ==> prepared[i] == InstallAction::Install(
            missing_dependencies(tools)[i],
        ));
    if let Some((ip, port)) = split_ip_port(addr) {
        plan.push(InstallAction::Transfer { ip, port });
        assert(forall|i: int| 0 <= i < prepared.len() ==> plan@[i] == prepared[i]);
    }
    plan
}

/// The remote-shell argument of the transfer: `ssh -p <port>`.
pub fn transfer_shell(port: &str) -> (r: String)
    ensures
        r@ == seq!['s', 's', 'h', ' ', '-', 'p', ' '] + port@,
{
    proof {
        reveal_strlit("ssh -p ");
    }
    let mut s = String::from_str("ssh -p ");
    s.append(port);
    s
}

/// The destination argument of the transfer: `root@<ip>:/usr/local/bin`.
pub fn transfer_destination(ip: &str) -> (r: String)
    ensures
        r@ == seq!['r', 'o', 'o', 't', '@'] + ip@ + seq![
            ':',
            '/',
            'u',
            's',
            'r',
            '/',
            'l',
            'o',
            'c',
            'a',
            'l',
            '/',
            'b',
            'i',
            'n',
        ],
{
    proof {
        reveal_strlit("root@");
        reveal_strlit(":/usr/local/bin");
    }
    let mut s = String::from_str("root@");
    s.append(ip);
    s.append(":/usr/local/bin");
    s
}

} // verus!
