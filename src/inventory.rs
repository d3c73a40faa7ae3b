//! Records of the monitoring inventory, the status filter and the choice of
//! the hosts that can be deployed to.
use vstd::prelude::*;
use crate::address::{AddressError, ExecutionTarget, parse_port, port_of};

verus! {

/// One monitored endpoint, as the inventory lists it.
pub struct Monitor {
    /// Opaque identifier given by the inventory.
    pub id: String,
    /// Resource kind tag (the inventory's `type`).
    pub type_field: String,
    pub attributes: MonitorAttributes,
}

/// The part of a monitor's record that the deployment reads.
pub struct MonitorAttributes {
    /// Address of the endpoint; used as the host to connect to.
    pub url: String,
    /// Remote shell port, as decimal text; absent when the endpoint cannot be
    /// reached remotely.
    pub port: Option<String>,
    /// Reported status, such as `up` or `down`.
    pub status: String,
}

/// The one status that makes a monitor a candidate.
pub open spec fn up_status() -> Seq<char> {
    seq!['u', 'p']
}

pub open spec fn is_up(m: Monitor) -> bool {
    m.attributes.status@ == up_status()
}

pub open spec fn has_port(m: Monitor) -> bool {
    m.attributes.port is Some
}

/// The monitors that are up, in inventory order.
pub open spec fn active(monitors: Seq<Monitor>) -> Seq<Monitor> {
    monitors.filter(|m: Monitor| is_up(m))
}

/// The monitors that have a port, in inventory order.
pub open spec fn with_port(monitors: Seq<Monitor>) -> Seq<Monitor> {
    monitors.filter(|m: Monitor| has_port(m))
}

/// Whether the monitor reports the status `up`.
pub fn monitor_is_up(m: &Monitor) -> (r: bool)
    ensures
        r == is_up(*m),
{
    let s = m.attributes.status.as_str();
    if s.unicode_len() != 2 {
        return false;
    }
    let r = s.get_char(0) == 'u' && s.get_char(1) == 'p';
    assert(r ==> s@ =~= up_status());
    r
}

/// Keeps, in their order, the monitors whose status is `up`.
pub fn list_active_monitors(monitors: Vec<Monitor>) -> (r: Vec<Monitor>)
    ensures
        r@ == active(monitors@),
{
    let ghost all = monitors@;
    let mut rest = monitors;
    let mut out: Vec<Monitor> = Vec::new();
    let mut k: usize = 0;
    let n = rest.len();
    while k < n
        invariant
            n == all.len(),
            k <= n,
            rest@ == all.subrange(k as int, n as int),
            out@ == all.subrange(0, k as int).filter(|m: Monitor| is_up(m)),
        decreases n - k,
    {
        let m = rest.remove(0);
        proof {
            let next = all.subrange(0, k as int + 1);
            assert(next.drop_last() =~= all.subrange(0, k as int));
            assert(next.last() == m);
            reveal(Seq::filter);
            assert(next.filter(|m: Monitor| is_up(m)) == if is_up(m) {
                all.subrange(0, k as int).filter(|m: Monitor| is_up(m)).push(m)
            } else {
                all.subrange(0, k as int).filter(|m: Monitor| is_up(m))
            });
            assert(rest@ =~= all.subrange(k as int + 1, n as int));
        }
        if monitor_is_up(&m) {
            out.push(m);
        }
        k = k + 1;
    }
    assert(all.subrange(0, n as int) =~= all);
    out
}

/// The target that a monitor with a port stands for, or why its port is
/// unusable.
pub open spec fn slot_of(m: Monitor) -> Result<(Seq<char>, u16), AddressError> {
    match m.attributes.port {
        Some(p) => match port_of(p@) {
            Some(n) => Ok((m.attributes.url@, n)),
            None => Err(AddressError::InvalidPort),
        },
        None => Err(AddressError::InvalidPort),
    }
}

pub open spec fn slot_matches(
    r: Result<ExecutionTarget, AddressError>,
    s: Result<(Seq<char>, u16), AddressError>,
) -> bool {
    match (r, s) {
        (Ok(t), Ok((h, p))) => t.host@ == h && t.port == p,
        (Err(e), Err(f)) => e == f,
        _ => false,
    }
}

/// One entry for each monitor that has a port, in order: its target, or an
/// error for a port that is not a number. Monitors without a port get none.
pub fn select_targets(monitors: &Vec<Monitor>) -> (r: Vec<Result<ExecutionTarget, AddressError>>)
    ensures
        r@.len() == with_port(monitors@).len(),
        forall|i: int| 0 <= i < r@.len() ==> slot_matches(#[trigger] r@[i], slot_of(with_port(monitors@)[i])),
{
    let mut out: Vec<Result<ExecutionTarget, AddressError>> = Vec::new();
    let mut k: usize = 0;
    let n = monitors.len();
    while k < n
        invariant
            n == monitors@.len(),
            k <= n,
            out@.len() == monitors@.subrange(0, k as int).filter(|m: Monitor| has_port(m)).len(),
            forall|i: int|
                0 <= i < out@.len() ==> slot_matches(
                    #[trigger] out@[i],
                    slot_of(monitors@.subrange(0, k as int).filter(|m: Monitor| has_port(m))[i]),
                ),
        decreases n - k,
    {
        let m = &monitors[k];
        let ghost pre = monitors@.subrange(0, k as int);
        let ghost next = monitors@.subrange(0, k as int + 1);
        proof {
            assert(next.drop_last() =~= pre);
            assert(next.last() == *m);
            reveal(Seq::filter);
            assert(next.filter(|m: Monitor| has_port(m)) == if has_port(*m) {
                pre.filter(|m: Monitor| has_port(m)).push(*m)
            } else {
                pre.filter(|m: Monitor| has_port(m))
            });
        }
        match &m.attributes.port {
            Some(p) => {
                let slot = match parse_port(p.as_str()) {
                    Some(port) => Ok(ExecutionTarget { host: m.attributes.url.clone(), port }),
                    None => Err(AddressError::InvalidPort),
                };
                out.push(slot);
            },
            None => {},
        }
        k = k + 1;
    }
    assert(monitors@.subrange(0, n as int) =~= monitors@);
    out
}

/// Listing is a pure filter on status: every listed monitor is up, and every
/// monitor that is up is listed.
pub proof fn lemma_listed_exactly_up(monitors: Seq<Monitor>)
    ensures
        forall|i: int| 0 <= i < active(monitors).len() ==> is_up(#[trigger] active(monitors)[i]),
        forall|i: int|
            0 <= i < monitors.len() && is_up(#[trigger] monitors[i]) ==> active(monitors).contains(
                monitors[i],
            ),
{
    broadcast use vstd::seq_lib::group_filter_ensures;

}

/// A monitor is kept for targeting as many times as it occurs in the
/// inventory when it has a port, and never when it has none.
pub proof fn lemma_port_selection_counts(monitors: Seq<Monitor>, m: Monitor)
    ensures
        with_port(monitors).to_multiset().count(m) == if has_port(m) {
            monitors.to_multiset().count(m)
        } else {
            0
        },
    decreases monitors.len(),
{
    broadcast use vstd::seq_lib::group_to_multiset_ensures;
    broadcast use vstd::multiset::group_multiset_axioms;

    reveal(Seq::filter);
    if monitors.len() == 0 {
        assert(monitors =~= Seq::<Monitor>::empty());
        assert(monitors.filter(|x: Monitor| has_port(x)) =~= Seq::<Monitor>::empty());
    } else {
        let rest = monitors.drop_last();
        lemma_port_selection_counts(rest, m);
        assert(rest.push(monitors.last()) =~= monitors);
    }
}

} // verus!
