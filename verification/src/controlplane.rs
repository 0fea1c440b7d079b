//! The control planes of all devices, as one injected snapshot.
//!
//! Every device with a network address may answer a liveness probe, a
//! status query, or a zone-list query.  The engine never performs transport
//! itself; it reads this snapshot, which records what each address would
//! answer.  An address without an entry behaves as unreachable, so the
//! snapshot is total: every query has an outcome.

use vstd::prelude::*;

use crate::alist::AList;
use crate::device::TvState;
use crate::sqlsprinkler::{Zone, ZoneV};

verus! {

/// Outcome of one control-plane query: an answer, a transport failure
/// (unreachable, refused, timed out), or a payload that could not be read.
#[derive(Clone, Copy, Debug)]
pub enum Answer<T> {
    Value(T),
    Transport,
    Malformed,
}

impl<T: DeepView> DeepView for Answer<T> {
    type V = Answer<T::V>;

    open spec fn deep_view(&self) -> Answer<T::V> {
        match self {
            Answer::Value(t) => Answer::Value(t.deep_view()),
            Answer::Transport => Answer::Transport,
            Answer::Malformed => Answer::Malformed,
        }
    }
}

/// What every network address would answer right now.
pub struct ControlPlane {
    probes: AList<bool>,
    host_states: AList<Answer<bool>>,
    zone_lists: AList<Answer<Vec<Zone>>>,
    battery_payloads: AList<Answer<String>>,
    tv_payloads: AList<Answer<TvState>>,
}

/// Mathematical value of a `ControlPlane`.
pub ghost struct CpV {
    pub probes: Map<Seq<char>, bool>,
    pub host_states: Map<Seq<char>, Answer<bool>>,
    pub zone_lists: Map<Seq<char>, Answer<Seq<ZoneV>>>,
    pub battery_payloads: Map<Seq<char>, Answer<Seq<char>>>,
    pub tv_payloads: Map<Seq<char>, Answer<TvState>>,
}

impl View for ControlPlane {
    type V = CpV;

    closed spec fn view(&self) -> CpV {
        CpV {
            probes: self.probes.map(),
            host_states: self.host_states.map(),
            zone_lists: self.zone_lists.map(),
            battery_payloads: self.battery_payloads.map(),
            tv_payloads: self.tv_payloads.map(),
        }
    }
}

/// Whether a liveness probe of `ip` succeeds: known and reachable.
pub open spec fn spec_probe(cp: CpV, ip: Seq<char>) -> bool {
    cp.probes.contains_key(ip) && cp.probes[ip]
}

/// What a query of the host's aggregate on/off state answers.
pub open spec fn spec_host_state(cp: CpV, ip: Seq<char>) -> Answer<bool> {
    if cp.host_states.contains_key(ip) {
        cp.host_states[ip]
    } else {
        Answer::Transport
    }
}

/// What a query of the host's zone list answers.
pub open spec fn spec_zone_list(cp: CpV, ip: Seq<char>) -> Answer<Seq<ZoneV>> {
    if cp.zone_lists.contains_key(ip) {
        cp.zone_lists[ip]
    } else {
        Answer::Transport
    }
}

/// What a battery status query answers.
pub open spec fn spec_battery_payload(cp: CpV, ip: Seq<char>) -> Answer<Seq<char>> {
    if cp.battery_payloads.contains_key(ip) {
        cp.battery_payloads[ip]
    } else {
        Answer::Transport
    }
}

/// What a television status query answers.
pub open spec fn spec_tv_payload(cp: CpV, ip: Seq<char>) -> Answer<TvState> {
    if cp.tv_payloads.contains_key(ip) {
        cp.tv_payloads[ip]
    } else {
        Answer::Transport
    }
}

/// The zone list with the state of every zone whose id is `id` set to
/// `state`, order kept.
pub open spec fn spec_toggle_zones(zs: Seq<ZoneV>, id: int, state: bool) -> Seq<ZoneV> {
    Seq::new(
        zs.len(),
        |i: int|
            if zs[i].id == id {
                ZoneV { state, ..zs[i] }
            } else {
                zs[i]
            },
    )
}

impl ControlPlane {
    /// All five tables have unique keys.
    pub closed spec fn wf(&self) -> bool {
        &&& self.probes.wf()
        &&& self.host_states.wf()
        &&& self.zone_lists.wf()
        &&& self.battery_payloads.wf()
        &&& self.tv_payloads.wf()
    }

    /// A snapshot in which every address is unreachable.
    pub fn new() -> (r: ControlPlane)
        ensures
            r.wf(),
            r@.probes == Map::<Seq<char>, bool>::empty(),
            r@.host_states == Map::<Seq<char>, Answer<bool>>::empty(),
            r@.zone_lists == Map::<Seq<char>, Answer<Seq<ZoneV>>>::empty(),
            r@.battery_payloads == Map::<Seq<char>, Answer<Seq<char>>>::empty(),
            r@.tv_payloads == Map::<Seq<char>, Answer<TvState>>::empty(),
    {
        ControlPlane {
            probes: AList::new(),
            host_states: AList::new(),
            zone_lists: AList::new(),
            battery_payloads: AList::new(),
            tv_payloads: AList::new(),
        }
    }

    /// Records whether a probe of `ip` succeeds.
    pub fn set_probe(&mut self, ip: &String, reachable: bool)
        requires
            old(self).wf(),
        ensures
            final(self).wf(),
            final(self)@ == (CpV { probes: old(self)@.probes.insert(ip@, reachable), ..old(self)@ }),
    {
        self.probes.set(ip, reachable);
    }

    /// Records what a host-state query of `ip` answers.
    pub fn set_host_state(&mut self, ip: &String, answer: Answer<bool>)
        requires
            old(self).wf(),
        ensures
            final(self).wf(),
            final(self)@ == (CpV {
                host_states: old(self)@.host_states.insert(ip@, answer),
                ..old(self)@
            }),
    {
        self.host_states.set(ip, answer);
    }

    /// Records what a zone-list query of `ip` answers.
    pub fn set_zone_list(&mut self, ip: &String, answer: Answer<Vec<Zone>>)
        requires
            old(self).wf(),
        ensures
            final(self).wf(),
            final(self)@ == (CpV {
                zone_lists: old(self)@.zone_lists.insert(ip@, answer.deep_view()),
                ..old(self)@
            }),
    {
        self.zone_lists.set(ip, answer);
    }

    /// Records what a battery status query of `ip` answers.
    pub fn set_battery_payload(&mut self, ip: &String, answer: Answer<String>)
        requires
            old(self).wf(),
        ensures
            final(self).wf(),
            final(self)@ == (CpV {
                battery_payloads: old(self)@.battery_payloads.insert(ip@, answer.deep_view()),
                ..old(self)@
            }),
    {
        self.battery_payloads.set(ip, answer);
    }

    /// Records what a television status query of `ip` answers.
    pub fn set_tv_payload(&mut self, ip: &String, answer: Answer<TvState>)
        requires
            old(self).wf(),
        ensures
            final(self).wf(),
            final(self)@ == (CpV {
                tv_payloads: old(self)@.tv_payloads.insert(ip@, answer.deep_view()),
                ..old(self)@
            }),
    {
        self.tv_payloads.set(ip, answer);
    }

    /// Probes `ip` for liveness.
    pub fn probe(&self, ip: &String) -> (r: bool)
        requires
            self.wf(),
        ensures
            r == spec_probe(self@, ip@),
    {
        match self.probes.get(ip) {
            Some(b) => *b,
            None => false,
        }
    }

    /// Queries the aggregate on/off state of the host at `ip`.
    pub fn host_state(&self, ip: &String) -> (r: Answer<bool>)
        requires
            self.wf(),
        ensures
            r == spec_host_state(self@, ip@),
    {
        match self.host_states.get(ip) {
            Some(a) => *a,
            None => Answer::Transport,
        }
    }

    /// Queries the zone list of the host at `ip`.
    pub fn zone_list(&self, ip: &String) -> (r: Answer<Vec<Zone>>)
        requires
            self.wf(),
        ensures
            r.deep_view() == spec_zone_list(self@, ip@),
    {
        match self.zone_lists.get(ip) {
            Some(a) => match a {
                Answer::Value(zs) => {
                    let mut copy: Vec<Zone> = Vec::new();
                    let mut i: usize = 0;
                    while i < zs.len()
                        invariant
                            i <= zs@.len(),
                            copy@.len() == i,
                            forall|j: int| 0 <= j < i ==> #[trigger] copy@[j]@ == zs@[j]@,
                        decreases zs@.len() - i,
                    {
                        copy.push(zs[i].clone());
                        i = i + 1;
                    }
                    proof {
                        assert(copy.deep_view() =~= zs.deep_view());
                    }
                    Answer::Value(copy)
                },
                Answer::Transport => Answer::Transport,
                Answer::Malformed => Answer::Malformed,
            },
            None => Answer::Transport,
        }
    }

    /// Queries the status payload of the battery at `ip`.
    pub fn battery_payload(&self, ip: &String) -> (r: Answer<String>)
        requires
            self.wf(),
        ensures
            r.deep_view() == spec_battery_payload(self@, ip@),
    {
        match self.battery_payloads.get(ip) {
            Some(a) => match a {
                Answer::Value(s) => Answer::Value(s.clone()),
                Answer::Transport => Answer::Transport,
                Answer::Malformed => Answer::Malformed,
            },
            None => Answer::Transport,
        }
    }

    /// Queries the status of the television at `ip`.
    pub fn tv_payload(&self, ip: &String) -> (r: Answer<TvState>)
        requires
            self.wf(),
        ensures
            r.deep_view() == spec_tv_payload(self@, ip@),
    {
        match self.tv_payloads.get(ip) {
            Some(a) => *a,
            None => Answer::Transport,
        }
    }
}

} // verus!
