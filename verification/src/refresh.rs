//! The live-state refresher: one strategy per device kind.
//!
//! Batteries replace their state wholesale and fail hard when the query
//! fails; televisions merge the reported fields and tolerate failure;
//! multi-zone hosts are gated on a liveness probe and fall back to the
//! false sentinel; every other kind keeps what the store holds.  The
//! refresher only computes the new record and says whether it must be
//! persisted; the resolver decides persistence.

use vstd::prelude::*;

use crate::controlplane::{
    spec_battery_payload, spec_host_state, spec_probe, spec_tv_payload, Answer, ControlPlane,
};
use crate::device::{Device, DeviceType, DeviceV, LiveState, LiveStateV, TvState};

verus! {

/// Why a resolution or refresh could not complete.
#[derive(Clone, Copy, PartialEq, Eq, Structural, Debug)]
pub enum ResolveError {
    /// A battery's status endpoint could not be reached; this kind has no
    /// tolerant fallback.
    BatteryTransport,
    /// A battery's status payload could not be read.
    BatteryMalformed,
    /// A reachable multi-zone host answered its state query with a payload
    /// that could not be read.
    HostStateMalformed,
    /// A reachable multi-zone host did not answer its zone-list query.
    ZoneListUnavailable,
}

/// What one refresh pass produced: the new record, and whether it must be
/// written back to the store.
pub ghost struct RefreshedV {
    pub device: DeviceV,
    pub persist: bool,
}

/// A television report merged into the stored state: fields the report
/// carries replace the stored ones, fields it omits keep them.  A stored
/// state of any other shape contributes nothing.
pub open spec fn spec_merge_tv(cur: LiveStateV, p: TvState) -> TvState {
    let base = match cur {
        LiveStateV::Tv(t) => t,
        _ => TvState { on: None, volume: None },
    };
    TvState {
        on: if p.on is Some {
            p.on
        } else {
            base.on
        },
        volume: if p.volume is Some {
            p.volume
        } else {
            base.volume
        },
    }
}

/// The refresh strategy for each kind, over the control-plane snapshot.
pub open spec fn spec_refresh(d: DeviceV, cp: crate::controlplane::CpV) -> Result<
    RefreshedV,
    ResolveError,
> {
    match d.kind {
        DeviceType::BATTERY => match spec_battery_payload(cp, d.ip) {
            Answer::Value(p) => Ok(
                RefreshedV { device: DeviceV { last_state: LiveStateV::Raw(p), ..d }, persist: true },
            ),
            Answer::Transport => Err(ResolveError::BatteryTransport),
            Answer::Malformed => Err(ResolveError::BatteryMalformed),
        },
        DeviceType::TV => match spec_tv_payload(cp, d.ip) {
            Answer::Value(p) => Ok(
                RefreshedV {
                    device: DeviceV {
                        last_state: LiveStateV::Tv(spec_merge_tv(d.last_state, p)),
                        ..d
                    },
                    persist: true,
                },
            ),
            _ => Ok(RefreshedV { device: d, persist: false }),
        },
        DeviceType::SqlSprinklerHost => {
            if !spec_probe(cp, d.ip) {
                Ok(
                    RefreshedV {
                        device: DeviceV { last_state: LiveStateV::Bool(false), ..d },
                        persist: false,
                    },
                )
            } else {
                match spec_host_state(cp, d.ip) {
                    Answer::Value(b) => Ok(
                        RefreshedV {
                            device: DeviceV { last_state: LiveStateV::Bool(b), ..d },
                            persist: true,
                        },
                    ),
                    Answer::Transport => Ok(
                        RefreshedV {
                            device: DeviceV { last_state: LiveStateV::Bool(false), ..d },
                            persist: true,
                        },
                    ),
                    Answer::Malformed => Err(ResolveError::HostStateMalformed),
                }
            }
        },
        _ => Ok(RefreshedV { device: d, persist: false }),
    }
}

/// A refresh never changes anything but the live state.
pub proof fn lemma_refresh_preserves_identity(d: DeviceV, cp: crate::controlplane::CpV)
    ensures
        spec_refresh(d, cp) matches Ok(r) ==> r.device == (DeviceV {
            last_state: r.device.last_state,
            ..d
        }),
{
}

/// Law: refreshing is idempotent under one control-plane snapshot.  A
/// record a successful refresh produced refreshes to itself, with the same
/// persistence decision.
pub proof fn lemma_refresh_idempotent(d: DeviceV, cp: crate::controlplane::CpV)
    ensures
        spec_refresh(d, cp) matches Ok(r) ==> spec_refresh(r.device, cp) == Ok::<
            RefreshedV,
            ResolveError,
        >(r),
{
    match spec_refresh(d, cp) {
        Ok(r) => {
            match d.kind {
                DeviceType::TV => {
                    match spec_tv_payload(cp, d.ip) {
                        Answer::Value(p) => {
                            assert(spec_merge_tv(r.device.last_state, p) == spec_merge_tv(
                                d.last_state,
                                p,
                            ));
                            assert(spec_refresh(r.device, cp) == Ok::<RefreshedV, ResolveError>(r));
                        },
                        _ => {
                            assert(spec_refresh(r.device, cp) == Ok::<RefreshedV, ResolveError>(r));
                        },
                    }
                },
                _ => {
                    assert(spec_refresh(r.device, cp) == Ok::<RefreshedV, ResolveError>(r));
                },
            }
        },
        Err(_) => {},
    }
}

fn merge_tv(cur: &LiveState, p: TvState) -> (r: TvState)
    ensures
        r == spec_merge_tv(cur@, p),
{
    let base = match cur {
        LiveState::Tv(t) => *t,
        _ => TvState { on: None, volume: None },
    };
    TvState {
        on: if p.on.is_some() {
            p.on
        } else {
            base.on
        },
        volume: if p.volume.is_some() {
            p.volume
        } else {
            base.volume
        },
    }
}

/// Applies the kind's refresh strategy to `dev` and says whether the new
/// record must be persisted.
pub(crate) fn refresh_device(dev: Device, cp: &ControlPlane) -> (r: Result<
    (Device, bool),
    ResolveError,
>)
    requires
        cp.wf(),
    ensures
        match r {
            Ok(dp) => spec_refresh(dev@, cp@) == Ok::<RefreshedV, ResolveError>(
                RefreshedV { device: dp.0@, persist: dp.1 },
            ),
            Err(e) => spec_refresh(dev@, cp@) == Err::<RefreshedV, ResolveError>(e),
        },
{
    let mut dev = dev;
    match dev.kind {
        DeviceType::BATTERY => match cp.battery_payload(&dev.ip) {
            Answer::Value(p) => {
                dev.last_state = LiveState::Raw(p);
                Ok((dev, true))
            },
            Answer::Transport => Err(ResolveError::BatteryTransport),
            Answer::Malformed => Err(ResolveError::BatteryMalformed),
        },
        DeviceType::TV => match cp.tv_payload(&dev.ip) {
            Answer::Value(p) => {
                let merged = merge_tv(&dev.last_state, p);
                dev.last_state = LiveState::Tv(merged);
                Ok((dev, true))
            },
            _ => Ok((dev, false)),
        },
        DeviceType::SqlSprinklerHost => {
            if !cp.probe(&dev.ip) {
                dev.last_state = LiveState::Bool(false);
                Ok((dev, false))
            } else {
                match crate::sqlsprinkler::get_status_from_sqlsprinkler(&dev.ip, cp) {
                    Ok(b) => {
                        dev.last_state = LiveState::Bool(b);
                        Ok((dev, true))
                    },
                    Err(e) => Err(e),
                }
            }
        },
        _ => Ok((dev, false)),
    }
}

} // verus!
