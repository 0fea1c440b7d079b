//! Battery/UPS devices: their refresh replaces the stored state wholesale
//! with the status page's payload and persists it, and any failure of the
//! query is a hard failure — this kind has no tolerant fallback.

use vstd::prelude::*;

use crate::controlplane::{ControlPlane, CpV};
use crate::device::{Device, DeviceType, DeviceV};
use crate::refresh::{spec_refresh, RefreshedV, ResolveError};
use crate::store::Store;

verus! {

/// What refreshing a battery record does to the record and the store: any
/// other kind passes through untouched.
pub open spec fn spec_parse_battery(
    m: Map<Seq<char>, DeviceV>,
    cp: CpV,
    d: DeviceV,
) -> Result<(DeviceV, Map<Seq<char>, DeviceV>), ResolveError> {
    if d.kind != DeviceType::BATTERY {
        Ok((d, m))
    } else {
        match spec_refresh(d, cp) {
            Ok(r) => Ok(
                (
                    r.device,
                    if r.persist {
                        m.insert(r.device.guid, r.device)
                    } else {
                        m
                    },
                ),
            ),
            Err(e) => Err(e),
        }
    }
}

/// Refreshes `dev` from its status page when it is a battery, persisting
/// the result; any other kind comes back unchanged.  A battery whose query
/// fails is a hard failure.
pub fn parse_device(dev: Device, store: &mut Store, cp: &ControlPlane) -> (r: Result<
    Device,
    ResolveError,
>)
    requires
        old(store).wf(),
        cp.wf(),
    ensures
        final(store).wf(),
        final(store)@.users == old(store)@.users,
        match (r, spec_parse_battery(old(store)@.devices, cp@, dev@)) {
            (Ok(d), Ok(dm)) => d@ == dm.0 && final(store)@.devices == dm.1,
            (Err(e), Err(e2)) => e == e2 && final(store)@.devices == old(store)@.devices,
            _ => false,
        },
{
    if !matches!(dev.kind, DeviceType::BATTERY) {
        return Ok(dev);
    }
    match crate::refresh::refresh_device(dev, cp) {
        Ok((d2, persist)) => {
            if persist {
                d2.database_update(store);
            }
            Ok(d2)
        },
        Err(e) => Err(e),
    }
}

} // verus!
