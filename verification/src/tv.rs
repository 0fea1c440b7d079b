//! Televisions: their refresh merges the fields of the status report into
//! the stored state and persists the result; a failed query leaves the
//! record unchanged and is not an error.

use vstd::prelude::*;

use crate::controlplane::{ControlPlane, CpV};
use crate::device::{Device, DeviceType, DeviceV};
use crate::refresh::{spec_refresh, ResolveError};
use crate::store::Store;

verus! {

/// What refreshing a television record does to the record and the store:
/// any other kind passes through untouched, and so does a television whose
/// query fails.
pub open spec fn spec_parse_tv(m: Map<Seq<char>, DeviceV>, cp: CpV, d: DeviceV) -> (
    DeviceV,
    Map<Seq<char>, DeviceV>,
) {
    if d.kind != DeviceType::TV {
        (d, m)
    } else {
        match spec_refresh(d, cp) {
            Ok(r) => (
                r.device,
                if r.persist {
                    m.insert(r.device.guid, r.device)
                } else {
                    m
                },
            ),
            Err(_) => (d, m),
        }
    }
}

/// Refreshes `dev` from its status endpoint when it is a television,
/// persisting a successful merge; any other kind, and a television whose
/// query fails, comes back unchanged.
pub fn parse_device(dev: Device, store: &mut Store, cp: &ControlPlane) -> (r: Device)
    requires
        old(store).wf(),
        cp.wf(),
    ensures
        final(store).wf(),
        final(store)@.users == old(store)@.users,
        ({
            let dm = spec_parse_tv(old(store)@.devices, cp@, dev@);
            r@ == dm.0 && final(store)@.devices == dm.1
        }),
{
    if !matches!(dev.kind, DeviceType::TV) {
        return dev;
    }
    match crate::refresh::refresh_device(dev, cp) {
        Ok((d2, persist)) => {
            if persist {
                d2.database_update(store);
            }
            d2
        },
        Err(_) => {
            // A television's refresh strategy has no failing outcome.
            proof {
                assert(false);
            }
            Device::default()
        },
    }
}

} // verus!
