//! Multi-zone sprinkler hosts: the zone record their control plane reports,
//! synthesis of one catalog device per zone, and the host-level state
//! operations.

use vstd::prelude::*;

use crate::controlplane::{spec_toggle_zones, spec_zone_list, Answer, ControlPlane};
use crate::device::{Device, DeviceType, DeviceV, HardwareType, LiveState, LiveStateV};
use crate::ident;

pub use crate::ident::check_if_zone;

verus! {

/// One zone as a multi-zone host reports it.
#[derive(Debug)]
pub struct Zone {
    pub name: String,
    pub gpio: u8,
    pub time: u64,
    pub enabled: bool,
    pub auto_off: bool,
    pub system_order: i8,
    pub state: bool,
    pub id: i8,
}

/// Mathematical value of a `Zone`.
pub ghost struct ZoneV {
    pub name: Seq<char>,
    pub gpio: u8,
    pub time: u64,
    pub enabled: bool,
    pub auto_off: bool,
    pub system_order: i8,
    pub state: bool,
    pub id: i8,
}

impl View for Zone {
    type V = ZoneV;

    open spec fn view(&self) -> ZoneV {
        ZoneV {
            name: self.name@,
            gpio: self.gpio,
            time: self.time,
            enabled: self.enabled,
            auto_off: self.auto_off,
            system_order: self.system_order,
            state: self.state,
            id: self.id,
        }
    }
}

impl DeepView for Zone {
    type V = ZoneV;

    open spec fn deep_view(&self) -> ZoneV {
        self@
    }
}

impl Clone for Zone {
    fn clone(&self) -> (r: Self)
        ensures
            r@ == self@,
    {
        Zone {
            name: self.name.clone(),
            gpio: self.gpio,
            time: self.time,
            enabled: self.enabled,
            auto_off: self.auto_off,
            system_order: self.system_order,
            state: self.state,
            id: self.id,
        }
    }
}

/// The catalog device a zone turns into, before it is tied to its host:
/// named after the zone, a sprinkler by kind, its state snapshot carried in
/// the live state.
pub open spec fn spec_device_from_zone(z: ZoneV) -> DeviceV {
    DeviceV {
        ip: Seq::<char>::empty(),
        guid: ident::dec_int(z.id as int),
        kind: DeviceType::SPRINKLER,
        hardware: HardwareType::PI,
        last_state: LiveStateV::Zone { on: z.state, id: z.id, index: z.system_order },
        sw_version: ident::dec_int(z.id as int),
        useruuid: Seq::<char>::empty(),
        name: z.name,
        nicknames: seq![z.name, "Zone "@ + ident::dec_int(z.system_order + 1)],
    }
}

/// The synthesized device for one zone of a host: the zone's device with
/// the composite id `"{host id}-{zone id}"` and the host's network address.
pub open spec fn spec_synth_zone_device(host: DeviceV, z: ZoneV) -> DeviceV {
    DeviceV {
        ip: host.ip,
        guid: ident::zone_guid(host.guid, z.id as int),
        ..spec_device_from_zone(z)
    }
}

/// One synthesized device per zone, in the order the host reports them.
pub open spec fn spec_synth_list(host: DeviceV, zs: Seq<ZoneV>) -> Seq<DeviceV> {
    Seq::new(zs.len(), |i: int| spec_synth_zone_device(host, zs[i]))
}

/// Converts a zone record into a catalog device.
pub fn device_from_zone(zone: &Zone) -> (r: Device)
    ensures
        r@ == spec_device_from_zone(zone@),
{
    let id_str = ident::i64_to_string(zone.id as i64);
    let mut zone_name = String::from_str("Zone ");
    let order_str = ident::i64_to_string(zone.system_order as i64 + 1);
    zone_name.append(order_str.as_str());
    let mut nicknames: Vec<String> = Vec::new();
    nicknames.push(zone.name.clone());
    nicknames.push(zone_name);
    let r = Device {
        ip: String::new(),
        guid: id_str.clone(),
        kind: DeviceType::SPRINKLER,
        hardware: HardwareType::PI,
        last_state: LiveState::Zone { on: zone.state, id: zone.id, index: zone.system_order },
        sw_version: id_str,
        useruuid: String::new(),
        name: zone.name.clone(),
        nicknames,
    };
    proof {
        reveal_strlit("Zone ");
        assert(r@.nicknames =~= spec_device_from_zone(zone@).nicknames);
        assert(r@ =~= spec_device_from_zone(zone@));
    }
    r
}

/// Synthesizes the catalog device for one zone of `host`.
fn synth_zone_device(host: &Device, zone: &Zone) -> (r: Device)
    ensures
        r@ == spec_synth_zone_device(host@, zone@),
{
    let mut r = device_from_zone(zone);
    r.guid = ident::make_zone_guid(&host.guid, zone.id as i64);
    r.ip = host.ip.clone();
    proof {
        assert(r@ =~= spec_synth_zone_device(host@, zone@));
    }
    r
}

/// What expanding a host yields: nothing for a record of any other kind,
/// one synthesized device per reported zone for a host, and a hard failure
/// when the zone query fails.
pub open spec fn spec_expand_host(d: DeviceV, cp: crate::controlplane::CpV) -> Result<
    Seq<DeviceV>,
    crate::refresh::ResolveError,
> {
    if d.kind != DeviceType::SqlSprinklerHost {
        Ok(Seq::<DeviceV>::empty())
    } else {
        match spec_zone_list(cp, d.ip) {
            Answer::Value(zs) => Ok(spec_synth_list(d, zs)),
            _ => Err(crate::refresh::ResolveError::ZoneListUnavailable),
        }
    }
}

/// The zones of the multi-zone host at `ip`; a hard failure when the host
/// does not answer or the payload cannot be read.
fn get_zones_from_sqlsprinkler(ip: &String, cp: &ControlPlane) -> (r: Result<
    Vec<Zone>,
    crate::refresh::ResolveError,
>)
    requires
        cp.wf(),
    ensures
        match r {
            Ok(zs) => spec_zone_list(cp@, ip@) == Answer::Value(zs.deep_view()),
            Err(e) => e == crate::refresh::ResolveError::ZoneListUnavailable && !(spec_zone_list(
                cp@,
                ip@,
            ) is Value),
        },
{
    match cp.zone_list(ip) {
        Answer::Value(zs) => Ok(zs),
        Answer::Transport => Err(crate::refresh::ResolveError::ZoneListUnavailable),
        Answer::Malformed => Err(crate::refresh::ResolveError::ZoneListUnavailable),
    }
}

/// When `dev` is a multi-zone host, queries its control plane and returns
/// one synthesized device per zone, in the host's order; any other kind
/// yields the empty list.  A host whose zone query fails is a hard failure,
/// since callers gate this on a liveness probe.
pub fn check_if_device_is_sqlsprinkler_host(dev: &Device, cp: &ControlPlane) -> (r: Result<
    Vec<Device>,
    crate::refresh::ResolveError,
>)
    requires
        cp.wf(),
    ensures
        match (r, spec_expand_host(dev@, cp@)) {
            (Ok(ds), Ok(dvs)) => ds.deep_view() == dvs,
            (Err(e), Err(e2)) => e == e2,
            _ => false,
        },
{
    let mut device_list: Vec<Device> = Vec::new();
    if !matches!(dev.kind, DeviceType::SqlSprinklerHost) {
        proof {
            assert(device_list.deep_view() =~= Seq::<DeviceV>::empty());
        }
        return Ok(device_list);
    }
    let sprinkler_list = match get_zones_from_sqlsprinkler(&dev.ip, cp) {
        Ok(zs) => zs,
        Err(e) => {
            return Err(e);
        },
    };
    let mut i: usize = 0;
    while i < sprinkler_list.len()
        invariant
            cp.wf(),
            i <= sprinkler_list@.len(),
            device_list@.len() == i,
            forall|j: int|
                0 <= j < i ==> #[trigger] device_list@[j]@ == spec_synth_zone_device(
                    dev@,
                    sprinkler_list@[j]@,
                ),
        decreases sprinkler_list@.len() - i,
    {
        let sprinkler_device = synth_zone_device(dev, &sprinkler_list[i]);
        device_list.push(sprinkler_device);
        i = i + 1;
    }
    proof {
        assert(device_list.deep_view() =~= spec_synth_list(dev@, sprinkler_list.deep_view()));
    }
    Ok(device_list)
}

/// Law: expanding a reachable host yields exactly one device per reported
/// zone, in order, each carrying the composite id of its zone and the
/// host's network address.
pub proof fn lemma_expand_host_shape(d: DeviceV, cp: crate::controlplane::CpV, zs: Seq<ZoneV>)
    requires
        d.kind == DeviceType::SqlSprinklerHost,
        spec_zone_list(cp, d.ip) == Answer::<Seq<ZoneV>>::Value(zs),
    ensures
        spec_expand_host(d, cp) is Ok,
        spec_expand_host(d, cp)->Ok_0.len() == zs.len(),
        forall|i: int|
            0 <= i < zs.len() ==> (#[trigger] spec_expand_host(d, cp)->Ok_0[i]).guid
                == ident::zone_guid(d.guid, zs[i].id as int),
        forall|i: int| 0 <= i < zs.len() ==> (#[trigger] spec_expand_host(d, cp)->Ok_0[i]).ip == d.ip,
{
}

/// The first zone in the list whose id equals the requested index, scanned
/// from position `i`.
pub open spec fn spec_find_zone_from(zs: Seq<ZoneV>, idx: u64, i: int) -> Option<ZoneV>
    decreases zs.len() - i,
{
    if i < 0 || i >= zs.len() {
        None
    } else if zs[i].id as int == idx as int {
        Some(zs[i])
    } else {
        spec_find_zone_from(zs, idx, i + 1)
    }
}

/// The first zone whose id equals the requested index.
pub open spec fn spec_find_zone(zs: Seq<ZoneV>, idx: u64) -> Option<ZoneV> {
    spec_find_zone_from(zs, idx, 0)
}

fn find_zone(zs: &Vec<Zone>, idx: u64) -> (r: Option<Zone>)
    ensures
        match r {
            Some(z) => spec_find_zone(zs.deep_view(), idx) == Some(z@),
            None => spec_find_zone(zs.deep_view(), idx) is None,
        },
{
    let mut i: usize = 0;
    while i < zs.len()
        invariant
            i <= zs@.len(),
            spec_find_zone(zs.deep_view(), idx) == spec_find_zone_from(zs.deep_view(), idx, i as int),
        decreases zs@.len() - i,
    {
        let z = &zs[i];
        if z.id >= 0 && z.id as u64 == idx {
            return Some(zs[i].clone());
        }
        proof {
            assert(!(zs.deep_view()[i as int].id as int == idx as int));
        }
        i = i + 1;
    }
    None
}

/// What looking one zone up does: the host record is resolved (read and
/// refreshed, with its usual write-back) to learn its network address, the
/// host's zone list is searched for the index, and the match is
/// synthesized.  A host that cannot be resolved — absent, equal to the
/// sentinel, or failing its refresh — and an index no zone carries both
/// yield the default sentinel.
pub open spec fn spec_lookup_zone(
    m: Map<Seq<char>, DeviceV>,
    cp: crate::controlplane::CpV,
    host_id: Seq<char>,
    idx: u64,
) -> (DeviceV, Map<Seq<char>, DeviceV>) {
    let rm = crate::device::spec_resolve_stored(m, cp, host_id);
    match rm.0 {
        Err(_) => (crate::device::spec_default_device(), rm.1),
        Ok(h) => {
            if h == crate::device::spec_default_device() {
                (crate::device::spec_default_device(), rm.1)
            } else {
                match spec_zone_list(cp, h.ip) {
                    Answer::Value(zs) => match spec_find_zone(zs, idx) {
                        Some(z) => (spec_synth_zone_device(h, z), rm.1),
                        None => (crate::device::spec_default_device(), rm.1),
                    },
                    _ => (crate::device::spec_default_device(), rm.1),
                }
            }
        },
    }
}

/// What resolving a composite zone id yields; an id without the composite
/// shape yields the sentinel and touches nothing.
pub open spec fn spec_get_zone(
    m: Map<Seq<char>, DeviceV>,
    cp: crate::controlplane::CpV,
    guid: Seq<char>,
) -> (DeviceV, Map<Seq<char>, DeviceV>) {
    if !ident::spec_is_zone_id(guid) {
        (crate::device::spec_default_device(), m)
    } else {
        let parts = ident::zone_id_parts(guid)->Some_0;
        spec_lookup_zone(m, cp, parts.0, ident::digits_val(parts.1) as u64)
    }
}

/// Resolves a composite zone id: the host named by its prefix is resolved
/// to learn its address, the host's zone list is searched for the trailing
/// index, and the matching zone is synthesized.  When the id is not a
/// composite id, the host cannot be resolved, or no zone matches, the
/// default sentinel is returned.
pub fn get_zone(
    guid: &String,
    store: &mut crate::store::Store,
    cp: &ControlPlane,
) -> (r: Device)
    requires
        old(store).wf(),
        cp.wf(),
    ensures
        final(store).wf(),
        final(store)@.users == old(store)@.users,
        ({
            let dm = spec_get_zone(old(store)@.devices, cp@, guid@);
            r@ == dm.0 && final(store)@.devices == dm.1
        }),
{
    let (host_guid, index) = match ident::classify(guid) {
        ident::Classified::Plain(_) => {
            return Device::default();
        },
        ident::Classified::Composite { host, index } => (host, index),
    };
    let host_device = match crate::device::resolve_stored(&host_guid, store, cp) {
        Ok(h) => h,
        Err(_) => {
            return Device::default();
        },
    };
    let sentinel = Device::default();
    if host_device == sentinel {
        return sentinel;
    }
    let sprinkler_list = match get_zones_from_sqlsprinkler(&host_device.ip, cp) {
        Ok(zs) => zs,
        Err(_) => {
            return Device::default();
        },
    };
    match find_zone(&sprinkler_list, index) {
        Some(zone) => synth_zone_device(&host_device, &zone),
        None => Device::default(),
    }
}

/// Sets one zone of the host at `ip` to the given state: every zone whose
/// id matches is toggled.  Succeeds exactly when the host answers its zone
/// queries; an unreachable host leaves everything unchanged.
pub fn set_zone(ip: String, state: bool, id: i64, cp: &mut ControlPlane) -> (r: bool)
    requires
        old(cp).wf(),
    ensures
        final(cp).wf(),
        match spec_zone_list(old(cp)@, ip@) {
            Answer::Value(zs) => r == true && final(cp)@ == (crate::controlplane::CpV {
                zone_lists: old(cp)@.zone_lists.insert(
                    ip@,
                    Answer::Value(spec_toggle_zones(zs, id as int, state)),
                ),
                ..old(cp)@
            }),
            _ => r == false && final(cp)@ == old(cp)@,
        },
{
    let zs = match cp.zone_list(&ip) {
        Answer::Value(zs) => zs,
        _ => {
            return false;
        },
    };
    let mut toggled: Vec<Zone> = Vec::new();
    let mut j: usize = 0;
    while j < zs.len()
        invariant
            j <= zs@.len(),
            toggled@.len() == j,
            forall|k: int|
                0 <= k < j ==> #[trigger] toggled@[k]@ == (if zs@[k]@.id == id {
                    ZoneV { state, ..zs@[k]@ }
                } else {
                    zs@[k]@
                }),
        decreases zs@.len() - j,
    {
        let mut z = zs[j].clone();
        if z.id as i64 == id {
            z = Zone { state, ..z };
        }
        toggled.push(z);
        j = j + 1;
    }
    proof {
        assert(toggled.deep_view() =~= spec_toggle_zones(zs.deep_view(), id as int, state));
    }
    cp.set_zone_list(&ip, Answer::Value(toggled));
    true
}

/// Sets the aggregate on/off state of the host at `ip`.  Succeeds exactly
/// when the host answers its state queries; an unreachable host leaves
/// everything unchanged.
pub fn set_system(ip: String, state: bool, cp: &mut ControlPlane) -> (r: bool)
    requires
        old(cp).wf(),
    ensures
        final(cp).wf(),
        match crate::controlplane::spec_host_state(old(cp)@, ip@) {
            Answer::Value(_) => r == true && final(cp)@ == (crate::controlplane::CpV {
                host_states: old(cp)@.host_states.insert(ip@, Answer::Value(state)),
                ..old(cp)@
            }),
            _ => r == false && final(cp)@ == old(cp)@,
        },
{
    match cp.host_state(&ip) {
        Answer::Value(_) => {
            cp.set_host_state(&ip, Answer::Value(state));
            true
        },
        _ => false,
    }
}

/// The aggregate on/off state of the multi-zone host at `ip`.  A transport
/// failure reads as "off"; a payload that cannot be read is a hard failure.
pub(crate) fn get_status_from_sqlsprinkler(ip: &String, cp: &ControlPlane) -> (r: Result<
    bool,
    crate::refresh::ResolveError,
>)
    requires
        cp.wf(),
    ensures
        match crate::controlplane::spec_host_state(cp@, ip@) {
            Answer::Value(b) => r == Ok::<bool, crate::refresh::ResolveError>(b),
            Answer::Transport => r == Ok::<bool, crate::refresh::ResolveError>(false),
            Answer::Malformed => r == Err::<bool, crate::refresh::ResolveError>(
                crate::refresh::ResolveError::HostStateMalformed,
            ),
        },
{
    match cp.host_state(ip) {
        Answer::Value(b) => Ok(b),
        Answer::Transport => Ok(false),
        Answer::Malformed => Err(crate::refresh::ResolveError::HostStateMalformed),
    }
}

} // verus!
