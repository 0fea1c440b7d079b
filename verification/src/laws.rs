//! Properties of the resolution engine proved once and for all.
//!
//! The central one: under a stable store and stable control-plane answers,
//! listing a user's devices twice yields the same list and leaves the store
//! where the first pass put it.  The proof runs both passes in lockstep:
//! every write the engine performs stores the refresh of an original
//! record, refreshing is idempotent (`lemma_refresh_idempotent`), so the
//! second pass reads either an original record or its settled refresh and
//! computes the same answers.

use vstd::prelude::*;

use crate::controlplane::CpV;
use crate::device::{
    spec_default_device, spec_process_one, spec_resolve, spec_resolve_stored, spec_list_for_user,
    spec_list_ids, spec_user_ids, DeviceType, DeviceV,
};
use crate::refresh::{lemma_refresh_idempotent, spec_refresh};
use crate::store::StoreV;

verus! {

/// A store in which every record lies under its own id.  The engine itself
/// keeps this shape: it writes every record under the record's id.
pub open spec fn spec_store_keyed_by_guid(m: Map<Seq<char>, DeviceV>) -> bool {
    forall|k: Seq<char>| m.contains_key(k) ==> (#[trigger] m[k]).guid == k
}

/// `x` and `y` hold the same thing at `k`.
spec fn same_at(x: Map<Seq<char>, DeviceV>, y: Map<Seq<char>, DeviceV>, k: Seq<char>) -> bool {
    &&& x.contains_key(k) == y.contains_key(k)
    &&& x.contains_key(k) ==> x[k] == y[k]
}

/// The record at `k` refreshes without a hard failure.
spec fn refresh_ok(m0: Map<Seq<char>, DeviceV>, cp: CpV, k: Seq<char>) -> bool {
    m0.contains_key(k) && spec_refresh(m0[k], cp) is Ok
}

/// The settled value at `k`: the refresh of the original record.
spec fn fix_at(m0: Map<Seq<char>, DeviceV>, cp: CpV, k: Seq<char>) -> DeviceV {
    spec_refresh(m0[k], cp)->Ok_0.device
}

/// `m` is `m0` advanced by completed refreshes: same ids, and each record
/// is the original or its settled refresh.
spec fn advanced(m0: Map<Seq<char>, DeviceV>, cp: CpV, m: Map<Seq<char>, DeviceV>) -> bool {
    &&& forall|k: Seq<char>| #[trigger] m.contains_key(k) <==> m0.contains_key(k)
    &&& forall|k: Seq<char>|
        m0.contains_key(k) ==> (#[trigger] m[k] == m0[k] || (refresh_ok(m0, cp, k) && m[k]
            == fix_at(m0, cp, k)))
}

/// Two stores stepped in lockstep: at every id, either both steps left
/// their store alone, or both wrote the settled refresh of the original.
spec fn locked(
    m0: Map<Seq<char>, DeviceV>,
    cp: CpV,
    ma: Map<Seq<char>, DeviceV>,
    mb: Map<Seq<char>, DeviceV>,
    pa: Map<Seq<char>, DeviceV>,
    pb: Map<Seq<char>, DeviceV>,
) -> bool {
    forall|k: Seq<char>|
        #![auto]
        (same_at(pa, ma, k) && same_at(pb, mb, k)) || (refresh_ok(m0, cp, k) && pa.contains_key(k)
            && pb.contains_key(k) && pa[k] == fix_at(m0, cp, k) && pb[k] == fix_at(m0, cp, k))
}

/// On an advanced store the refresh of the record at `id` is the refresh of
/// the original record.
proof fn lemma_refresh_canonical(
    m0: Map<Seq<char>, DeviceV>,
    cp: CpV,
    m: Map<Seq<char>, DeviceV>,
    id: Seq<char>,
)
    requires
        advanced(m0, cp, m),
        m0.contains_key(id),
    ensures
        m.contains_key(id),
        spec_refresh(m[id], cp) == spec_refresh(m0[id], cp),
{
    if m[id] == m0[id] {
    } else {
        lemma_refresh_idempotent(m0[id], cp);
    }
}

/// Resolving a stored id on two advanced stores gives the same result and
/// steps both stores in lockstep.
proof fn lemma_resolve_stored_lockstep(
    m0: Map<Seq<char>, DeviceV>,
    cp: CpV,
    ma: Map<Seq<char>, DeviceV>,
    mb: Map<Seq<char>, DeviceV>,
    id: Seq<char>,
)
    requires
        spec_store_keyed_by_guid(m0),
        advanced(m0, cp, ma),
        advanced(m0, cp, mb),
    ensures
        ({
            let (ra, pa) = spec_resolve_stored(ma, cp, id);
            let (rb, pb) = spec_resolve_stored(mb, cp, id);
            &&& rb == ra
            &&& advanced(m0, cp, pa)
            &&& advanced(m0, cp, pb)
            &&& locked(m0, cp, ma, mb, pa, pb)
            &&& ((ra is Ok && m0.contains_key(id)) ==> ra->Ok_0 == fix_at(m0, cp, id))
        }),
{
    if !m0.contains_key(id) {
        assert(!ma.contains_key(id) && !mb.contains_key(id));
    } else {
        lemma_refresh_canonical(m0, cp, ma, id);
        lemma_refresh_canonical(m0, cp, mb, id);
        match spec_refresh(m0[id], cp) {
            Ok(r) => {
                crate::refresh::lemma_refresh_preserves_identity(m0[id], cp);
                assert(r.device.guid == id);
                if r.persist {
                    let pa = ma.insert(id, r.device);
                    let pb = mb.insert(id, r.device);
                    assert(advanced(m0, cp, pa));
                    assert(advanced(m0, cp, pb));
                    assert(locked(m0, cp, ma, mb, pa, pb));
                }
            },
            Err(_) => {},
        }
    }
}

/// Looking up a zone on two advanced stores gives the same device and steps
/// both stores in lockstep.
proof fn lemma_get_zone_lockstep(
    m0: Map<Seq<char>, DeviceV>,
    cp: CpV,
    ma: Map<Seq<char>, DeviceV>,
    mb: Map<Seq<char>, DeviceV>,
    guid: Seq<char>,
)
    requires
        spec_store_keyed_by_guid(m0),
        advanced(m0, cp, ma),
        advanced(m0, cp, mb),
    ensures
        ({
            let (da, pa) = crate::sqlsprinkler::spec_get_zone(ma, cp, guid);
            let (db, pb) = crate::sqlsprinkler::spec_get_zone(mb, cp, guid);
            &&& db == da
            &&& advanced(m0, cp, pa)
            &&& advanced(m0, cp, pb)
            &&& locked(m0, cp, ma, mb, pa, pb)
            &&& da.kind != DeviceType::TV
            &&& da.kind != DeviceType::SqlSprinklerHost
        }),
{
    if !crate::ident::spec_is_zone_id(guid) {
    } else {
        let parts = crate::ident::zone_id_parts(guid)->Some_0;
        lemma_resolve_stored_lockstep(m0, cp, ma, mb, parts.0);
    }
}

/// Resolving any id on two advanced stores gives the same result and steps
/// both stores in lockstep; a resolved record still holds the settled
/// refresh where the store held the id.
proof fn lemma_resolve_lockstep(
    m0: Map<Seq<char>, DeviceV>,
    cp: CpV,
    ma: Map<Seq<char>, DeviceV>,
    mb: Map<Seq<char>, DeviceV>,
    id: Seq<char>,
)
    requires
        spec_store_keyed_by_guid(m0),
        advanced(m0, cp, ma),
        advanced(m0, cp, mb),
    ensures
        ({
            let (ra, pa) = spec_resolve(ma, cp, id);
            let (rb, pb) = spec_resolve(mb, cp, id);
            &&& rb == ra
            &&& advanced(m0, cp, pa)
            &&& advanced(m0, cp, pb)
            &&& locked(m0, cp, ma, mb, pa, pb)
            &&& ((ra is Ok && (ra->Ok_0.kind == DeviceType::TV || ra->Ok_0.kind
                == DeviceType::SqlSprinklerHost)) ==> m0.contains_key(id) && ra->Ok_0 == fix_at(
                m0,
                cp,
                id,
            ) && ra->Ok_0.guid == id)
        }),
{
    if crate::ident::spec_is_zone_id(id) {
        lemma_get_zone_lockstep(m0, cp, ma, mb, id);
    } else {
        lemma_resolve_stored_lockstep(m0, cp, ma, mb, id);
        let (ra, pa) = spec_resolve_stored(ma, cp, id);
        match ra {
            Ok(d) => {
                if d.kind == DeviceType::TV || d.kind == DeviceType::SqlSprinklerHost {
                    assert(spec_default_device().kind == DeviceType::SWITCH);
                    assert(m0.contains_key(id));
                    crate::refresh::lemma_refresh_preserves_identity(m0[id], cp);
                }
            },
            Err(_) => {},
        }
    }
}

/// Processing one id of the aggregation on two advanced stores gives the
/// same devices and steps both stores in lockstep.
proof fn lemma_process_lockstep(
    m0: Map<Seq<char>, DeviceV>,
    cp: CpV,
    ma: Map<Seq<char>, DeviceV>,
    mb: Map<Seq<char>, DeviceV>,
    id: Seq<char>,
)
    requires
        spec_store_keyed_by_guid(m0),
        advanced(m0, cp, ma),
        advanced(m0, cp, mb),
    ensures
        ({
            let (ra, pa) = spec_process_one(ma, cp, id);
            let (rb, pb) = spec_process_one(mb, cp, id);
            &&& rb == ra
            &&& advanced(m0, cp, pa)
            &&& advanced(m0, cp, pb)
            &&& locked(m0, cp, ma, mb, pa, pb)
        }),
{
    lemma_resolve_lockstep(m0, cp, ma, mb, id);
    let (ra1, pa1) = spec_resolve(ma, cp, id);
    let (rb1, pb1) = spec_resolve(mb, cp, id);
    match ra1 {
        Ok(d) => {
            if d.kind == DeviceType::TV {
                assert(m0.contains_key(id) && d == fix_at(m0, cp, id) && d.guid == id);
                lemma_refresh_idempotent(m0[id], cp);
                assert(spec_refresh(d, cp) == spec_refresh(m0[id], cp));
                match spec_refresh(d, cp) {
                    Ok(r2) => {
                        assert(r2.device == d);
                        if r2.persist {
                            let pa2 = pa1.insert(id, d);
                            let pb2 = pb1.insert(id, d);
                            assert(advanced(m0, cp, pa2));
                            assert(advanced(m0, cp, pb2));
                            assert(locked(m0, cp, ma, mb, pa2, pb2));
                        }
                    },
                    Err(_) => {},
                }
            }
        },
        Err(_) => {},
    }
}

/// Walking a whole id list on two advanced stores gives the same devices
/// and steps both stores in lockstep.
proof fn lemma_list_lockstep(
    m0: Map<Seq<char>, DeviceV>,
    cp: CpV,
    ma: Map<Seq<char>, DeviceV>,
    mb: Map<Seq<char>, DeviceV>,
    ids: Seq<Seq<char>>,
)
    requires
        spec_store_keyed_by_guid(m0),
        advanced(m0, cp, ma),
        advanced(m0, cp, mb),
    ensures
        ({
            let (ra, pa) = spec_list_ids(ma, cp, ids);
            let (rb, pb) = spec_list_ids(mb, cp, ids);
            &&& rb == ra
            &&& advanced(m0, cp, pa)
            &&& advanced(m0, cp, pb)
            &&& locked(m0, cp, ma, mb, pa, pb)
        }),
    decreases ids.len(),
{
    if ids.len() == 0 {
    } else {
        lemma_process_lockstep(m0, cp, ma, mb, ids[0]);
        let (ra1, pa1) = spec_process_one(ma, cp, ids[0]);
        let (rb1, pb1) = spec_process_one(mb, cp, ids[0]);
        match ra1 {
            Err(_) => {},
            Ok(_) => {
                lemma_list_lockstep(m0, cp, pa1, pb1, ids.drop_first());
                let (ra2, pa2) = spec_list_ids(pa1, cp, ids.drop_first());
                let (rb2, pb2) = spec_list_ids(pb1, cp, ids.drop_first());
                assert forall|k: Seq<char>|
                    #![auto]
                    (same_at(pa2, ma, k) && same_at(pb2, mb, k)) || (refresh_ok(m0, cp, k)
                        && pa2.contains_key(k) && pb2.contains_key(k) && pa2[k] == fix_at(m0, cp, k)
                        && pb2[k] == fix_at(m0, cp, k)) by {
                    assert((same_at(pa1, ma, k) && same_at(pb1, mb, k)) || (refresh_ok(m0, cp, k)
                        && pa1.contains_key(k) && pb1.contains_key(k) && pa1[k] == fix_at(m0, cp, k)
                        && pb1[k] == fix_at(m0, cp, k)));
                    assert((same_at(pa2, pa1, k) && same_at(pb2, pb1, k)) || (refresh_ok(m0, cp, k)
                        && pa2.contains_key(k) && pb2.contains_key(k) && pa2[k] == fix_at(m0, cp, k)
                        && pb2[k] == fix_at(m0, cp, k)));
                }
            },
        }
    }
}

/// Law: listing a user's devices is idempotent under a stable store and
/// stable control-plane answers.  Two consecutive calls — the second
/// starting from the store the first left behind — yield structurally equal
/// outputs, and the second leaves the store exactly where the first did.
pub proof fn lemma_list_for_user_idempotent(s: StoreV, cp: CpV, owner: Seq<char>)
    requires
        spec_store_keyed_by_guid(s.devices),
    ensures
        ({
            let (r1, m1) = spec_list_for_user(s, cp, owner);
            let s1 = StoreV { devices: m1, users: s.users };
            let (r2, m2) = spec_list_for_user(s1, cp, owner);
            r2 == r1 && m2 == m1
        }),
{
    let ids = spec_user_ids(s, owner);
    let m0 = s.devices;
    assert(advanced(m0, cp, m0));
    lemma_list_lockstep(m0, cp, m0, m0, ids);
    let (r1, m1) = spec_list_ids(m0, cp, ids);
    let s1 = StoreV { devices: m1, users: s.users };
    assert(spec_user_ids(s1, owner) == ids);
    lemma_list_lockstep(m0, cp, m0, m1, ids);
    let (r2, m2) = spec_list_ids(m1, cp, ids);
    assert forall|k: Seq<char>| #![auto] m2.contains_key(k) == m1.contains_key(k) && (
    m2.contains_key(k) ==> m2[k] == m1[k]) by {
        assert((same_at(m1, m0, k) && same_at(m2, m1, k)) || (refresh_ok(m0, cp, k)
            && m1.contains_key(k) && m2.contains_key(k) && m1[k] == fix_at(m0, cp, k) && m2[k]
            == fix_at(m0, cp, k)));
    }
    assert(m2 =~= m1);
}

} // verus!
