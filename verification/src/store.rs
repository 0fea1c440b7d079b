//! The durable record store, as the resolution engine sees it: a key/value
//! service holding device records by id and, separately, each owner's flat
//! list of device ids.
//!
//! The store is an injected value, so the engine is a function of its
//! inputs; the process that carries records to and from the remote document
//! store fills a `Store` and writes its changes back.

use vstd::prelude::*;

use crate::device::{Device, DeviceV};

verus! {

/// The sequence of views of a list of strings.
pub open spec fn names_seq(v: Seq<String>) -> Seq<Seq<char>> {
    Seq::new(v.len(), |i: int| v[i]@)
}

/// Durable state: device records by id, and id lists by owner.
pub struct Store {
    devices: Vec<(String, Device)>,
    users: Vec<(String, Vec<String>)>,
}

/// Mathematical value of a `Store`.
pub ghost struct StoreV {
    pub devices: Map<Seq<char>, DeviceV>,
    pub users: Map<Seq<char>, Seq<Seq<char>>>,
}

impl View for Store {
    type V = StoreV;

    closed spec fn view(&self) -> StoreV {
        StoreV {
            devices: Map::new(
                |k: Seq<char>|
                    exists|i: int|
                        0 <= i < self.devices@.len() && #[trigger] self.devices@[i].0@ == k,
                |k: Seq<char>|
                    {
                        let i = choose|i: int|
                            0 <= i < self.devices@.len() && #[trigger] self.devices@[i].0@ == k;
                        self.devices@[i].1@
                    },
            ),
            users: Map::new(
                |k: Seq<char>|
                    exists|i: int| 0 <= i < self.users@.len() && #[trigger] self.users@[i].0@ == k,
                |k: Seq<char>|
                    {
                        let i = choose|i: int|
                            0 <= i < self.users@.len() && #[trigger] self.users@[i].0@ == k;
                        names_seq(self.users@[i].1@)
                    },
            ),
        }
    }
}

impl Store {
    /// Each id and each owner occurs at most once.
    pub closed spec fn wf(&self) -> bool {
        &&& forall|i: int, j: int|
            0 <= i < j < self.devices@.len() ==> #[trigger] self.devices@[i].0@ != #[trigger] self.devices@[j].0@
        &&& forall|i: int, j: int|
            0 <= i < j < self.users@.len() ==> #[trigger] self.users@[i].0@ != #[trigger] self.users@[j].0@
    }

    /// An empty store.
    pub fn new() -> (r: Store)
        ensures
            r.wf(),
            r@.devices == Map::<Seq<char>, DeviceV>::empty(),
            r@.users == Map::<Seq<char>, Seq<Seq<char>>>::empty(),
    {
        let r = Store { devices: Vec::new(), users: Vec::new() };
        proof {
            assert(r@.devices =~= Map::<Seq<char>, DeviceV>::empty());
            assert(r@.users =~= Map::<Seq<char>, Seq<Seq<char>>>::empty());
        }
        r
    }

    proof fn lemma_device_at(&self, i: int)
        requires
            self.wf(),
            0 <= i < self.devices@.len(),
        ensures
            self@.devices.contains_key(self.devices@[i].0@),
            self@.devices[self.devices@[i].0@] == self.devices@[i].1@,
    {
        let k = self.devices@[i].0@;
        let j = choose|j: int| 0 <= j < self.devices@.len() && #[trigger] self.devices@[j].0@ == k;
        assert(j == i);
    }

    proof fn lemma_user_at(&self, i: int)
        requires
            self.wf(),
            0 <= i < self.users@.len(),
        ensures
            self@.users.contains_key(self.users@[i].0@),
            self@.users[self.users@[i].0@] == names_seq(self.users@[i].1@),
    {
        let k = self.users@[i].0@;
        let j = choose|j: int| 0 <= j < self.users@.len() && #[trigger] self.users@[j].0@ == k;
        assert(j == i);
    }

    /// The record stored under `id`, when there is one.
    pub fn get(&self, id: &String) -> (r: Option<Device>)
        requires
            self.wf(),
        ensures
            match r {
                Some(d) => self@.devices.contains_key(id@) && d@ == self@.devices[id@],
                None => !self@.devices.contains_key(id@),
            },
    {
        let mut i: usize = 0;
        while i < self.devices.len()
            invariant
                self.wf(),
                i <= self.devices@.len(),
                forall|j: int| 0 <= j < i ==> #[trigger] self.devices@[j].0@ != id@,
            decreases self.devices@.len() - i,
        {
            if self.devices[i].0 == *id {
                proof {
                    self.lemma_device_at(i as int);
                }
                return Some(self.devices[i].1.clone());
            }
            i = i + 1;
        }
        None
    }

    /// Writes `dev` under `id`, replacing what was there.
    pub fn set(&mut self, id: &String, dev: &Device)
        requires
            old(self).wf(),
        ensures
            final(self).wf(),
            final(self)@.devices == old(self)@.devices.insert(id@, dev@),
            final(self)@.users == old(self)@.users,
    {
        let ghost old_self = *old(self);
        let mut i: usize = 0;
        let mut found: Option<usize> = None;
        while i < self.devices.len()
            invariant
                *self == old_self,
                i <= self.devices@.len(),
                match found {
                    Some(fi) => fi < i && self.devices@[fi as int].0@ == id@,
                    None => forall|j: int| 0 <= j < i ==> #[trigger] self.devices@[j].0@ != id@,
                },
            decreases self.devices@.len() - i,
        {
            if found.is_none() && self.devices[i].0 == *id {
                found = Some(i);
            }
            i = i + 1;
        }
        match found {
            Some(fi) => {
                self.devices.remove(fi);
                self.devices.insert(fi, (id.clone(), dev.clone()));
                proof {
                    assert(self.devices@ =~= old_self.devices@.update(
                        fi as int,
                        (self.devices@[fi as int].0, self.devices@[fi as int].1),
                    ));
                    self.lemma_set_view(old_self, fi as int, id@, dev@);
                }
            },
            None => {
                self.devices.push((id.clone(), dev.clone()));
                proof {
                    self.lemma_push_view(old_self, id@, dev@);
                }
            },
        }
    }

    proof fn lemma_set_view(&self, old_self: Store, fi: int, id: Seq<char>, dev: DeviceV)
        requires
            old_self.wf(),
            self.users == old_self.users,
            0 <= fi < old_self.devices@.len(),
            old_self.devices@[fi].0@ == id,
            self.devices@.len() == old_self.devices@.len(),
            self.devices@[fi].0@ == id,
            self.devices@[fi].1@ == dev,
            forall|j: int|
                0 <= j < self.devices@.len() && j != fi ==> self.devices@[j]
                    == old_self.devices@[j],
        ensures
            self.wf(),
            self@.devices == old_self@.devices.insert(id, dev),
            self@.users == old_self@.users,
    {
        assert forall|j: int| 0 <= j < self.devices@.len() implies #[trigger] self.devices@[j].0@
            == old_self.devices@[j].0@ by {}
        assert(self.wf());
        let m1 = self@.devices;
        let m2 = old_self@.devices.insert(id, dev);
        assert forall|k: Seq<char>| m1.contains_key(k) implies m2.contains_key(k) by {
            let i = choose|i: int|
                0 <= i < self.devices@.len() && #[trigger] self.devices@[i].0@ == k;
            if i != fi {
                old_self.lemma_device_at(i);
            }
        }
        assert forall|k: Seq<char>| m2.contains_key(k) implies m1.contains_key(k) by {
            if k == id {
                assert(self.devices@[fi].0@ == k);
            } else {
                let i = choose|i: int|
                    0 <= i < old_self.devices@.len() && #[trigger] old_self.devices@[i].0@ == k;
                assert(self.devices@[i].0@ == k);
            }
        }
        assert forall|k: Seq<char>| m1.contains_key(k) implies m1[k] == m2[k] by {
            self.lemma_key_index(k);
            let i = choose|i: int|
                0 <= i < self.devices@.len() && #[trigger] self.devices@[i].0@ == k;
            self.lemma_device_at(i);
            if k == id {
                assert(i == fi);
            } else {
                assert(i != fi);
                old_self.lemma_device_at(i);
            }
        }
        assert(m1 =~= m2);
        assert(self@.users =~= old_self@.users);
    }

    proof fn lemma_key_index(&self, k: Seq<char>)
        requires
            self.wf(),
            self@.devices.contains_key(k),
        ensures
            exists|i: int| 0 <= i < self.devices@.len() && #[trigger] self.devices@[i].0@ == k,
    {
    }

    proof fn lemma_push_view(&self, old_self: Store, id: Seq<char>, dev: DeviceV)
        requires
            old_self.wf(),
            self.users == old_self.users,
            !old_self@.devices.contains_key(id),
            self.devices@.len() == old_self.devices@.len() + 1,
            self.devices@[self.devices@.len() - 1].0@ == id,
            self.devices@[self.devices@.len() - 1].1@ == dev,
            forall|j: int|
                0 <= j < old_self.devices@.len() ==> self.devices@[j] == old_self.devices@[j],
        ensures
            self.wf(),
            self@.devices == old_self@.devices.insert(id, dev),
            self@.users == old_self@.users,
    {
        let n = old_self.devices@.len() as int;
        assert forall|i: int, j: int|
            0 <= i < j < self.devices@.len() implies #[trigger] self.devices@[i].0@
            != #[trigger] self.devices@[j].0@ by {
            if j < n {
            } else {
                if self.devices@[i].0@ == id {
                    old_self.lemma_device_at(i);
                }
            }
        }
        let m1 = self@.devices;
        let m2 = old_self@.devices.insert(id, dev);
        assert forall|k: Seq<char>| m1.contains_key(k) implies m2.contains_key(k) by {
            let i = choose|i: int|
                0 <= i < self.devices@.len() && #[trigger] self.devices@[i].0@ == k;
            if i < n {
                old_self.lemma_device_at(i);
            }
        }
        assert forall|k: Seq<char>| m2.contains_key(k) implies m1.contains_key(k) by {
            if k == id {
                assert(self.devices@[n].0@ == k);
            } else {
                let i = choose|i: int|
                    0 <= i < old_self.devices@.len() && #[trigger] old_self.devices@[i].0@ == k;
                assert(self.devices@[i].0@ == k);
            }
        }
        assert forall|k: Seq<char>| m1.contains_key(k) implies m1[k] == m2[k] by {
            let i = choose|i: int|
                0 <= i < self.devices@.len() && #[trigger] self.devices@[i].0@ == k;
            self.lemma_device_at(i);
            if k == id {
                assert(i == n);
            } else {
                assert(i < n);
                old_self.lemma_device_at(i);
            }
        }
        assert(m1 =~= m2);
        assert(self@.users =~= old_self@.users);
    }

    /// Removes the record stored under `id`, if any.
    pub fn remove(&mut self, id: &String)
        requires
            old(self).wf(),
        ensures
            final(self).wf(),
            final(self)@.devices == old(self)@.devices.remove(id@),
            final(self)@.users == old(self)@.users,
    {
        let ghost old_self = *old(self);
        let mut i: usize = 0;
        let mut found: Option<usize> = None;
        while i < self.devices.len()
            invariant
                *self == old_self,
                i <= self.devices@.len(),
                match found {
                    Some(fi) => fi < i && self.devices@[fi as int].0@ == id@,
                    None => forall|j: int| 0 <= j < i ==> #[trigger] self.devices@[j].0@ != id@,
                },
            decreases self.devices@.len() - i,
        {
            if found.is_none() && self.devices[i].0 == *id {
                found = Some(i);
            }
            i = i + 1;
        }
        match found {
            Some(fi) => {
                self.devices.remove(fi);
                proof {
                    self.lemma_remove_view(old_self, fi as int, id@);
                }
            },
            None => {
                proof {
                    assert(!old_self@.devices.contains_key(id@));
                    assert(self@.devices =~= old_self@.devices.remove(id@));
                    assert(self@.users =~= old_self@.users);
                }
            },
        }
    }

    proof fn lemma_remove_view(&self, old_self: Store, fi: int, id: Seq<char>)
        requires
            old_self.wf(),
            self.users == old_self.users,
            0 <= fi < old_self.devices@.len(),
            old_self.devices@[fi].0@ == id,
            self.devices@ == old_self.devices@.remove(fi),
        ensures
            self.wf(),
            self@.devices == old_self@.devices.remove(id),
            self@.users == old_self@.users,
    {
        let n = old_self.devices@.len() as int;
        assert forall|j: int| 0 <= j < self.devices@.len() implies #[trigger] self.devices@[j]
            == old_self.devices@[if j < fi {
            j
        } else {
            j + 1
        }] by {}
        assert(self.wf());
        let m1 = self@.devices;
        let m2 = old_self@.devices.remove(id);
        assert forall|k: Seq<char>| m1.contains_key(k) implies m2.contains_key(k) && m1[k]
            == m2[k] by {
            let i = choose|i: int|
                0 <= i < self.devices@.len() && #[trigger] self.devices@[i].0@ == k;
            let oi: int = if i < fi {
                i
            } else {
                i + 1
            };
            old_self.lemma_device_at(oi);
            assert(k != id);
            self.lemma_device_at(i);
        }
        assert forall|k: Seq<char>| m2.contains_key(k) implies m1.contains_key(k) by {
            let i = choose|i: int|
                0 <= i < old_self.devices@.len() && #[trigger] old_self.devices@[i].0@ == k;
            assert(i != fi);
            let ni: int = if i < fi {
                i
            } else {
                i - 1
            };
            assert(self.devices@[ni].0@ == k);
        }
        assert(m1 =~= m2);
        assert(self@.users =~= old_self@.users);
    }

    /// The flat id list of the owner, when the store holds one.
    pub fn get_user_devices(&self, owner: &String) -> (r: Option<Vec<String>>)
        requires
            self.wf(),
        ensures
            match r {
                Some(ids) => self@.users.contains_key(owner@) && names_seq(ids@)
                    == self@.users[owner@],
                None => !self@.users.contains_key(owner@),
            },
    {
        let mut i: usize = 0;
        while i < self.users.len()
            invariant
                self.wf(),
                i <= self.users@.len(),
                forall|j: int| 0 <= j < i ==> #[trigger] self.users@[j].0@ != owner@,
            decreases self.users@.len() - i,
        {
            if self.users[i].0 == *owner {
                proof {
                    self.lemma_user_at(i as int);
                }
                let ids = crate::device::clone_names(&self.users[i].1);
                proof {
                    assert(names_seq(ids@) =~= names_seq(self.users@[i as int].1@));
                }
                return Some(ids);
            }
            i = i + 1;
        }
        None
    }

    /// Writes the owner's flat id list, replacing what was there.
    pub fn set_user_devices(&mut self, owner: &String, ids: &Vec<String>)
        requires
            old(self).wf(),
        ensures
            final(self).wf(),
            final(self)@.users == old(self)@.users.insert(owner@, names_seq(ids@)),
            final(self)@.devices == old(self)@.devices,
    {
        let ghost old_self = *old(self);
        let mut i: usize = 0;
        let mut found: Option<usize> = None;
        while i < self.users.len()
            invariant
                *self == old_self,
                i <= self.users@.len(),
                match found {
                    Some(fi) => fi < i && self.users@[fi as int].0@ == owner@,
                    None => forall|j: int| 0 <= j < i ==> #[trigger] self.users@[j].0@ != owner@,
                },
            decreases self.users@.len() - i,
        {
            if found.is_none() && self.users[i].0 == *owner {
                found = Some(i);
            }
            i = i + 1;
        }
        let entry = (owner.clone(), crate::device::clone_names(ids));
        proof {
            assert(names_seq(entry.1@) =~= names_seq(ids@));
        }
        match found {
            Some(fi) => {
                self.users.remove(fi);
                self.users.insert(fi, entry);
                proof {
                    self.lemma_users_set_view(old_self, fi as int, owner@, names_seq(ids@));
                }
            },
            None => {
                self.users.push(entry);
                proof {
                    self.lemma_users_push_view(old_self, owner@, names_seq(ids@));
                }
            },
        }
    }

    proof fn lemma_users_set_view(
        &self,
        old_self: Store,
        fi: int,
        owner: Seq<char>,
        ids: Seq<Seq<char>>,
    )
        requires
            old_self.wf(),
            self.devices == old_self.devices,
            0 <= fi < old_self.users@.len(),
            old_self.users@[fi].0@ == owner,
            self.users@.len() == old_self.users@.len(),
            self.users@[fi].0@ == owner,
            names_seq(self.users@[fi].1@) == ids,
            forall|j: int|
                0 <= j < self.users@.len() && j != fi ==> self.users@[j] == old_self.users@[j],
        ensures
            self.wf(),
            self@.users == old_self@.users.insert(owner, ids),
            self@.devices == old_self@.devices,
    {
        assert(self.wf());
        let m1 = self@.users;
        let m2 = old_self@.users.insert(owner, ids);
        assert forall|k: Seq<char>| m1.contains_key(k) implies m2.contains_key(k) by {
            let i = choose|i: int| 0 <= i < self.users@.len() && #[trigger] self.users@[i].0@ == k;
            if i != fi {
                old_self.lemma_user_at(i);
            }
        }
        assert forall|k: Seq<char>| m2.contains_key(k) implies m1.contains_key(k) by {
            if k == owner {
                assert(self.users@[fi].0@ == k);
            } else {
                let i = choose|i: int|
                    0 <= i < old_self.users@.len() && #[trigger] old_self.users@[i].0@ == k;
                assert(self.users@[i].0@ == k);
            }
        }
        assert forall|k: Seq<char>| m1.contains_key(k) implies m1[k] == m2[k] by {
            let i = choose|i: int| 0 <= i < self.users@.len() && #[trigger] self.users@[i].0@ == k;
            self.lemma_user_at(i);
            if k == owner {
                assert(i == fi);
            } else {
                assert(i != fi);
                old_self.lemma_user_at(i);
            }
        }
        assert(m1 =~= m2);
        assert(self@.devices =~= old_self@.devices);
    }

    proof fn lemma_users_push_view(&self, old_self: Store, owner: Seq<char>, ids: Seq<Seq<char>>)
        requires
            old_self.wf(),
            self.devices == old_self.devices,
            !old_self@.users.contains_key(owner),
            self.users@.len() == old_self.users@.len() + 1,
            self.users@[self.users@.len() - 1].0@ == owner,
            names_seq(self.users@[self.users@.len() - 1].1@) == ids,
            forall|j: int| 0 <= j < old_self.users@.len() ==> self.users@[j] == old_self.users@[j],
        ensures
            self.wf(),
            self@.users == old_self@.users.insert(owner, ids),
            self@.devices == old_self@.devices,
    {
        let n = old_self.users@.len() as int;
        assert forall|i: int, j: int|
            0 <= i < j < self.users@.len() implies #[trigger] self.users@[i].0@
            != #[trigger] self.users@[j].0@ by {
            if j < n {
            } else {
                if self.users@[i].0@ == owner {
                    old_self.lemma_user_at(i);
                }
            }
        }
        let m1 = self@.users;
        let m2 = old_self@.users.insert(owner, ids);
        assert forall|k: Seq<char>| m1.contains_key(k) implies m2.contains_key(k) by {
            let i = choose|i: int| 0 <= i < self.users@.len() && #[trigger] self.users@[i].0@ == k;
            if i < n {
                old_self.lemma_user_at(i);
            }
        }
        assert forall|k: Seq<char>| m2.contains_key(k) implies m1.contains_key(k) by {
            if k == owner {
                assert(self.users@[n].0@ == k);
            } else {
                let i = choose|i: int|
                    0 <= i < old_self.users@.len() && #[trigger] old_self.users@[i].0@ == k;
                assert(self.users@[i].0@ == k);
            }
        }
        assert forall|k: Seq<char>| m1.contains_key(k) implies m1[k] == m2[k] by {
            let i = choose|i: int| 0 <= i < self.users@.len() && #[trigger] self.users@[i].0@ == k;
            self.lemma_user_at(i);
            if k == owner {
                assert(i == n);
            } else {
                assert(i < n);
                old_self.lemma_user_at(i);
            }
        }
        assert(m1 =~= m2);
        assert(self@.devices =~= old_self@.devices);
    }
}

/// Law: a record written under an id and read back under the same id comes
/// back equal, with no live refresh in between.
pub proof fn lemma_set_get_roundtrip(s: StoreV, id: Seq<char>, dev: DeviceV)
    ensures
        s.devices.insert(id, dev).contains_key(id),
        s.devices.insert(id, dev)[id] == dev,
{
}

} // verus!
