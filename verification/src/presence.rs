//! The devices that are connected at the moment, by their identifier.

use vstd::prelude::*;
use dashmap::DashMap;
use crate::index::{index_get, index_insert, index_new, index_remove, slots};
use crate::registry::swap_removed;
use crate::wire::{names_json, names_payload, texts_of};

verus! {

/// A connected device: its identifier and the name it goes by.
pub struct Device {
    uuid: String,
    name: String,
}

/// The devices that are connected at the moment.
pub struct Presence {
    index: DashMap<String, usize>,
    devices: Vec<Device>,
}

impl Presence {
    /// The invariant: the index and the list of devices agree. Every
    /// operation keeps it.
    pub closed spec fn wf(&self) -> bool {
        &&& forall|i: int|
            0 <= i < self.devices@.len() ==> slots(self.index).dom().contains(
                (#[trigger] self.devices@[i]).uuid@,
            ) && slots(self.index)[self.devices@[i].uuid@] == i
        &&& forall|uuid: Seq<char>| #[trigger]
            slots(self.index).dom().contains(uuid) ==> slots(self.index)[uuid]
                < self.devices@.len() && self.devices@[slots(self.index)[uuid] as int].uuid@
                == uuid
    }

    /// The names of the connected devices, by identifier.
    pub closed spec fn view(&self) -> Map<Seq<char>, Seq<char>> {
        Map::new(
            |uuid: Seq<char>| slots(self.index).dom().contains(uuid),
            |uuid: Seq<char>| self.devices@[slots(self.index)[uuid] as int].name@,
        )
    }

    /// The identifiers of the connected devices, in the order in which
    /// they are listed.
    pub closed spec fn uuids(&self) -> Seq<Seq<char>> {
        Seq::new(self.devices@.len(), |i: int| self.devices@[i].uuid@)
    }

    /// The identifiers listed are the identifiers connected, each once.
    pub proof fn lemma_uuids(&self)
        requires
            self.wf(),
        ensures
            self.uuids().no_duplicates(),
            forall|uuid: Seq<char>| self.uuids().contains(uuid) <==> self@.dom().contains(uuid),
    {
        let uuids = self.uuids();
        assert forall|i: int, j: int|
            0 <= i < uuids.len() && 0 <= j < uuids.len() && i != j implies uuids[i] != uuids[j] by {
            assert(slots(self.index)[self.devices@[i].uuid@] == i);
            assert(slots(self.index)[self.devices@[j].uuid@] == j);
        }
        assert forall|uuid: Seq<char>| self.uuids().contains(uuid) <==> self@.dom().contains(
            uuid,
        ) by {
            if self.uuids().contains(uuid) {
                let i = choose|i: int| 0 <= i < uuids.len() && uuids[i] == uuid;
                assert(slots(self.index).dom().contains(self.devices@[i].uuid@));
            }
            if self@.dom().contains(uuid) {
                assert(slots(self.index).dom().contains(uuid));
                assert(uuids[slots(self.index)[uuid] as int] == uuid);
            }
        }
    }

    /// Nobody connected.
    pub fn new() -> (presence: Self)
        ensures
            presence.wf(),
            presence@ == (Map::<Seq<char>, Seq<char>>::empty()),
            presence.uuids() == Seq::<Seq<char>>::empty(),
    {
        let presence = Presence { index: index_new(), devices: Vec::new() };
        assert(presence@ =~= Map::<Seq<char>, Seq<char>>::empty());
        assert(presence.uuids() =~= Seq::<Seq<char>>::empty());
        presence
    }

    /// The number of connected devices.
    pub fn len(&self) -> (n: usize)
        requires
            self.wf(),
        ensures
            n == self.uuids().len(),
    {
        self.devices.len()
    }

    /// Records a device as connected under its identifier. A device that
    /// was connected under the same identifier gets the new name and keeps
    /// its place in the list.
    pub fn connect(&mut self, uuid: String, name: String)
        requires
            old(self).wf(),
        ensures
            final(self).wf(),
            final(self)@ == old(self)@.insert(uuid@, name@),
            final(self).uuids() == if old(self)@.dom().contains(uuid@) {
                old(self).uuids()
            } else {
                old(self).uuids().push(uuid@)
            },
    {
        match index_get(&self.index, uuid.as_str()) {
            Some(slot) => {
                self.devices.set(slot, Device { uuid, name });
                assert(final(self)@ =~= old(self)@.insert(uuid@, name@));
                assert(final(self).uuids() =~= old(self).uuids());
            },
            None => {
                let slot = self.devices.len();
                self.devices.push(Device { uuid: uuid.clone(), name });
                index_insert(&mut self.index, uuid, slot);
                assert(final(self)@ =~= old(self)@.insert(uuid@, name@));
                assert(final(self).uuids() =~= old(self).uuids().push(uuid@));
            },
        }
    }

    /// Forgets the device connected under `uuid` and says whether there
    /// was one. The device that was last in the list takes its place.
    pub fn disconnect(&mut self, uuid: &str) -> (removed: bool)
        requires
            old(self).wf(),
        ensures
            final(self).wf(),
            removed == old(self)@.dom().contains(uuid@),
            final(self)@ == old(self)@.remove(uuid@),
            final(self).uuids() == if removed {
                swap_removed(old(self).uuids(), uuid@)
            } else {
                old(self).uuids()
            },
    {
        match index_remove(&mut self.index, uuid) {
            None => {
                assert(final(self)@ =~= old(self)@.remove(uuid@));
                assert(final(self).uuids() =~= old(self).uuids());
                false
            },
            Some(slot) => {
                proof {
                    old(self).lemma_uuids();
                    let uuids = old(self).uuids();
                    assert(uuids[slot as int] == uuid@);
                    assert(uuids.contains(uuid@));
                    assert(uuids.index_of(uuid@) == slot);
                }
                let last = self.devices.len() - 1;
                let _gone = self.devices.swap_remove(slot);
                if slot < last {
                    let moved = self.devices[slot].uuid.clone();
                    index_insert(&mut self.index, moved, slot);
                }
                assert(final(self)@ =~= old(self)@.remove(uuid@));
                assert(final(self).uuids() =~= swap_removed(old(self).uuids(), uuid@));
                true
            },
        }
    }

    /// The name of the device connected under `uuid`, if there is one.
    pub fn name_of(&self, uuid: &str) -> (name: Option<String>)
        requires
            self.wf(),
        ensures
            match name {
                Some(n) => self@.dom().contains(uuid@) && n@ == self@[uuid@],
                None => !self@.dom().contains(uuid@),
            },
    {
        match index_get(&self.index, uuid) {
            None => None,
            Some(slot) => Some(self.devices[slot].name.clone()),
        }
    }

    /// The identifiers of the connected devices, in order.
    pub fn list(&self) -> (uuids: Vec<String>)
        requires
            self.wf(),
        ensures
            texts_of(uuids@) == self.uuids(),
    {
        let mut uuids: Vec<String> = Vec::new();
        let mut i: usize = 0;
        assert(texts_of(uuids@) =~= self.uuids().take(0));
        while i < self.devices.len()
            invariant
                i <= self.devices.len(),
                texts_of(uuids@) == self.uuids().take(i as int),
            decreases self.devices.len() - i,
        {
            let ghost before = uuids@;
            let uuid = self.devices[i].uuid.clone();
            uuids.push(uuid);
            assert(texts_of(uuids@) =~= texts_of(before).push(uuid@));
            assert(self.uuids().take(i + 1) =~= self.uuids().take(i as int).push(uuid@));
            i += 1;
        }
        assert(self.uuids().take(i as int) =~= self.uuids());
        uuids
    }

    /// The payload that lists the connected devices: a JSON array of their
    /// identifiers.
    pub fn payload(&self) -> (payload: String)
        requires
            self.wf(),
        ensures
            payload@ == names_json(self.uuids()),
    {
        let uuids = self.list();
        names_payload(&uuids)
    }
}

} // verus!
