//! The registry of transfers in flight: one record per transfer key, with
//! the progress last stored for it and the channel on which that progress
//! is shown to the transfer's own subscriber.

use vstd::prelude::*;
use dashmap::DashMap;
use tokio::sync::watch;
use crate::channel::{progress_channel, progress_value, send_progress};
use crate::device::DeviceClass;
use crate::index::{index_get, index_insert, index_new, index_remove, slots};
use crate::progress::{percent, percent_of};

verus! {

/// One line of an aggregate snapshot: a transfer's name, its size in bytes
/// and the progress last stored for it.
#[derive(Debug)]
pub struct TrackFile {
    pub size: usize,
    pub name: String,
    pub progress: u8,
}

/// What a line of a snapshot says, as plain values.
pub struct TrackFileView {
    pub size: nat,
    pub name: Seq<char>,
    pub progress: nat,
}

impl View for TrackFile {
    type V = TrackFileView;

    open spec fn view(&self) -> TrackFileView {
        TrackFileView { size: self.size as nat, name: self.name@, progress: self.progress as nat }
    }
}

/// What the registry holds for one transfer key.
pub struct Transfer {
    /// The size of the transfer in bytes, as last stored.
    pub size: nat,
    /// The progress last stored, from 0 to 100.
    pub progress: nat,
    /// The class of the device that the transfer comes from.
    pub class: DeviceClass,
    /// The value that the transfer's own subscriber currently sees.
    pub shown: u8,
}

/// A copy of a transfer's record, as handed out by a lookup.
#[derive(Clone, Copy, Debug, PartialEq, Eq, Structural)]
pub struct TransferRecord {
    pub total_size: usize,
    pub progress: u8,
    pub device_class: DeviceClass,
}

/// A transfer as the registry keeps it: the record and the sending end of
/// the channel towards the transfer's own subscriber.
pub struct Client {
    name: String,
    size: usize,
    progress: u8,
    mobile: bool,
    sender: watch::Sender<u8>,
}

impl Client {
    /// What this record says, as plain values.
    pub closed spec fn transfer(&self) -> Transfer {
        Transfer {
            size: self.size as nat,
            progress: self.progress as nat,
            class: DeviceClass::spec_from_mobile(self.mobile),
            shown: progress_value(self.sender),
        }
    }
}

/// How a progress update ended.
#[derive(Clone, Copy, Debug, PartialEq, Eq, Structural)]
pub enum UpdateOutcome {
    /// No record is kept under the key; nothing was stored or sent.
    Missing,
    /// The record now holds `progress`. `delivered` says whether the
    /// transfer's subscriber was there to be shown the value.
    Stored { progress: u8, delivered: bool },
}

/// A transfer's record after an update that stored `progress` for a size of
/// `total_size`: the class stays, and the subscriber sees the new value if
/// it was there to be shown it.
pub open spec fn after_update(before: Transfer, total_size: nat, progress: u8, delivered: bool) -> Transfer {
    Transfer {
        size: total_size,
        progress: progress as nat,
        class: before.class,
        shown: if delivered {
            progress
        } else {
            before.shown
        },
    }
}

/// The lines that a snapshot of the transfers of one device class holds:
/// one for each key of that class, in the order of `keys`.
pub open spec fn snapshot_of(
    keys: Seq<Seq<char>>,
    transfers: Map<Seq<char>, Transfer>,
    class: DeviceClass,
) -> Seq<TrackFileView>
    decreases keys.len(),
{
    if keys.len() == 0 {
        Seq::empty()
    } else {
        let rest = snapshot_of(keys.drop_last(), transfers, class);
        let transfer = transfers[keys.last()];
        if transfer.class == class {
            rest.push(
                TrackFileView {
                    size: transfer.size,
                    name: keys.last(),
                    progress: transfer.progress,
                },
            )
        } else {
            rest
        }
    }
}

/// Every line of a snapshot stands for a key of the wanted class and says
/// what the registry holds under that very key; and every key of the
/// wanted class has its line.
pub proof fn lemma_snapshot_lines(
    keys: Seq<Seq<char>>,
    transfers: Map<Seq<char>, Transfer>,
    class: DeviceClass,
)
    ensures
        forall|j: int|
            0 <= j < snapshot_of(keys, transfers, class).len() ==> {
                let line = #[trigger] snapshot_of(keys, transfers, class)[j];
                &&& keys.contains(line.name)
                &&& transfers[line.name].class == class
                &&& line.size == transfers[line.name].size
                &&& line.progress == transfers[line.name].progress
            },
        forall|i: int|
            0 <= i < keys.len() && transfers[#[trigger] keys[i]].class == class ==> exists|j: int|
                0 <= j < snapshot_of(keys, transfers, class).len() && snapshot_of(
                    keys,
                    transfers,
                    class,
                )[j].name == keys[i],
    decreases keys.len(),
{
    let lines = snapshot_of(keys, transfers, class);
    if keys.len() > 0 {
        let shorter = keys.drop_last();
        let rest = snapshot_of(shorter, transfers, class);
        lemma_snapshot_lines(shorter, transfers, class);
        assert forall|j: int| 0 <= j < lines.len() implies {
            let line = #[trigger] lines[j];
            &&& keys.contains(line.name)
            &&& transfers[line.name].class == class
            &&& line.size == transfers[line.name].size
            &&& line.progress == transfers[line.name].progress
        } by {
            if j < rest.len() {
                assert(lines[j] == rest[j]);
                let at = choose|at: int| 0 <= at < shorter.len() && shorter[at] == rest[j].name;
                assert(keys[at] == rest[j].name);
            } else {
                assert(keys[keys.len() - 1] == keys.last());
            }
        }
        assert forall|i: int|
            0 <= i < keys.len() && transfers[#[trigger] keys[i]].class == class implies exists|
            j: int,
        | 0 <= j < lines.len() && lines[j].name == keys[i] by {
            if i < shorter.len() {
                assert(shorter[i] == keys[i]);
                let j = choose|j: int| 0 <= j < rest.len() && rest[j].name == shorter[i];
                assert(lines[j].name == keys[i]);
            } else {
                assert(lines[lines.len() - 1].name == keys[i]);
            }
        }
    }
}

/// An update of one transfer leaves every other transfer as it was: the
/// lines of the other keys in any snapshot stay the same.
pub proof fn lemma_update_isolated(
    transfers: Map<Seq<char>, Transfer>,
    key: Seq<char>,
    updated: Transfer,
    other: Seq<char>,
)
    requires
        other != key,
    ensures
        transfers.insert(key, updated).dom().contains(other) == transfers.dom().contains(other),
        transfers.insert(key, updated)[other] == transfers[other],
{
}

/// A run of keys after one of them has been dropped: the last key takes
/// the place of the one dropped.
pub open spec fn swap_removed(keys: Seq<Seq<char>>, key: Seq<char>) -> Seq<Seq<char>> {
    keys.update(keys.index_of(key), keys.last()).drop_last()
}

/// The views of a run of snapshot lines.
pub open spec fn lines_of(lines: Seq<TrackFile>) -> Seq<TrackFileView> {
    lines.map_values(|line: TrackFile| line@)
}

/// The registry of transfers in flight.
pub struct TransferRegistry {
    index: DashMap<String, usize>,
    clients: Vec<Client>,
}

impl TransferRegistry {
    /// The registry's invariant: the index and the records agree. Every
    /// operation keeps it.
    pub closed spec fn wf(&self) -> bool {
        &&& forall|i: int|
            0 <= i < self.clients@.len() ==> slots(self.index).dom().contains(
                (#[trigger] self.clients@[i]).name@,
            ) && slots(self.index)[self.clients@[i].name@] == i
        &&& forall|key: Seq<char>| #[trigger]
            slots(self.index).dom().contains(key) ==> slots(self.index)[key]
                < self.clients@.len() && self.clients@[slots(self.index)[key] as int].name@ == key
    }

    /// The transfers on record, by key.
    pub closed spec fn view(&self) -> Map<Seq<char>, Transfer> {
        Map::new(
            |key: Seq<char>| slots(self.index).dom().contains(key),
            |key: Seq<char>| self.clients@[slots(self.index)[key] as int].transfer(),
        )
    }

    /// The keys on record, in the order in which snapshots list them.
    pub closed spec fn keys(&self) -> Seq<Seq<char>> {
        Seq::new(self.clients@.len(), |i: int| self.clients@[i].name@)
    }

    /// The keys in snapshot order are the keys on record, each once.
    pub proof fn lemma_keys(&self)
        requires
            self.wf(),
        ensures
            self.keys().no_duplicates(),
            forall|key: Seq<char>| self.keys().contains(key) <==> self@.dom().contains(key),
    {
        let keys = self.keys();
        assert forall|i: int, j: int| 0 <= i < keys.len() && 0 <= j < keys.len() && i != j implies keys[i]
            != keys[j] by {
            assert(slots(self.index)[self.clients@[i].name@] == i);
            assert(slots(self.index)[self.clients@[j].name@] == j);
        }
        assert forall|key: Seq<char>| self.keys().contains(key) <==> self@.dom().contains(key) by {
            if self.keys().contains(key) {
                let i = choose|i: int| 0 <= i < keys.len() && keys[i] == key;
                assert(slots(self.index).dom().contains(self.clients@[i].name@));
            }
            if self@.dom().contains(key) {
                assert(slots(self.index).dom().contains(key));
                assert(keys[slots(self.index)[key] as int] == key);
            }
        }
    }

    /// An empty registry.
    pub fn new() -> (registry: Self)
        ensures
            registry.wf(),
            registry@ == (Map::<Seq<char>, Transfer>::empty()),
            registry.keys() == Seq::<Seq<char>>::empty(),
    {
        let registry = TransferRegistry { index: index_new(), clients: Vec::new() };
        assert(registry@ =~= Map::<Seq<char>, Transfer>::empty());
        assert(registry.keys() =~= Seq::<Seq<char>>::empty());
        registry
    }

    /// The number of transfers on record.
    pub fn len(&self) -> (n: usize)
        requires
            self.wf(),
        ensures
            n == self.keys().len(),
    {
        self.clients.len()
    }

    /// Puts a fresh record under `key`, with nothing transferred yet, and
    /// opens the channel on which the transfer's progress will be shown.
    /// The receiving end is returned for the subscriber. A record that was
    /// kept under the same key is replaced, and keeps its place in the
    /// order of snapshots.
    pub fn register(&mut self, key: String, class: DeviceClass) -> (receiver: watch::Receiver<u8>)
        requires
            old(self).wf(),
        ensures
            final(self).wf(),
            final(self)@ == old(self)@.insert(
                key@,
                Transfer { size: 0, progress: 0, class: class, shown: 0 },
            ),
            final(self).keys() == if old(self)@.dom().contains(key@) {
                old(self).keys()
            } else {
                old(self).keys().push(key@)
            },
    {
        let (sender, receiver) = progress_channel(0);
        let ghost fresh = Transfer { size: 0, progress: 0, class: class, shown: 0 };
        match index_get(&self.index, key.as_str()) {
            Some(slot) => {
                let client = Client {
                    name: key,
                    size: 0,
                    progress: 0,
                    mobile: class.is_mobile(),
                    sender,
                };
                assert(client.transfer() == fresh);
                self.clients.set(slot, client);
                assert(final(self)@ =~= old(self)@.insert(key@, fresh));
                assert(final(self).keys() =~= old(self).keys());
            },
            None => {
                let slot = self.clients.len();
                let client = Client {
                    name: key.clone(),
                    size: 0,
                    progress: 0,
                    mobile: class.is_mobile(),
                    sender,
                };
                assert(client.transfer() == fresh);
                self.clients.push(client);
                index_insert(&mut self.index, key, slot);
                assert(final(self)@ =~= old(self)@.insert(key@, fresh));
                assert(final(self).keys() =~= old(self).keys().push(key@));
            },
        }
        receiver
    }

    /// Stores the progress of the transfer kept under `key`, computed from
    /// the bytes written so far and the size of the transfer, and shows it
    /// to the transfer's subscriber. Nothing happens when no record is kept
    /// under the key. No other record is touched.
    pub fn update(&mut self, key: &str, bytes_written: usize, total_size: usize) -> (outcome:
        UpdateOutcome)
        requires
            old(self).wf(),
        ensures
            final(self).wf(),
            final(self).keys() == old(self).keys(),
            match outcome {
                UpdateOutcome::Missing => !old(self)@.dom().contains(key@) && final(self)@ == old(
                    self,
                )@,
                UpdateOutcome::Stored { progress, delivered } => old(self)@.dom().contains(key@)
                    && progress == percent(bytes_written as nat, total_size as nat) && final(self)@
                    == old(self)@.insert(
                    key@,
                    after_update(old(self)@[key@], total_size as nat, progress, delivered),
                ),
            },
    {
        match index_get(&self.index, key) {
            None => {
                UpdateOutcome::Missing
            },
            Some(slot) => {
                let progress = percent_of(bytes_written, total_size);
                let ghost before = self.clients@[slot as int];
                let client = &mut self.clients[slot];
                client.size = total_size;
                client.progress = progress;
                let delivered = send_progress(&mut client.sender, progress);
                assert(self.clients@[slot as int].name == before.name);
                assert(self.clients@ =~= old(self).clients@.update(
                    slot as int,
                    self.clients@[slot as int],
                ));
                assert(final(self)@ =~= old(self)@.insert(
                    key@,
                    self.clients@[slot as int].transfer(),
                ));
                assert(final(self).keys() =~= old(self).keys());
                UpdateOutcome::Stored { progress, delivered }
            },
        }
    }

    /// The record kept under `key`, if there is one.
    pub fn lookup(&self, key: &str) -> (record: Option<TransferRecord>)
        requires
            self.wf(),
        ensures
            match record {
                Some(r) => self@.dom().contains(key@) && r.total_size == self@[key@].size
                    && r.progress == self@[key@].progress && r.device_class == self@[key@].class,
                None => !self@.dom().contains(key@),
            },
    {
        match index_get(&self.index, key) {
            None => None,
            Some(slot) => {
                let client = &self.clients[slot];
                Some(
                    TransferRecord {
                        total_size: client.size,
                        progress: client.progress,
                        device_class: DeviceClass::from_mobile(client.mobile),
                    },
                )
            },
        }
    }

    /// One line for each transfer that comes from a device of class
    /// `class`, in the order of [`Self::keys`].
    pub fn snapshot(&self, class: DeviceClass) -> (lines: Vec<TrackFile>)
        requires
            self.wf(),
        ensures
            lines_of(lines@) == snapshot_of(self.keys(), self@, class),
    {
        let mut lines: Vec<TrackFile> = Vec::new();
        let mut i: usize = 0;
        assert(self.keys().take(0) =~= Seq::<Seq<char>>::empty());
        assert(lines_of(lines@) =~= Seq::<TrackFileView>::empty());
        while i < self.clients.len()
            invariant
                self.wf(),
                i <= self.clients.len(),
                lines_of(lines@) == snapshot_of(self.keys().take(i as int), self@, class),
            decreases self.clients.len() - i,
        {
            let client = &self.clients[i];
            let ghost upto = self.keys().take(i + 1);
            proof {
                assert(upto.drop_last() =~= self.keys().take(i as int));
                assert(upto.last() == client.name@);
                assert(slots(self.index).dom().contains(self.clients@[i as int].name@));
                assert(self@[client.name@] == client.transfer());
            }
            if DeviceClass::from_mobile(client.mobile) == class {
                let line = TrackFile {
                    size: client.size,
                    name: client.name.clone(),
                    progress: client.progress,
                };
                let ghost before = lines@;
                lines.push(line);
                assert(lines_of(lines@) =~= lines_of(before).push(line@));
            }
            i += 1;
        }
        assert(self.keys().take(i as int) =~= self.keys());
        lines
    }

    /// Drops the record kept under `key` and says whether there was one.
    /// The record that was last in the order of snapshots takes the place
    /// of the one dropped.
    pub fn remove(&mut self, key: &str) -> (removed: bool)
        requires
            old(self).wf(),
        ensures
            final(self).wf(),
            removed == old(self)@.dom().contains(key@),
            final(self)@ == old(self)@.remove(key@),
            final(self).keys() == if removed {
                swap_removed(old(self).keys(), key@)
            } else {
                old(self).keys()
            },
    {
        match index_remove(&mut self.index, key) {
            None => {
                assert(final(self)@ =~= old(self)@.remove(key@));
                assert(final(self).keys() =~= old(self).keys());
                false
            },
            Some(slot) => {
                proof {
                    old(self).lemma_keys();
                    let keys = old(self).keys();
                    assert(keys[slot as int] == key@);
                    assert(keys.contains(key@));
                    assert(keys.index_of(key@) == slot);
                }
                let last = self.clients.len() - 1;
                let _gone = self.clients.swap_remove(slot);
                if slot < last {
                    let moved = self.clients[slot].name.clone();
                    index_insert(&mut self.index, moved, slot);
                }
                assert(final(self)@ =~= old(self)@.remove(key@));
                assert(final(self).keys() =~= swap_removed(old(self).keys(), key@));
                true
            },
        }
    }
}

} // verus!
