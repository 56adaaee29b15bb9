//! The wake-up signal of a broadcast channel and the steps of the pump
//! that republishes on it.

use vstd::prelude::*;
use tokio::sync::mpsc;
use crate::channel::{signal_channel, signal_share, try_signal, try_take};
use crate::device::DeviceClass;
use crate::presence::Presence;
use crate::registry::{snapshot_of, Transfer, TransferRegistry};
use crate::wire::{
    names_json, progress_json, progress_payload, snapshot_json, snapshot_payload,
};

verus! {

/// The number of wake-ups that a signal holds before it drops further ones.
pub const SIGNAL_CAPACITY: usize = 8;

/// The pause of a pump after a tick that found something to publish, in
/// milliseconds.
pub const ACTIVE_PAUSE_MS: u64 = 100;

/// The pause of a pump after a tick that found nothing, in milliseconds.
pub const IDLE_PAUSE_MS: u64 = 150;

/// The wake-up signal of a broadcast channel: absent until the first
/// subscriber installs it, then a bounded channel towards the pump.
#[verifier::reject_recursive_types(T)]
pub struct DirtySignal<T> {
    sender: Option<mpsc::Sender<T>>,
}

impl<T> DirtySignal<T> {
    /// Whether the signal has been installed.
    pub closed spec fn installed(&self) -> bool {
        self.sender is Some
    }

    /// A signal that has not been installed.
    pub fn new() -> (signal: Self)
        ensures
            !signal.installed(),
    {
        DirtySignal { sender: None }
    }

    /// Whether the signal has been installed.
    pub fn is_installed(&self) -> (b: bool)
        ensures
            b == self.installed(),
    {
        self.sender.is_some()
    }

    /// Installs a fresh signal of [`SIGNAL_CAPACITY`] and returns the end
    /// on which the pump listens.
    pub fn install(&mut self) -> (receiver: mpsc::Receiver<T>)
        ensures
            final(self).installed(),
    {
        let (sender, receiver) = signal_channel(SIGNAL_CAPACITY);
        self.sender = Some(sender);
        receiver
    }

    /// Another handle on the same signal, for a task that raises it while
    /// this one stays where it is. A handle on an absent signal is absent.
    pub fn handle(&self) -> (other: Self)
        ensures
            other.installed() == self.installed(),
    {
        match &self.sender {
            Some(sender) => DirtySignal { sender: Some(signal_share(sender)) },
            None => DirtySignal { sender: None },
        }
    }

    /// Offers a wake-up without waiting and says whether it was taken. It
    /// is dropped when the signal is absent, full or no longer listened to.
    pub fn raise(&self, message: T) -> (taken: bool)
        ensures
            taken ==> self.installed(),
    {
        match &self.sender {
            Some(sender) => try_signal(sender, message),
            None => false,
        }
    }
}

/// What a pump does after a tick: the payload to publish, if any, and the
/// pause before the next tick in milliseconds.
pub struct PumpStep {
    pub payload: Option<String>,
    pub pause_ms: u64,
}

/// The pause after a tick.
pub open spec fn spec_pause_after(dirty: bool) -> u64 {
    if dirty {
        ACTIVE_PAUSE_MS
    } else {
        IDLE_PAUSE_MS
    }
}

/// The pause after a tick that did, or did not, find something to publish.
#[verifier::when_used_as_spec(spec_pause_after)]
pub fn pause_after(dirty: bool) -> (ms: u64)
    ensures
        ms == spec_pause_after(dirty),
{
    if dirty {
        ACTIVE_PAUSE_MS
    } else {
        IDLE_PAUSE_MS
    }
}

/// The payload that is shown to viewers of class `viewer`: a snapshot of
/// the transfers that come from devices of the other class.
pub open spec fn aggregate_json(
    keys: Seq<Seq<char>>,
    transfers: Map<Seq<char>, Transfer>,
    viewer: DeviceClass,
) -> Seq<char> {
    snapshot_json(snapshot_of(keys, transfers, viewer.spec_other()))
}

/// Builds the payload that is shown to viewers of class `viewer`.
pub fn aggregate_payload(registry: &TransferRegistry, viewer: DeviceClass) -> (payload: String)
    requires
        registry.wf(),
    ensures
        payload@ == aggregate_json(registry.keys(), registry@, viewer),
{
    let lines = registry.snapshot(viewer.other());
    snapshot_payload(&lines)
}

/// Takes the wake-ups that wait on a signal, at most [`SIGNAL_CAPACITY`]
/// of them, and returns the last one taken. There is none when nothing
/// waited.
pub fn drain<T>(receiver: &mut mpsc::Receiver<T>) -> (last: Option<T>) {
    let mut last: Option<T> = None;
    let mut taken: usize = 0;
    while taken < SIGNAL_CAPACITY
        invariant
            taken <= SIGNAL_CAPACITY,
        decreases SIGNAL_CAPACITY - taken,
    {
        match try_take(receiver) {
            Some(message) => {
                last = Some(message);
            },
            None => {
                return last;
            },
        }
        taken += 1;
    }
    last
}

/// The step of an aggregate pump after a tick that did, or did not, find
/// a wake-up: with one it publishes a fresh snapshot for its viewers and
/// pauses briefly, without one it leaves the registry alone and pauses
/// longer.
pub fn aggregate_step(dirty: bool, registry: &TransferRegistry, viewer: DeviceClass) -> (step:
    PumpStep)
    requires
        registry.wf(),
    ensures
        step.pause_ms == spec_pause_after(dirty),
        match step.payload {
            Some(payload) => dirty && payload@ == aggregate_json(
                registry.keys(),
                registry@,
                viewer,
            ),
            None => !dirty,
        },
{
    if dirty {
        PumpStep { payload: Some(aggregate_payload(registry, viewer)), pause_ms: pause_after(true) }
    } else {
        PumpStep { payload: None, pause_ms: pause_after(false) }
    }
}

/// The step of the packaging pump after a tick that found `latest` as the
/// last progress value waiting, or none.
pub fn packaging_step(latest: Option<u8>) -> (step: PumpStep)
    ensures
        step.pause_ms == spec_pause_after(latest is Some),
        match step.payload {
            Some(payload) => latest matches Some(progress) && payload@ == progress_json(
                progress as nat,
            ),
            None => latest is None,
        },
{
    match latest {
        Some(progress) => PumpStep {
            payload: Some(progress_payload(progress)),
            pause_ms: pause_after(true),
        },
        None => PumpStep { payload: None, pause_ms: pause_after(false) },
    }
}

/// The step of the presence pump after a tick that did, or did not, find
/// a wake-up: with one it publishes the list of connected devices.
pub fn presence_step(dirty: bool, presence: &Presence) -> (step: PumpStep)
    requires
        presence.wf(),
    ensures
        step.pause_ms == spec_pause_after(dirty),
        match step.payload {
            Some(payload) => dirty && payload@ == names_json(presence.uuids()),
            None => !dirty,
        },
{
    if dirty {
        PumpStep { payload: Some(presence.payload()), pause_ms: pause_after(true) }
    } else {
        PumpStep { payload: None, pause_ms: pause_after(false) }
    }
}

/// One tick of the presence pump: drains the signal and decides the step.
/// Whether there is a payload depends on whether a wake-up waited; when
/// there is one, it lists the connected devices.
pub fn presence_tick(receiver: &mut mpsc::Receiver<()>, presence: &Presence) -> (step: PumpStep)
    requires
        presence.wf(),
    ensures
        step.pause_ms == spec_pause_after(step.payload is Some),
        step.payload matches Some(payload) ==> payload@ == names_json(presence.uuids()),
{
    let dirty = drain(receiver).is_some();
    presence_step(dirty, presence)
}

/// One tick of an aggregate pump: drains the signal and decides the step.
/// Whether there is a payload depends on whether a wake-up waited; when
/// there is one, it is the snapshot for the pump's viewers.
pub fn aggregate_tick(
    receiver: &mut mpsc::Receiver<()>,
    registry: &TransferRegistry,
    viewer: DeviceClass,
) -> (step: PumpStep)
    requires
        registry.wf(),
    ensures
        step.pause_ms == spec_pause_after(step.payload is Some),
        step.payload matches Some(payload) ==> payload@ == aggregate_json(
            registry.keys(),
            registry@,
            viewer,
        ),
{
    let dirty = drain(receiver).is_some();
    aggregate_step(dirty, registry, viewer)
}

/// One tick of the packaging pump: drains the signal and decides the step.
/// Whether there is a payload depends on whether a progress value waited.
pub fn packaging_tick(receiver: &mut mpsc::Receiver<u8>) -> (step: PumpStep)
    ensures
        step.pause_ms == spec_pause_after(step.payload is Some),
        step.payload matches Some(payload) ==> exists|progress: u8|
            payload@ == progress_json(progress as nat),
{
    let latest = drain(receiver);
    packaging_step(latest)
}

} // verus!
