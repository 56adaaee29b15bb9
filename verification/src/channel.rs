//! The channels that carry progress out of the library: latest-value
//! channels towards subscribers and bounded wake-up channels towards the
//! pumps. Both come from `tokio::sync`; this module states what the
//! library relies on.

use vstd::prelude::*;
use tokio::sync::mpsc;
use tokio::sync::watch;

verus! {

/// The sending end of a latest-value channel, `tokio::sync::watch::Sender`.
#[verifier::external_type_specification]
#[verifier::external_body]
#[verifier::reject_recursive_types(T)]
pub struct ExWatchSender<T>(watch::Sender<T>);

/// The receiving end of a latest-value channel,
/// `tokio::sync::watch::Receiver`.
#[verifier::external_type_specification]
#[verifier::external_body]
#[verifier::reject_recursive_types(T)]
pub struct ExWatchReceiver<T>(watch::Receiver<T>);

/// The sending end of a bounded channel, `tokio::sync::mpsc::Sender`.
#[verifier::external_type_specification]
#[verifier::external_body]
#[verifier::reject_recursive_types(T)]
pub struct ExSignalSender<T>(mpsc::Sender<T>);

/// The receiving end of a bounded channel, `tokio::sync::mpsc::Receiver`.
#[verifier::external_type_specification]
#[verifier::external_body]
#[verifier::reject_recursive_types(T)]
pub struct ExSignalReceiver<T>(mpsc::Receiver<T>);

/// The value that a progress channel currently holds: what its
/// subscribers see when they look.
pub uninterp spec fn progress_value(sender: watch::Sender<u8>) -> u8;

/// The text that a payload channel currently holds.
pub uninterp spec fn payload_value(sender: watch::Sender<String>) -> Seq<char>;

/// Opens a latest-value channel for progress with `tokio::sync::watch::channel`.
/// The channel starts out holding `initial`.
#[verifier::external_body]
pub(crate) fn progress_channel(initial: u8) -> (ends: (watch::Sender<u8>, watch::Receiver<u8>))
    ensures
        progress_value(ends.0) == initial,
{
    watch::channel(initial)
}

/// Opens a latest-value channel for payloads with `tokio::sync::watch::channel`.
/// The channel starts out holding `initial`.
#[verifier::external_body]
pub(crate) fn payload_channel(initial: String) -> (ends: (
    watch::Sender<String>,
    watch::Receiver<String>,
))
    ensures
        payload_value(ends.0) == initial@,
{
    watch::channel(initial)
}

/// Sends on a progress channel with `tokio::sync::watch::Sender::send`.
/// The call succeeds when the channel has a receiver, and then the channel
/// holds `value`; without a receiver it fails and the channel keeps what it
/// held. This speaks of a sender that is the only one of its channel.
#[verifier::external_body]
pub(crate) fn send_progress(sender: &mut watch::Sender<u8>, value: u8) -> (delivered: bool)
    ensures
        progress_value(*final(sender)) == if delivered {
            value
        } else {
            progress_value(*old(sender))
        },
{
    sender.send(value).is_ok()
}

/// Sends on a payload channel with `tokio::sync::watch::Sender::send`.
/// The call succeeds when the channel has a receiver, and then the channel
/// holds `value`; without a receiver it fails and the channel keeps what it
/// held. This speaks of a sender that is the only one of its channel.
#[verifier::external_body]
pub(crate) fn send_payload(sender: &mut watch::Sender<String>, value: String) -> (delivered: bool)
    ensures
        payload_value(*final(sender)) == if delivered {
            value@
        } else {
            payload_value(*old(sender))
        },
{
    sender.send(value).is_ok()
}

/// The largest capacity that a wake-up channel is opened with.
pub const MAX_SIGNAL_CAPACITY: usize = 0x0fff_ffff;

/// Opens a bounded channel with `tokio::sync::mpsc::channel`, which
/// refuses a capacity of zero and one beyond its semaphore's limit.
#[verifier::external_body]
pub(crate) fn signal_channel<T>(capacity: usize) -> (ends: (mpsc::Sender<T>, mpsc::Receiver<T>))
    requires
        0 < capacity <= MAX_SIGNAL_CAPACITY,
{
    mpsc::channel(capacity)
}

/// Offers a message with `tokio::sync::mpsc::Sender::try_send`, without
/// waiting. Whether the message was taken depends on the room left in the
/// channel and on the receiver being alive.
#[verifier::external_body]
pub(crate) fn try_signal<T>(sender: &mpsc::Sender<T>, message: T) -> (taken: bool) {
    sender.try_send(message).is_ok()
}

/// Makes another sending end of the same channel with the `clone` of
/// `tokio::sync::mpsc::Sender`.
#[verifier::external_body]
pub(crate) fn signal_share<T>(sender: &mpsc::Sender<T>) -> (other: mpsc::Sender<T>) {
    sender.clone()
}

/// Takes a waiting message with `tokio::sync::mpsc::Receiver::try_recv`,
/// without waiting. There is none when the channel is empty or closed.
#[verifier::external_body]
pub(crate) fn try_take<T>(receiver: &mut mpsc::Receiver<T>) -> (message: Option<T>) {
    receiver.try_recv().ok()
}

} // verus!
