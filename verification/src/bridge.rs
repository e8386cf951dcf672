use vstd::prelude::*;

use tokio::sync::mpsc::Sender;

verus! {

/// Relies on tokio::sync::mpsc::Sender, the sender half of tokio's bounded
/// multi-producer single-consumer channel, carried here as an opaque value.
#[verifier::external_type_specification]
#[verifier::external_body]
#[verifier::reject_recursive_types(T)]
pub struct ExSender<T>(Sender<T>);

/// The outcome of one hand-off attempt.
#[derive(Clone, Copy, PartialEq, Eq, Structural, Debug)]
pub enum SendOutcome {
    /// The item was queued for the asynchronous runtime.
    Delivered,
    /// The runtime side of the channel is gone; the undelivered item comes
    /// back so that no data loss is masked. The embedding process treats this
    /// as a non-recoverable condition.
    RuntimeGone(u8),
}

/// Relies on tokio::sync::mpsc::Sender::blocking_send: queues the message for
/// the receiver half, blocking while the channel is at capacity, and hands the
/// message back in the error exactly when the receiver has been dropped. The
/// call must come from outside the asynchronous runtime (inside one it
/// panics), which is how the bridge is used: its callers are the embedding
/// process's own synchronous threads.
#[verifier::external_body]
fn blocking_send_byte(channel: &Sender<u8>, item: u8) -> (r: Result<(), u8>)
    ensures
        r matches Err(v) ==> v == item,
{
    match channel.blocking_send(item) {
        Ok(()) => Ok(()),
        Err(tokio::sync::mpsc::error::SendError(v)) => Err(v),
    }
}

/// Names the outcome of a hand-off attempt for each value the channel can
/// hand back: delivery, or the runtime side gone with the undelivered item
/// carried along.
pub fn classify_send(sent: Result<(), u8>) -> (s: SendOutcome)
    ensures
        sent is Ok <==> s == SendOutcome::Delivered,
        sent matches Err(v) ==> s == SendOutcome::RuntimeGone(v),
{
    match sent {
        Ok(()) => SendOutcome::Delivered,
        Err(v) => SendOutcome::RuntimeGone(v),
    }
}

/// The synchronous half of the bridge to a long-lived background asynchronous
/// runtime: a sender on the bounded hand-off channel whose receiver lives
/// inside that runtime. The embedding process creates the channel and the
/// runtime thread, then hands the sender here.
pub struct RuntimeBridge {
    channel: Sender<u8>,
}

impl RuntimeBridge {
    /// Wraps the sender half of the hand-off channel.
    pub fn from_sender(channel: Sender<u8>) -> RuntimeBridge {
        RuntimeBridge { channel }
    }

    /// Hands `item` to the asynchronous runtime, blocking only while the
    /// channel is at capacity. When the runtime side has already terminated,
    /// the outcome says so and returns the item undelivered rather than
    /// silently dropping it; the embedding process aborts on that outcome, as
    /// a dead serving runtime is non-recoverable.
    pub fn send(&self, item: u8) -> (s: SendOutcome)
        ensures
            s matches SendOutcome::RuntimeGone(v) ==> v == item,
    {
        classify_send(blocking_send_byte(&self.channel, item))
    }
}

} // verus!
