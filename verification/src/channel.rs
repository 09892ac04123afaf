use vstd::prelude::*;
use flume::Receiver;
use flume::Sender;
use crate::chunk_generator::GeneratedChunk;

verus! {

/// `flume::Sender`, the sending half of a channel.
#[verifier::external_type_specification]
#[verifier::external_body]
#[verifier::reject_recursive_types(T)]
pub struct ExSender<T>(Sender<T>);

/// `flume::Receiver`, the receiving half of a channel.
#[verifier::external_type_specification]
#[verifier::external_body]
#[verifier::reject_recursive_types(T)]
pub struct ExReceiver<T>(Receiver<T>);

/// The half of the completion channel that background work sends on.
pub type ChunkSender = Sender<GeneratedChunk>;

/// The half of the completion channel that the store drains.
pub type ChunkReceiver = Receiver<GeneratedChunk>;

/// Calls `flume::unbounded`, which opens a channel without a limit. Nothing is
/// claimed of the two halves.
#[verifier::external_body]
pub(crate) fn channel_open() -> (r: (ChunkSender, ChunkReceiver)) {
    flume::unbounded()
}

/// Calls `Sender::send`. On a channel without a limit it does not block; it fails, and
/// hands the message back, when every receiver is gone.
#[verifier::external_body]
pub(crate) fn channel_send(tx: &ChunkSender, message: GeneratedChunk) -> (r: Result<(), GeneratedChunk>)
    ensures
        r matches Err(m) ==> m == message,
{
    match tx.send(message) {
        Ok(()) => Ok(()),
        Err(e) => Err(e.into_inner()),
    }
}

/// Calls `Receiver::try_recv`, which never blocks: a message that waits in the
/// channel, or `None` while there is none or after every sender is gone. Which message
/// comes depends on what other threads have sent, so nothing is claimed of it.
#[verifier::external_body]
pub(crate) fn channel_try_recv(rx: &ChunkReceiver) -> (r: Option<GeneratedChunk>) {
    match rx.try_recv() {
        Ok(message) => Some(message),
        Err(_) => None,
    }
}

/// Calls `Receiver::len`, the number of messages that wait in the channel at the
/// moment of the call.
#[verifier::external_body]
pub(crate) fn channel_len(rx: &ChunkReceiver) -> (n: usize) {
    rx.len()
}

/// Calls `Sender::clone`, which makes one more sender of the same channel.
#[verifier::external_body]
pub(crate) fn channel_sender(tx: &ChunkSender) -> (r: ChunkSender) {
    tx.clone()
}

} // verus!
