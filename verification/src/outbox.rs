//! Payload buffers and the sending ends of in-process queues.

use bytes::{Bytes, BytesMut};
use tokio::sync::mpsc::error::TrySendError;
use tokio::sync::mpsc::Sender;
use vstd::prelude::*;

verus! {

/// `bytes::Bytes`: an immutable, shared run of bytes.
#[verifier::external_type_specification]
#[verifier::external_body]
pub struct ExBytes(bytes::Bytes);

/// `bytes::BytesMut`: an owned, growable run of bytes.
#[verifier::external_type_specification]
#[verifier::external_body]
pub struct ExBytesMut(bytes::BytesMut);

/// `std::io::Error`, as it travels through the inbound queue.
#[verifier::external_type_specification]
#[verifier::external_body]
pub struct ExIoError(std::io::Error);

/// `tokio::sync::mpsc::Sender`: the sending end of a bounded queue.
#[verifier::external_type_specification]
#[verifier::external_body]
#[verifier::reject_recursive_types(T)]
pub struct ExSender<T>(tokio::sync::mpsc::Sender<T>);

/// `tokio::sync::oneshot::Sender`: the sending end of a queue for one value.
#[verifier::external_type_specification]
#[verifier::external_body]
#[verifier::reject_recursive_types(T)]
pub struct ExOneshotSender<T>(tokio::sync::oneshot::Sender<T>);

/// The bytes that a `Bytes` holds.
pub uninterp spec fn bytes_view(bytes: Bytes) -> Seq<u8>;

/// The bytes that a `BytesMut` holds.
pub uninterp spec fn bytes_mut_view(bytes: BytesMut) -> Seq<u8>;

/// `Bytes::len`: the number of bytes held.
pub assume_specification[ Bytes::len ](bytes: &Bytes) -> (len: usize)
    ensures
        len == bytes_view(*bytes).len(),
;

/// `Bytes::copy_from_slice`: a buffer with a copy of the given bytes.
pub assume_specification[ Bytes::copy_from_slice ](data: &[u8]) -> (bytes: Bytes)
    ensures
        bytes_view(bytes) == data@,
;

/// `<Bytes as AsRef<[u8]>>::as_ref`: the bytes held, as a slice.
#[verifier::external_body]
pub(crate) fn bytes_as_slice(bytes: &Bytes) -> (slice: &[u8])
    ensures
        slice@ == bytes_view(*bytes),
{
    bytes.as_ref()
}

/// `<BytesMut as From<&[u8]>>::from`: an owned buffer with a copy of the given bytes.
#[verifier::external_body]
pub(crate) fn bytes_mut_from_slice(data: &[u8]) -> (bytes: BytesMut)
    ensures
        bytes_mut_view(bytes) == data@,
{
    BytesMut::from(data)
}

/// What travels up to the application: the bytes of a message, or the error that ended the transport.
pub type InboundItem = Result<BytesMut, std::io::Error>;

/// The bytes of the message that an item carries.
pub open spec fn inbound_bytes(item: InboundItem) -> Option<Seq<u8>> {
    match item {
        Ok(bytes) => Some(bytes_mut_view(bytes)),
        Err(_) => None,
    }
}

/// What became of a send that does not wait.
#[derive(Clone, Copy, Debug, PartialEq, Eq, Structural)]
pub enum SendOutcome {
    /// The queue took the value.
    Sent,
    /// The queue had no room, and the value was dropped.
    Full,
    /// The receiving end is gone, and the value was dropped.
    Closed,
}

/// The sending end of a queue, with a record of every attempt to send on it.
#[verifier::reject_recursive_types(T)]
pub struct Outbox<T> {
    sender: Sender<T>,
    attempts: Ghost<Seq<(T, SendOutcome)>>,
}

impl<T> Outbox<T> {
    /// The queue that values are handed to.
    pub closed spec fn queue(&self) -> Sender<T> {
        self.sender
    }

    /// The values handed to the queue through this end, each with what became of it.
    pub closed spec fn attempts(&self) -> Seq<(T, SendOutcome)> {
        self.attempts@
    }

    /// The values handed to the queue through this end.
    pub open spec fn handed(&self) -> Seq<T> {
        self.attempts().map_values(|attempt: (T, SendOutcome)| attempt.0)
    }

    /// This end is `earlier` with some more attempts on the same queue.
    pub open spec fn continues(&self, earlier: &Self) -> bool {
        &&& self.queue() == earlier.queue()
        &&& earlier.attempts().is_prefix_of(self.attempts())
    }

    /// What became of the attempts that were made since `earlier`.
    pub open spec fn outcomes_since(&self, earlier: &Self) -> Seq<SendOutcome> {
        self.attempts().skip(earlier.attempts().len() as int).map_values(|attempt: (T, SendOutcome)| attempt.1)
    }

    /// The values that were handed over since `earlier`.
    pub open spec fn handed_since(&self, earlier: &Self) -> Seq<T> {
        self.attempts().skip(earlier.attempts().len() as int).map_values(|attempt: (T, SendOutcome)| attempt.0)
    }

    /// Wraps the sending end of a queue, with nothing sent yet.
    pub fn new(sender: Sender<T>) -> (outbox: Self)
        ensures
            outbox.queue() == sender,
            outbox.attempts() == Seq::<(T, SendOutcome)>::empty(),
            outbox.handed() == Seq::<T>::empty(),
    {
        let outbox = Outbox { sender, attempts: Ghost(Seq::empty()) };
        assert(outbox.handed() =~= Seq::<T>::empty());
        outbox
    }

    /// `mpsc::Sender::try_send`: hands `value` to the queue without waiting for room. The outcome is the
    /// queue's own answer, and the record grows by the value with that answer. Which of the outcomes it
    /// is rests on the queue's other users and is not stated.
    #[verifier::external_body]
    pub fn try_send(&mut self, value: T) -> (outcome: SendOutcome)
        ensures
            final(self).queue() == old(self).queue(),
            final(self).attempts() == old(self).attempts().push((value, outcome)),
            final(self).handed() == old(self).handed().push(value),
    {
        match self.sender.try_send(value) {
            Ok(()) => SendOutcome::Sent,
            Err(TrySendError::Full(_)) => SendOutcome::Full,
            Err(TrySendError::Closed(_)) => SendOutcome::Closed,
        }
    }
}

} // verus!
