use vstd::prelude::*;
use vstd::slice::slice_to_vec;
use crate::address::Address;

verus! {

/// What a relay message is, as plain values.
pub struct RelayMessageView {
    pub source: Seq<u8>,
    pub destination: Seq<u8>,
    pub payload: Seq<u8>,
}

/// The envelope that carries a payload over one hop, from the sender's
/// address to the receiver's.
#[derive(Debug)]
pub struct RelayMessage {
    source: Address,
    destination: Address,
    payload: Vec<u8>,
}

impl View for RelayMessage {
    type V = RelayMessageView;

    closed spec fn view(&self) -> RelayMessageView {
        RelayMessageView {
            source: self.source@,
            destination: self.destination@,
            payload: self.payload@,
        }
    }
}

/// The views of a queue of messages, in the same order.
pub open spec fn message_views(queue: Seq<RelayMessage>) -> Seq<RelayMessageView> {
    queue.map_values(|m: RelayMessage| m@)
}

impl Clone for RelayMessage {
    fn clone(&self) -> (copy: RelayMessage)
        ensures
            copy@ == self@,
    {
        RelayMessage {
            source: self.source.clone(),
            destination: self.destination.clone(),
            payload: slice_to_vec(self.payload.as_slice()),
        }
    }
}

impl RelayMessage {
    /// An envelope for `payload` on its way from `source` to `destination`.
    pub fn new(source: Address, destination: Address, payload: Vec<u8>) -> (message: RelayMessage)
        ensures
            message@ == (RelayMessageView {
                source: source@,
                destination: destination@,
                payload: payload@,
            }),
    {
        RelayMessage { source, destination, payload }
    }

    /// The address that sent the message.
    pub fn source(&self) -> (address: &Address)
        ensures
            address@ == self@.source,
    {
        &self.source
    }

    /// The address that the message is for.
    pub fn destination(&self) -> (address: &Address)
        ensures
            address@ == self@.destination,
    {
        &self.destination
    }

    /// The bytes carried.
    pub fn payload(&self) -> (bytes: &[u8])
        ensures
            bytes@ == self@.payload,
    {
        self.payload.as_slice()
    }

    /// Takes the envelope apart.
    pub fn into_payload(self) -> (bytes: Vec<u8>)
        ensures
            bytes@ == self@.payload,
    {
        self.payload
    }
}

} // verus!
