//! The framing of messages on a connection: one message fills one buffer.

use super::message::Message;
use std::marker::PhantomData;
use vstd::prelude::*;

verus! {

/// The protocol of a connection that carries requests of one type and
/// responses of another.
pub struct MsgPackProtocol<Req: Message, Res: Message> {
    req: PhantomData<Req>,
    res: PhantomData<Res>,
}

impl<Req: Message, Res: Message> MsgPackProtocol<Req, Res> {
    pub fn new() -> MsgPackProtocol<Req, Res> {
        MsgPackProtocol { req: PhantomData, res: PhantomData }
    }

    /// The codec for a connection of this protocol.
    pub fn codec(&self) -> MsgPackCodec<Req, Res> {
        MsgPackCodec::new()
    }
}

/// The message that a buffer holds: all of its bytes, and none where it is
/// empty.
pub open spec fn frame_of(buf: Seq<u8>) -> Option<Seq<u8>> {
    if buf.len() == 0 {
        None
    } else {
        Some(buf)
    }
}

/// Cuts the bytes of a connection into messages.
pub struct MsgPackCodec<Req: Message, Res: Message> {
    req: PhantomData<Req>,
    res: PhantomData<Res>,
}

impl<Req: Message, Res: Message> MsgPackCodec<Req, Res> {
    pub fn new() -> MsgPackCodec<Req, Res> {
        MsgPackCodec { req: PhantomData, res: PhantomData }
    }

    /// Takes the next message off the buffer: all that the buffer holds, and
    /// nothing where it is empty, which ends the request.
    pub fn decode(&mut self, buf: &mut Vec<u8>) -> (frame: Option<Vec<u8>>)
        ensures
            final(buf)@ == Seq::<u8>::empty(),
            match frame {
                Some(bytes) => frame_of(old(buf)@) == Some(bytes@),
                None => frame_of(old(buf)@) is None,
            },
    {
        if buf.len() == 0 {
            None
        } else {
            let mut bytes: Vec<u8> = Vec::new();
            core::mem::swap(buf, &mut bytes);
            Some(bytes)
        }
    }

    /// Puts an encoded message on the buffer, behind what it holds.
    pub fn encode(&mut self, msg: Vec<u8>, buf: &mut Vec<u8>)
        ensures
            final(buf)@ == old(buf)@ + msg@,
    {
        let mut msg = msg;
        buf.append(&mut msg);
    }
}

/// A message that is put on an empty buffer is taken off it whole: what is
/// encoded is what is decoded.
pub proof fn lemma_frame_round_trip(msg: Seq<u8>)
    requires
        msg.len() > 0,
    ensures
        frame_of(Seq::<u8>::empty() + msg) == Some(msg),
{
}

} // verus!
