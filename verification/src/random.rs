//! The GET RANDOM command: request a number of random bytes.

use vstd::prelude::*;

use crate::constants::{BTCHIP_CLA, INS_GET_RANDOM};
use crate::error::ApduError;
use crate::wire::{split_status_word, sw_word};

verus! {

/// The bytes of the GET RANDOM request packet asking for `count` bytes.
pub open spec fn random_request(count: u8) -> Seq<u8> {
    seq![BTCHIP_CLA, INS_GET_RANDOM, 0u8, 0u8, count]
}

/// GET RANDOM command: a single fixed packet, then one reply.
#[derive(Debug)]
pub struct GetRandom {
    /// Whether the one request packet has been handed out.
    pub sent: bool,
    /// The reply payload accumulated so far.
    pub reply: Vec<u8>,
    /// The last status word seen.
    pub sw: u16,
    /// How many random bytes are requested.
    pub count: u8,
}

impl GetRandom {
    /// A fresh command asking for `count` random bytes.
    pub fn new(count: u8) -> (r: GetRandom)
        ensures
            !r.sent,
            r.reply@ == Seq::<u8>::empty(),
            r.sw == 0,
            r.count == count,
    {
        GetRandom { sent: false, reply: Vec::new(), sw: 0, count }
    }

    /// Emit the single request packet on the first call; afterwards nothing
    /// remains to send.
    pub fn encode_next(&mut self, _apdu_size: usize) -> (r: Option<Vec<u8>>)
        ensures
            old(self).sent ==> r is None,
            !old(self).sent ==> (r matches Some(p) && p@ == random_request(old(self).count)),
            final(self).sent,
            final(self).reply@ == old(self).reply@,
            final(self).sw == old(self).sw,
            final(self).count == old(self).count,
    {
        if self.sent {
            None
        } else {
            self.sent = true;
            let mut ret: Vec<u8> = Vec::new();
            ret.push(BTCHIP_CLA);
            ret.push(INS_GET_RANDOM);
            ret.push(0x00);
            ret.push(0x00);
            ret.push(self.count);
            proof {
                assert(ret@ =~= random_request(self.count));
            }
            Some(ret)
        }
    }

    /// Strip the trailing status word off a raw reply, keeping the payload
    /// and recording the status; a reply shorter than the status word is
    /// refused and changes nothing.
    pub fn decode_reply(&mut self, data: Vec<u8>) -> (r: Result<(), ApduError>)
        ensures
            data@.len() < 2 ==> r == Err::<(), ApduError>(ApduError::UnexpectedEof) && *final(self)
                == *old(self),
            data@.len() >= 2 ==> r == Ok::<(), ApduError>(()) && final(self).reply@
                == data@.subrange(0, data@.len() - 2) && final(self).sw == sw_word(
                data@[data@.len() - 2],
                data@[data@.len() - 1],
            ) && final(self).sent == old(self).sent && final(self).count == old(self).count,
    {
        match split_status_word(data) {
            Ok((payload, sw)) => {
                self.reply = payload;
                self.sw = sw;
                Ok(())
            },
            Err(e) => Err(e),
        }
    }

    /// Terminal operation: the final status word and assembled payload.
    pub fn into_reply(self) -> (r: (u16, Vec<u8>))
        ensures
            r.0 == self.sw,
            r.1@ == self.reply@,
    {
        (self.sw, self.reply)
    }
}

} // verus!
