//! The two message-signing commands: SIGN MESSAGE prepare, which streams
//! the message to the device across as many packets as the packet size
//! demands, and SIGN MESSAGE sign, which asks for the signature.

use vstd::prelude::*;

use crate::constants::{BTCHIP_CLA, INS_SIGN_MESSAGE, SW_OK};
use crate::error::ApduError;
use crate::wire::{
    be16, chunk_marks_ok, concat_chunks, extend_range, lemma_chunks_reassemble,
    lemma_path_encoding_len, lemma_subrange_join, path_encoding, push_path, push_u16_be,
    split_status_word, sw_word,
};

verus! {

/// Message bytes the first packet has room for after the fixed prefix: the
/// five-byte header, the encoded path, and the two-byte message length.
pub open spec fn first_capacity(path: Seq<u32>, apdu_size: int) -> int {
    apdu_size - 5 - (1 + 4 * path.len() + 2)
}

/// The first SIGN MESSAGE prepare packet: header flags "preparing, first
/// part", a length byte covering the rest, the encoded path, the total
/// message length in two big-endian bytes, then the first `m` message bytes.
pub open spec fn prepare_first_packet(path: Seq<u32>, msg: Seq<u8>, m: int) -> Seq<u8> {
    seq![BTCHIP_CLA, INS_SIGN_MESSAGE, 0x00u8, 0x01u8, (1 + 4 * path.len() + 2 + m) as u8]
        + path_encoding(path) + be16(msg.len() as u16) + msg.subrange(0, m)
}

/// A continuation SIGN MESSAGE prepare packet: header flags "preparing,
/// next part", a length byte, then message bytes `from` up to `from + k`.
pub open spec fn prepare_next_packet(msg: Seq<u8>, from: int, k: int) -> Seq<u8> {
    seq![BTCHIP_CLA, INS_SIGN_MESSAGE, 0x00u8, 0x80u8, k as u8] + msg.subrange(from, from + k)
}

/// SIGN MESSAGE prepare command: streams a message to the device for a
/// later signing step, splitting it across packets as needed.
#[derive(Debug)]
pub struct SignMessagePrepare {
    /// How many message bytes have been handed out so far.
    pub sent_length: usize,
    /// The reply payload accumulated so far.
    pub reply: Vec<u8>,
    /// The last status word seen.
    pub sw: u16,
    /// The derivation path of the signing key.
    pub bip32_path: Vec<u32>,
    /// The message to sign.
    pub message: Vec<u8>,
}

impl SignMessagePrepare {
    /// Structural invariant: progress never passes the end of the message,
    /// and the path and message respect the device limits.
    pub open spec fn wf(&self) -> bool {
        &&& self.sent_length <= self.message@.len()
        &&& self.bip32_path@.len() < 11
        &&& self.message@.len() < 0x10000
    }

    /// A fresh command for a derivation path and a message. The device
    /// accepts at most ten child indices and messages under 65536 bytes.
    pub fn new(bip32_path: Vec<u32>, message: Vec<u8>) -> (r: SignMessagePrepare)
        requires
            bip32_path@.len() < 11,
            message@.len() < 0x10000,
        ensures
            r.wf(),
            r.sent_length == 0,
            r.reply@ == Seq::<u8>::empty(),
            r.sw == 0,
            r.bip32_path@ == bip32_path@,
            r.message@ == message@,
    {
        SignMessagePrepare { sent_length: 0, reply: Vec::new(), sw: 0, bip32_path, message }
    }

    /// Emit the next packet of the message, or nothing once every message
    /// byte has been sent. Each emitted packet advances `sent_length` by
    /// exactly the message bytes it carries, so the fragments a driver
    /// collects are the message's bytes in order, none duplicated or
    /// omitted; no packet exceeds `apdu_size`.
    pub fn encode_next(&mut self, apdu_size: usize) -> (r: Option<Vec<u8>>)
        requires
            old(self).wf(),
            5 + 1 + 4 * old(self).bip32_path@.len() + 2 < apdu_size,
            apdu_size <= 260,
        ensures
            final(self).wf(),
            final(self).reply@ == old(self).reply@,
            final(self).sw == old(self).sw,
            final(self).bip32_path@ == old(self).bip32_path@,
            final(self).message@ == old(self).message@,
            old(self).sent_length == old(self).message@.len() ==> r is None
                && final(self).sent_length == old(self).sent_length,
            old(self).sent_length < old(self).message@.len() ==> (r matches Some(p) && {
                let sent: int = old(self).sent_length as int;
                let now: int = final(self).sent_length as int;
                let total: int = old(self).message@.len() as int;
                &&& sent < now <= total
                &&& p@.len() <= apdu_size
                &&& sent == 0 ==> {
                    let cap = first_capacity(old(self).bip32_path@, apdu_size as int);
                    &&& now == if cap < total { cap } else { total }
                    &&& p@ == prepare_first_packet(old(self).bip32_path@, old(self).message@, now)
                }
                &&& sent > 0 ==> {
                    let room: int = apdu_size - 5;
                    &&& now - sent == if room < total - sent { room } else { total - sent }
                    &&& p@ == prepare_next_packet(old(self).message@, sent, now - sent)
                }
            }),
    {
        if self.sent_length == self.message.len() {
            return None;
        }
        if self.sent_length == 0 {
            let init_data_len: usize = 1 + 4 * self.bip32_path.len() + 2;
            let space: usize = apdu_size - init_data_len - 5;
            let message_len: usize = if space < self.message.len() {
                space
            } else {
                self.message.len()
            };
            let packet_len: usize = init_data_len + message_len;
            let mut ret: Vec<u8> = Vec::new();
            ret.push(BTCHIP_CLA);
            ret.push(INS_SIGN_MESSAGE);
            ret.push(0x00);
            ret.push(0x01);
            ret.push(packet_len as u8);
            push_path(&mut ret, &self.bip32_path);
            push_u16_be(&mut ret, self.message.len() as u16);
            extend_range(&mut ret, self.message.as_slice(), 0, message_len);
            self.sent_length = message_len;
            proof {
                lemma_path_encoding_len(self.bip32_path@);
                assert(ret@ =~= prepare_first_packet(
                    self.bip32_path@,
                    self.message@,
                    message_len as int,
                ));
            }
            Some(ret)
        } else {
            let remaining: usize = self.message.len() - self.sent_length;
            let packet_len: usize = if apdu_size - 5 < remaining {
                apdu_size - 5
            } else {
                remaining
            };
            let mut ret: Vec<u8> = Vec::new();
            ret.push(BTCHIP_CLA);
            ret.push(INS_SIGN_MESSAGE);
            ret.push(0x00);
            ret.push(0x80);
            ret.push(packet_len as u8);
            let from: usize = self.sent_length;
            extend_range(&mut ret, self.message.as_slice(), from, from + packet_len);
            self.sent_length = self.sent_length + packet_len;
            proof {
                assert(ret@ =~= prepare_next_packet(self.message@, from as int, packet_len as int));
            }
            Some(ret)
        }
    }

    /// Consume an intermediate reply. The reply must be nothing but a
    /// status word: a shorter one is a truncation error, leftover payload
    /// is refused, and a non-success status word aborts the exchange at
    /// once with a status error (recorded before failing).
    pub fn decode_reply(&mut self, data: Vec<u8>) -> (r: Result<(), ApduError>)
        ensures
            final(self).sent_length == old(self).sent_length,
            final(self).bip32_path@ == old(self).bip32_path@,
            final(self).message@ == old(self).message@,
            data@.len() < 2 ==> r == Err::<(), ApduError>(ApduError::UnexpectedEof) && *final(self)
                == *old(self),
            data@.len() > 2 ==> r == Err::<(), ApduError>(ApduError::Unsupported) && *final(self)
                == *old(self),
            data@.len() == 2 ==> {
                let sw = sw_word(data@[0], data@[1]);
                &&& final(self).reply@ == Seq::<u8>::empty()
                &&& final(self).sw == sw
                &&& sw == SW_OK ==> r == Ok::<(), ApduError>(())
                &&& sw != SW_OK ==> r == Err::<(), ApduError>(ApduError::ApduBadStatus(sw))
            },
    {
        if data.len() < 2 {
            return Err(ApduError::UnexpectedEof);
        }
        if data.len() > 2 {
            return Err(ApduError::Unsupported);
        }
        match split_status_word(data) {
            Ok((payload, sw)) => {
                self.reply = payload;
                self.sw = sw;
                if sw != SW_OK {
                    Err(ApduError::ApduBadStatus(sw))
                } else {
                    Ok(())
                }
            },
            Err(e) => Err(e),
        }
    }

    /// Terminal operation: the final status word and assembled payload.
    pub fn into_reply(self) -> (r: (u16, Vec<u8>))
        ensures
            r.0 == self.sw,
            r.1@ == self.reply@,
    {
        (self.sw, self.reply)
    }
}

/// Whole-exchange law, machine-checked over the driver loop itself: calling
/// `encode_next` repeatedly on a fresh command until it returns nothing
/// terminates, and the message bytes carried by the emitted packets — after
/// the first packet's fixed prefix, after the five-byte header of every
/// later one — concatenate, in call order, to exactly the original message.
/// A real driver interleaves the same calls with transport round trips.
pub fn collect_message_fragments(cmd: &mut SignMessagePrepare, apdu_size: usize) -> (r: Vec<u8>)
    requires
        old(cmd).wf(),
        old(cmd).sent_length == 0,
        5 + 1 + 4 * old(cmd).bip32_path@.len() + 2 < apdu_size,
        apdu_size <= 260,
    ensures
        r@ == old(cmd).message@,
{
    let mut collected: Vec<u8> = Vec::new();
    loop
        invariant
            cmd.wf(),
            cmd.bip32_path@ == old(cmd).bip32_path@,
            cmd.message@ == old(cmd).message@,
            5 + 1 + 4 * cmd.bip32_path@.len() + 2 < apdu_size,
            apdu_size <= 260,
            collected@ == cmd.message@.subrange(0, cmd.sent_length as int),
        decreases cmd.message@.len() - cmd.sent_length,
    {
        let ghost sent_before: int = cmd.sent_length as int;
        let first_packet = cmd.sent_length == 0;
        match cmd.encode_next(apdu_size) {
            None => {
                proof {
                    assert(collected@ =~= cmd.message@);
                }
                return collected;
            },
            Some(packet) => {
                let offset: usize = if first_packet {
                    5 + 1 + 4 * cmd.bip32_path.len() + 2
                } else {
                    5
                };
                proof {
                    lemma_path_encoding_len(cmd.bip32_path@);
                    assert(packet@.subrange(offset as int, packet@.len() as int)
                        =~= cmd.message@.subrange(sent_before, cmd.sent_length as int));
                }
                extend_range(&mut collected, packet.as_slice(), offset, packet.len());
                proof {
                    lemma_subrange_join(cmd.message@, 0, sent_before, cmd.sent_length as int);
                }
            },
        }
    }
}

/// Law: the message fragments the prepare packets carry reassemble to
/// exactly the original message. The successive values of `sent_length` a
/// driver observes are admissible marks — zero before the first packet, the
/// message's length once `encode_next` returns nothing, never decreasing —
/// and each packet carries precisely the message bytes between two
/// consecutive marks, so concatenating the fragments in order gives the
/// message with no byte duplicated or omitted.
pub proof fn lemma_message_fragments_reassemble(message: Seq<u8>, marks: Seq<int>)
    requires
        chunk_marks_ok(message, marks),
    ensures
        concat_chunks(message, marks, 0) == message,
{
    lemma_chunks_reassemble(message, marks);
}

/// The bytes of the SIGN MESSAGE sign request packet: final signing step,
/// no extra user-authentication field.
pub open spec fn sign_request() -> Seq<u8> {
    seq![BTCHIP_CLA, INS_SIGN_MESSAGE, 0x80u8, 0x00u8, 0x01u8, 0x00u8]
}

/// SIGN MESSAGE sign command: a single fixed packet asking the device to
/// sign the previously prepared message.
#[derive(Debug)]
pub struct SignMessageSign {
    /// Whether the one request packet has been handed out.
    pub sent: bool,
    /// The reply payload accumulated so far.
    pub reply: Vec<u8>,
    /// The last status word seen.
    pub sw: u16,
}

impl SignMessageSign {
    /// A fresh command: nothing sent, no reply, status word zero.
    pub fn new() -> (r: SignMessageSign)
        ensures
            !r.sent,
            r.reply@ == Seq::<u8>::empty(),
            r.sw == 0,
    {
        SignMessageSign { sent: false, reply: Vec::new(), sw: 0 }
    }

    /// Emit the single request packet on the first call; afterwards nothing
    /// remains to send.
    pub fn encode_next(&mut self, _apdu_size: usize) -> (r: Option<Vec<u8>>)
        ensures
            old(self).sent ==> r is None,
            !old(self).sent ==> (r matches Some(p) && p@ == sign_request()),
            final(self).sent,
            final(self).reply@ == old(self).reply@,
            final(self).sw == old(self).sw,
    {
        if self.sent {
            None
        } else {
            self.sent = true;
            let mut ret: Vec<u8> = Vec::new();
            ret.push(BTCHIP_CLA);
            ret.push(INS_SIGN_MESSAGE);
            ret.push(0x80);
            ret.push(0x00);
            ret.push(0x01);
            ret.push(0x00);
            proof {
                assert(ret@ =~= sign_request());
            }
            Some(ret)
        }
    }

    /// Strip the trailing status word off a raw reply, keeping the payload
    /// and recording the status; a reply shorter than the status word is
    /// refused and changes nothing.
    pub fn decode_reply(&mut self, data: Vec<u8>) -> (r: Result<(), ApduError>)
        ensures
            data@.len() < 2 ==> r == Err::<(), ApduError>(ApduError::UnexpectedEof) && *final(self)
                == *old(self),
            data@.len() >= 2 ==> r == Ok::<(), ApduError>(()) && final(self).reply@
                == data@.subrange(0, data@.len() - 2) && final(self).sw == sw_word(
                data@[data@.len() - 2],
                data@[data@.len() - 1],
            ) && final(self).sent == old(self).sent,
    {
        match split_status_word(data) {
            Ok((payload, sw)) => {
                self.reply = payload;
                self.sw = sw;
                Ok(())
            },
            Err(e) => Err(e),
        }
    }

    /// Terminal operation: the final status word and assembled payload.
    pub fn into_reply(self) -> (r: (u16, Vec<u8>))
        ensures
            r.0 == self.sw,
            r.1@ == self.reply@,
    {
        (self.sw, self.reply)
    }
}

} // verus!
