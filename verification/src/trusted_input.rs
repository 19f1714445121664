//! The GET TRUSTED INPUT command: stream a serialized transaction to the
//! device and collect the attestation blob for one of its outputs.
//!
//! The transaction's bytes come with a list of cut offsets — structurally
//! safe places to split the buffer, with a trailing sentinel at the buffer's
//! length — and each packet greedily packs as many whole fragments between
//! consecutive cuts as fit below the packet-size limit. A fragment is never
//! split across two packets.

use vstd::prelude::*;

use crate::constants::{BTCHIP_CLA, INS_GET_TRUSTED_INPUT};
use crate::error::ApduError;
use crate::wire::{
    be32, chunk_marks_ok, concat_chunks, extend_range, lemma_chunks_reassemble,
    lemma_subrange_join, push_u32_be, split_status_word, sw_word,
};

verus! {

/// The cut offsets seen as mathematical marks into the buffer.
pub open spec fn cut_marks(cuts: Seq<usize>) -> Seq<int> {
    cuts.map_values(|c: usize| c as int)
}

/// Cut offsets are admissible for a buffer when they begin at zero, end at
/// the buffer's length (the trailing sentinel), and strictly increase, so
/// that consecutive offsets delimit a non-empty fragment.
pub open spec fn cuts_ok(ser_tx: Seq<u8>, cuts: Seq<usize>) -> bool {
    &&& cuts.len() >= 1
    &&& cuts[0] == 0
    &&& cuts[cuts.len() - 1] == ser_tx.len()
    &&& forall|i: int, j: int|
        #![trigger cuts[i], cuts[j]]
        0 <= i < j < cuts.len() ==> cuts[i] < cuts[j]
}

/// Fragment `i` — the bytes between cut `i` and the next cut — fits in one
/// packet even after the widest (first-packet) header of nine bytes.
pub open spec fn fragment_fits(cuts: Seq<usize>, i: int, apdu_size: int) -> bool {
    9 + cuts[i + 1] - cuts[i] < apdu_size
}

/// The first GET TRUSTED INPUT packet: header flags "first part", a length
/// byte covering the rest, the output index in four big-endian bytes, then
/// the packed fragments.
pub open spec fn trusted_input_first_packet(vout: u32, payload: Seq<u8>) -> Seq<u8> {
    seq![BTCHIP_CLA, INS_GET_TRUSTED_INPUT, 0x00u8, 0x00u8, (4 + payload.len()) as u8]
        + be32(vout) + payload
}

/// A continuation GET TRUSTED INPUT packet: header flags "next part", a
/// length byte, then the packed fragments.
pub open spec fn trusted_input_next_packet(payload: Seq<u8>) -> Seq<u8> {
    seq![BTCHIP_CLA, INS_GET_TRUSTED_INPUT, 0x80u8, 0x00u8, payload.len() as u8] + payload
}

/// Assemble the first packet around its packed fragments.
fn assemble_first(vout: u32, payload: &Vec<u8>) -> (r: Vec<u8>)
    requires
        payload@.len() <= 251,
    ensures
        r@ == trusted_input_first_packet(vout, payload@),
{
    let mut ret: Vec<u8> = Vec::new();
    ret.push(BTCHIP_CLA);
    ret.push(INS_GET_TRUSTED_INPUT);
    ret.push(0x00);
    ret.push(0x00);
    ret.push((4 + payload.len()) as u8);
    push_u32_be(&mut ret, vout);
    extend_range(&mut ret, payload.as_slice(), 0, payload.len());
    proof {
        assert(payload@.subrange(0, payload@.len() as int) =~= payload@);
        assert(ret@ =~= trusted_input_first_packet(vout, payload@));
    }
    ret
}

/// Assemble a continuation packet around its packed fragments.
fn assemble_next(payload: &Vec<u8>) -> (r: Vec<u8>)
    requires
        payload@.len() <= 255,
    ensures
        r@ == trusted_input_next_packet(payload@),
{
    let mut ret: Vec<u8> = Vec::new();
    ret.push(BTCHIP_CLA);
    ret.push(INS_GET_TRUSTED_INPUT);
    ret.push(0x80);
    ret.push(0x00);
    ret.push(payload.len() as u8);
    extend_range(&mut ret, payload.as_slice(), 0, payload.len());
    proof {
        assert(payload@.subrange(0, payload@.len() as int) =~= payload@);
        assert(ret@ =~= trusted_input_next_packet(payload@));
    }
    ret
}

/// GET TRUSTED INPUT command: streams a serialized transaction across as
/// many packets as the packet size demands, whole fragments at a time.
#[derive(Debug)]
pub struct GetTrustedInput {
    /// How many cuts have been consumed; the fragment between cut
    /// `sent_cuts` and the next cut is the first not yet sent.
    pub sent_cuts: usize,
    /// The reply payload last received. Only the final round trip's reply
    /// is meaningful for this command; earlier ones are overwritten.
    pub reply: Vec<u8>,
    /// The last status word seen.
    pub sw: u16,
    /// The serialized transaction.
    pub ser_tx: Vec<u8>,
    /// The cut offsets, ending with the sentinel at the buffer's length.
    pub cuts: Vec<usize>,
    /// The index of the transaction output of interest.
    pub vout: u32,
}

impl GetTrustedInput {
    /// Structural invariant: the cuts are admissible and the progress
    /// marker always looks one cut ahead.
    pub open spec fn wf(&self) -> bool {
        &&& cuts_ok(self.ser_tx@, self.cuts@)
        &&& self.sent_cuts < self.cuts@.len()
    }

    /// Every fragment not yet sent fits in one packet, even after the
    /// widest (first-packet) header of nine bytes.
    pub open spec fn fragments_fit(&self, apdu_size: int) -> bool {
        forall|i: int|
            self.sent_cuts <= i < self.cuts@.len() - 1 ==> #[trigger] fragment_fits(
                self.cuts@,
                i,
                apdu_size,
            )
    }

    /// A fresh command from a transaction's serialized bytes, the cut
    /// offsets its serializer reported as safe split points, and the index
    /// of the output of interest.
    pub fn new(ser_tx: Vec<u8>, cuts: Vec<usize>, vout: u32) -> (r: GetTrustedInput)
        requires
            cuts_ok(ser_tx@, cuts@),
        ensures
            r.wf(),
            r.sent_cuts == 0,
            r.reply@ == Seq::<u8>::empty(),
            r.sw == 0,
            r.ser_tx@ == ser_tx@,
            r.cuts@ == cuts@,
            r.vout == vout,
    {
        GetTrustedInput { sent_cuts: 0, reply: Vec::new(), sw: 0, ser_tx, cuts, vout }
    }

    /// Emit the next packet, or nothing once the progress marker has
    /// reached the final cut. Each packet carries the bytes between the cut
    /// where the previous packet stopped and the cut where this one stops —
    /// whole fragments only, as many as fit — and always stays strictly
    /// below `apdu_size`; it stops early only when the next whole fragment
    /// would no longer fit.
    pub fn encode_next(&mut self, apdu_size: usize) -> (r: Option<Vec<u8>>)
        requires
            old(self).wf(),
            old(self).fragments_fit(apdu_size as int),
            apdu_size <= 260,
        ensures
            final(self).wf(),
            final(self).reply@ == old(self).reply@,
            final(self).sw == old(self).sw,
            final(self).ser_tx@ == old(self).ser_tx@,
            final(self).cuts@ == old(self).cuts@,
            final(self).vout == old(self).vout,
            old(self).sent_cuts == old(self).cuts@.len() - 1 ==> r is None
                && final(self).sent_cuts == old(self).sent_cuts,
            old(self).sent_cuts < old(self).cuts@.len() - 1 ==> (r matches Some(p) && {
                let a: int = old(self).sent_cuts as int;
                let b: int = final(self).sent_cuts as int;
                let payload = old(self).ser_tx@.subrange(
                    old(self).cuts@[a] as int,
                    old(self).cuts@[b] as int,
                );
                &&& a < b <= old(self).cuts@.len() - 1
                &&& p@.len() < apdu_size
                &&& a == 0 ==> p@ == trusted_input_first_packet(old(self).vout, payload)
                &&& a > 0 ==> p@ == trusted_input_next_packet(payload)
                &&& b < old(self).cuts@.len() - 1 ==> p@.len() + (old(self).cuts@[b + 1]
                    - old(self).cuts@[b]) >= apdu_size
            }),
    {
        if self.sent_cuts == self.cuts.len() - 1 {
            return None;
        }
        let first = self.sent_cuts == 0;
        let header_len: usize = if first {
            9
        } else {
            5
        };
        let ghost a: int = self.sent_cuts as int;

        // The first remaining fragment always fits below the limit.
        let mut payload: Vec<u8> = Vec::new();
        proof {
            assert(fragment_fits(self.cuts@, a, apdu_size as int));
            assert(self.cuts@[self.cuts@.len() - 1] == self.ser_tx@.len());
        }
        let from = self.cuts[self.sent_cuts];
        let to = self.cuts[self.sent_cuts + 1];
        extend_range(&mut payload, self.ser_tx.as_slice(), from, to);
        self.sent_cuts = self.sent_cuts + 1;

        // Greedy packing: append whole fragments while the next one fits.
        while self.sent_cuts < self.cuts.len() - 1 && header_len + payload.len() + (self.cuts[
            self.sent_cuts + 1] - self.cuts[self.sent_cuts]) < apdu_size
            invariant
                self.reply@ == old(self).reply@,
                self.sw == old(self).sw,
                self.ser_tx@ == old(self).ser_tx@,
                self.cuts@ == old(self).cuts@,
                self.vout == old(self).vout,
                cuts_ok(self.ser_tx@, self.cuts@),
                old(self).fragments_fit(apdu_size as int),
                apdu_size <= 260,
                a == old(self).sent_cuts as int,
                a < self.sent_cuts as int <= self.cuts@.len() - 1,
                header_len == if a == 0 { 9int } else { 5int },
                payload@ == self.ser_tx@.subrange(
                    self.cuts@[a] as int,
                    self.cuts@[self.sent_cuts as int] as int,
                ),
                header_len + payload@.len() < apdu_size,
                self.sent_cuts < self.cuts@.len() - 1 ==> fragment_fits(
                    self.cuts@,
                    self.sent_cuts as int,
                    apdu_size as int,
                ),
            decreases self.cuts@.len() - self.sent_cuts,
        {
            proof {
                assert(self.cuts@[self.cuts@.len() - 1] == self.ser_tx@.len());
            }
            let from2 = self.cuts[self.sent_cuts];
            let to2 = self.cuts[self.sent_cuts + 1];
            extend_range(&mut payload, self.ser_tx.as_slice(), from2, to2);
            self.sent_cuts = self.sent_cuts + 1;
            proof {
                lemma_subrange_join(
                    self.ser_tx@,
                    self.cuts@[a] as int,
                    from2 as int,
                    to2 as int,
                );
            }
        }

        // Assemble the header, whose length byte covers everything after
        // it, then the packed fragments.
        let ret = if first {
            assemble_first(self.vout, &payload)
        } else {
            assemble_next(&payload)
        };
        Some(ret)
    }

    /// Strip the trailing status word off a raw reply, keeping the payload
    /// and recording the status; a reply shorter than the status word is
    /// refused and changes nothing. Only the last round trip's reply is
    /// meaningful; an earlier one is overwritten by the next.
    pub fn decode_reply(&mut self, data: Vec<u8>) -> (r: Result<(), ApduError>)
        ensures
            data@.len() < 2 ==> r == Err::<(), ApduError>(ApduError::UnexpectedEof) && *final(self)
                == *old(self),
            data@.len() >= 2 ==> r == Ok::<(), ApduError>(()) && final(self).reply@
                == data@.subrange(0, data@.len() - 2) && final(self).sw == sw_word(
                data@[data@.len() - 2],
                data@[data@.len() - 1],
            ) && final(self).sent_cuts == old(self).sent_cuts && final(self).ser_tx@ == old(
                self,
            ).ser_tx@ && final(self).cuts@ == old(self).cuts@ && final(self).vout == old(self).vout,
    {
        match split_status_word(data) {
            Ok((payload, sw)) => {
                self.reply = payload;
                self.sw = sw;
                Ok(())
            },
            Err(e) => Err(e),
        }
    }

    /// Terminal operation: the final status word and assembled payload.
    pub fn into_reply(self) -> (r: (u16, Vec<u8>))
        ensures
            r.0 == self.sw,
            r.1@ == self.reply@,
    {
        (self.sw, self.reply)
    }
}

/// Whole-exchange law, machine-checked over the driver loop itself: calling
/// `encode_next` repeatedly on a fresh command until it returns nothing
/// terminates, and the fragment bytes the emitted packets carry — after the
/// nine-byte first-packet header, after the five-byte header of every later
/// one — concatenate, in call order, to exactly the serialized transaction.
/// A real driver interleaves the same calls with transport round trips.
pub fn collect_transaction_fragments(cmd: &mut GetTrustedInput, apdu_size: usize) -> (r: Vec<u8>)
    requires
        old(cmd).wf(),
        old(cmd).sent_cuts == 0,
        old(cmd).fragments_fit(apdu_size as int),
        apdu_size <= 260,
    ensures
        r@ == old(cmd).ser_tx@,
{
    let mut collected: Vec<u8> = Vec::new();
    loop
        invariant
            cmd.wf(),
            cmd.ser_tx@ == old(cmd).ser_tx@,
            cmd.cuts@ == old(cmd).cuts@,
            cmd.vout == old(cmd).vout,
            cmd.fragments_fit(apdu_size as int),
            apdu_size <= 260,
            collected@ == cmd.ser_tx@.subrange(0, cmd.cuts@[cmd.sent_cuts as int] as int),
        decreases cmd.cuts@.len() - cmd.sent_cuts,
    {
        let ghost a: int = cmd.sent_cuts as int;
        let first_packet = cmd.sent_cuts == 0;
        match cmd.encode_next(apdu_size) {
            None => {
                proof {
                    assert(collected@ =~= cmd.ser_tx@);
                }
                return collected;
            },
            Some(packet) => {
                let offset: usize = if first_packet {
                    9
                } else {
                    5
                };
                proof {
                    assert(packet@.subrange(offset as int, packet@.len() as int)
                        =~= cmd.ser_tx@.subrange(
                        cmd.cuts@[a] as int,
                        cmd.cuts@[cmd.sent_cuts as int] as int,
                    ));
                }
                extend_range(&mut collected, packet.as_slice(), offset, packet.len());
                proof {
                    lemma_subrange_join(
                        cmd.ser_tx@,
                        0,
                        cmd.cuts@[a] as int,
                        cmd.cuts@[cmd.sent_cuts as int] as int,
                    );
                }
            },
        }
    }
}

/// Law: the fragments delimited by an admissible cut list reassemble to
/// exactly the serialized transaction. Each packet's payload is the bytes
/// between two consecutive values of the progress marker — whole fragments
/// only — so the payloads a driver collects concatenate, in order, to the
/// full buffer, with no byte duplicated, dropped, or reordered.
pub proof fn lemma_cut_fragments_reassemble(ser_tx: Seq<u8>, cuts: Seq<usize>)
    requires
        cuts_ok(ser_tx, cuts),
    ensures
        concat_chunks(ser_tx, cut_marks(cuts), 0) == ser_tx,
{
    let marks = cut_marks(cuts);
    assert forall|i: int| 0 <= i < marks.len() - 1 implies #[trigger] marks[i] <= marks[i + 1] by {
        assert(cuts[i] < cuts[i + 1]);
    }
    assert forall|i: int| 0 <= i < marks.len() implies 0 <= #[trigger] marks[i] <= ser_tx.len() by {
        if i < cuts.len() - 1 {
            assert(cuts[i] < cuts[cuts.len() - 1]);
        }
    }
    assert(chunk_marks_ok(ser_tx, marks));
    lemma_chunks_reassemble(ser_tx, marks);
}

} // verus!
