//! The anchor block: a fixed-layout region of known content, written once by
//! the host at startup and never mutated afterwards.
//!
//! The client fetches the block's address (protocol command `0`) and then
//! navigates from that landmark by offsets agreed out of band. The block's
//! header is fixed: two magic words followed by the block's total byte size,
//! all little-endian 32-bit words.

use vstd::bytes::spec_u32_to_le_bytes;
use vstd::prelude::*;

verus! {

/// First word of the block's magic signature.
pub const ANCHOR_MAGIC_LO: u32 = 0x452307a1;

/// Second word of the block's magic signature.
pub const ANCHOR_MAGIC_HI: u32 = 0x4cae5cf0;

/// Total size of the block in bytes.
pub const ANCHOR_BYTE_SIZE: u32 = 64 * 1024;

/// Number of 32-bit words in the block.
pub const ANCHOR_WORDS: u32 = ANCHOR_BYTE_SIZE / 4;

/// The block's invariant: fixed word count, the two magic words, and the
/// byte size recorded in the third word.
pub open spec fn anchor_wf(w: Seq<u32>) -> bool {
    &&& w.len() == ANCHOR_WORDS
    &&& w[0] == ANCHOR_MAGIC_LO
    &&& w[1] == ANCHOR_MAGIC_HI
    &&& w[2] == ANCHOR_BYTE_SIZE
}

/// The block's content as the byte sequence a client sees in host memory:
/// each word serialized little-endian, in order.
pub open spec fn block_bytes(w: Seq<u32>) -> Seq<u8> {
    Seq::new(4 * w.len(), |i: int| spec_u32_to_le_bytes(w[i / 4])[i % 4])
}

/// The anchor block held by the host process.
pub struct AnchorBlock {
    words: Vec<u32>,
}

impl View for AnchorBlock {
    type V = Seq<u32>;

    closed spec fn view(&self) -> Seq<u32> {
        self.words@
    }
}

impl AnchorBlock {
    /// The block's invariant, on a live instance.
    pub open spec fn wf(&self) -> bool {
        anchor_wf(self@)
    }

    /// Build the block the host allocates at startup: header as `anchor_wf`
    /// demands, every other word zero.
    pub fn new() -> (r: Self)
        ensures
            r.wf(),
            forall|i: int| 3 <= i < r@.len() ==> r@[i] == 0,
    {
        let mut words: Vec<u32> = Vec::new();
        words.push(ANCHOR_MAGIC_LO);
        words.push(ANCHOR_MAGIC_HI);
        words.push(ANCHOR_BYTE_SIZE);
        let n: usize = ANCHOR_WORDS as usize;
        while words.len() < n
            invariant
                3 <= words@.len() <= n,
                n == ANCHOR_WORDS,
                words@[0] == ANCHOR_MAGIC_LO,
                words@[1] == ANCHOR_MAGIC_HI,
                words@[2] == ANCHOR_BYTE_SIZE,
                forall|i: int| 3 <= i < words@.len() ==> words@[i] == 0,
            decreases n - words@.len(),
        {
            words.push(0);
        }
        AnchorBlock { words }
    }

    /// The number of words in the block.
    pub fn word_count(&self) -> (n: usize)
        ensures
            n == self@.len(),
    {
        self.words.len()
    }

    /// The block's total byte size, as recorded in its own header.
    pub fn byte_size(&self) -> (n: u32)
        requires
            self.wf(),
        ensures
            n == ANCHOR_BYTE_SIZE,
            n == 4 * self@.len(),
    {
        self.words[2]
    }

    /// Borrow the block's words; the embedding host takes the address of the
    /// first word from here to publish it as the anchor address.
    pub fn words(&self) -> (r: &Vec<u32>)
        ensures
            r@ == self@,
    {
        &self.words
    }

    /// The block's content as bytes, exactly as it sits in host memory.
    pub fn to_bytes(&self) -> (out: Vec<u8>)
        requires
            4 * self@.len() <= usize::MAX,
        ensures
            out@ == block_bytes(self@),
    {
        let mut out: Vec<u8> = Vec::new();
        let mut wi: usize = 0;
        while wi < self.words.len()
            invariant
                wi <= self.words@.len(),
                4 * self.words@.len() <= usize::MAX,
                out@.len() == 4 * wi,
                forall|j: int| 0 <= j < out@.len() ==> out@[j] == block_bytes(self@)[j],
            decreases self.words@.len() - wi,
        {
            let mut b = vstd::bytes::u32_to_le_bytes(self.words[wi]);
            out.append(&mut b);
            proof {
                vstd::bytes::lemma_auto_spec_u32_to_from_le_bytes();
                assert forall|j: int| 4 * wi <= j < out@.len() implies out@[j] == block_bytes(
                    self@,
                )[j] by {
                    let k = j - 4 * (wi as int);
                    vstd::arithmetic::div_mod::lemma_fundamental_div_mod_converse(
                        j,
                        4,
                        wi as int,
                        k,
                    );
                    assert(out@[j] == spec_u32_to_le_bytes(self@[wi as int])[k]);
                }
            }
            wi = wi + 1;
        }
        proof {
            assert(out@ =~= block_bytes(self@));
        }
        out
    }
}

/// The first 12 bytes of any well-formed anchor block are the two magic
/// words followed by the block's byte size, each as 4 little-endian bytes.
pub proof fn lemma_anchor_header_bytes(w: Seq<u32>)
    requires
        anchor_wf(w),
    ensures
        block_bytes(w).subrange(0, 12) == spec_u32_to_le_bytes(ANCHOR_MAGIC_LO)
            + spec_u32_to_le_bytes(ANCHOR_MAGIC_HI) + spec_u32_to_le_bytes(ANCHOR_BYTE_SIZE),
{
    vstd::bytes::lemma_auto_spec_u32_to_from_le_bytes();
    let lhs = block_bytes(w).subrange(0, 12);
    let rhs = spec_u32_to_le_bytes(ANCHOR_MAGIC_LO) + spec_u32_to_le_bytes(ANCHOR_MAGIC_HI)
        + spec_u32_to_le_bytes(ANCHOR_BYTE_SIZE);
    assert forall|i: int| 0 <= i < 12 implies lhs[i] == rhs[i] by {
        let q = i / 4;
        let k = i % 4;
        vstd::arithmetic::div_mod::lemma_fundamental_div_mod(i, 4);
        assert(lhs[i] == spec_u32_to_le_bytes(w[q])[k]);
    }
    assert(lhs =~= rhs);
}

} // verus!
