//! A sliding 64-bit window over a trace buffer, for reading fields that are
//! not aligned to bytes.
use crate::stream::{bit_len, le_value, lemma_window_field, stream_bits};
use vstd::arithmetic::power2::{lemma_pow2_pos, pow2};
use vstd::bits::{
    lemma_u128_shr_is_div, lemma_u64_low_bits_mask_is_mod, lemma_u64_shl_is_mul,
    lemma_u64_shr_is_div, low_bits_mask,
};
use vstd::prelude::*;

verus! {

/// Largest `lsb + width` that a read may ask for.
pub const LOOK_AHEAD: usize = 60;

/// A cursor into a trace buffer. `bits` holds the eight bytes that start at
/// byte `start`, and the cursor stands `bits_consumed` bits past that byte.
#[derive(Clone, Copy)]
pub struct BitReader<'a> {
    input: &'a [u8],
    start: usize,
    bits: u64,
    bits_consumed: usize,
}

/// Reads eight bytes at `at` as a little-endian number.
fn load_le_u64(input: &[u8], at: usize) -> (r: u64)
    requires
        at + 8 <= input@.len(),
    ensures
        r as nat == le_value(input@.subrange(at as int, at + 8)),
{
    let b0 = input[at];
    let b1 = input[at + 1];
    let b2 = input[at + 2];
    let b3 = input[at + 3];
    let b4 = input[at + 4];
    let b5 = input[at + 5];
    let b6 = input[at + 6];
    let b7 = input[at + 7];
    let r = (b0 as u64) | (b1 as u64) << 8u64 | (b2 as u64) << 16u64 | (b3 as u64) << 24u64
        | (b4 as u64) << 32u64 | (b5 as u64) << 40u64 | (b6 as u64) << 48u64 | (b7 as u64)
        << 56u64;
    proof {
        let w = input@.subrange(at as int, at + 8);
        assert(r == b0 as u64 + 256 * (b1 as u64 + 256 * (b2 as u64 + 256 * (b3 as u64 + 256 * (
        b4 as u64 + 256 * (b5 as u64 + 256 * (b6 as u64 + 256 * (b7 as nat)))))))) by (bit_vector)
            requires
                r == (b0 as u64) | (b1 as u64) << 8u64 | (b2 as u64) << 16u64 | (b3 as u64)
                    << 24u64 | (b4 as u64) << 32u64 | (b5 as u64) << 40u64 | (b6 as u64)
                    << 48u64 | (b7 as u64) << 56u64,
        ;
        reveal_with_fuel(le_value, 9);
        assert(w.drop_first().drop_first().drop_first().drop_first().drop_first().drop_first(
        ).drop_first().drop_first() =~= Seq::<u8>::empty());
    }
    r
}

impl<'a> BitReader<'a> {
    /// The buffer read.
    pub closed spec fn data(&self) -> Seq<u8> {
        self.input@
    }

    /// The position of the cursor, in bits from the start of the buffer.
    pub closed spec fn pos(&self) -> nat {
        (8 * self.start + self.bits_consumed) as nat
    }

    pub closed spec fn wf(&self) -> bool {
        &&& 8 <= self.input@.len()
        &&& 8 * self.input@.len() <= usize::MAX
        &&& self.start + 8 <= self.input@.len()
        &&& self.pos() <= bit_len(self.input@)
        &&& self.bits as nat == le_value(self.input@.subrange(self.start as int, self.start + 8))
        &&& (self.bits_consumed < 8 || self.start + 8 == self.input@.len())
    }

    /// A cursor at the first bit of `input`.
    pub fn new(input: &'a [u8]) -> (r: BitReader<'a>)
        requires
            8 <= input@.len(),
            8 * input@.len() <= usize::MAX,
        ensures
            r.wf(),
            r.data() == input@,
            r.pos() == 0,
    {
        let bits = load_le_u64(input, 0);
        BitReader { input, start: 0, bits, bits_consumed: 0 }
    }

    /// The `width` bits at `lsb` bits past the cursor, or `None` where they run
    /// past the end of the buffer. The cursor does not move.
    pub fn bits(&self, lsb: usize, width: usize) -> (r: Option<u64>)
        requires
            self.wf(),
            lsb + width <= LOOK_AHEAD,
        ensures
            r == (if self.pos() + lsb + width <= bit_len(self.data()) {
                Some(stream_bits(self.data(), self.pos() + lsb as nat, width as nat) as u64)
            } else {
                None
            }),
    {
        let sh = self.bits_consumed + lsb;
        if sh + width > self.input.len() * 8 - self.start * 8 {
            return None;
        }
        if width == 0 {
            proof {
                vstd::arithmetic::power2::lemma2_to64();
            }
            return Some(0);
        }
        proof {
            lemma_pow2_pos(width as nat);
            vstd::bits::lemma_u64_pow2_no_overflow(width as nat);
            lemma_u64_shl_is_mul(1, width as u64);
        }
        let mask = (1u64 << width as u64) - 1;
        proof {
            assert(mask == low_bits_mask(width as nat));
        }
        if sh + width <= 64 {
            proof {
                lemma_window_field(self.input@, self.start as nat, 8, sh as nat, width as nat);
                lemma_u64_shr_is_div(self.bits, sh as u64);
                lemma_u64_low_bits_mask_is_mod(self.bits >> sh as u64, width as nat);
            }
            Some((self.bits >> sh as u64) & mask)
        } else {
            // The read runs past the window, which therefore does not end the
            // buffer: one more byte covers it.
            let next = self.input[self.start + 8];
            let wide = (self.bits as u128) | ((next as u128) << 64u128);
            let low = #[verifier::truncate] ((wide >> sh as u128) as u64);
            proof {
                let b = self.bits;
                assert(wide == b as u128 + (next as u128) * 0x1_0000_0000_0000_0000u128)
                    by (bit_vector)
                    requires
                        wide == (b as u128) | ((next as u128) << 64u128),
                ;
                let w9 = self.input@.subrange(self.start as int, self.start + 9);
                crate::stream::lemma_le_value_split(w9, 8);
                assert(w9.take(8) =~= self.input@.subrange(self.start as int, self.start + 8));
                assert(w9.skip(8) =~= seq![next]);
                assert(seq![next].drop_first() =~= Seq::<u8>::empty());
                reveal_with_fuel(le_value, 2);
                assert(le_value(seq![next]) == next as nat);
                vstd::arithmetic::power2::lemma2_to64();
                assert(le_value(w9.take(8)) == b as nat);
                assert(le_value(w9.skip(8)) == next as nat);
                assert(pow2(8 * 8) == 0x1_0000_0000_0000_0000);
                assert(le_value(w9) == b as nat + 0x1_0000_0000_0000_0000 * (next as nat));
                assert(wide as nat == le_value(w9));
                lemma_window_field(self.input@, self.start as nat, 9, sh as nat, width as nat);
                lemma_u128_shr_is_div(wide, sh as u128);
                let x = wide >> sh as u128;
                assert(low == x % 0x1_0000_0000_0000_0000u128) by (bit_vector)
                    requires
                        low == x as u64,
                ;
                lemma_u64_low_bits_mask_is_mod(low, width as nat);
                lemma_pow2_pos((64 - width) as nat);
                vstd::arithmetic::power2::lemma_pow2_adds(width as nat, (64 - width) as nat);
                vstd::arithmetic::div_mod::lemma_mod_mod(
                    x as int,
                    pow2(width as nat) as int,
                    pow2((64 - width) as nat) as int,
                );
            }
            Some(low & mask)
        }
    }

    /// Moves the cursor `n` bits on, or leaves it where it is and returns `None`
    /// where that passes the end of the buffer.
    pub fn consume(&mut self, n: usize) -> (r: Option<()>)
        requires
            old(self).wf(),
        ensures
            final(self).wf(),
            final(self).data() == old(self).data(),
            r is Some <==> old(self).pos() + n <= bit_len(old(self).data()),
            final(self).pos() == (if r is Some {
                old(self).pos() + n as nat
            } else {
                old(self).pos()
            }),
    {
        if n > self.input.len() * 8 - self.start * 8 - self.bits_consumed {
            return None;
        }
        self.bits_consumed = self.bits_consumed + n;
        self.refill();
        Some(())
    }

    /// Moves the window to the byte that holds the cursor, or to the last eight
    /// bytes of the buffer where fewer remain.
    fn refill(&mut self)
        requires
            8 <= old(self).input@.len(),
            8 * old(self).input@.len() <= usize::MAX,
            old(self).start + 8 <= old(self).input@.len(),
            old(self).pos() <= bit_len(old(self).input@),
        ensures
            final(self).wf(),
            final(self).data() == old(self).data(),
            final(self).pos() == old(self).pos(),
    {
        let at = self.start + self.bits_consumed / 8;
        let last = self.input.len() - 8;
        let start = if at < last {
            at
        } else {
            last
        };
        self.bits_consumed = self.bits_consumed - (start - self.start) * 8;
        self.start = start;
        self.bits = load_le_u64(self.input, start);
    }
}

} // verus!
