use vstd::prelude::*;

verus! {

/// Value of position `t` (0 = most significant) within an output byte.
pub open spec fn bit_weight(t: int) -> int {
    if t == 0 {
        128
    } else if t == 1 {
        64
    } else if t == 2 {
        32
    } else if t == 3 {
        16
    } else if t == 4 {
        8
    } else if t == 5 {
        4
    } else if t == 6 {
        2
    } else {
        1
    }
}

/// The value of the first `t` positions of the byte that starts at bit `start` of
/// `bits`, most significant first; positions past the end of `bits` count as 0.
pub open spec fn byte_prefix(bits: Seq<bool>, start: int, t: int) -> int
    decreases t,
{
    if t <= 0 {
        0
    } else {
        byte_prefix(bits, start, t - 1) + if 0 <= start + t - 1 < bits.len() && bits[start + t
            - 1] {
            bit_weight(t - 1)
        } else {
            0
        }
    }
}

/// Output byte `j` of the bitstream `bits`, packed most significant bit first.
pub open spec fn packed_byte(bits: Seq<bool>, j: int) -> int {
    byte_prefix(bits, 8 * j, 8)
}

/// The first `len` bytes of `bits` packed most significant bit first, zero-padded.
pub open spec fn pack_bits(bits: Seq<bool>, len: nat) -> Seq<u8> {
    Seq::new(len, |j: int| packed_byte(bits, j) as u8)
}

/// Largest value the first `t` positions of a byte can hold.
pub open spec fn prefix_cap(t: int) -> int {
    if t <= 0 {
        0
    } else if t == 1 {
        128
    } else if t == 2 {
        192
    } else if t == 3 {
        224
    } else if t == 4 {
        240
    } else if t == 5 {
        248
    } else if t == 6 {
        252
    } else if t == 7 {
        254
    } else {
        255
    }
}

pub proof fn lemma_byte_prefix_bound(bits: Seq<bool>, start: int, t: int)
    requires
        0 <= t <= 8,
    ensures
        0 <= byte_prefix(bits, start, t) <= prefix_cap(t),
    decreases t,
{
    if t > 0 {
        lemma_byte_prefix_bound(bits, start, t - 1);
    }
}

/// Appending one bit changes only the byte it falls in, by that position's weight.
pub proof fn lemma_byte_prefix_push(bits: Seq<bool>, b: bool, start: int, t: int)
    requires
        t >= 0,
    ensures
        byte_prefix(bits.push(b), start, t) == byte_prefix(bits, start, t) + if b && start
            <= bits.len() < start + t {
            bit_weight(bits.len() - start)
        } else {
            0
        },
    decreases t,
{
    if t > 0 {
        lemma_byte_prefix_push(bits, b, start, t - 1);
    }
}

/// Bytes that no bit reaches are zero.
pub proof fn lemma_byte_prefix_past_end(bits: Seq<bool>, start: int, t: int)
    requires
        t >= 0,
        start >= bits.len(),
    ensures
        byte_prefix(bits, start, t) == 0,
    decreases t,
{
    if t > 0 {
        lemma_byte_prefix_past_end(bits, start, t - 1);
    }
}

/// A fixed-length output buffer that a bitstream is packed into, most significant
/// bit first; bits past the end of the buffer are dropped.
pub struct BitPacker {
    pub data: Vec<u8>,
    pub bit_pos: u8,
    pub byte_pos: usize,
    pub emitted: Ghost<Seq<bool>>,
}

impl BitPacker {
    pub open spec fn wf(&self) -> bool {
        &&& self.data@ == pack_bits(self.emitted@, self.data@.len())
        &&& self.byte_pos == self.emitted@.len() / 8
        &&& self.bit_pos == bit_weight(self.emitted@.len() as int % 8)
    }

    /// An empty stream over a zeroed buffer of `len` bytes.
    pub fn new(len: usize) -> (p: BitPacker)
        ensures
            p.wf(),
            p.emitted@ == Seq::<bool>::empty(),
            p.data@.len() == len,
    {
        let data: Vec<u8> = vec![0u8; len];
        let p = BitPacker { data, bit_pos: 128, byte_pos: 0, emitted: Ghost(Seq::empty()) };
        proof {
            assert forall|j: int| 0 <= j < len implies p.data@[j] == packed_byte(
                Seq::<bool>::empty(),
                j,
            ) as u8 by {
                lemma_byte_prefix_past_end(Seq::<bool>::empty(), 8 * j, 8);
            }
            assert(p.data@ =~= pack_bits(Seq::<bool>::empty(), len as nat));
        }
        p
    }

    /// Appends one bit to the stream.
    pub fn add_bit(&mut self, bit: bool)
        requires
            old(self).wf(),
            old(self).emitted@.len() + 1 < usize::MAX,
        ensures
            final(self).wf(),
            final(self).emitted@ == old(self).emitted@.push(bit),
            final(self).data@.len() == old(self).data@.len(),
    {
        let ghost old_bits = self.emitted@;
        let ghost n: int = old_bits.len() as int;
        let ghost new_bits = old_bits.push(bit);
        let len = self.data.len();
        if bit && self.byte_pos < len {
            let pos = self.byte_pos;
            proof {
                lemma_byte_prefix_bound(old_bits, 8 * (pos as int), 8);
                lemma_byte_prefix_push(old_bits, bit, 8 * (pos as int), 8);
                assert(byte_prefix(old_bits, 8 * (pos as int), 8) == byte_prefix(
                    old_bits,
                    8 * (pos as int),
                    n % 8,
                )) by {
                    lemma_prefix_stops_at_end(old_bits, 8 * (pos as int), n % 8, 8);
                }
                lemma_byte_prefix_bound(old_bits, 8 * (pos as int), n % 8);
            }
            let cur = self.data[pos];
            self.data.set(pos, cur + self.bit_pos);
        }
        self.emitted = Ghost(new_bits);
        proof {
            assert forall|j: int| 0 <= j < len implies self.data@[j] == packed_byte(new_bits, j) as u8 by {
                lemma_byte_prefix_push(old_bits, bit, 8 * j, 8);
            }
            assert(self.data@ =~= pack_bits(new_bits, len as nat));
        }
        if self.bit_pos > 1 {
            self.bit_pos = self.bit_pos / 2;
        } else {
            self.bit_pos = 128;
            self.byte_pos = self.byte_pos + 1;
        }
    }
}

/// Positions from `t` on lie past the end of the stream, so they add nothing.
pub proof fn lemma_prefix_stops_at_end(bits: Seq<bool>, start: int, t: int, u: int)
    requires
        0 <= t <= u,
        start + t >= bits.len(),
    ensures
        byte_prefix(bits, start, u) == byte_prefix(bits, start, t),
    decreases u - t,
{
    if u > t {
        lemma_prefix_stops_at_end(bits, start, t, u - 1);
    }
}

} // verus!
