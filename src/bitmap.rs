//! A growable bitmap packed eight bits to a byte, most significant bit first.
use vstd::prelude::*;

verus! {

/// Bit `off` of `byte`, counting from the most significant bit.
pub open spec fn bit_at(byte: u8, off: int) -> bool {
    (byte >> ((7 - off) as u8)) & 1u8 == 1u8
}

/// Number of bytes that hold `size` bits.
pub open spec fn bytes_for(size: nat) -> nat {
    if size == 0 {
        0
    } else {
        ((size - 1) / 8 + 1) as nat
    }
}

proof fn lemma_zero_byte(off: u8)
    requires
        off < 8,
    ensures
        (0u8 >> (7 - off) as u8) & 1u8 != 1u8,
{
    assert((0u8 >> (7 - off) as u8) & 1u8 != 1u8) by (bit_vector)
        requires
            off < 8,
    ;
}

proof fn lemma_set_same(b: u8, off: u8)
    requires
        off < 8,
    ensures
        ((b | (1u8 << (7 - off) as u8)) >> (7 - off) as u8) & 1u8 == 1u8,
        ((b & !(1u8 << (7 - off) as u8)) >> (7 - off) as u8) & 1u8 == 0u8,
{
    assert(((b | (1u8 << (7 - off) as u8)) >> (7 - off) as u8) & 1u8 == 1u8) by (bit_vector)
        requires
            off < 8,
    ;
    assert(((b & !(1u8 << (7 - off) as u8)) >> (7 - off) as u8) & 1u8 == 0u8) by (bit_vector)
        requires
            off < 8,
    ;
}

proof fn lemma_set_other(b: u8, off: u8, o: u8)
    requires
        off < 8,
        o < 8,
        o != off,
    ensures
        ((b | (1u8 << (7 - off) as u8)) >> (7 - o) as u8) & 1u8 == (b >> (7 - o) as u8) & 1u8,
        ((b & !(1u8 << (7 - off) as u8)) >> (7 - o) as u8) & 1u8 == (b >> (7 - o) as u8) & 1u8,
{
    assert(((b | (1u8 << (7 - off) as u8)) >> (7 - o) as u8) & 1u8 == (b >> (7 - o) as u8) & 1u8)
        by (bit_vector)
        requires
            off < 8,
            o < 8,
            o != off,
    ;
    assert(((b & !(1u8 << (7 - off) as u8)) >> (7 - o) as u8) & 1u8 == (b >> (7 - o) as u8) & 1u8)
        by (bit_vector)
        requires
            off < 8,
            o < 8,
            o != off,
    ;
}

/// A sequence of bits that can grow at the end.
pub struct Bitmap {
    size: usize,
    bits: Vec<u8>,
}

impl Bitmap {
    /// The bits, first to last.
    pub closed spec fn view(&self) -> Seq<bool> {
        Seq::new(self.size as nat, |i: int| bit_at(self.bits@[i / 8], i % 8))
    }

    pub closed spec fn wf(&self) -> bool {
        self.bits@.len() == bytes_for(self.size as nat)
    }

    /// An empty bitmap.
    pub fn new() -> (b: Self)
        ensures
            b.wf(),
            b.view() == Seq::<bool>::empty(),
    {
        let b = Self::with_size(0);
        proof {
            assert(b.view() =~= Seq::<bool>::empty());
        }
        b
    }

    /// A bitmap of `size` bits, all clear.
    pub fn with_size(size: usize) -> (b: Self)
        ensures
            b.wf(),
            b.view() == Seq::new(size as nat, |i: int| false),
    {
        let mut bits: Vec<u8> = Vec::new();
        let bits_size: usize = if size == 0 {
            0
        } else {
            (size - 1) / 8 + 1
        };
        let mut k: usize = 0;
        while k < bits_size
            invariant
                k <= bits_size,
                bits@.len() == k,
                forall|j: int| 0 <= j < k ==> #[trigger] bits@[j] == 0u8,
            decreases bits_size - k,
        {
            bits.push(0);
            k = k + 1;
        }
        let b = Self { size, bits };
        proof {
            assert forall|i: int| 0 <= i < size implies !#[trigger] bit_at(b.bits@[i / 8], i % 8) by {
                lemma_zero_byte((i % 8) as u8);
            }
            assert(b.view() =~= Seq::new(size as nat, |i: int| false));
        }
        b
    }

    /// Number of bits.
    pub fn size(&self) -> (r: usize)
        ensures
            r == self.view().len(),
    {
        self.size
    }

    /// Bit `idx`.
    pub fn get(&self, idx: usize) -> (r: bool)
        requires
            self.wf(),
            idx < self.view().len(),
        ensures
            r == self.view()[idx as int],
    {
        let byte_idx = idx >> 3;
        let offset = idx & 7;
        proof {
            assert(idx >> 3 == idx / 8) by (bit_vector);
            assert(idx & 7 == idx % 8) by (bit_vector);
        }
        let byte = self.bits[byte_idx];
        (byte >> (7 - offset) as u8) & 1 == 1
    }

    /// Set bit `idx` to `value`.
    pub fn set(&mut self, idx: usize, value: bool)
        requires
            old(self).wf(),
            idx < old(self).view().len(),
        ensures
            final(self).wf(),
            final(self).view() == old(self).view().update(idx as int, value),
    {
        let byte_idx = idx >> 3;
        let offset = idx & 7;
        proof {
            assert(idx >> 3 == idx / 8) by (bit_vector);
            assert(idx & 7 == idx % 8) by (bit_vector);
        }
        let byte = self.bits[byte_idx];
        let mask: u8 = 1u8 << (7 - offset) as u8;
        let new_byte = if value {
            byte | mask
        } else {
            byte & !mask
        };
        self.bits.set(byte_idx, new_byte);
        proof {
            lemma_set_same(byte, offset as u8);
            assert forall|i: int| 0 <= i < self.size implies #[trigger] bit_at(self.bits@[i / 8], i % 8)
                == old(self).view().update(idx as int, value)[i] by {
                if i / 8 == byte_idx && i != idx {
                    lemma_set_other(byte, offset as u8, (i % 8) as u8);
                }
            }
            assert(self.view() =~= old(self).view().update(idx as int, value));
        }
    }

    /// Append a bit with value `value`.
    pub fn push(&mut self, value: bool)
        requires
            old(self).wf(),
            old(self).view().len() < usize::MAX,
        ensures
            final(self).wf(),
            final(self).view() == old(self).view().push(value),
    {
        if self.size & 7 == 0 {
            self.bits.push(0);
        }
        proof {
            let s = self.size;
            assert(s & 7 == s % 8) by (bit_vector);
            assert(bytes_for(s as nat + 1) == bytes_for(s as nat) + (if s % 8 == 0 { 1nat } else { 0nat }));
        }
        let idx = self.size;
        let ghost old_view = old(self).view();
        self.size = self.size + 1;
        proof {
            assert forall|i: int| 0 <= i < idx implies #[trigger] self.view()[i] == old_view[i] by {
                assert(i / 8 < old(self).bits@.len());
            }
        }
        self.set(idx, value);
        proof {
            assert(self.view() =~= old_view.push(value));
        }
    }
}

} // verus!
