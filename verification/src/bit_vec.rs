use crate::data_ref::DataRef;
use vstd::arithmetic::div_mod::lemma_fundamental_div_mod;
use vstd::arithmetic::div_mod::lemma_fundamental_div_mod_converse;
use vstd::prelude::*;

verus! {

/// The value of bit `k` of byte `b`, counting the most significant bit as
/// bit 0 (the hardware's display orientation).
pub open spec fn byte_bit(b: u8, k: int) -> bool
    recommends
        0 <= k < 8,
{
    ((b >> ((7 - k) as u8)) & 1u8) == 1u8
}

/// The bits packed in `bytes`, eight per byte, most significant bit first.
pub open spec fn bits_of_bytes(bytes: Seq<u8>) -> Seq<bool> {
    Seq::new(bytes.len() * 8, |i: int| byte_bit(bytes[i / 8], i % 8))
}

/// A packed sequence of boolean values, stored eight per byte.
///
/// The logical length in bits is fixed at creation; the backing storage holds
/// exactly `ceil(length / 8)` bytes. Unused tail bits carry no guarantee.
#[derive(Clone, Debug, PartialEq)]
pub struct BitVec {
    length: usize,
    data: Vec<u8>,
}

/// The number of backing bytes needed for `bits` bits.
pub open spec fn byte_len_for(bits: int) -> int {
    (bits + 7) / 8
}

impl View for BitVec {
    type V = Seq<bool>;

    open spec fn view(&self) -> Seq<bool> {
        Seq::new(self.bit_len() as nat, |i: int| byte_bit(self.bytes()[i / 8], i % 8))
    }
}

pub(crate) proof fn lemma_byte_len_split(bits: int)
    requires
        bits >= 0,
    ensures
        byte_len_for(bits) == if bits % 8 == 0 {
            bits / 8
        } else {
            bits / 8 + 1
        },
        byte_len_for(bits) * 8 >= bits,
{
    lemma_fundamental_div_mod(bits, 8);
    if bits % 8 == 0 {
        lemma_fundamental_div_mod_converse(bits + 7, 8, bits / 8, 7);
    } else {
        lemma_fundamental_div_mod_converse(bits + 7, 8, bits / 8 + 1, bits % 8 - 1);
    }
}

proof fn lemma_bit_index_in_bounds(i: int, bits: int)
    requires
        0 <= i < bits,
    ensures
        0 <= i / 8 < byte_len_for(bits),
        0 <= i % 8 < 8,
{
    lemma_fundamental_div_mod(i, 8);
    lemma_fundamental_div_mod(bits + 7, 8);
    lemma_byte_len_split(bits);
}

/// Reading a tested bit: the mask test and the shifted-bit form agree.
proof fn lemma_mask_test(b: u8, s: u8)
    by (bit_vector)
    requires
        s < 8,
    ensures
        ((b & (1u8 << s)) != 0) == (((b >> s) & 1u8) == 1u8),
{
}

/// Setting a bit with `|` changes exactly the masked position.
proof fn lemma_mask_or(b: u8, s: u8, j: u8)
    by (bit_vector)
    requires
        s < 8,
        j < 8,
    ensures
        (((b | (1u8 << s)) >> s) & 1u8) == 1u8,
        j != s ==> (((b | (1u8 << s)) >> j) & 1u8) == ((b >> j) & 1u8),
{
}

/// Clearing a bit with `& !` changes exactly the masked position.
proof fn lemma_mask_and_not(b: u8, s: u8, j: u8)
    by (bit_vector)
    requires
        s < 8,
        j < 8,
    ensures
        (((b & !(1u8 << s)) >> s) & 1u8) != 1u8,
        j != s ==> (((b & !(1u8 << s)) >> j) & 1u8) == ((b >> j) & 1u8),
{
}

/// Every bit of `0xFF` is set and every bit of `0x00` is clear.
proof fn lemma_constant_bytes(j: u8)
    by (bit_vector)
    requires
        j < 8,
    ensures
        ((0xFFu8 >> j) & 1u8) == 1u8,
        ((0x00u8 >> j) & 1u8) != 1u8,
{
}

impl BitVec {
    /// The raw backing bytes.
    pub closed spec fn bytes(&self) -> Seq<u8> {
        self.data@
    }

    /// The logical length in bits.
    pub closed spec fn bit_len(&self) -> int {
        self.length as int
    }

    /// The backing storage holds exactly `ceil(bit_len / 8)` bytes, and the
    /// view has one entry per logical bit.
    pub open spec fn wf(&self) -> bool {
        &&& self.bytes().len() == byte_len_for(self.bit_len())
        &&& self.bit_len() == self@.len()
    }

    /// Allocates a zero-filled sequence of `length` bits.
    pub fn new(length: usize) -> (r: BitVec)
        ensures
            r.wf(),
            r@.len() == length,
            forall|i: int| 0 <= i < length ==> !r@[i],
    {
        let full_bytes: usize = length / 8;
        let byte_count: usize = if length % 8 == 0 {
            full_bytes
        } else {
            full_bytes + 1
        };
        proof {
            lemma_byte_len_split(length as int);
        }
        let mut data: Vec<u8> = Vec::new();
        while data.len() < byte_count
            invariant
                data@.len() <= byte_count,
                forall|j: int| 0 <= j < data@.len() ==> data@[j] == 0u8,
            decreases byte_count - data@.len(),
        {
            data.push(0u8);
        }
        let r = BitVec { length, data };
        proof {
            assert forall|i: int| 0 <= i < length implies !r@[i] by {
                lemma_bit_index_in_bounds(i, length as int);
                let j: u8 = (7 - i % 8) as u8;
                lemma_constant_bytes(j);
            }
        }
        r
    }

    /// Wraps a copy of an existing byte buffer; the logical length is
    /// `data.len() * 8` bits.
    pub fn from_bytes(data: &[u8]) -> (r: BitVec)
        requires
            data@.len() * 8 <= usize::MAX,
        ensures
            r.wf(),
            r.bytes() == data@,
            r@ == bits_of_bytes(data@),
    {
        let length: usize = data.len() * 8;
        let copied: Vec<u8> = slice_to_vec(data);
        let r = BitVec { length, data: copied };
        proof {
            lemma_byte_len_split(length as int);
            assert(r@ =~= bits_of_bytes(data@));
        }
        r
    }

    /// The logical length in bits.
    pub fn len(&self) -> (r: usize)
        ensures
            r == self@.len(),
    {
        self.length
    }

    /// Reads the bit at `index`.
    pub fn get(&self, index: usize) -> (r: bool)
        requires
            self.wf(),
            index < self@.len(),
        ensures
            r == self@[index as int],
    {
        proof {
            lemma_bit_index_in_bounds(index as int, self.bit_len());
        }
        let byte_index: usize = index / 8;
        let shift: u8 = 7 - (index % 8) as u8;
        let b: u8 = self.data[byte_index];
        let r: bool = (b & (1u8 << shift)) != 0;
        proof {
            lemma_mask_test(b, shift);
        }
        r
    }

    /// Writes `value` at `index` and returns the previous bit.
    pub fn set(&mut self, index: usize, value: bool) -> (r: bool)
        requires
            old(self).wf(),
            index < old(self)@.len(),
        ensures
            final(self).wf(),
            final(self)@ == old(self)@.update(index as int, value),
            r == old(self)@[index as int],
    {
        proof {
            lemma_bit_index_in_bounds(index as int, self.bit_len());
        }
        let byte_index: usize = index / 8;
        let shift: u8 = 7 - (index % 8) as u8;
        let b: u8 = self.data[byte_index];
        let r: bool = (b & (1u8 << shift)) != 0;
        let nb: u8 = if value {
            b | (1u8 << shift)
        } else {
            b & !(1u8 << shift)
        };
        self.data[byte_index] = nb;
        proof {
            lemma_mask_test(b, shift);
            assert forall|i: int| 0 <= i < self@.len() implies self@[i] == old(
                self,
            )@.update(index as int, value)[i] by {
                lemma_bit_index_in_bounds(i, self.bit_len());
                let j: u8 = (7 - i % 8) as u8;
                if value {
                    lemma_mask_or(b, shift, j);
                } else {
                    lemma_mask_and_not(b, shift, j);
                }
                if i != index && i / 8 == index as int / 8 {
                    lemma_fundamental_div_mod(i, 8);
                    lemma_fundamental_div_mod(index as int, 8);
                }
            }
            assert(self@ =~= old(self)@.update(index as int, value));
        }
        r
    }

    /// Sets every bit to `value` by writing `0x00` or `0xFF` to every backing
    /// byte, touching unused tail bits as well.
    pub fn fill(&mut self, value: bool)
        requires
            old(self).wf(),
        ensures
            final(self).wf(),
            final(self)@.len() == old(self)@.len(),
            forall|i: int| 0 <= i < final(self)@.len() ==> final(self)@[i] == value,
    {
        let byte: u8 = if value {
            0xFF
        } else {
            0x00
        };
        let count: usize = self.data.len();
        let mut i: usize = 0;
        while i < count
            invariant
                count == self.data@.len(),
                self.length == old(self).length,
                forall|j: int| 0 <= j < i ==> self.data@[j] == byte,
                byte == if value {
                    0xFFu8
                } else {
                    0x00u8
                },
            decreases count - i,
        {
            self.data[i] = byte;
            i = i + 1;
        }
        proof {
            assert forall|k: int| 0 <= k < self@.len() implies self@[k] == value by {
                lemma_bit_index_in_bounds(k, self.bit_len());
                let j: u8 = (7 - k % 8) as u8;
                lemma_constant_bytes(j);
            }
        }
    }

    /// Consumes the sequence and hands out the backing bytes without a copy.
    pub fn into_data(self) -> (r: Vec<u8>)
        ensures
            r@ == self.bytes(),
    {
        self.data
    }
}

impl DataRef for BitVec {
    open spec fn data_spec(&self) -> Seq<u8> {
        self.bytes()
    }

    open spec fn shape_eq(&self, other: &Self) -> bool {
        self.bit_len() == other.bit_len()
    }

    open spec fn data_wf(&self) -> bool {
        self.wf()
    }

    fn data_ref(&self) -> (r: &[u8]) {
        self.data.as_slice()
    }

    fn data_ref_mut(&mut self) -> (r: &mut [u8]) {
        self.data.as_mut_slice()
    }
}

/// Copies a byte slice into a fresh vector.
pub(crate) fn slice_to_vec(data: &[u8]) -> (r: Vec<u8>)
    ensures
        r@ == data@,
{
    let mut copied: Vec<u8> = Vec::new();
    let count: usize = data.len();
    let mut i: usize = 0;
    while i < count
        invariant
            count == data@.len(),
            i <= count,
            copied@ == data@.take(i as int),
        decreases count - i,
    {
        let b: u8 = data[i];
        copied.push(b);
        proof {
            assert(copied@ =~= data@.take(i + 1));
        }
        i = i + 1;
    }
    proof {
        assert(copied@ =~= data@);
    }
    copied
}

} // verus!
