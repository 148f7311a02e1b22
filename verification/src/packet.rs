use vstd::arithmetic::div_mod::lemma_fundamental_div_mod;
use vstd::prelude::*;

verus! {

/// A raw packet header: the command code (`mode`) and four command-specific
/// parameter slots, each an unsigned 16-bit value sent big-endian.
#[derive(Debug)]
pub struct Header(pub u16, pub u16, pub u16, pub u16, pub u16);

/// The raw payload bytes of a packet.
pub type Payload = Vec<u8>;

/// A raw wire packet: a 10-byte header followed by a variable payload. Its
/// serialized form is always exactly `10 + payload.len()` bytes.
#[derive(Debug)]
pub struct Packet(pub Header, pub Payload);

/// The high byte of a 16-bit value in big-endian order.
pub open spec fn be_hi(v: u16) -> u8 {
    (v / 256) as u8
}

/// The low byte of a 16-bit value in big-endian order.
pub open spec fn be_lo(v: u16) -> u8 {
    (v % 256) as u8
}

/// A 16-bit value read from two bytes in big-endian order.
pub open spec fn be_combine(hi: u8, lo: u8) -> u16 {
    (hi as int * 256 + lo as int) as u16
}

/// The 10 serialized bytes of a header: five big-endian 16-bit fields.
pub open spec fn header_bytes(h: Header) -> Seq<u8> {
    seq![
        be_hi(h.0),
        be_lo(h.0),
        be_hi(h.1),
        be_lo(h.1),
        be_hi(h.2),
        be_lo(h.2),
        be_hi(h.3),
        be_lo(h.3),
        be_hi(h.4),
        be_lo(h.4),
    ]
}

/// The error decoding can report: the input buffer is shorter than the
/// 10-byte header.
#[derive(Debug)]
pub enum DecodeError {
    BufferTooShort,
}

/// Reads a big-endian 16-bit value from the first two bytes of `slice`.
pub fn u16_from_be_slice(slice: &[u8]) -> (r: u16)
    requires
        slice@.len() >= 2,
    ensures
        r == be_combine(slice@[0], slice@[1]),
{
    let hi: u16 = slice[0] as u16;
    let lo: u16 = slice[1] as u16;
    hi * 256 + lo
}

impl Packet {
    /// Serializes the packet into one contiguous buffer: the five big-endian
    /// header fields, then the payload bytes.
    pub fn to_bytes(self) -> (r: Vec<u8>)
        requires
            self.1@.len() + 10 <= usize::MAX,
        ensures
            r@ == header_bytes(self.0) + self.1@,
    {
        let Packet(Header(mode, a, b, c, d), payload) = self;
        let mut r: Vec<u8> = Vec::new();
        push_be(&mut r, mode);
        push_be(&mut r, a);
        push_be(&mut r, b);
        push_be(&mut r, c);
        push_be(&mut r, d);
        let mut rest: Vec<u8> = payload;
        let count: usize = rest.len();
        let mut i: usize = 0;
        while i < count
            invariant
                i <= count,
                count == rest@.len(),
                r@ == header_bytes(Header(mode, a, b, c, d)) + rest@.take(i as int),
            decreases count - i,
        {
            let byte: u8 = rest[i];
            r.push(byte);
            proof {
                assert(rest@.take(i + 1) =~= rest@.take(i as int).push(rest@[i as int]));
            }
            i = i + 1;
        }
        proof {
            assert(rest@.take(count as int) =~= rest@);
        }
        r
    }

    /// Splits a serialized buffer back into a header and a payload. Fails
    /// exactly when the buffer is shorter than the 10-byte header.
    pub fn from_bytes(data: &[u8]) -> (r: Result<Packet, DecodeError>)
        ensures
            r is Ok <==> data@.len() >= 10,
            r matches Ok(p) ==> {
                &&& p.0.0 == be_combine(data@[0], data@[1])
                &&& p.0.1 == be_combine(data@[2], data@[3])
                &&& p.0.2 == be_combine(data@[4], data@[5])
                &&& p.0.3 == be_combine(data@[6], data@[7])
                &&& p.0.4 == be_combine(data@[8], data@[9])
                &&& p.1@ == data@.skip(10)
            },
            r matches Err(e) ==> e is BufferTooShort,
    {
        if data.len() < 10 {
            return Err(DecodeError::BufferTooShort);
        }
        let mode: u16 = read_be(data, 0);
        let a: u16 = read_be(data, 2);
        let b: u16 = read_be(data, 4);
        let c: u16 = read_be(data, 6);
        let d: u16 = read_be(data, 8);
        let count: usize = data.len();
        let mut payload: Vec<u8> = Vec::new();
        let mut i: usize = 10;
        while i < count
            invariant
                10 <= i <= count,
                count == data@.len(),
                payload@ == data@.subrange(10, i as int),
            decreases count - i,
        {
            let byte: u8 = data[i];
            payload.push(byte);
            proof {
                assert(data@.subrange(10, i + 1) =~= data@.subrange(10, i as int).push(
                    data@[i as int],
                ));
            }
            i = i + 1;
        }
        proof {
            assert(data@.subrange(10, count as int) =~= data@.skip(10));
        }
        Ok(Packet(Header(mode, a, b, c, d), payload))
    }
}

/// Appends the two big-endian bytes of `v`.
fn push_be(out: &mut Vec<u8>, v: u16)
    requires
        old(out)@.len() + 2 <= usize::MAX,
    ensures
        final(out)@ == old(out)@.push(be_hi(v)).push(be_lo(v)),
{
    let hi: u8 = (v / 256) as u8;
    let lo: u8 = (v % 256) as u8;
    out.push(hi);
    out.push(lo);
}

/// Reads the big-endian 16-bit value at `at`.
fn read_be(data: &[u8], at: usize) -> (r: u16)
    requires
        at + 2 <= data@.len(),
    ensures
        r == be_combine(data@[at as int], data@[at as int + 1]),
{
    let hi: u16 = data[at] as u16;
    let lo: u16 = data[at + 1] as u16;
    hi * 256 + lo
}

/// Splitting a 16-bit value into its big-endian bytes and reading them back
/// restores the value.
pub proof fn lemma_be_round_trip(v: u16)
    ensures
        be_combine(be_hi(v), be_lo(v)) == v,
{
    lemma_fundamental_div_mod(v as int, 256);
}

/// A packet round-trips through serialization: the serialized form of any
/// header and payload is at least 10 bytes, decodes to the same five header
/// fields, and its remainder is the payload unchanged.
pub proof fn lemma_packet_round_trip(h: Header, payload: Seq<u8>)
    ensures
        (header_bytes(h) + payload).len() == 10 + payload.len(),
        be_combine((header_bytes(h) + payload)[0], (header_bytes(h) + payload)[1]) == h.0,
        be_combine((header_bytes(h) + payload)[2], (header_bytes(h) + payload)[3]) == h.1,
        be_combine((header_bytes(h) + payload)[4], (header_bytes(h) + payload)[5]) == h.2,
        be_combine((header_bytes(h) + payload)[6], (header_bytes(h) + payload)[7]) == h.3,
        be_combine((header_bytes(h) + payload)[8], (header_bytes(h) + payload)[9]) == h.4,
        (header_bytes(h) + payload).skip(10) == payload,
{
    lemma_be_round_trip(h.0);
    lemma_be_round_trip(h.1);
    lemma_be_round_trip(h.2);
    lemma_be_round_trip(h.3);
    lemma_be_round_trip(h.4);
    assert((header_bytes(h) + payload).skip(10) =~= payload);
}

} // verus!
