use vstd::prelude::*;
use crate::stack::Stack;

verus! {

/// The eight little-endian bytes of `n`.
pub open spec fn le_bytes_of_u64(n: u64) -> Seq<u8> {
    seq![
        (n & 0xff) as u8,
        ((n >> 8) & 0xff) as u8,
        ((n >> 16) & 0xff) as u8,
        ((n >> 24) & 0xff) as u8,
        ((n >> 32) & 0xff) as u8,
        ((n >> 40) & 0xff) as u8,
        ((n >> 48) & 0xff) as u8,
        ((n >> 56) & 0xff) as u8,
    ]
}

/// The value whose little-endian bytes are the first eight entries of `b`.
pub open spec fn u64_of_le_bytes(b: Seq<u8>) -> u64
    recommends
        b.len() >= 8,
{
    (b[0] as u64)
        | ((b[1] as u64) << 8)
        | ((b[2] as u64) << 16)
        | ((b[3] as u64) << 24)
        | ((b[4] as u64) << 32)
        | ((b[5] as u64) << 40)
        | ((b[6] as u64) << 48)
        | ((b[7] as u64) << 56)
}

/// The external representation of a byte sequence: its length as eight
/// little-endian bytes, then the bytes themselves in order.
pub open spec fn encoded(s: Seq<u8>) -> Seq<u8>
    recommends
        s.len() <= u64::MAX,
{
    le_bytes_of_u64(s.len() as u64) + s
}

/// The byte sequence whose external representation `b` is, for a stack
/// of capacity `cap`: the declared length must be the number of bytes
/// that follow the prefix and must fit within the capacity.
pub open spec fn decoded(b: Seq<u8>, cap: nat) -> Option<Seq<u8>> {
    if b.len() < 8 {
        None
    } else {
        let n = u64_of_le_bytes(b.subrange(0, 8));
        if n as nat <= cap && b.len() == 8 + n as nat {
            Some(b.skip(8))
        } else {
            None
        }
    }
}

/// A value masked to its low eight bits fits in a byte.
proof fn lemma_byte_mask(x: u64)
    ensures
        x & 0xff <= 0xff,
{
    assert(x & 0xff <= 0xff) by (bit_vector);
}

/// Reading the eight little-endian bytes of `n` back gives `n`.
proof fn lemma_le_roundtrip(n: u64)
    ensures
        u64_of_le_bytes(le_bytes_of_u64(n)) == n,
{
    let b = le_bytes_of_u64(n);
    lemma_byte_mask(n);
    lemma_byte_mask(n >> 8);
    lemma_byte_mask(n >> 16);
    lemma_byte_mask(n >> 24);
    lemma_byte_mask(n >> 32);
    lemma_byte_mask(n >> 40);
    lemma_byte_mask(n >> 48);
    lemma_byte_mask(n >> 56);
    assert(b[0] as u64 == n & 0xff);
    assert(b[1] as u64 == (n >> 8) & 0xff);
    assert(b[2] as u64 == (n >> 16) & 0xff);
    assert(b[3] as u64 == (n >> 24) & 0xff);
    assert(b[4] as u64 == (n >> 32) & 0xff);
    assert(b[5] as u64 == (n >> 40) & 0xff);
    assert(b[6] as u64 == (n >> 48) & 0xff);
    assert(b[7] as u64 == (n >> 56) & 0xff);
    assert((n & 0xff)
        | (((n >> 8) & 0xff) << 8)
        | (((n >> 16) & 0xff) << 16)
        | (((n >> 24) & 0xff) << 24)
        | (((n >> 32) & 0xff) << 32)
        | (((n >> 40) & 0xff) << 40)
        | (((n >> 48) & 0xff) << 48)
        | (((n >> 56) & 0xff) << 56) == n) by (bit_vector);
}

/// Round trip: decoding the representation of any byte sequence that
/// fits within the capacity gives that sequence back, with the same
/// length and the same elements in the same order.
pub proof fn lemma_encoded_decoded_roundtrip(s: Seq<u8>, cap: nat)
    requires
        s.len() <= cap,
        cap <= u64::MAX,
    ensures
        decoded(encoded(s), cap) == Some(s),
{
    let n: u64 = s.len() as u64;
    lemma_le_roundtrip(n);
    assert(encoded(s).subrange(0, 8) =~= le_bytes_of_u64(n));
    assert(encoded(s).skip(8) =~= s);
}

impl<const N: usize> Stack<u8, N> {
    /// The external representation of the stack: the count of live
    /// elements as eight little-endian bytes, then the elements
    /// themselves in push order.
    pub fn serialize(&self) -> (r: Vec<u8>)
        ensures
            r@ == encoded(self@),
    {
        let n: u64 = self.len() as u64;
        proof {
            lemma_byte_mask(n);
            lemma_byte_mask(n >> 8);
            lemma_byte_mask(n >> 16);
            lemma_byte_mask(n >> 24);
            lemma_byte_mask(n >> 32);
            lemma_byte_mask(n >> 40);
            lemma_byte_mask(n >> 48);
            lemma_byte_mask(n >> 56);
        }
        let mut out: Vec<u8> = Vec::new();
        out.push((n & 0xff) as u8);
        out.push(((n >> 8) & 0xff) as u8);
        out.push(((n >> 16) & 0xff) as u8);
        out.push(((n >> 24) & 0xff) as u8);
        out.push(((n >> 32) & 0xff) as u8);
        out.push(((n >> 40) & 0xff) as u8);
        out.push(((n >> 48) & 0xff) as u8);
        out.push(((n >> 56) & 0xff) as u8);
        proof {
            assert(out@ =~= le_bytes_of_u64(n));
        }
        let elems = self.snapshot();
        let mut i: usize = 0;
        while i < elems.len()
            invariant
                i <= elems@.len(),
                elems@ == self@,
                out@ == le_bytes_of_u64(n) + elems@.subrange(0, i as int),
            decreases elems@.len() - i,
        {
            out.push(elems[i]);
            proof {
                assert(le_bytes_of_u64(n) + elems@.subrange(0, i as int + 1)
                    =~= (le_bytes_of_u64(n) + elems@.subrange(0, i as int)).push(
                    elems@[i as int]));
            }
            i = i + 1;
        }
        proof {
            assert(elems@.subrange(0, elems@.len() as int) =~= elems@);
            assert(out@ =~= encoded(self@));
        }
        out
    }

    /// Read a stack back from its external representation. Returns
    /// `Some` exactly when `bytes` declares as many elements as follow
    /// the length prefix and they fit within the capacity; the
    /// reconstructed stack holds them in the order read.
    pub fn deserialize(bytes: &Vec<u8>) -> (r: Option<Self>)
        ensures
            r is Some <==> decoded(bytes@, N as nat) is Some,
            r matches Some(s) ==> decoded(bytes@, N as nat) == Some(s@) && s.wf(),
    {
        if bytes.len() < 8 {
            return None;
        }
        let n: u64 = (bytes[0] as u64)
            | ((bytes[1] as u64) << 8)
            | ((bytes[2] as u64) << 16)
            | ((bytes[3] as u64) << 24)
            | ((bytes[4] as u64) << 32)
            | ((bytes[5] as u64) << 40)
            | ((bytes[6] as u64) << 48)
            | ((bytes[7] as u64) << 56);
        proof {
            assert(n == u64_of_le_bytes(bytes@.subrange(0, 8)));
        }
        if n > N as u64 {
            return None;
        }
        let rest: usize = bytes.len() - 8;
        if rest as u64 != n {
            return None;
        }
        let mut v: Vec<u8> = Vec::new();
        let mut i: usize = 8;
        while i < bytes.len()
            invariant
                8 <= i <= bytes@.len(),
                v@ == bytes@.subrange(8, i as int),
            decreases bytes@.len() - i,
        {
            v.push(bytes[i]);
            proof {
                assert(bytes@.subrange(8, i as int).push(bytes@[i as int])
                    =~= bytes@.subrange(8, i as int + 1));
            }
            i = i + 1;
        }
        proof {
            assert(v@ =~= bytes@.skip(8));
        }
        Some(Stack::from_vec(v))
    }
}

} // verus!
