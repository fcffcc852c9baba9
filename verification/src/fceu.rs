use vstd::prelude::*;

use crate::bits::{lemma_byte_bits, lemma_word_of_bytes};

verus! {

/// Why a saved state could not be loaded.
#[derive(Debug)]
pub enum StateLoadError {
    /// No field of this name and size was found in the state.
    MissingField { name: &'static str, size: usize },
}

/// Little-endian value of the first two bytes, when there are two.
pub open spec fn le_u16_of(s: Seq<u8>) -> Option<u16> {
    if s.len() >= 2 {
        Some((s[0] as int + 256 * s[1] as int) as u16)
    } else {
        None
    }
}

/// Little-endian value of four bytes.
pub open spec fn le_u32_of(b0: u8, b1: u8, b2: u8, b3: u8) -> int {
    b0 as int + 0x100 * b1 as int + 0x1_0000 * b2 as int + 0x100_0000 * b3 as int
}

/// An FCEU state field starts at offset `o`: a 4-byte name, a 4-byte
/// little-endian size equal to `size`, and `size` bytes of data that fit in
/// the state.
pub open spec fn field_at(state: Seq<u8>, name: Seq<u8>, size: int, o: int) -> bool {
    &&& 0 <= o
    &&& o + 8 <= state.len()
    &&& state.subrange(o, o + 4) == name
    &&& le_u32_of(state[o + 4], state[o + 5], state[o + 6], state[o + 7]) == size
    &&& o + 8 + size <= state.len()
}

/// `o` is the first offset at which such a field starts.
pub open spec fn first_field_at(state: Seq<u8>, name: Seq<u8>, size: int, o: int) -> bool {
    &&& field_at(state, name, size, o)
    &&& forall|p: int| 0 <= p < o ==> !field_at(state, name, size, p)
}

/// The data of the first field named `name` with size `size`, if any.
pub open spec fn field_value(state: Seq<u8>, name: Seq<u8>, size: int) -> Option<Seq<u8>> {
    if exists|o: int| first_field_at(state, name, size, o) {
        let o = choose|o: int| first_field_at(state, name, size, o);
        Some(state.subrange(o + 8, o + 8 + size))
    } else {
        None
    }
}

/// The four little-endian bytes of `n`.
pub open spec fn le_u32_bytes(n: int) -> Seq<u8> {
    seq![(n % 0x100) as u8, ((n / 0x100) % 0x100) as u8, ((n / 0x1_0000) % 0x100) as u8, ((n / 0x100_0000) % 0x100) as u8]
}

/// Reading a record back: in a state that starts with a record of a 4-byte
/// name, the data size as 4 little-endian bytes, and the data, the field of
/// that name and size is that data, whatever follows.
pub proof fn lemma_field_roundtrip(name: Seq<u8>, data: Seq<u8>, rest: Seq<u8>)
    requires
        name.len() == 4,
        data.len() < 0x1_0000_0000,
    ensures
        field_value(name + le_u32_bytes(data.len() as int) + data + rest, name, data.len() as int) == Some(data),
{
    let n = data.len() as int;
    let state = name + le_u32_bytes(n) + data + rest;
    assert(le_u32_of(state[4], state[5], state[6], state[7]) == n) by {
        assert(state[4] as int == n % 0x100);
        assert(state[5] as int == (n / 0x100) % 0x100);
        assert(state[6] as int == (n / 0x1_0000) % 0x100);
        assert(state[7] as int == (n / 0x100_0000) % 0x100);
        assert(n % 0x100 + 0x100 * ((n / 0x100) % 0x100) + 0x1_0000 * ((n / 0x1_0000) % 0x100) + 0x100_0000 * ((n
            / 0x100_0000) % 0x100) == n) by (nonlinear_arith)
            requires
                0 <= n < 0x1_0000_0000,
        ;
    }
    assert(state.subrange(0, 4) =~= name);
    assert(field_at(state, name, n, 0));
    assert(first_field_at(state, name, n, 0));
    let o = choose|o: int| first_field_at(state, name, n, o);
    lemma_first_field_unique(state, name, n, o, 0);
    assert(state.subrange(8, 8 + n) =~= data);
}

/// Two first offsets are the same offset.
pub proof fn lemma_first_field_unique(state: Seq<u8>, name: Seq<u8>, size: int, o1: int, o2: int)
    requires
        first_field_at(state, name, size, o1),
        first_field_at(state, name, size, o2),
    ensures
        o1 == o2,
{
    if o1 < o2 {
        assert(!field_at(state, name, size, o1));
    } else if o2 < o1 {
        assert(!field_at(state, name, size, o2));
    }
}

/// Value of the binary-coded decimal digits held in the low nibbles of
/// `bytes`, most significant first.
pub open spec fn bcd_value(bytes: Seq<u8>) -> int
    decreases bytes.len(),
{
    if bytes.len() == 0 {
        0
    } else {
        bcd_value(bytes.drop_last()) * 10 + (bytes.last() % 16) as int
    }
}

/// The largest value `n` low nibbles can decode to.
pub open spec fn bcd_bound(n: nat) -> int
    decreases n,
{
    if n == 0 {
        0
    } else {
        bcd_bound((n - 1) as nat) * 10 + 15
    }
}

pub proof fn lemma_bcd_bounded(bytes: Seq<u8>)
    ensures
        0 <= bcd_value(bytes) <= bcd_bound(bytes.len()),
    decreases bytes.len(),
{
    if bytes.len() > 0 {
        lemma_bcd_bounded(bytes.drop_last());
    }
}

/// The first two bytes as a little-endian `u16`, when there are two.
pub fn read_u16_le(value: &[u8]) -> (r: Option<u16>)
    ensures
        r == le_u16_of(value@),
{
    if value.len() < 2 {
        return None;
    }
    let lo = value[0] as u16;
    let hi = value[1] as u16;
    proof {
        lemma_word_of_bytes(lo, hi);
    }
    Some(lo | (hi << 8))
}

/// The data of the first field named `name` whose recorded size is `size`.
pub fn optional_field<'a>(state: &'a [u8], name: &[u8; 4], size: usize) -> (r: Option<&'a [u8]>)
    ensures
        match r {
            Some(s) => field_value(state@, name@, size as int) == Some(s@),
            None => field_value(state@, name@, size as int) is None,
        },
{
    let len = state.len();
    if len < 8 {
        assert forall|o: int| !first_field_at(state@, name@, size as int, o) by {}
        return None;
    }
    let mut offset: usize = 0;
    while offset <= len - 8
        invariant
            len == state@.len(),
            8 <= len,
            offset <= len - 7,
            forall|p: int| 0 <= p < offset ==> !field_at(state@, name@, size as int, p),
        decreases len - offset,
    {
        let matches_name = state[offset] == name[0] && state[offset + 1] == name[1]
            && state[offset + 2] == name[2] && state[offset + 3] == name[3];
        let field_size = read_u32_le_at(state, offset + 4);
        let fits = field_size as usize == size && size <= len - (offset + 8);
        proof {
            let ghost o = offset as int;
            assert(state@.subrange(o, o + 4) == name@ <==> (state@[o] == name@[0]
                && state@[o + 1] == name@[1] && state@[o + 2] == name@[2] && state@[o + 3]
                == name@[3])) by {
                if state@[o] == name@[0] && state@[o + 1] == name@[1] && state@[o + 2] == name@[2]
                    && state@[o + 3] == name@[3] {
                    assert(state@.subrange(o, o + 4) =~= name@);
                }
            }
        }
        if matches_name && fits {
            let start = offset + 8;
            let data = &state[start..start + size];
            proof {
                assert(first_field_at(state@, name@, size as int, offset as int));
                let o2 = choose|o: int| first_field_at(state@, name@, size as int, o);
                lemma_first_field_unique(state@, name@, size as int, offset as int, o2);
            }
            return Some(data);
        }
        offset += 1;
    }
    assert forall|o: int| !first_field_at(state@, name@, size as int, o) by {
        if 0 <= o < offset {
        } else {
            assert(!field_at(state@, name@, size as int, o));
        }
    }
    None
}

/// The four bytes at `at` as a little-endian `u32`.
fn read_u32_le_at(state: &[u8], at: usize) -> (r: u32)
    requires
        at + 4 <= state@.len(),
    ensures
        r as int == le_u32_of(state@[at as int], state@[at + 1], state@[at + 2], state@[at + 3]),
{
    let b0 = state[at] as u32;
    let b1 = state[at + 1] as u32;
    let b2 = state[at + 2] as u32;
    let b3 = state[at + 3] as u32;
    assert(b0 | (b1 << 8u32) | (b2 << 16u32) | (b3 << 24u32) == b0 + 0x100 * b1 + 0x1_0000 * b2
        + 0x100_0000 * b3) by (bit_vector)
        requires
            b0 < 256,
            b1 < 256,
            b2 < 256,
            b3 < 256,
    ;
    b0 | (b1 << 8) | (b2 << 16) | (b3 << 24)
}

/// Like `optional_field`, with the missing field reported as an error that
/// carries `display_name` and `size`.
pub fn required_field<'a>(
    state: &'a [u8],
    name: &[u8; 4],
    display_name: &'static str,
    size: usize,
) -> (r: Result<&'a [u8], StateLoadError>)
    ensures
        match r {
            Ok(s) => field_value(state@, name@, size as int) == Some(s@),
            Err(StateLoadError::MissingField { name: n, size: sz }) => {
                &&& field_value(state@, name@, size as int) is None
                &&& n@ == display_name@
                &&& sz == size
            },
        },
{
    match optional_field(state, name, size) {
        Some(s) => Ok(s),
        None => Err(StateLoadError::MissingField { name: display_name, size }),
    }
}

/// `value` read as a signed byte.
pub fn sign_extend_u8(value: u8) -> (r: i16)
    ensures
        r == (if value < 128 {
            value as int
        } else {
            value as int - 256
        }),
{
    let signed = value as i8;
    assert((value < 128 ==> signed == value) && (value >= 128 ==> signed == value - 256)) by (bit_vector)
        requires
            signed == value as i8,
    ;
    signed as i16
}

/// The decimal number whose digits are the low nibbles of `bytes`, most
/// significant first.
pub fn decode_ln_bcd_be(bytes: &[u8]) -> (r: u32)
    requires
        bcd_bound(bytes@.len()) <= u32::MAX,
    ensures
        r == bcd_value(bytes@),
{
    let mut value: u32 = 0;
    let mut i: usize = 0;
    while i < bytes.len()
        invariant
            i <= bytes@.len(),
            bcd_bound(bytes@.len()) <= u32::MAX,
            value == bcd_value(bytes@.subrange(0, i as int)),
        decreases bytes@.len() - i,
    {
        proof {
            lemma_bcd_bounded(bytes@.subrange(0, i as int + 1));
            lemma_bcd_bound_monotone((i + 1) as nat, bytes@.len());
            assert(bytes@.subrange(0, i as int + 1).drop_last() =~= bytes@.subrange(0, i as int));
        }
        let byte = bytes[i];
        let digit = byte & 0x0f;
        proof {
            lemma_byte_bits(byte);
        }
        value = value * 10 + digit as u32;
        i += 1;
    }
    assert(bytes@.subrange(0, i as int) =~= bytes@);
    value
}

pub proof fn lemma_bcd_bound_monotone(m: nat, n: nat)
    requires
        m <= n,
    ensures
        0 <= bcd_bound(m) <= bcd_bound(n),
    decreases n,
{
    if m < n {
        lemma_bcd_bound_monotone(m, (n - 1) as nat);
    } else if n > 0 {
        lemma_bcd_bound_monotone((n - 1) as nat, (n - 1) as nat);
    }
}

} // verus!
