//! Encoding of the primitive values that make up instruction data: booleans,
//! optional little-endian `u64`, blocks of 32 bytes, and UTF-8 strings with a
//! little-endian `u32` length prefix.

use vstd::bytes::*;
use vstd::prelude::*;
use vstd::slice::*;
use vstd::utf8::*;

verus! {

broadcast use vstd::string::group_string_axioms;

/// Bytes of a string: its UTF-8 length as a little-endian `u32`, then its
/// UTF-8 bytes.
pub open spec fn string_bytes(s: Seq<char>) -> Seq<u8> {
    spec_u32_to_le_bytes(encode_utf8(s).len() as u32) + encode_utf8(s)
}

/// A string can be written only when its UTF-8 length fits in a `u32`.
pub open spec fn string_fits(s: Seq<char>) -> bool {
    encode_utf8(s).len() <= u32::MAX
}

/// Reads a string at `pos`: a little-endian `u32` length, then that many bytes
/// that must be valid UTF-8. Yields the characters and the position after them.
pub open spec fn parse_string(s: Seq<u8>, pos: int) -> Option<(Seq<char>, int)> {
    if 0 <= pos && pos + 4 <= s.len() {
        let end = pos + 4 + spec_u32_from_le_bytes(s.subrange(pos, pos + 4));
        if end <= s.len() && valid_utf8(s.subrange(pos + 4, end)) {
            Some((decode_utf8(s.subrange(pos + 4, end)), end))
        } else {
            None
        }
    } else {
        None
    }
}

/// Calls `String::from_utf8` of std. Trusted to succeed exactly when the bytes
/// are valid UTF-8, and to give a string whose UTF-8 encoding is those bytes.
#[verifier::external_body]
fn string_from_utf8(bytes: Vec<u8>) -> (r: Option<String>)
    ensures
        r is Some <==> valid_utf8(bytes@),
        r matches Some(s) ==> encode_utf8(s@) == bytes@,
{
    match String::from_utf8(bytes) {
        Ok(s) => Some(s),
        Err(_) => None,
    }
}

/// Appends the encoding of `s` to `out`.
pub fn write_string(out: &mut Vec<u8>, s: &String)
    requires
        string_fits(s@),
    ensures
        final(out)@ == old(out)@ + string_bytes(s@),
{
    let bytes = s.as_str().as_bytes();
    let len = bytes.len() as u32;
    let prefix = u32_to_le_bytes(len);
    out.extend_from_slice(prefix.as_slice());
    out.extend_from_slice(bytes);
    proof {
        assert(out@ == old(out)@ + string_bytes(s@));
    }
}

/// Reads the string at `pos` of `input`.
pub fn read_string(input: &[u8], pos: usize) -> (r: Option<(String, usize)>)
    ensures
        match r {
            None => parse_string(input@, pos as int) is None,
            Some((v, end)) => parse_string(input@, pos as int) == Some((v@, end as int)),
        },
{
    if pos > input.len() || input.len() - pos < 4 {
        return None;
    }
    let len = u32_from_le_bytes(slice_subrange(input, pos, pos + 4)) as usize;
    let start = pos + 4;
    if len > input.len() - start {
        return None;
    }
    let end = start + len;
    let body = slice_to_vec(slice_subrange(input, start, end));
    match string_from_utf8(body) {
        None => None,
        Some(v) => {
            proof {
                encode_utf8_decode_utf8(v@);
            }
            Some((v, end))
        },
    }
}


/// Byte of a boolean: 1 for true, 0 for false.
pub open spec fn bool_bytes(b: bool) -> Seq<u8> {
    seq![if b { 1u8 } else { 0u8 }]
}

/// Reads a boolean at `pos`; only the bytes 0 and 1 are booleans.
pub open spec fn parse_bool(s: Seq<u8>, pos: int) -> Option<(bool, int)> {
    if 0 <= pos < s.len() && s[pos] <= 1 {
        Some((s[pos] == 1, pos + 1))
    } else {
        None
    }
}

/// Bytes of an optional `u64`: 0 for none, or 1 followed by the value as
/// little-endian bytes.
pub open spec fn option_u64_bytes(o: Option<u64>) -> Seq<u8> {
    match o {
        None => seq![0u8],
        Some(v) => seq![1u8] + spec_u64_to_le_bytes(v),
    }
}

/// Reads an optional `u64` at `pos`; the flag byte must be 0 or 1.
pub open spec fn parse_option_u64(s: Seq<u8>, pos: int) -> Option<(Option<u64>, int)> {
    if 0 <= pos < s.len() {
        if s[pos] == 0 {
            Some((None, pos + 1))
        } else if s[pos] == 1 && pos + 9 <= s.len() {
            Some((Some(spec_u64_from_le_bytes(s.subrange(pos + 1, pos + 9))), pos + 9))
        } else {
            None
        }
    } else {
        None
    }
}

/// Reads `n` raw bytes at `pos`.
pub open spec fn parse_fixed(s: Seq<u8>, pos: int, n: int) -> Option<(Seq<u8>, int)> {
    if 0 <= pos && 0 <= n && pos + n <= s.len() {
        Some((s.subrange(pos, pos + n), pos + n))
    } else {
        None
    }
}

/// Appends the byte of `b` to `out`.
pub fn write_bool(out: &mut Vec<u8>, b: bool)
    ensures
        final(out)@ == old(out)@ + bool_bytes(b),
{
    out.push(if b { 1u8 } else { 0u8 });
    proof {
        assert(out@ == old(out)@ + bool_bytes(b));
    }
}

/// Reads the boolean at `pos` of `input`.
pub fn read_bool(input: &[u8], pos: usize) -> (r: Option<(bool, usize)>)
    ensures
        match r {
            None => parse_bool(input@, pos as int) is None,
            Some((v, end)) => parse_bool(input@, pos as int) == Some((v, end as int)),
        },
{
    if pos < input.len() && input[pos] <= 1 {
        Some((input[pos] == 1, pos + 1))
    } else {
        None
    }
}

/// Appends the encoding of `o` to `out`.
pub fn write_option_u64(out: &mut Vec<u8>, o: Option<u64>)
    ensures
        final(out)@ == old(out)@ + option_u64_bytes(o),
{
    match o {
        None => {
            out.push(0u8);
        },
        Some(v) => {
            out.push(1u8);
            let bytes = u64_to_le_bytes(v);
            out.extend_from_slice(bytes.as_slice());
        },
    }
    proof {
        assert(out@ == old(out)@ + option_u64_bytes(o));
    }
}

/// Reads the optional `u64` at `pos` of `input`.
pub fn read_option_u64(input: &[u8], pos: usize) -> (r: Option<(Option<u64>, usize)>)
    ensures
        match r {
            None => parse_option_u64(input@, pos as int) is None,
            Some((v, end)) => parse_option_u64(input@, pos as int) == Some((v, end as int)),
        },
{
    if pos >= input.len() {
        None
    } else if input[pos] == 0 {
        Some((None, pos + 1))
    } else if input[pos] == 1 && input.len() - pos >= 9 {
        let v = u64_from_le_bytes(slice_subrange(input, pos + 1, pos + 9));
        Some((Some(v), pos + 9))
    } else {
        None
    }
}

/// Reads 32 raw bytes at `pos` of `input`.
pub fn read_bytes32(input: &[u8], pos: usize) -> (r: Option<([u8; 32], usize)>)
    ensures
        match r {
            None => parse_fixed(input@, pos as int, 32) is None,
            Some((v, end)) => parse_fixed(input@, pos as int, 32) == Some((v@, end as int)),
        },
{
    if pos > input.len() || input.len() - pos < 32 {
        return None;
    }
    let mut a = [0u8; 32];
    let mut i: usize = 0;
    while i < 32
        invariant
            i <= 32,
            pos + 32 <= input.len(),
            forall|j: int| 0 <= j < i ==> a@[j] == input@[pos + j],
        decreases 32 - i,
    {
        a[i] = input[pos + i];
        i = i + 1;
    }
    proof {
        assert(a@ =~= input@.subrange(pos as int, pos + 32));
    }
    Some((a, pos + 32))
}


/* Reading back what was written, and writing back what was read */

/// Reading a string from its bytes, wherever they stand, gives the string.
pub proof fn lemma_parse_string_bytes(x: Seq<u8>, pos: int, s: Seq<char>)
    requires
        string_fits(s),
        0 <= pos,
        pos + string_bytes(s).len() <= x.len(),
        x.subrange(pos, pos + string_bytes(s).len()) == string_bytes(s),
    ensures
        string_bytes(s).len() == 4 + encode_utf8(s).len(),
        parse_string(x, pos) == Some((s, pos + string_bytes(s).len())),
{
    let e = encode_utf8(s);
    let prefix = spec_u32_to_le_bytes(e.len() as u32);
    let len = string_bytes(s).len() as int;
    lemma_auto_spec_u32_to_from_le_bytes();
    assert(prefix.len() == 4);
    let whole = x.subrange(pos, pos + len);
    assert(x.subrange(pos, pos + 4) =~= whole.subrange(0, 4));
    assert(whole.subrange(0, 4) =~= prefix);
    assert(x.subrange(pos + 4, pos + len) =~= whole.subrange(4, len));
    assert(whole.subrange(4, len) =~= e);
    encode_utf8_valid_utf8(s);
    encode_utf8_decode_utf8(s);
}

/// The bytes from which a string was read are the bytes of that string.
pub proof fn lemma_string_bytes_of_parse(x: Seq<u8>, pos: int)
    ensures
        parse_string(x, pos) matches Some((v, end)) ==> {
            &&& string_fits(v)
            &&& pos + 4 <= end <= x.len()
            &&& x.subrange(pos, end) == string_bytes(v)
        },
{
    if let Some((v, end)) = parse_string(x, pos) {
        lemma_auto_spec_u32_to_from_le_bytes();
        let prefix = x.subrange(pos, pos + 4);
        let body = x.subrange(pos + 4, end);
        decode_utf8_encode_utf8(body);
        assert(encode_utf8(v) == body);
        assert(encode_utf8(v).len() as u32 == spec_u32_from_le_bytes(prefix));
        assert(x.subrange(pos, end) =~= prefix + body);
    }
}

/// Reading a boolean from its byte gives the boolean.
pub proof fn lemma_parse_bool_bytes(x: Seq<u8>, pos: int, b: bool)
    requires
        0 <= pos < x.len(),
        x[pos] == bool_bytes(b)[0],
    ensures
        parse_bool(x, pos) == Some((b, pos + 1)),
{
}

/// The byte from which a boolean was read is the byte of that boolean.
pub proof fn lemma_bool_bytes_of_parse(x: Seq<u8>, pos: int)
    ensures
        parse_bool(x, pos) matches Some((v, end)) ==> {
            &&& end == pos + 1
            &&& end <= x.len()
            &&& x.subrange(pos, end) == bool_bytes(v)
        },
{
    if let Some((v, end)) = parse_bool(x, pos) {
        assert(x.subrange(pos, end) =~= bool_bytes(v));
    }
}

/// Reading an optional `u64` from its bytes, wherever they stand, gives it.
pub proof fn lemma_parse_option_u64_bytes(x: Seq<u8>, pos: int, o: Option<u64>)
    requires
        0 <= pos,
        pos + option_u64_bytes(o).len() <= x.len(),
        x.subrange(pos, pos + option_u64_bytes(o).len()) == option_u64_bytes(o),
    ensures
        parse_option_u64(x, pos) == Some((o, pos + option_u64_bytes(o).len())),
{
    lemma_auto_spec_u64_to_from_le_bytes();
    let len = option_u64_bytes(o).len() as int;
    let whole = x.subrange(pos, pos + len);
    assert(x[pos] == whole[0]);
    if let Some(v) = o {
        assert(spec_u64_to_le_bytes(v).len() == 8);
        assert(x.subrange(pos + 1, pos + 9) =~= whole.subrange(1, 9));
        assert(whole.subrange(1, 9) =~= spec_u64_to_le_bytes(v));
    }
}

/// The bytes from which an optional `u64` was read are its bytes.
pub proof fn lemma_option_u64_bytes_of_parse(x: Seq<u8>, pos: int)
    ensures
        parse_option_u64(x, pos) matches Some((v, end)) ==> {
            &&& pos < end <= x.len()
            &&& x.subrange(pos, end) == option_u64_bytes(v)
        },
{
    if let Some((v, end)) = parse_option_u64(x, pos) {
        lemma_auto_spec_u64_to_from_le_bytes();
        if x[pos] == 1 {
            let body = x.subrange(pos + 1, pos + 9);
            assert(spec_u64_to_le_bytes(spec_u64_from_le_bytes(body)) == body);
            assert(x.subrange(pos, end) =~= seq![1u8] + body);
        } else {
            assert(x.subrange(pos, end) =~= seq![0u8]);
        }
    }
}

} // verus!
