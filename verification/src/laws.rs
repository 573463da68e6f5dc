//! What packing and unpacking promise of each other.

use crate::address::lemma_maybe_null_address_len;
use crate::error::UnpackError;
use crate::instruction::{
    emit_bytes, initialize_bytes, initialize_lengths_fit, instruction_bytes, instruction_fits,
    lemma_string_end_of_parse, remove_key_lengths_fit, update_field_lengths_fit,
    parse_emit, parse_initialize, parse_remove_key, parse_update_authority, parse_update_field,
    remove_key_bytes, string_end, unpack_result, update_authority_bytes, update_field_bytes, Emit,
    Initialize, InitializeModel, InstructionModel, RemoveKey, RemoveKeyModel,
    TokenMetadataInstruction, UpdateAuthority, UpdateAuthorityModel, UpdateField,
    UpdateFieldModel,
};
use crate::state::{
    parse_field,
    field_bytes, field_fits, lemma_field_bytes_of_parse, lemma_parse_field_bytes, FieldModel,
};
use crate::wire::{
    bool_bytes, lemma_bool_bytes_of_parse, lemma_option_u64_bytes_of_parse,
    lemma_parse_bool_bytes, lemma_parse_option_u64_bytes, lemma_parse_string_bytes,
    lemma_string_bytes_of_parse, option_u64_bytes, parse_option_u64, parse_string, string_bytes,
    string_fits,
};
use vstd::bytes::{spec_u32_from_le_bytes, spec_u64_from_le_bytes};
use vstd::prelude::*;
use vstd::utf8::encode_utf8;

verus! {

/* Reading each kind of data back from its bytes */

proof fn lemma_initialize_roundtrip(d: InitializeModel)
    requires
        string_fits(d.name) && string_fits(d.symbol) && string_fits(d.uri),
    ensures
        ({
            let rest = initialize_bytes(d);
            &&& parse_initialize(rest) == Some(d)
            &&& string_end(rest, 0) matches Some(c1) && string_end(rest, c1) matches Some(c2)
                && string_end(rest, c2) is Some
        }),
{
    let rest = initialize_bytes(d);
    let a = string_bytes(d.name);
    let b = string_bytes(d.symbol);
    let c = string_bytes(d.uri);
    let ab: int = (a.len() + b.len()) as int;
    assert(rest.subrange(0, a.len() as int) =~= a);
    assert(rest.subrange(a.len() as int, ab) =~= b);
    assert(rest.subrange(ab, rest.len() as int) =~= c);
    lemma_parse_string_bytes(rest, 0, d.name);
    lemma_parse_string_bytes(rest, a.len() as int, d.symbol);
    lemma_parse_string_bytes(rest, ab, d.uri);
    lemma_string_end_of_parse(rest, 0);
    lemma_string_end_of_parse(rest, a.len() as int);
    lemma_string_end_of_parse(rest, ab);
}

proof fn lemma_update_field_roundtrip(d: UpdateFieldModel)
    requires
        field_fits(d.field) && string_fits(d.value),
    ensures
        ({
            let rest = update_field_bytes(d);
            &&& parse_update_field(rest) == Some(d)
            &&& rest.len() >= 1
            &&& (if rest[0] == 3 {
                string_end(rest, 1)
            } else {
                Some(1int)
            }) matches Some(c) && string_end(rest, c) is Some
        }),
{
    let rest = update_field_bytes(d);
    let a = field_bytes(d.field);
    let b = string_bytes(d.value);
    assert(rest.subrange(0, a.len() as int) =~= a);
    assert(rest.subrange(a.len() as int, rest.len() as int) =~= b);
    lemma_parse_field_bytes(rest, 0, d.field);
    lemma_parse_string_bytes(rest, a.len() as int, d.value);
    lemma_string_end_of_parse(rest, a.len() as int);
    if let FieldModel::Key(k) = d.field {
        assert(rest.subrange(1, a.len() as int) =~= string_bytes(k));
        lemma_parse_string_bytes(rest, 1, k);
        lemma_string_end_of_parse(rest, 1);
    }
}

proof fn lemma_remove_key_roundtrip(d: RemoveKeyModel)
    requires
        string_fits(d.key),
    ensures
        ({
            let rest = remove_key_bytes(d);
            &&& parse_remove_key(rest) == Some(d)
            &&& string_end(rest, 1) is Some
        }),
{
    let rest = remove_key_bytes(d);
    assert(rest.subrange(1, rest.len() as int) =~= string_bytes(d.key));
    lemma_parse_bool_bytes(rest, 0, d.idempotent);
    lemma_parse_string_bytes(rest, 1, d.key);
    lemma_string_end_of_parse(rest, 1);
}

proof fn lemma_update_authority_roundtrip(d: UpdateAuthorityModel)
    requires
        d.new_authority.len() == 32,
    ensures
        parse_update_authority(update_authority_bytes(d)) == Some(d),
{
    let rest = update_authority_bytes(d);
    assert(rest.subrange(0, 32) =~= d.new_authority);
}

proof fn lemma_emit_roundtrip(d: Emit)
    ensures
        parse_emit(emit_bytes(d)) == Some(d),
{
    let rest = emit_bytes(d);
    let a = option_u64_bytes(d.start);
    let b = option_u64_bytes(d.end);
    assert(rest.subrange(0, a.len() as int) =~= a);
    assert(rest.subrange(a.len() as int, rest.len() as int) =~= b);
    lemma_parse_option_u64_bytes(rest, 0, d.start);
    lemma_parse_option_u64_bytes(rest, a.len() as int, d.end);
}

/// Unpacking a packed instruction gives back the instruction: for every
/// instruction whose strings fit the layout, `unpack` of the bytes that
/// `pack` writes succeeds with an instruction equal to it.
pub proof fn lemma_unpack_pack(ix: TokenMetadataInstruction)
    requires
        instruction_fits(ix@),
    ensures
        unpack_result(instruction_bytes(ix@)) == Ok::<InstructionModel, UnpackError>(ix@),
{
    let m = ix@;
    let x = instruction_bytes(m);
    match m {
        InstructionModel::Initialize(d) => {
            let data = initialize_bytes(d);
            assert(x.subrange(0, 8) =~= Initialize::SPL_DISCRIMINATOR@);
            assert(x.subrange(8, x.len() as int) =~= data);
            lemma_initialize_roundtrip(d);
        },
        InstructionModel::UpdateField(d) => {
            let data = update_field_bytes(d);
            assert(x.subrange(0, 8) =~= UpdateField::SPL_DISCRIMINATOR@);
            assert(x.subrange(8, x.len() as int) =~= data);
            lemma_update_field_roundtrip(d);
        },
        InstructionModel::RemoveKey(d) => {
            let data = remove_key_bytes(d);
            assert(x.subrange(0, 8) =~= RemoveKey::SPL_DISCRIMINATOR@);
            assert(x.subrange(8, x.len() as int) =~= data);
            lemma_remove_key_roundtrip(d);
        },
        InstructionModel::UpdateAuthority(d) => {
            if let TokenMetadataInstruction::UpdateAuthority(u) = ix {
                lemma_maybe_null_address_len(u.new_authority);
            }
            let data = update_authority_bytes(d);
            assert(x.subrange(0, 8) =~= UpdateAuthority::SPL_DISCRIMINATOR@);
            assert(x.subrange(8, x.len() as int) =~= data);
            lemma_update_authority_roundtrip(d);
        },
        InstructionModel::Emit(d) => {
            let data = emit_bytes(d);
            assert(x.subrange(0, 8) =~= Emit::SPL_DISCRIMINATOR@);
            assert(x.subrange(8, x.len() as int) =~= data);
            lemma_emit_roundtrip(d);
        },
    }
}

/// Unpacking accepts only the bytes that packing writes: whenever `unpack`
/// succeeds, packing the instruction it gives writes exactly the input back.
pub proof fn lemma_pack_unpack(input: Seq<u8>)
    ensures
        unpack_result(input) matches Ok(m) ==> instruction_fits(m) && instruction_bytes(m)
            == input,
{
    if let Ok(m) = unpack_result(input) {
        let d = input.subrange(0, 8);
        let rest = input.subrange(8, input.len() as int);
        assert(input =~= d + rest);
        match m {
            InstructionModel::Initialize(v) => {
                lemma_string_bytes_of_parse(rest, 0);
                let (_, p1) = parse_string(rest, 0)->0;
                lemma_string_bytes_of_parse(rest, p1);
                let (_, p2) = parse_string(rest, p1)->0;
                lemma_string_bytes_of_parse(rest, p2);
                assert(rest =~= rest.subrange(0, p1) + rest.subrange(p1, p2) + rest.subrange(
                    p2,
                    rest.len() as int,
                ));
            },
            InstructionModel::UpdateField(v) => {
                lemma_field_bytes_of_parse(rest, 0);
                let (_, p1) = parse_field(rest, 0)->0;
                lemma_string_bytes_of_parse(rest, p1);
                assert(rest =~= rest.subrange(0, p1) + rest.subrange(p1, rest.len() as int));
            },
            InstructionModel::RemoveKey(v) => {
                lemma_bool_bytes_of_parse(rest, 0);
                lemma_string_bytes_of_parse(rest, 1);
                assert(rest =~= rest.subrange(0, 1) + rest.subrange(1, rest.len() as int));
            },
            InstructionModel::UpdateAuthority(v) => {
                assert(rest =~= rest.subrange(0, 32));
            },
            InstructionModel::Emit(v) => {
                lemma_option_u64_bytes_of_parse(rest, 0);
                let (_, p1) = parse_option_u64(rest, 0)->0;
                lemma_option_u64_bytes_of_parse(rest, p1);
                assert(rest =~= rest.subrange(0, p1) + rest.subrange(p1, rest.len() as int));
            },
        }
    }
}


/// A forged string length is refused before the data is read: when a string
/// length that `Initialize`, `UpdateField` or `RemoveKey` data declares runs
/// past the end of the data, unpacking fails with `InvalidInstructionData`,
/// whatever the other bytes are.
pub proof fn lemma_forged_length_refused(discriminator: Seq<u8>, data: Seq<u8>)
    requires
        discriminator.len() == 8,
    ensures
        discriminator == Initialize::SPL_DISCRIMINATOR@ && !initialize_lengths_fit(data)
            ==> unpack_result(discriminator + data) == Err::<InstructionModel, UnpackError>(
            UnpackError::InvalidInstructionData,
        ),
        discriminator == UpdateField::SPL_DISCRIMINATOR@ && !update_field_lengths_fit(data)
            ==> unpack_result(discriminator + data) == Err::<InstructionModel, UnpackError>(
            UnpackError::InvalidInstructionData,
        ),
        discriminator == RemoveKey::SPL_DISCRIMINATOR@ && !remove_key_lengths_fit(data)
            ==> unpack_result(discriminator + data) == Err::<InstructionModel, UnpackError>(
            UnpackError::InvalidInstructionData,
        ),
{
    let input = discriminator + data;
    assert(input.subrange(0, 8) =~= discriminator);
    assert(input.subrange(8, input.len() as int) =~= data);
}


/* Where each value stands in a packed instruction, read back field by field
   with the readers of single values */

/// Packed `Emit` data holds the start first and the end second: after the
/// discriminator, the first optional `u64` read back is `start`, and the one
/// after it is `end`, which ends the data.
pub proof fn lemma_packed_emit_fields(start: Option<u64>, end: Option<u64>)
    ensures
        ({
            let x = instruction_bytes(InstructionModel::Emit(Emit { start, end }));
            &&& x.subrange(0, 8) == Emit::SPL_DISCRIMINATOR@
            &&& parse_option_u64(x, 8) matches Some((s, p)) && s == start && parse_option_u64(x, p)
                == Some((end, x.len() as int))
        }),
{
    let x = instruction_bytes(InstructionModel::Emit(Emit { start, end }));
    let a = option_u64_bytes(start);
    let b = option_u64_bytes(end);
    let la = a.len() as int;
    assert(x.subrange(0, 8) =~= Emit::SPL_DISCRIMINATOR@);
    assert(x.subrange(8, 8 + la) =~= a);
    assert(x.subrange(8 + la, x.len() as int) =~= b);
    lemma_parse_option_u64_bytes(x, 8, start);
    lemma_parse_option_u64_bytes(x, 8 + la, end);
}

/// Packed `Initialize` data holds name, symbol and uri in that order: after
/// the discriminator, the first string read back is the name, the second the
/// symbol, and the third the uri, which ends the data.
pub proof fn lemma_packed_initialize_fields(name: Seq<char>, symbol: Seq<char>, uri: Seq<char>)
    requires
        string_fits(name),
        string_fits(symbol),
        string_fits(uri),
    ensures
        ({
            let x = instruction_bytes(
                InstructionModel::Initialize(InitializeModel { name, symbol, uri }),
            );
            &&& x.subrange(0, 8) == Initialize::SPL_DISCRIMINATOR@
            &&& parse_string(x, 8) matches Some((n, p1)) && n == name && (parse_string(x, p1) matches Some(
                (s, p2),
            ) && s == symbol && parse_string(x, p2) == Some((uri, x.len() as int)))
        }),
{
    let x = instruction_bytes(InstructionModel::Initialize(InitializeModel { name, symbol, uri }));
    let a = string_bytes(name);
    let b = string_bytes(symbol);
    let c = string_bytes(uri);
    let p1: int = 8 + a.len() as int;
    let p2: int = p1 + b.len() as int;
    assert(x.subrange(0, 8) =~= Initialize::SPL_DISCRIMINATOR@);
    assert(x.subrange(8, p1) =~= a);
    assert(x.subrange(p1, p2) =~= b);
    assert(x.subrange(p2, x.len() as int) =~= c);
    lemma_parse_string_bytes(x, 8, name);
    lemma_parse_string_bytes(x, p1, symbol);
    lemma_parse_string_bytes(x, p2, uri);
}

/// Packed `UpdateField` data holds the field's index byte (name 0, symbol 1,
/// uri 2, user key 3), then the key of a
/// user field, then the value: for a user key `k`, the first string read back
/// is `k` and the second is the value; for a base field, the only string read
/// back is the value.
pub proof fn lemma_packed_update_field_fields(field: FieldModel, value: Seq<char>)
    requires
        field_fits(field),
        string_fits(value),
    ensures
        ({
            let x = instruction_bytes(
                InstructionModel::UpdateField(UpdateFieldModel { field, value }),
            );
            &&& x.subrange(0, 8) == UpdateField::SPL_DISCRIMINATOR@
            &&& x.len() > 8 && x[8] == (match field {
                FieldModel::Name => 0u8,
                FieldModel::Symbol => 1u8,
                FieldModel::Uri => 2u8,
                FieldModel::Key(_) => 3u8,
            })
            &&& field matches FieldModel::Key(k) ==> parse_string(x, 9) matches Some((kk, p))
                && kk == k && parse_string(x, p) == Some((value, x.len() as int))
            &&& !(field is Key) ==> parse_string(x, 9) == Some((value, x.len() as int))
        }),
{
    let x = instruction_bytes(InstructionModel::UpdateField(UpdateFieldModel { field, value }));
    let a = field_bytes(field);
    let b = string_bytes(value);
    let p1: int = 8 + a.len() as int;
    assert(x.subrange(0, 8) =~= UpdateField::SPL_DISCRIMINATOR@);
    assert(x[8] == a[0]);
    assert(x.subrange(p1, x.len() as int) =~= b);
    lemma_parse_string_bytes(x, p1, value);
    if let FieldModel::Key(k) = field {
        assert(x.subrange(9, p1) =~= string_bytes(k));
        lemma_parse_string_bytes(x, 9, k);
    }
}

/// Packed `RemoveKey` data holds the idempotent flag as its first byte (1 for
/// true, 0 for false), then the key, which ends the data.
pub proof fn lemma_packed_remove_key_fields(idempotent: bool, key: Seq<char>)
    requires
        string_fits(key),
    ensures
        ({
            let x = instruction_bytes(
                InstructionModel::RemoveKey(RemoveKeyModel { idempotent, key }),
            );
            &&& x.subrange(0, 8) == RemoveKey::SPL_DISCRIMINATOR@
            &&& x.len() > 8 && x[8] == (if idempotent { 1u8 } else { 0u8 })
            &&& parse_string(x, 9) == Some((key, x.len() as int))
        }),
{
    let x = instruction_bytes(InstructionModel::RemoveKey(RemoveKeyModel { idempotent, key }));
    assert(x.subrange(0, 8) =~= RemoveKey::SPL_DISCRIMINATOR@);
    assert(x.subrange(9, x.len() as int) =~= string_bytes(key));
    lemma_parse_string_bytes(x, 9, key);
}

/// Packed `UpdateAuthority` data is the 32 bytes of the new authority,
/// unchanged and in order, right after the discriminator.
pub proof fn lemma_packed_update_authority_fields(new_authority: Seq<u8>)
    requires
        new_authority.len() == 32,
    ensures
        ({
            let x = instruction_bytes(
                InstructionModel::UpdateAuthority(UpdateAuthorityModel { new_authority }),
            );
            &&& x.len() == 40
            &&& x.subrange(0, 8) == UpdateAuthority::SPL_DISCRIMINATOR@
            &&& forall|i: int| 0 <= i < 32 ==> x[8 + i] == new_authority[i]
        }),
{
    let x = instruction_bytes(
        InstructionModel::UpdateAuthority(UpdateAuthorityModel { new_authority }),
    );
    assert(x.subrange(0, 8) =~= UpdateAuthority::SPL_DISCRIMINATOR@);
}

/// What unpacking gives is read field by field from the input, in the order
/// of the data: `Emit` start before end; `Initialize` name, symbol, uri;
/// `UpdateField` field index (and user key) before the value; `RemoveKey` flag
/// byte before the key; `UpdateAuthority` the 32 bytes after the
/// discriminator.
pub proof fn lemma_unpacked_fields(input: Seq<u8>)
    ensures
        unpack_result(input) matches Ok(InstructionModel::Emit(e)) ==> parse_option_u64(input, 8)
            matches Some((s, p)) && s == e.start && parse_option_u64(input, p) == Some(
            (e.end, input.len() as int),
        ),
        unpack_result(input) matches Ok(InstructionModel::Initialize(d)) ==> parse_string(
            input,
            8,
        ) matches Some((n, p1)) && n == d.name && (parse_string(input, p1) matches Some((s, p2))
            && s == d.symbol && parse_string(input, p2) == Some((d.uri, input.len() as int))),
        unpack_result(input) matches Ok(InstructionModel::UpdateField(d)) ==> {
            &&& input.len() > 8 && input[8] == (match d.field {
                FieldModel::Name => 0u8,
                FieldModel::Symbol => 1u8,
                FieldModel::Uri => 2u8,
                FieldModel::Key(_) => 3u8,
            })
            &&& d.field matches FieldModel::Key(k) ==> parse_string(input, 9) matches Some((kk, p))
                && kk == k && parse_string(input, p) == Some((d.value, input.len() as int))
            &&& !(d.field is Key) ==> parse_string(input, 9) == Some((d.value, input.len() as int))
        },
        unpack_result(input) matches Ok(InstructionModel::RemoveKey(d)) ==> {
            &&& input.len() > 8 && input[8] == (if d.idempotent { 1u8 } else { 0u8 })
            &&& parse_string(input, 9) == Some((d.key, input.len() as int))
        },
        unpack_result(input) matches Ok(InstructionModel::UpdateAuthority(d)) ==> {
            &&& input.len() == 40
            &&& d.new_authority.len() == 32
            &&& forall|i: int| 0 <= i < 32 ==> input[8 + i] == d.new_authority[i]
        },
{
    lemma_pack_unpack(input);
    if let Ok(m) = unpack_result(input) {
        match m {
            InstructionModel::Emit(e) => lemma_packed_emit_fields(e.start, e.end),
            InstructionModel::Initialize(d) => lemma_packed_initialize_fields(d.name, d.symbol, d.uri),
            InstructionModel::UpdateField(d) => lemma_packed_update_field_fields(d.field, d.value),
            InstructionModel::RemoveKey(d) => lemma_packed_remove_key_fields(d.idempotent, d.key),
            InstructionModel::UpdateAuthority(d) => {
                assert(input.len() == 8 + d.new_authority.len());
                lemma_packed_update_authority_fields(d.new_authority);
            },
        }
    }
}

/* The single values, in terms of bytes and of vstd's little-endian and UTF-8
   encodings */

/// A boolean is one byte: 1 for true, 0 for false.
pub proof fn lemma_bool_encoding(b: bool)
    ensures
        bool_bytes(b).len() == 1,
        bool_bytes(b)[0] == (if b { 1u8 } else { 0u8 }),
{
}

/// An absent `u64` is the single byte 0; a present one is the byte 1 followed
/// by 8 bytes whose little-endian value is the number.
pub proof fn lemma_option_u64_encoding(o: Option<u64>)
    ensures
        o is None ==> option_u64_bytes(o) == seq![0u8],
        o matches Some(v) ==> {
            let x = option_u64_bytes(o);
            &&& x.len() == 9
            &&& x[0] == 1
            &&& spec_u64_from_le_bytes(x.subrange(1, 9)) == v
        },
{
    vstd::bytes::lemma_auto_spec_u64_to_from_le_bytes();
    if let Some(v) = o {
        let x = option_u64_bytes(o);
        assert(x.subrange(1, 9) =~= vstd::bytes::spec_u64_to_le_bytes(v));
    }
}

/// A string is 4 bytes whose little-endian value is its UTF-8 length, then
/// its UTF-8 bytes.
pub proof fn lemma_string_encoding(s: Seq<char>)
    requires
        string_fits(s),
    ensures
        ({
            let x = string_bytes(s);
            &&& x.len() == 4 + encode_utf8(s).len()
            &&& spec_u32_from_le_bytes(x.subrange(0, 4)) == encode_utf8(s).len()
            &&& x.subrange(4, x.len() as int) == encode_utf8(s)
        }),
{
    vstd::bytes::lemma_auto_spec_u32_to_from_le_bytes();
    let x = string_bytes(s);
    let e = encode_utf8(s);
    assert(x.subrange(0, 4) =~= vstd::bytes::spec_u32_to_le_bytes(e.len() as u32));
    assert(x.subrange(4, x.len() as int) =~= e);
}

} // verus!
