//! Fields of token metadata that an instruction can name.

use crate::wire::{
    lemma_parse_string_bytes, lemma_string_bytes_of_parse, parse_string, read_string, string_bytes,
    string_fits, write_string,
};
use vstd::prelude::*;

verus! {

/// Fields in the metadata account, used for updating.
#[derive(Clone, Debug, PartialEq, Eq)]
pub enum Field {
    /// The name field, corresponding to `TokenMetadata.name`
    Name,
    /// The symbol field, corresponding to `TokenMetadata.symbol`
    Symbol,
    /// The uri field, corresponding to `TokenMetadata.uri`
    Uri,
    /// A user field, whose key is given by the associated string
    Key(String),
}

/// A field, with the key of a user field as its characters.
pub enum FieldModel {
    Name,
    Symbol,
    Uri,
    Key(Seq<char>),
}

impl View for Field {
    type V = FieldModel;

    open spec fn view(&self) -> FieldModel {
        match self {
            Field::Name => FieldModel::Name,
            Field::Symbol => FieldModel::Symbol,
            Field::Uri => FieldModel::Uri,
            Field::Key(k) => FieldModel::Key(k@),
        }
    }
}

/// A field can be written when the key of a user field fits.
pub open spec fn field_fits(f: FieldModel) -> bool {
    match f {
        FieldModel::Key(k) => string_fits(k),
        _ => true,
    }
}

/// Bytes of a field: its variant index (0 to 3) as one byte, then the key of
/// a user field.
pub open spec fn field_bytes(f: FieldModel) -> Seq<u8> {
    match f {
        FieldModel::Name => seq![0u8],
        FieldModel::Symbol => seq![1u8],
        FieldModel::Uri => seq![2u8],
        FieldModel::Key(k) => seq![3u8] + string_bytes(k),
    }
}

/// Reads a field at `pos`; variant indexes above 3 are refused.
pub open spec fn parse_field(s: Seq<u8>, pos: int) -> Option<(FieldModel, int)> {
    if 0 <= pos < s.len() {
        if s[pos] == 0 {
            Some((FieldModel::Name, pos + 1))
        } else if s[pos] == 1 {
            Some((FieldModel::Symbol, pos + 1))
        } else if s[pos] == 2 {
            Some((FieldModel::Uri, pos + 1))
        } else if s[pos] == 3 {
            match parse_string(s, pos + 1) {
                Some((k, end)) => Some((FieldModel::Key(k), end)),
                None => None,
            }
        } else {
            None
        }
    } else {
        None
    }
}

/// Appends the encoding of `f` to `out`.
pub fn write_field(out: &mut Vec<u8>, f: &Field)
    requires
        field_fits(f@),
    ensures
        final(out)@ == old(out)@ + field_bytes(f@),
{
    match f {
        Field::Name => out.push(0u8),
        Field::Symbol => out.push(1u8),
        Field::Uri => out.push(2u8),
        Field::Key(k) => {
            out.push(3u8);
            write_string(out, k);
        },
    }
    proof {
        assert(out@ == old(out)@ + field_bytes(f@));
    }
}

/// Reads the field at `pos` of `input`.
pub fn read_field(input: &[u8], pos: usize) -> (r: Option<(Field, usize)>)
    ensures
        match r {
            None => parse_field(input@, pos as int) is None,
            Some((v, end)) => parse_field(input@, pos as int) == Some((v@, end as int)),
        },
{
    if pos >= input.len() {
        return None;
    }
    let tag = input[pos];
    if tag == 0 {
        Some((Field::Name, pos + 1))
    } else if tag == 1 {
        Some((Field::Symbol, pos + 1))
    } else if tag == 2 {
        Some((Field::Uri, pos + 1))
    } else if tag == 3 {
        match read_string(input, pos + 1) {
            Some((k, end)) => Some((Field::Key(k), end)),
            None => None,
        }
    } else {
        None
    }
}


/// Reading a field from its bytes, wherever they stand, gives the field.
pub proof fn lemma_parse_field_bytes(x: Seq<u8>, pos: int, f: FieldModel)
    requires
        field_fits(f),
        0 <= pos,
        pos + field_bytes(f).len() <= x.len(),
        x.subrange(pos, pos + field_bytes(f).len()) == field_bytes(f),
    ensures
        parse_field(x, pos) == Some((f, pos + field_bytes(f).len())),
{
    let len = field_bytes(f).len() as int;
    let whole = x.subrange(pos, pos + len);
    assert(x[pos] == whole[0]);
    if let FieldModel::Key(k) = f {
        assert(x.subrange(pos + 1, pos + len) =~= whole.subrange(1, len));
        assert(whole.subrange(1, len) =~= string_bytes(k));
        lemma_parse_string_bytes(x, pos + 1, k);
    }
}

/// The bytes from which a field was read are the bytes of that field.
pub proof fn lemma_field_bytes_of_parse(x: Seq<u8>, pos: int)
    ensures
        parse_field(x, pos) matches Some((v, end)) ==> {
            &&& field_fits(v)
            &&& pos < end <= x.len()
            &&& x.subrange(pos, end) == field_bytes(v)
        },
{
    if let Some((v, end)) = parse_field(x, pos) {
        if x[pos] == 3 {
            lemma_string_bytes_of_parse(x, pos + 1);
            assert(x.subrange(pos, end) =~= seq![3u8] + x.subrange(pos + 1, end));
        } else {
            assert(x.subrange(pos, end) =~= field_bytes(v));
        }
    }
}

} // verus!
