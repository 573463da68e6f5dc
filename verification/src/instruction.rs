//! Instruction types, their byte layout, and how they are packed and unpacked.

use crate::account::{AccountMeta, Instruction};
use crate::address::{Address, MaybeNullAddress};
use crate::error::UnpackError;
use crate::state::{field_bytes, field_fits, parse_field, read_field, write_field, Field, FieldModel};
use crate::wire::{
    bool_bytes, option_u64_bytes, parse_bool, parse_fixed, parse_option_u64, parse_string,
    read_bool, read_bytes32, read_option_u64, read_string, string_bytes, string_fits, write_bool,
    write_option_u64, write_string,
};
use vstd::bytes::{spec_u32_from_le_bytes, u32_from_le_bytes};
use vstd::prelude::*;
use vstd::slice::slice_subrange;

verus! {

/// Number of bytes of the discriminator that starts each packed instruction.
pub const DISCRIMINATOR_LENGTH: usize = 8;

/// Initialization instruction data
#[derive(Clone, Debug, PartialEq)]
pub struct Initialize {
    /// Longer name of the token
    pub name: String,
    /// Shortened symbol of the token
    pub symbol: String,
    /// URI pointing to more metadata (image, video, etc.)
    pub uri: String,
}

/// Update field instruction data
#[derive(Clone, Debug, PartialEq)]
pub struct UpdateField {
    /// Field to update in the metadata
    pub field: Field,
    /// Value to write for the field
    pub value: String,
}

/// Remove key instruction data
#[derive(Clone, Debug, PartialEq)]
pub struct RemoveKey {
    /// If the idempotent flag is set to true, then the instruction will not
    /// error if the key does not exist
    pub idempotent: bool,
    /// Key to remove in the additional metadata portion
    pub key: String,
}

/// Update authority instruction data
#[derive(Clone, Debug, PartialEq)]
pub struct UpdateAuthority {
    /// New authority for the token metadata, or unset if it is the null address
    pub new_authority: MaybeNullAddress,
}

/// Instruction data for Emit
#[derive(Clone, Copy, Debug, PartialEq)]
pub struct Emit {
    /// Start of range of data to emit
    pub start: Option<u64>,
    /// End of range of data to emit
    pub end: Option<u64>,
}

/// `Initialize` data, with its strings as characters.
pub struct InitializeModel {
    pub name: Seq<char>,
    pub symbol: Seq<char>,
    pub uri: Seq<char>,
}

/// `UpdateField` data, with its strings as characters.
pub struct UpdateFieldModel {
    pub field: FieldModel,
    pub value: Seq<char>,
}

/// `RemoveKey` data, with its key as characters.
pub struct RemoveKeyModel {
    pub idempotent: bool,
    pub key: Seq<char>,
}

/// `UpdateAuthority` data, with the new authority as its bytes.
pub struct UpdateAuthorityModel {
    pub new_authority: Seq<u8>,
}

impl View for Initialize {
    type V = InitializeModel;

    open spec fn view(&self) -> InitializeModel {
        InitializeModel { name: self.name@, symbol: self.symbol@, uri: self.uri@ }
    }
}

impl View for UpdateField {
    type V = UpdateFieldModel;

    open spec fn view(&self) -> UpdateFieldModel {
        UpdateFieldModel { field: self.field@, value: self.value@ }
    }
}

impl View for RemoveKey {
    type V = RemoveKeyModel;

    open spec fn view(&self) -> RemoveKeyModel {
        RemoveKeyModel { idempotent: self.idempotent, key: self.key@ }
    }
}

impl View for UpdateAuthority {
    type V = UpdateAuthorityModel;

    open spec fn view(&self) -> UpdateAuthorityModel {
        UpdateAuthorityModel { new_authority: self.new_authority@ }
    }
}

impl View for Emit {
    type V = Emit;

    open spec fn view(&self) -> Emit {
        *self
    }
}

/* Byte layout of the instruction data */

/// `Initialize` data: name, symbol and uri, each as a string.
pub open spec fn initialize_bytes(d: InitializeModel) -> Seq<u8> {
    string_bytes(d.name) + string_bytes(d.symbol) + string_bytes(d.uri)
}

/// `UpdateField` data: the field, then the value as a string.
pub open spec fn update_field_bytes(d: UpdateFieldModel) -> Seq<u8> {
    field_bytes(d.field) + string_bytes(d.value)
}

/// `RemoveKey` data: the idempotent flag, then the key as a string.
pub open spec fn remove_key_bytes(d: RemoveKeyModel) -> Seq<u8> {
    bool_bytes(d.idempotent) + string_bytes(d.key)
}

/// `UpdateAuthority` data: the 32 bytes of the new authority.
pub open spec fn update_authority_bytes(d: UpdateAuthorityModel) -> Seq<u8> {
    d.new_authority
}

/// `Emit` data: start, then end, each as an optional `u64`.
pub open spec fn emit_bytes(d: Emit) -> Seq<u8> {
    option_u64_bytes(d.start) + option_u64_bytes(d.end)
}

/// Reads `Initialize` data that must fill `s` exactly.
pub open spec fn parse_initialize(s: Seq<u8>) -> Option<InitializeModel> {
    match parse_string(s, 0) {
        Some((name, p1)) => match parse_string(s, p1) {
            Some((symbol, p2)) => match parse_string(s, p2) {
                Some((uri, p3)) => if p3 == s.len() {
                    Some(InitializeModel { name, symbol, uri })
                } else {
                    None
                },
                None => None,
            },
            None => None,
        },
        None => None,
    }
}

/// Reads `UpdateField` data that must fill `s` exactly.
pub open spec fn parse_update_field(s: Seq<u8>) -> Option<UpdateFieldModel> {
    match parse_field(s, 0) {
        Some((field, p1)) => match parse_string(s, p1) {
            Some((value, p2)) => if p2 == s.len() {
                Some(UpdateFieldModel { field, value })
            } else {
                None
            },
            None => None,
        },
        None => None,
    }
}

/// Reads `RemoveKey` data that must fill `s` exactly.
pub open spec fn parse_remove_key(s: Seq<u8>) -> Option<RemoveKeyModel> {
    match parse_bool(s, 0) {
        Some((idempotent, p1)) => match parse_string(s, p1) {
            Some((key, p2)) => if p2 == s.len() {
                Some(RemoveKeyModel { idempotent, key })
            } else {
                None
            },
            None => None,
        },
        None => None,
    }
}

/// Reads `UpdateAuthority` data that must fill `s` exactly.
pub open spec fn parse_update_authority(s: Seq<u8>) -> Option<UpdateAuthorityModel> {
    match parse_fixed(s, 0, 32) {
        Some((bytes, p1)) => if p1 == s.len() {
            Some(UpdateAuthorityModel { new_authority: bytes })
        } else {
            None
        },
        None => None,
    }
}

/// Reads `Emit` data that must fill `s` exactly.
pub open spec fn parse_emit(s: Seq<u8>) -> Option<Emit> {
    match parse_option_u64(s, 0) {
        Some((start, p1)) => match parse_option_u64(s, p1) {
            Some((end, p2)) => if p2 == s.len() {
                Some(Emit { start, end })
            } else {
                None
            },
            None => None,
        },
        None => None,
    }
}

impl Initialize {
    /// The strings fit the layout when each is at most `u32::MAX` bytes long.
    pub open spec fn fits(self) -> bool {
        string_fits(self.name@) && string_fits(self.symbol@) && string_fits(self.uri@)
    }

    /// Encodes the data.
    pub fn to_vec(&self) -> (v: Vec<u8>)
        requires
            self.fits(),
        ensures
            v@ == initialize_bytes(self@),
    {
        let mut v: Vec<u8> = Vec::new();
        write_string(&mut v, &self.name);
        write_string(&mut v, &self.symbol);
        write_string(&mut v, &self.uri);
        v
    }

    /// Decodes data that must fill `data` exactly.
    pub fn try_from_slice(data: &[u8]) -> (r: Result<Initialize, UnpackError>)
        ensures
            match r {
                Ok(d) => parse_initialize(data@) == Some(d@),
                Err(e) => parse_initialize(data@) is None && e == UnpackError::BorshIoError,
            },
    {
        let (name, p1) = match read_string(data, 0) {
            Some(x) => x,
            None => return Err(UnpackError::BorshIoError),
        };
        let (symbol, p2) = match read_string(data, p1) {
            Some(x) => x,
            None => return Err(UnpackError::BorshIoError),
        };
        let (uri, p3) = match read_string(data, p2) {
            Some(x) => x,
            None => return Err(UnpackError::BorshIoError),
        };
        if p3 != data.len() {
            return Err(UnpackError::BorshIoError);
        }
        Ok(Initialize { name, symbol, uri })
    }
}

impl UpdateField {
    /// The strings fit the layout when each is at most `u32::MAX` bytes long.
    pub open spec fn fits(self) -> bool {
        field_fits(self.field@) && string_fits(self.value@)
    }

    /// Encodes the data.
    pub fn to_vec(&self) -> (v: Vec<u8>)
        requires
            self.fits(),
        ensures
            v@ == update_field_bytes(self@),
    {
        let mut v: Vec<u8> = Vec::new();
        write_field(&mut v, &self.field);
        write_string(&mut v, &self.value);
        v
    }

    /// Decodes data that must fill `data` exactly.
    pub fn try_from_slice(data: &[u8]) -> (r: Result<UpdateField, UnpackError>)
        ensures
            match r {
                Ok(d) => parse_update_field(data@) == Some(d@),
                Err(e) => parse_update_field(data@) is None && e == UnpackError::BorshIoError,
            },
    {
        let (field, p1) = match read_field(data, 0) {
            Some(x) => x,
            None => return Err(UnpackError::BorshIoError),
        };
        let (value, p2) = match read_string(data, p1) {
            Some(x) => x,
            None => return Err(UnpackError::BorshIoError),
        };
        if p2 != data.len() {
            return Err(UnpackError::BorshIoError);
        }
        Ok(UpdateField { field, value })
    }
}

impl RemoveKey {
    /// The key fits the layout when it is at most `u32::MAX` bytes long.
    pub open spec fn fits(self) -> bool {
        string_fits(self.key@)
    }

    /// Encodes the data.
    pub fn to_vec(&self) -> (v: Vec<u8>)
        requires
            self.fits(),
        ensures
            v@ == remove_key_bytes(self@),
    {
        let mut v: Vec<u8> = Vec::new();
        write_bool(&mut v, self.idempotent);
        write_string(&mut v, &self.key);
        v
    }

    /// Decodes data that must fill `data` exactly.
    pub fn try_from_slice(data: &[u8]) -> (r: Result<RemoveKey, UnpackError>)
        ensures
            match r {
                Ok(d) => parse_remove_key(data@) == Some(d@),
                Err(e) => parse_remove_key(data@) is None && e == UnpackError::BorshIoError,
            },
    {
        let (idempotent, p1) = match read_bool(data, 0) {
            Some(x) => x,
            None => return Err(UnpackError::BorshIoError),
        };
        let (key, p2) = match read_string(data, p1) {
            Some(x) => x,
            None => return Err(UnpackError::BorshIoError),
        };
        if p2 != data.len() {
            return Err(UnpackError::BorshIoError);
        }
        Ok(RemoveKey { idempotent, key })
    }
}

impl UpdateAuthority {
    /// Encodes the data.
    pub fn to_vec(&self) -> (v: Vec<u8>)
        ensures
            v@ == update_authority_bytes(self@),
    {
        let bytes = self.new_authority.address().to_bytes();
        let mut v: Vec<u8> = Vec::new();
        v.extend_from_slice(bytes.as_slice());
        proof {
            assert(v@ =~= update_authority_bytes(self@));
        }
        v
    }

    /// Decodes data that must fill `data` exactly.
    pub fn try_from_slice(data: &[u8]) -> (r: Result<UpdateAuthority, UnpackError>)
        ensures
            match r {
                Ok(d) => parse_update_authority(data@) == Some(d@),
                Err(e) => parse_update_authority(data@) is None && e == UnpackError::BorshIoError,
            },
    {
        let (bytes, p1) = match read_bytes32(data, 0) {
            Some(x) => x,
            None => return Err(UnpackError::BorshIoError),
        };
        if p1 != data.len() {
            return Err(UnpackError::BorshIoError);
        }
        let new_authority = MaybeNullAddress::new(Address::new_from_array(bytes));
        Ok(UpdateAuthority { new_authority })
    }
}

impl Emit {
    /// Encodes the data.
    pub fn to_vec(&self) -> (v: Vec<u8>)
        ensures
            v@ == emit_bytes(self@),
    {
        let mut v: Vec<u8> = Vec::new();
        write_option_u64(&mut v, self.start);
        write_option_u64(&mut v, self.end);
        v
    }

    /// Decodes data that must fill `data` exactly.
    pub fn try_from_slice(data: &[u8]) -> (r: Result<Emit, UnpackError>)
        ensures
            match r {
                Ok(d) => parse_emit(data@) == Some(d@),
                Err(e) => parse_emit(data@) is None && e == UnpackError::BorshIoError,
            },
    {
        let (start, p1) = match read_option_u64(data, 0) {
            Some(x) => x,
            None => return Err(UnpackError::BorshIoError),
        };
        let (end, p2) = match read_option_u64(data, p1) {
            Some(x) => x,
            None => return Err(UnpackError::BorshIoError),
        };
        if p2 != data.len() {
            return Err(UnpackError::BorshIoError);
        }
        Ok(Emit { start, end })
    }
}


/* Discriminators: the first 8 bytes of the SHA-256 hash of
   "spl_token_metadata_interface:" followed by a name for the instruction */

impl Initialize {
    /// Hash input "spl_token_metadata_interface:initialize_account".
    pub const SPL_DISCRIMINATOR: [u8; 8] = [210, 225, 30, 162, 88, 184, 77, 141];
}

impl UpdateField {
    /// Hash input "spl_token_metadata_interface:updating_field".
    pub const SPL_DISCRIMINATOR: [u8; 8] = [221, 233, 49, 45, 181, 202, 220, 200];
}

impl RemoveKey {
    /// Hash input "spl_token_metadata_interface:remove_key_ix".
    pub const SPL_DISCRIMINATOR: [u8; 8] = [234, 18, 32, 56, 89, 141, 37, 181];
}

impl UpdateAuthority {
    /// Hash input "spl_token_metadata_interface:update_the_authority".
    pub const SPL_DISCRIMINATOR: [u8; 8] = [215, 228, 166, 228, 84, 100, 86, 123];
}

impl Emit {
    /// Hash input "spl_token_metadata_interface:emitter".
    pub const SPL_DISCRIMINATOR: [u8; 8] = [250, 166, 180, 250, 13, 12, 184, 70];
}

/// All instructions that must be implemented in the token-metadata interface
#[derive(Clone, Debug, PartialEq)]
pub enum TokenMetadataInstruction {
    /// Initializes a TLV entry with the basic token-metadata fields.
    ///
    /// Assumes that the provided mint is an SPL token mint, that the metadata
    /// account is allocated and assigned to the program, and that the metadata
    /// account has enough lamports to cover the rent-exempt reserve.
    ///
    /// Accounts expected by this instruction:
    ///
    ///   0. `[w]` Metadata
    ///   1. `[]` Update authority
    ///   2. `[]` Mint
    ///   3. `[s]` Mint authority
    ///
    /// Data: `Initialize` data, name / symbol / uri strings
    Initialize(Initialize),
    /// Updates a field in a token-metadata account.
    ///
    /// The field can be one of the required fields (name, symbol, URI), or a
    /// totally new field denoted by a "key" string.
    ///
    /// By the end of the instruction, the metadata account must be properly
    /// re-sized based on the new size of the TLV entry.
    ///   * If the new size is larger, the program must first reallocate to
    ///     avoid overwriting other TLV entries.
    ///   * If the new size is smaller, the program must reallocate at the end
    ///     so that it's possible to iterate over TLV entries
    ///
    /// Accounts expected by this instruction:
    ///
    ///   0. `[w]` Metadata account
    ///   1. `[s]` Update authority
    ///
    /// Data: `UpdateField` data, specifying the new field and value. If the
    /// field does not exist on the account, it will be created. If the
    /// field does exist, it will be overwritten.
    UpdateField(UpdateField),
    /// Removes a key-value pair in a token-metadata account.
    ///
    /// This only applies to additional fields, and not the base name / symbol /
    /// URI fields.
    ///
    /// By the end of the instruction, the metadata account must be properly
    /// re-sized at the end based on the new size of the TLV entry.
    ///
    /// Accounts expected by this instruction:
    ///
    ///   0. `[w]` Metadata account
    ///   1. `[s]` Update authority
    ///
    /// Data: the string key to remove. If the idempotent flag is set to false,
    /// returns an error if the key is not present
    RemoveKey(RemoveKey),
    /// Updates the token-metadata authority
    ///
    /// Accounts expected by this instruction:
    ///
    ///   0. `[w]` Metadata account
    ///   1. `[s]` Current update authority
    ///
    /// Data: the new authority. Can be unset using the null address
    UpdateAuthority(UpdateAuthority),
    /// Emits the token-metadata as return data
    ///
    /// The format of the data emitted follows exactly the `TokenMetadata`
    /// struct, but it's possible that the account data is stored in another
    /// format by the program.
    ///
    /// With this instruction, a program that implements the token-metadata
    /// interface can return `TokenMetadata` without adhering to the specific
    /// byte layout of the `TokenMetadata` struct in any accounts.
    ///
    /// Accounts expected by this instruction:
    ///
    ///   0. `[]` Metadata account
    Emit(Emit),
}

/// An instruction, with its data as models.
pub enum InstructionModel {
    Initialize(InitializeModel),
    UpdateField(UpdateFieldModel),
    RemoveKey(RemoveKeyModel),
    UpdateAuthority(UpdateAuthorityModel),
    Emit(Emit),
}

impl View for TokenMetadataInstruction {
    type V = InstructionModel;

    open spec fn view(&self) -> InstructionModel {
        match self {
            TokenMetadataInstruction::Initialize(d) => InstructionModel::Initialize(d@),
            TokenMetadataInstruction::UpdateField(d) => InstructionModel::UpdateField(d@),
            TokenMetadataInstruction::RemoveKey(d) => InstructionModel::RemoveKey(d@),
            TokenMetadataInstruction::UpdateAuthority(d) => InstructionModel::UpdateAuthority(d@),
            TokenMetadataInstruction::Emit(d) => InstructionModel::Emit(d@),
        }
    }
}

/// The strings of an instruction fit the layout when each is at most
/// `u32::MAX` bytes long.
pub open spec fn instruction_fits(m: InstructionModel) -> bool {
    match m {
        InstructionModel::Initialize(d) => string_fits(d.name) && string_fits(d.symbol)
            && string_fits(d.uri),
        InstructionModel::UpdateField(d) => field_fits(d.field) && string_fits(d.value),
        InstructionModel::RemoveKey(d) => string_fits(d.key),
        InstructionModel::UpdateAuthority(_) => true,
        InstructionModel::Emit(_) => true,
    }
}

/// A packed instruction: the discriminator of its kind, then its data.
pub open spec fn instruction_bytes(m: InstructionModel) -> Seq<u8> {
    match m {
        InstructionModel::Initialize(d) => Initialize::SPL_DISCRIMINATOR@ + initialize_bytes(d),
        InstructionModel::UpdateField(d) => UpdateField::SPL_DISCRIMINATOR@ + update_field_bytes(d),
        InstructionModel::RemoveKey(d) => RemoveKey::SPL_DISCRIMINATOR@ + remove_key_bytes(d),
        InstructionModel::UpdateAuthority(d) => UpdateAuthority::SPL_DISCRIMINATOR@
            + update_authority_bytes(d),
        InstructionModel::Emit(d) => Emit::SPL_DISCRIMINATOR@ + emit_bytes(d),
    }
}

/// Where a string whose length prefix starts at `cursor` of `rest` ends, when
/// the prefix and the length it declares both fit in `rest`. The string's
/// bytes are not looked at.
pub open spec fn string_end(rest: Seq<u8>, cursor: int) -> Option<int> {
    if 0 <= cursor && cursor + 4 <= rest.len() {
        let end = cursor + 4 + spec_u32_from_le_bytes(rest.subrange(cursor, cursor + 4));
        if end <= rest.len() {
            Some(end)
        } else {
            None
        }
    } else {
        None
    }
}

/// The three string lengths of `Initialize` data fit, one after the other.
pub open spec fn initialize_lengths_fit(rest: Seq<u8>) -> bool {
    match string_end(rest, 0) {
        Some(c1) => match string_end(rest, c1) {
            Some(c2) => string_end(rest, c2) is Some,
            None => false,
        },
        None => false,
    }
}

/// The field byte of `UpdateField` data is there, and its string lengths fit:
/// the key's when the field byte is 3 (a user field), then the value's.
pub open spec fn update_field_lengths_fit(rest: Seq<u8>) -> bool {
    if rest.len() < 1 {
        false
    } else {
        let cursor = if rest[0] == 3 {
            string_end(rest, 1)
        } else {
            Some(1int)
        };
        match cursor {
            Some(c) => string_end(rest, c) is Some,
            None => false,
        }
    }
}

/// The key length of `RemoveKey` data fits after the one-byte flag.
pub open spec fn remove_key_lengths_fit(rest: Seq<u8>) -> bool {
    string_end(rest, 1) is Some
}

/// Invalid instruction data when the length check did not pass; else the
/// data read, or a borsh error when it could not be read.
pub open spec fn checked_then_read<T>(pass: bool, data: Option<T>) -> Result<T, UnpackError> {
    if !pass {
        Err(UnpackError::InvalidInstructionData)
    } else {
        match data {
            Some(d) => Ok(d),
            None => Err(UnpackError::BorshIoError),
        }
    }
}

/// What unpacking `input` gives. The first 8 bytes name the kind of
/// instruction; the rest is its data. Before the data is read, every string
/// length it declares must fit in the bytes that follow, else the input is
/// invalid instruction data; data that then cannot be read is a borsh error.
pub open spec fn unpack_result(input: Seq<u8>) -> Result<InstructionModel, UnpackError> {
    if input.len() < 8 {
        Err(UnpackError::InvalidInstructionData)
    } else {
        let d = input.subrange(0, 8);
        let rest = input.subrange(8, input.len() as int);
        if d == Initialize::SPL_DISCRIMINATOR@ {
            match checked_then_read(initialize_lengths_fit(rest), parse_initialize(rest)) {
                Ok(v) => Ok(InstructionModel::Initialize(v)),
                Err(e) => Err(e),
            }
        } else if d == UpdateField::SPL_DISCRIMINATOR@ {
            match checked_then_read(update_field_lengths_fit(rest), parse_update_field(rest)) {
                Ok(v) => Ok(InstructionModel::UpdateField(v)),
                Err(e) => Err(e),
            }
        } else if d == RemoveKey::SPL_DISCRIMINATOR@ {
            match checked_then_read(remove_key_lengths_fit(rest), parse_remove_key(rest)) {
                Ok(v) => Ok(InstructionModel::RemoveKey(v)),
                Err(e) => Err(e),
            }
        } else if d == UpdateAuthority::SPL_DISCRIMINATOR@ {
            match checked_then_read(true, parse_update_authority(rest)) {
                Ok(v) => Ok(InstructionModel::UpdateAuthority(v)),
                Err(e) => Err(e),
            }
        } else if d == Emit::SPL_DISCRIMINATOR@ {
            match checked_then_read(true, parse_emit(rest)) {
                Ok(v) => Ok(InstructionModel::Emit(v)),
                Err(e) => Err(e),
            }
        } else {
            Err(UnpackError::InvalidInstructionData)
        }
    }
}

/// Where a string can be read, its length prefix fits, and ends where the
/// string does.
pub proof fn lemma_string_end_of_parse(rest: Seq<u8>, cursor: int)
    ensures
        parse_string(rest, cursor) matches Some((_, end)) ==> string_end(rest, cursor) == Some(end),
{
}

/// Validates that a string whose length prefix starts at `*cursor` declares a
/// length that fits within `rest`, advancing `*cursor` past it on success.
///
/// `TokenMetadataInstruction::unpack` calls this before reading the data, so
/// that a forged length prefix is refused before anything is allocated for it.
fn check_borsh_string(rest: &[u8], cursor: &mut usize) -> (r: Result<(), UnpackError>)
    ensures
        match string_end(rest@, *old(cursor) as int) {
            Some(end) => r is Ok && *final(cursor) == end,
            None => r == Err::<(), UnpackError>(UnpackError::InvalidInstructionData)
                && *final(cursor) == *old(cursor),
        },
{
    let rest_len = rest.len();
    let len_end = match cursor.checked_add(4) {
        Some(e) => e,
        None => return Err(UnpackError::InvalidInstructionData),
    };
    if len_end > rest_len {
        return Err(UnpackError::InvalidInstructionData);
    }
    let len = u32_from_le_bytes(slice_subrange(rest, *cursor, len_end)) as usize;
    let str_end = match len_end.checked_add(len) {
        Some(e) => e,
        None => return Err(UnpackError::InvalidInstructionData),
    };
    if str_end > rest.len() {
        return Err(UnpackError::InvalidInstructionData);
    }
    *cursor = str_end;
    Ok(())
}

/// True when the two byte slices are equal.
fn bytes_equal(a: &[u8], b: &[u8]) -> (r: bool)
    ensures
        r == (a@ == b@),
{
    if a.len() != b.len() {
        return false;
    }
    let mut i: usize = 0;
    while i < a.len()
        invariant
            i <= a.len(),
            a.len() == b.len(),
            forall|j: int| 0 <= j < i ==> a@[j] == b@[j],
        decreases a.len() - i,
    {
        if a[i] != b[i] {
            return false;
        }
        i = i + 1;
    }
    proof {
        assert(a@ =~= b@);
    }
    true
}

impl TokenMetadataInstruction {
    /// Unpacks a byte buffer into a `TokenMetadataInstruction`.
    pub fn unpack(input: &[u8]) -> (r: Result<TokenMetadataInstruction, UnpackError>)
        ensures
            match r {
                Ok(ix) => unpack_result(input@) == Ok::<InstructionModel, UnpackError>(ix@),
                Err(e) => unpack_result(input@) == Err::<InstructionModel, UnpackError>(e),
            },
    {
        if input.len() < DISCRIMINATOR_LENGTH {
            return Err(UnpackError::InvalidInstructionData);
        }
        let (discriminator, rest) = input.split_at(DISCRIMINATOR_LENGTH);
        if bytes_equal(discriminator, Initialize::SPL_DISCRIMINATOR.as_slice()) {
            let mut cursor: usize = 0;
            check_borsh_string(rest, &mut cursor)?;  // name
            check_borsh_string(rest, &mut cursor)?;  // symbol
            check_borsh_string(rest, &mut cursor)?;  // uri
            let data = Initialize::try_from_slice(rest)?;
            Ok(TokenMetadataInstruction::Initialize(data))
        } else if bytes_equal(discriminator, UpdateField::SPL_DISCRIMINATOR.as_slice()) {
            // The field is a one-byte variant index; only a user field
            // (index 3) carries a string.
            if rest.len() < 1 {
                return Err(UnpackError::InvalidInstructionData);
            }
            let tag = rest[0];
            let mut cursor: usize = 1;
            if tag == 3 {
                check_borsh_string(rest, &mut cursor)?;  // key of the user field
            }
            check_borsh_string(rest, &mut cursor)?;  // value
            let data = UpdateField::try_from_slice(rest)?;
            Ok(TokenMetadataInstruction::UpdateField(data))
        } else if bytes_equal(discriminator, RemoveKey::SPL_DISCRIMINATOR.as_slice()) {
            let mut cursor: usize = 1;  // skip the one-byte `idempotent` flag
            check_borsh_string(rest, &mut cursor)?;  // key
            let data = RemoveKey::try_from_slice(rest)?;
            Ok(TokenMetadataInstruction::RemoveKey(data))
        } else if bytes_equal(discriminator, UpdateAuthority::SPL_DISCRIMINATOR.as_slice()) {
            let data = UpdateAuthority::try_from_slice(rest)?;
            Ok(TokenMetadataInstruction::UpdateAuthority(data))
        } else if bytes_equal(discriminator, Emit::SPL_DISCRIMINATOR.as_slice()) {
            let data = Emit::try_from_slice(rest)?;
            Ok(TokenMetadataInstruction::Emit(data))
        } else {
            Err(UnpackError::InvalidInstructionData)
        }
    }

    /// Packs a `TokenMetadataInstruction` into a byte buffer.
    pub fn pack(&self) -> (buf: Vec<u8>)
        requires
            instruction_fits(self@),
        ensures
            buf@ == instruction_bytes(self@),
    {
        let mut buf: Vec<u8> = Vec::new();
        match self {
            TokenMetadataInstruction::Initialize(data) => {
                buf.extend_from_slice(Initialize::SPL_DISCRIMINATOR.as_slice());
                buf.append(&mut data.to_vec());
            },
            TokenMetadataInstruction::UpdateField(data) => {
                buf.extend_from_slice(UpdateField::SPL_DISCRIMINATOR.as_slice());
                buf.append(&mut data.to_vec());
            },
            TokenMetadataInstruction::RemoveKey(data) => {
                buf.extend_from_slice(RemoveKey::SPL_DISCRIMINATOR.as_slice());
                buf.append(&mut data.to_vec());
            },
            TokenMetadataInstruction::UpdateAuthority(data) => {
                buf.extend_from_slice(UpdateAuthority::SPL_DISCRIMINATOR.as_slice());
                buf.append(&mut data.to_vec());
            },
            TokenMetadataInstruction::Emit(data) => {
                buf.extend_from_slice(Emit::SPL_DISCRIMINATOR.as_slice());
                buf.append(&mut data.to_vec());
            },
        }
        buf
    }
}


/// Creates an `Initialize` instruction
pub fn initialize(
    program_id: &Address,
    metadata: &Address,
    update_authority: &Address,
    mint: &Address,
    mint_authority: &Address,
    name: String,
    symbol: String,
    uri: String,
) -> (ix: Instruction)
    requires
        string_fits(name@),
        string_fits(symbol@),
        string_fits(uri@),
    ensures
        ix.program_id == *program_id,
        ix.accounts@ == seq![
            (AccountMeta { pubkey: *metadata, is_signer: false, is_writable: true }),
            (AccountMeta { pubkey: *update_authority, is_signer: false, is_writable: false }),
            (AccountMeta { pubkey: *mint, is_signer: false, is_writable: false }),
            (AccountMeta { pubkey: *mint_authority, is_signer: true, is_writable: false }),
        ],
        ix.data@ == instruction_bytes(
            InstructionModel::Initialize(
                (InitializeModel { name: name@, symbol: symbol@, uri: uri@ }),
            ),
        ),
{
    let data = TokenMetadataInstruction::Initialize(Initialize { name, symbol, uri });
    Instruction {
        program_id: *program_id,
        accounts: vec![
            AccountMeta::new(*metadata, false),
            AccountMeta::new_readonly(*update_authority, false),
            AccountMeta::new_readonly(*mint, false),
            AccountMeta::new_readonly(*mint_authority, true),
        ],
        data: data.pack(),
    }
}

/// Creates an `UpdateField` instruction
pub fn update_field(
    program_id: &Address,
    metadata: &Address,
    update_authority: &Address,
    field: Field,
    value: String,
) -> (ix: Instruction)
    requires
        field_fits(field@),
        string_fits(value@),
    ensures
        ix.program_id == *program_id,
        ix.accounts@ == seq![
            (AccountMeta { pubkey: *metadata, is_signer: false, is_writable: true }),
            (AccountMeta { pubkey: *update_authority, is_signer: true, is_writable: false }),
        ],
        ix.data@ == instruction_bytes(
            InstructionModel::UpdateField((UpdateFieldModel { field: field@, value: value@ })),
        ),
{
    let data = TokenMetadataInstruction::UpdateField(UpdateField { field, value });
    Instruction {
        program_id: *program_id,
        accounts: vec![
            AccountMeta::new(*metadata, false),
            AccountMeta::new_readonly(*update_authority, true),
        ],
        data: data.pack(),
    }
}

/// Creates a `RemoveKey` instruction
pub fn remove_key(
    program_id: &Address,
    metadata: &Address,
    update_authority: &Address,
    key: String,
    idempotent: bool,
) -> (ix: Instruction)
    requires
        string_fits(key@),
    ensures
        ix.program_id == *program_id,
        ix.accounts@ == seq![
            (AccountMeta { pubkey: *metadata, is_signer: false, is_writable: true }),
            (AccountMeta { pubkey: *update_authority, is_signer: true, is_writable: false }),
        ],
        ix.data@ == instruction_bytes(
            InstructionModel::RemoveKey((RemoveKeyModel { idempotent, key: key@ })),
        ),
{
    let data = TokenMetadataInstruction::RemoveKey(RemoveKey { key, idempotent });
    Instruction {
        program_id: *program_id,
        accounts: vec![
            AccountMeta::new(*metadata, false),
            AccountMeta::new_readonly(*update_authority, true),
        ],
        data: data.pack(),
    }
}

/// Creates an `UpdateAuthority` instruction
pub fn update_authority(
    program_id: &Address,
    metadata: &Address,
    current_authority: &Address,
    new_authority: MaybeNullAddress,
) -> (ix: Instruction)
    ensures
        ix.program_id == *program_id,
        ix.accounts@ == seq![
            (AccountMeta { pubkey: *metadata, is_signer: false, is_writable: true }),
            (AccountMeta { pubkey: *current_authority, is_signer: true, is_writable: false }),
        ],
        ix.data@ == instruction_bytes(
            InstructionModel::UpdateAuthority(
                (UpdateAuthorityModel { new_authority: new_authority@ }),
            ),
        ),
{
    let data = TokenMetadataInstruction::UpdateAuthority(UpdateAuthority { new_authority });
    Instruction {
        program_id: *program_id,
        accounts: vec![
            AccountMeta::new(*metadata, false),
            AccountMeta::new_readonly(*current_authority, true),
        ],
        data: data.pack(),
    }
}

/// Creates an `Emit` instruction
pub fn emit(program_id: &Address, metadata: &Address, start: Option<u64>, end: Option<u64>) -> (ix:
    Instruction)
    ensures
        ix.program_id == *program_id,
        ix.accounts@ == seq![(AccountMeta { pubkey: *metadata, is_signer: false, is_writable: false })],
        ix.data@ == instruction_bytes(InstructionModel::Emit((Emit { start, end }))),
{
    let data = TokenMetadataInstruction::Emit(Emit { start, end });
    Instruction {
        program_id: *program_id,
        accounts: vec![AccountMeta::new_readonly(*metadata, false)],
        data: data.pack(),
    }
}

} // verus!
