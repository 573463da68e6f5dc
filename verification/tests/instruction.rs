use borsh::BorshSerialize;
use solana_sha256_hasher::hashv;
use spl_token_metadata_interface::address::MaybeNullAddress;
use spl_token_metadata_interface::error::UnpackError;
use spl_token_metadata_interface::instruction::{
    Emit, Initialize, RemoveKey, TokenMetadataInstruction, UpdateAuthority, UpdateField,
    DISCRIMINATOR_LENGTH,
};
use spl_token_metadata_interface::state::Field;
use spl_token_metadata_interface::NAMESPACE;

fn check_pack_unpack<T: BorshSerialize>(
    instruction: TokenMetadataInstruction,
    discriminator: &[u8],
    data: T,
) {
    let mut expect = vec![];
    expect.extend_from_slice(discriminator.as_ref());
    expect.append(&mut borsh::to_vec(&data).unwrap());
    let packed = instruction.pack();
    assert_eq!(packed, expect);
    let unpacked = TokenMetadataInstruction::unpack(&expect).unwrap();
    assert_eq!(unpacked, instruction);
}

#[test]
fn initialize_pack() {
    let name = "My test token";
    let symbol = "TEST";
    let uri = "http://test.test";
    let data = Initialize {
        name: name.to_string(),
        symbol: symbol.to_string(),
        uri: uri.to_string(),
    };
    let check = TokenMetadataInstruction::Initialize(data.clone());
    let preimage = hashv(&[format!("{NAMESPACE}:initialize_account").as_bytes()]);
    let discriminator = &preimage.as_ref()[..DISCRIMINATOR_LENGTH];
    // The layout of `Initialize`: its three strings in order.
    check_pack_unpack(check, discriminator, (data.name, data.symbol, data.uri));
}

#[test]
fn update_field_pack() {
    let field = "MyTestField";
    let value = "http://test.uri";
    let data = UpdateField {
        field: Field::Key(field.to_string()),
        value: value.to_string(),
    };
    let check = TokenMetadataInstruction::UpdateField(data.clone());
    let preimage = hashv(&[format!("{NAMESPACE}:updating_field").as_bytes()]);
    let discriminator = &preimage.as_ref()[..DISCRIMINATOR_LENGTH];
    // The layout of `UpdateField`: the field's variant index (3 for a key)
    // and key, then the value.
    check_pack_unpack(
        check,
        discriminator,
        (3u8, field.to_string(), value.to_string()),
    );
}

#[test]
fn remove_key_pack() {
    let data = RemoveKey {
        key: "MyTestField".to_string(),
        idempotent: true,
    };
    let check = TokenMetadataInstruction::RemoveKey(data.clone());
    let preimage = hashv(&[format!("{NAMESPACE}:remove_key_ix").as_bytes()]);
    let discriminator = &preimage.as_ref()[..DISCRIMINATOR_LENGTH];
    check_pack_unpack(check, discriminator, (data.idempotent, data.key));
}

#[test]
fn update_authority_pack() {
    let data = UpdateAuthority {
        new_authority: MaybeNullAddress::default(),
    };
    let check = TokenMetadataInstruction::UpdateAuthority(data.clone());
    let preimage = hashv(&[format!("{NAMESPACE}:update_the_authority").as_bytes()]);
    let discriminator = &preimage.as_ref()[..DISCRIMINATOR_LENGTH];
    check_pack_unpack(
        check,
        discriminator,
        solana_nullable::MaybeNull::<solana_address::Address>::default(),
    );
}

#[test]
fn emit_pack() {
    let data = Emit {
        start: None,
        end: Some(10),
    };
    let check = TokenMetadataInstruction::Emit(data.clone());
    let preimage = hashv(&[format!("{NAMESPACE}:emitter").as_bytes()]);
    let discriminator = &preimage.as_ref()[..DISCRIMINATOR_LENGTH];
    check_pack_unpack(check, discriminator, (data.start, data.end));
}

#[test]
fn fail_unpack_initialize_with_forged_name_length() {
    let mut input = vec![];
    input.extend_from_slice(&Initialize::SPL_DISCRIMINATOR);
    input.extend_from_slice(&u32::MAX.to_le_bytes()); // forged name length, no bytes follow
    assert_eq!(
        TokenMetadataInstruction::unpack(&input).unwrap_err(),
        UnpackError::InvalidInstructionData,
    );
}

#[test]
fn fail_unpack_update_field_with_forged_value_length() {
    let mut input = vec![];
    input.extend_from_slice(&UpdateField::SPL_DISCRIMINATOR);
    input.push(0u8); // Field::Name (tag 0, no nested string)
    input.extend_from_slice(&u32::MAX.to_le_bytes()); // forged value length
    assert_eq!(
        TokenMetadataInstruction::unpack(&input).unwrap_err(),
        UnpackError::InvalidInstructionData,
    );
}

#[test]
fn fail_unpack_remove_key_with_forged_key_length() {
    let mut input = vec![];
    input.extend_from_slice(&RemoveKey::SPL_DISCRIMINATOR);
    input.push(0u8); // idempotent = false
    input.extend_from_slice(&u32::MAX.to_le_bytes()); // forged key length
    assert_eq!(
        TokenMetadataInstruction::unpack(&input).unwrap_err(),
        UnpackError::InvalidInstructionData,
    );
}
