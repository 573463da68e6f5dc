use borsh::BorshDeserialize;
use spl_discriminator::ArrayDiscriminator;
use spl_token_metadata_interface::address::{Address, MaybeNullAddress};
use spl_token_metadata_interface::error::UnpackError;
use spl_token_metadata_interface::instruction::{
    Emit, Initialize, RemoveKey, TokenMetadataInstruction, UpdateAuthority, UpdateField,
};
use spl_token_metadata_interface::state::Field;

fn with_discriminator(discriminator: &[u8; 8], data: &[u8]) -> Vec<u8> {
    let mut input = discriminator.to_vec();
    input.extend_from_slice(data);
    input
}

fn string_bytes(s: &str) -> Vec<u8> {
    let mut v = (s.len() as u32).to_le_bytes().to_vec();
    v.extend_from_slice(s.as_bytes());
    v
}

#[test]
fn discriminators_are_hashes_of_their_inputs() {
    let cases: [(&[u8; 8], &str); 5] = [
        (&Initialize::SPL_DISCRIMINATOR, "initialize_account"),
        (&UpdateField::SPL_DISCRIMINATOR, "updating_field"),
        (&RemoveKey::SPL_DISCRIMINATOR, "remove_key_ix"),
        (&UpdateAuthority::SPL_DISCRIMINATOR, "update_the_authority"),
        (&Emit::SPL_DISCRIMINATOR, "emitter"),
    ];
    for (discriminator, name) in cases {
        let input = format!("spl_token_metadata_interface:{name}");
        let expected = ArrayDiscriminator::new_with_hash_input(&input);
        assert_eq!(expected.as_slice(), &discriminator[..]);
    }
}

#[test]
fn unpack_refuses_short_input() {
    let input = [210u8, 225, 30, 162, 88, 184, 77];
    assert_eq!(
        TokenMetadataInstruction::unpack(&input).unwrap_err(),
        UnpackError::InvalidInstructionData
    );
    assert_eq!(
        TokenMetadataInstruction::unpack(&[]).unwrap_err(),
        UnpackError::InvalidInstructionData
    );
}

#[test]
fn unpack_refuses_unknown_discriminator() {
    let input = with_discriminator(&[1, 2, 3, 4, 5, 6, 7, 8], &[0, 0]);
    assert_eq!(
        TokenMetadataInstruction::unpack(&input).unwrap_err(),
        UnpackError::InvalidInstructionData
    );
}

#[test]
fn unpack_initialize_with_invalid_utf8_is_borsh_error() {
    let mut data = string_bytes("a");
    data.extend_from_slice(&[2, 0, 0, 0, 0xff, 0xfe]);
    data.extend_from_slice(&string_bytes("u"));
    let input = with_discriminator(&Initialize::SPL_DISCRIMINATOR, &data);
    assert_eq!(
        TokenMetadataInstruction::unpack(&input).unwrap_err(),
        UnpackError::BorshIoError
    );
}

#[test]
fn unpack_initialize_with_trailing_byte_is_borsh_error() {
    let mut data = string_bytes("n");
    data.extend_from_slice(&string_bytes("s"));
    data.extend_from_slice(&string_bytes("u"));
    data.push(7);
    let input = with_discriminator(&Initialize::SPL_DISCRIMINATOR, &data);
    assert_eq!(
        TokenMetadataInstruction::unpack(&input).unwrap_err(),
        UnpackError::BorshIoError
    );
}

#[test]
fn unpack_initialize_with_forged_uri_length() {
    let mut data = string_bytes("n");
    data.extend_from_slice(&string_bytes("s"));
    data.extend_from_slice(&[5, 0, 0, 0, b'a']);
    let input = with_discriminator(&Initialize::SPL_DISCRIMINATOR, &data);
    assert_eq!(
        TokenMetadataInstruction::unpack(&input).unwrap_err(),
        UnpackError::InvalidInstructionData
    );
}

#[test]
fn unpack_initialize_multibyte_strings() {
    let mut data = string_bytes("Tökén ✓");
    data.extend_from_slice(&string_bytes("€"));
    data.extend_from_slice(&string_bytes(""));
    let input = with_discriminator(&Initialize::SPL_DISCRIMINATOR, &data);
    let expected = TokenMetadataInstruction::Initialize(Initialize {
        name: "Tökén ✓".to_string(),
        symbol: "€".to_string(),
        uri: String::new(),
    });
    assert_eq!(TokenMetadataInstruction::unpack(&input).unwrap(), expected);
    assert_eq!(expected.pack(), input);
}

#[test]
fn unpack_update_field_without_field_byte() {
    let input = UpdateField::SPL_DISCRIMINATOR.to_vec();
    assert_eq!(
        TokenMetadataInstruction::unpack(&input).unwrap_err(),
        UnpackError::InvalidInstructionData
    );
}

#[test]
fn unpack_update_field_with_forged_key_length() {
    let mut data = vec![3u8];
    data.extend_from_slice(&[9, 0, 0, 0, b'k']);
    let input = with_discriminator(&UpdateField::SPL_DISCRIMINATOR, &data);
    assert_eq!(
        TokenMetadataInstruction::unpack(&input).unwrap_err(),
        UnpackError::InvalidInstructionData
    );
}

#[test]
fn unpack_update_field_with_unknown_field_index() {
    let mut data = vec![4u8];
    data.extend_from_slice(&string_bytes("v"));
    let input = with_discriminator(&UpdateField::SPL_DISCRIMINATOR, &data);
    assert_eq!(
        TokenMetadataInstruction::unpack(&input).unwrap_err(),
        UnpackError::BorshIoError
    );
}

#[test]
fn unpack_update_field_base_fields() {
    for (index, field) in [(0u8, Field::Name), (1, Field::Symbol), (2, Field::Uri)] {
        let mut data = vec![index];
        data.extend_from_slice(&string_bytes("value"));
        let input = with_discriminator(&UpdateField::SPL_DISCRIMINATOR, &data);
        let expected = TokenMetadataInstruction::UpdateField(UpdateField {
            field,
            value: "value".to_string(),
        });
        assert_eq!(TokenMetadataInstruction::unpack(&input).unwrap(), expected);
        assert_eq!(expected.pack(), input);
    }
}

#[test]
fn unpack_remove_key_with_invalid_flag_is_borsh_error() {
    let mut data = vec![2u8];
    data.extend_from_slice(&string_bytes("key"));
    let input = with_discriminator(&RemoveKey::SPL_DISCRIMINATOR, &data);
    assert_eq!(
        TokenMetadataInstruction::unpack(&input).unwrap_err(),
        UnpackError::BorshIoError
    );
}

#[test]
fn unpack_remove_key_without_data() {
    let input = RemoveKey::SPL_DISCRIMINATOR.to_vec();
    assert_eq!(
        TokenMetadataInstruction::unpack(&input).unwrap_err(),
        UnpackError::InvalidInstructionData
    );
}

#[test]
fn unpack_update_authority_lengths() {
    let short = with_discriminator(&UpdateAuthority::SPL_DISCRIMINATOR, &[1u8; 31]);
    assert_eq!(
        TokenMetadataInstruction::unpack(&short).unwrap_err(),
        UnpackError::BorshIoError
    );
    let long = with_discriminator(&UpdateAuthority::SPL_DISCRIMINATOR, &[1u8; 33]);
    assert_eq!(
        TokenMetadataInstruction::unpack(&long).unwrap_err(),
        UnpackError::BorshIoError
    );
    let bytes: Vec<u8> = (1u8..=32).collect();
    let exact = with_discriminator(&UpdateAuthority::SPL_DISCRIMINATOR, &bytes);
    let expected = TokenMetadataInstruction::UpdateAuthority(UpdateAuthority {
        new_authority: MaybeNullAddress::new(Address::new_from_array(
            bytes.clone().try_into().unwrap(),
        )),
    });
    assert_eq!(TokenMetadataInstruction::unpack(&exact).unwrap(), expected);
}

#[test]
fn unpack_emit_options() {
    let mut data = vec![1u8];
    data.extend_from_slice(&u64::MAX.to_le_bytes());
    data.push(0);
    let input = with_discriminator(&Emit::SPL_DISCRIMINATOR, &data);
    assert_eq!(
        TokenMetadataInstruction::unpack(&input).unwrap(),
        TokenMetadataInstruction::Emit(Emit {
            start: Some(u64::MAX),
            end: None
        })
    );
    let bad_flag = with_discriminator(&Emit::SPL_DISCRIMINATOR, &[2u8, 0]);
    assert_eq!(
        TokenMetadataInstruction::unpack(&bad_flag).unwrap_err(),
        UnpackError::BorshIoError
    );
    let short = with_discriminator(&Emit::SPL_DISCRIMINATOR, &[1u8, 5, 0, 0]);
    assert_eq!(
        TokenMetadataInstruction::unpack(&short).unwrap_err(),
        UnpackError::BorshIoError
    );
    let empty = Emit::SPL_DISCRIMINATOR.to_vec();
    assert_eq!(
        TokenMetadataInstruction::unpack(&empty).unwrap_err(),
        UnpackError::BorshIoError
    );
}

#[test]
fn packed_data_is_read_by_borsh() {
    let data = Initialize {
        name: "name".to_string(),
        symbol: "SYM".to_string(),
        uri: "https://example".to_string(),
    };
    let bytes = data.to_vec();
    let (name, symbol, uri) = <(String, String, String)>::try_from_slice(&bytes).unwrap();
    assert_eq!((name, symbol, uri), (data.name.clone(), data.symbol.clone(), data.uri.clone()));
    assert_eq!(Initialize::try_from_slice(&bytes).unwrap(), data);
}

#[test]
fn unpack_then_pack_gives_the_input_back() {
    let inputs: Vec<Vec<u8>> = vec![
        with_discriminator(&RemoveKey::SPL_DISCRIMINATOR, &[0, 1, 0, 0, 0, b'x']),
        with_discriminator(&Emit::SPL_DISCRIMINATOR, &[0, 0]),
        with_discriminator(&UpdateField::SPL_DISCRIMINATOR, &[3, 1, 0, 0, 0, b'k', 0, 0, 0, 0]),
    ];
    for input in inputs {
        let ix = TokenMetadataInstruction::unpack(&input).unwrap();
        assert_eq!(ix.pack(), input);
    }
}

#[test]
fn pack_then_unpack_gives_the_instruction_back() {
    let instructions = vec![
        TokenMetadataInstruction::RemoveKey(RemoveKey {
            idempotent: false,
            key: "ключ".to_string(),
        }),
        TokenMetadataInstruction::Emit(Emit {
            start: Some(0),
            end: Some(u64::MAX),
        }),
        TokenMetadataInstruction::UpdateAuthority(UpdateAuthority {
            new_authority: MaybeNullAddress::new(Address::new_from_array([7u8; 32])),
        }),
        TokenMetadataInstruction::UpdateField(UpdateField {
            field: Field::Uri,
            value: String::new(),
        }),
    ];
    for ix in instructions {
        assert_eq!(TokenMetadataInstruction::unpack(&ix.pack()).unwrap(), ix);
    }
}
