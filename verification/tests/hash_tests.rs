use azero_relayer::abi::request_hash;
use azero_relayer::events::{BlockDetails, ContractEvent, EventData, EventField, EventValue, SequenceValue};
use azero_relayer::errors::{AzeroContractError, AzeroListenerError, FieldFault};
use azero_relayer::handler::{handle_event, parse_eth_address};

const BAD_HEX_ADDRESS: &str = "0x05a219ce3317b9a3c8d76d58ccf4ab2es8a32ghj";

fn abi_word(x: u128) -> [u8; 32] {
    let mut w = [0u8; 32];
    w[16..].copy_from_slice(&x.to_be_bytes());
    w
}

fn encoding(committee_id: u128, token: [u8; 32], amount: u128, receiver: [u8; 32], nonce: u128) -> Vec<u8> {
    let mut bytes = Vec::new();
    bytes.extend_from_slice(&abi_word(committee_id));
    bytes.extend_from_slice(&token);
    bytes.extend_from_slice(&abi_word(amount));
    bytes.extend_from_slice(&receiver);
    bytes.extend_from_slice(&abi_word(nonce));
    bytes
}

fn bytes_field(name: &str, bytes: &[u8]) -> EventField {
    let items: Vec<SequenceValue> =
        bytes.iter().map(|b| SequenceValue::UInt(*b as u128)).collect();
    EventField { name: name.to_string(), value: EventValue::Sequence(items) }
}

fn uint_field(name: &str, value: u128) -> EventField {
    EventField { name: name.to_string(), value: EventValue::UInt(value) }
}

fn request_event(name: &str, token: &[u8], amount: u128, receiver: &[u8], nonce: u128) -> ContractEvent {
    ContractEvent {
        name: Some(name.to_string()),
        data: EventData {
            fields: vec![
                bytes_field("dest_token_address", token),
                uint_field("amount", amount),
                bytes_field("dest_receiver_address", receiver),
                uint_field("request_nonce", nonce),
            ],
        },
        block_details: BlockDetails { block_number: 100, block_hash: [0u8; 32] },
    }
}

#[test]
fn request_hash_matches_padded_abi_encoding() {
    // The seeded vector: committee 7, token 0x11…11, amount 1000,
    // receiver 0x22…22, nonce 1.
    let token = [0x11u8; 32];
    let receiver = [0x22u8; 32];
    let preimage = encoding(7, token, 1000, receiver, 1);
    assert_eq!(preimage.len(), 160);
    let expected = ethers_core::utils::keccak256(&preimage);
    let got = request_hash(7, &token, 1000, &receiver, 1);
    assert_eq!(got, expected);
}

#[test]
fn request_hash_uses_fixed_width_words_not_packed() {
    // A packed encoding of amount 1000 would take 2 bytes; the canonical
    // preimage pads it to a full 32-byte word.
    let token = [0u8; 32];
    let receiver = [0u8; 32];
    let mut packed = Vec::new();
    packed.extend_from_slice(&abi_word(7));
    packed.extend_from_slice(&token);
    packed.extend_from_slice(&[0x03, 0xe8]);
    packed.extend_from_slice(&receiver);
    packed.extend_from_slice(&[0x01]);
    let got = request_hash(7, &token, 1000, &receiver, 1);
    assert_ne!(got, ethers_core::utils::keccak256(&packed));
    assert_eq!(got, ethers_core::utils::keccak256(&encoding(7, token, 1000, receiver, 1)));
}

#[test]
fn handle_event_builds_the_destination_call() {
    let event = request_event("CrosschainTransferRequest", &[0x11u8; 32], 1000, &[0x22u8; 32], 1);
    let address = "0x8ba1f109551bd432803012645ac136ddd64dba72";
    let call = handle_event(&event, 7, address).unwrap().unwrap();
    assert_eq!(call.committee_id, 7);
    assert_eq!(call.dest_token_address, [0x11u8; 32]);
    assert_eq!(call.amount, 1000);
    assert_eq!(call.dest_receiver_address, [0x22u8; 32]);
    assert_eq!(call.request_nonce, 1);
    assert_eq!(
        call.request_hash,
        ethers_core::utils::keccak256(&encoding(7, [0x11u8; 32], 1000, [0x22u8; 32], 1))
    );
    assert_eq!(hex::encode(call.dest_contract), "8ba1f109551bd432803012645ac136ddd64dba72");
}

#[test]
fn handle_event_ignores_other_event_kinds() {
    let event = request_event("Something_Else", &[0x11u8; 32], 1000, &[0x22u8; 32], 1);
    let address = "0x8ba1f109551bd432803012645ac136ddd64dba72";
    assert_eq!(handle_event(&event, 7, address).unwrap(), None);
}

#[test]
fn handle_event_fails_on_short_token_address() {
    let event = request_event("CrosschainTransferRequest", &[0x11u8; 31], 1000, &[0x22u8; 32], 1);
    let address = "0x8ba1f109551bd432803012645ac136ddd64dba72";
    let err = handle_event(&event, 7, address).unwrap_err();
    assert_eq!(
        err,
        AzeroListenerError::AzeroContract(AzeroContractError::MissingOrInvalidField(
            "dest_token_address".to_string(),
            FieldFault::WrongLength,
        ))
    );
}

#[test]
fn parse_eth_address_accepts_plain_and_prefixed_hex() {
    let plain = parse_eth_address("8ba1f109551bd432803012645ac136ddd64dba72").unwrap();
    let prefixed = parse_eth_address("0x8ba1f109551bd432803012645ac136ddd64dba72").unwrap();
    let upper = parse_eth_address("0x8BA1F109551BD432803012645AC136DDD64DBA72").unwrap();
    assert_eq!(plain, prefixed);
    assert_eq!(plain, upper);
    assert_eq!(hex::encode(plain), "8ba1f109551bd432803012645ac136ddd64dba72");
}

#[test]
fn parse_eth_address_rejects_bad_input() {
    assert!(matches!(
        parse_eth_address("0x8ba1f109551bd432803012645ac136ddd64dba7"),
        Err(AzeroListenerError::FromHex(_))
    ));
    assert!(matches!(parse_eth_address(BAD_HEX_ADDRESS), Err(AzeroListenerError::FromHex(_))));
    assert!(matches!(parse_eth_address(""), Err(AzeroListenerError::FromHex(_))));
}
