//! The event handler's computation: for one decoded event, decide
//! whether it is a transfer request, decode it, derive the request hash,
//! and lay out the destination call.  Submitting that call and waiting
//! for confirmations is the runner's work.

use vstd::prelude::*;
use vstd::string::StrSliceExecFns;
use vstd::string::StringExecFns;
use vstd::string::StringSliceAdditionalSpecFns;

use crate::abi::{keccak_of, request_encoding, request_hash};
use crate::contracts::{
    get_request_event_data, seq_field_bytes, seq_field_fault, uint_field_fault, uint_field_val,
    request_data_ok,
};
use crate::errors::{AzeroContractError, AzeroListenerError, FieldFault};
use crate::events::{ContractEvent, EventData};

verus! {

broadcast use vstd::array::group_array_axioms;

/// The first request field that fails to decode, with its fault, in the
/// order the decoder reads them.
pub open spec fn first_request_fault(data: EventData) -> Option<(Seq<char>, FieldFault)> {
    match seq_field_fault(data, "dest_token_address"@) {
        Option::Some(ff) => Some(("dest_token_address"@, ff)),
        Option::None => match uint_field_fault(data, "amount"@) {
            Option::Some(ff) => Some(("amount"@, ff)),
            Option::None => match seq_field_fault(data, "dest_receiver_address"@) {
                Option::Some(ff) => Some(("dest_receiver_address"@, ff)),
                Option::None => match uint_field_fault(data, "request_nonce"@) {
                    Option::Some(ff) => Some(("request_nonce"@, ff)),
                    Option::None => None,
                },
            },
        },
    }
}

/// Whether a byte is an ASCII hex digit.
pub open spec fn is_hex_digit(b: u8) -> bool {
    (48 <= b && b <= 57) || (97 <= b && b <= 102) || (65 <= b && b <= 70)
}

/// The value of an ASCII hex digit.
pub open spec fn hex_digit_val(b: u8) -> u8 {
    if 48 <= b && b <= 57 {
        (b - 48) as u8
    } else if 97 <= b && b <= 102 {
        (b - 87) as u8
    } else if 65 <= b && b <= 70 {
        (b - 55) as u8
    } else {
        0u8
    }
}

/// The address bytes with a leading `"0x"` removed, if there is one.
pub open spec fn strip_hex_prefix(s: Seq<u8>) -> Seq<u8> {
    if s.len() >= 2 && s[0] == 48 && s[1] == 120 {
        s.skip(2)
    } else {
        s
    }
}

/// An address string parses when, after an optional `"0x"`, it is
/// exactly 40 hex digits.
pub open spec fn valid_eth_address(s: Seq<u8>) -> bool {
    let h = strip_hex_prefix(s);
    h.len() == 40 && forall|i: int| 0 <= i < h.len() ==> is_hex_digit(h[i])
}

/// The 20 address bytes of a valid address string.
pub open spec fn eth_address_of(s: Seq<u8>) -> Seq<u8> {
    let h = strip_hex_prefix(s);
    Seq::new(20, |i: int| (hex_digit_val(h[2 * i]) * 16 + hex_digit_val(h[2 * i + 1])) as u8)
}

/// The value of one hex digit, or `None` for any other byte.
fn hex_digit_value(b: u8) -> (r: Option<u8>)
    ensures
        r is Some <==> is_hex_digit(b),
        r matches Some(v) ==> v == hex_digit_val(b),
{
    if 48 <= b && b <= 57 {
        Some(b - 48)
    } else if 97 <= b && b <= 102 {
        Some(b - 87)
    } else if 65 <= b && b <= 70 {
        Some(b - 55)
    } else {
        None
    }
}

/// Parses a destination contract address: an optional `"0x"`, then
/// exactly 40 hex digits, upper or lower case.
pub fn parse_eth_address(s: &str) -> (r: Result<[u8; 20], AzeroListenerError>)
    ensures
        r is Ok <==> valid_eth_address(s.spec_bytes()),
        r matches Ok(a) ==> a@ == eth_address_of(s.spec_bytes()),
        r matches Err(e) ==> e matches AzeroListenerError::FromHex(_),
{
    let bytes: Vec<u8> = s.as_bytes_vec();
    let offset: usize = if bytes.len() >= 2 && bytes[0] == 48 && bytes[1] == 120 {
        2
    } else {
        0
    };
    proof {
        assert(strip_hex_prefix(s.spec_bytes()) =~= bytes@.skip(offset as int));
    }
    if bytes.len() - offset != 40 {
        return Err(AzeroListenerError::FromHex(String::from_str("invalid hex length")));
    }
    let mut a: [u8; 20] = [0u8; 20];
    let mut i: usize = 0;
    while i < 20
        invariant
            i <= 20,
            a@.len() == 20,
            offset + 40 == bytes@.len(),
            offset == 0 || offset == 2,
            strip_hex_prefix(s.spec_bytes()) =~= bytes@.skip(offset as int),
            forall|k: int|
                0 <= k < 2 * i ==> is_hex_digit(strip_hex_prefix(s.spec_bytes())[k]),
            forall|k: int| 0 <= k < i ==> a@[k] == eth_address_of(s.spec_bytes())[k],
        decreases 20 - i,
    {
        let hi = match hex_digit_value(bytes[offset + 2 * i]) {
            Some(v) => v,
            None => {
                proof {
                    assert(strip_hex_prefix(s.spec_bytes())[2 * i] == bytes@[offset + 2 * i]);
                    assert(!valid_eth_address(s.spec_bytes()));
                }
                return Err(AzeroListenerError::FromHex(
                    String::from_str("invalid hex character"),
                ));
            },
        };
        let lo = match hex_digit_value(bytes[offset + 2 * i + 1]) {
            Some(v) => v,
            None => {
                proof {
                    assert(strip_hex_prefix(s.spec_bytes())[2 * i + 1] == bytes@[offset + 2 * i
                        + 1]);
                    assert(!valid_eth_address(s.spec_bytes()));
                }
                return Err(AzeroListenerError::FromHex(
                    String::from_str("invalid hex character"),
                ));
            },
        };
        proof {
            assert(strip_hex_prefix(s.spec_bytes())[2 * i] == bytes@[offset + 2 * i]);
            assert(strip_hex_prefix(s.spec_bytes())[2 * i + 1] == bytes@[offset + 2 * i + 1]);
        }
        a[i] = hi * 16 + lo;
        i = i + 1;
    }
    proof {
        assert(a@ =~= eth_address_of(s.spec_bytes()));
    }
    Ok(a)
}

/// One destination call, ready for submission: `receive_request` on the
/// destination contract with the request hash and the five request
/// fields.
#[derive(Clone, Copy, Debug, PartialEq, Eq)]
pub struct ReceiveRequestCall {
    pub dest_contract: [u8; 20],
    pub request_hash: [u8; 32],
    pub committee_id: u128,
    pub dest_token_address: [u8; 32],
    pub amount: u128,
    pub dest_receiver_address: [u8; 32],
    pub request_nonce: u128,
}

/// Handles one decoded event.  Events of any other name are ignored
/// (forward compatibility); a `CrosschainTransferRequest` is decoded,
/// its request hash derived from the canonical encoding, and the
/// destination call laid out, with the configured committee id.
pub fn handle_event(
    event: &ContractEvent,
    committee_id: u128,
    eth_contract_address: &str,
) -> (r: Result<Option<ReceiveRequestCall>, AzeroListenerError>)
    ensures
        (match event.name {
            Option::Some(n) => n@ != "CrosschainTransferRequest"@,
            Option::None => true,
        }) ==> r == Ok::<Option<ReceiveRequestCall>, AzeroListenerError>(None),
        (event.name matches Some(n) && n@ == "CrosschainTransferRequest"@) ==> {
            &&& first_request_fault(event.data) matches Some(p) ==> (r matches Err(
                AzeroListenerError::AzeroContract(
                    AzeroContractError::MissingOrInvalidField(f, ff),
                ),
            ) && f@ == p.0 && ff == p.1)
            &&& request_data_ok(event.data) && !valid_eth_address(
                eth_contract_address.spec_bytes(),
            ) ==> (r matches Err(AzeroListenerError::FromHex(_)))
            &&& request_data_ok(event.data) && valid_eth_address(
                eth_contract_address.spec_bytes(),
            ) ==> (r matches Ok(Some(call)) && {
                &&& call.dest_contract@ == eth_address_of(eth_contract_address.spec_bytes())
                &&& call.committee_id == committee_id
                &&& call.dest_token_address@ == seq_field_bytes(
                    event.data,
                    "dest_token_address"@,
                )
                &&& call.amount == uint_field_val(event.data, "amount"@)
                &&& call.dest_receiver_address@ == seq_field_bytes(
                    event.data,
                    "dest_receiver_address"@,
                )
                &&& call.request_nonce == uint_field_val(event.data, "request_nonce"@)
                &&& call.request_hash@ == keccak_of(request_encoding(
                    committee_id,
                    seq_field_bytes(event.data, "dest_token_address"@),
                    uint_field_val(event.data, "amount"@),
                    seq_field_bytes(event.data, "dest_receiver_address"@),
                    uint_field_val(event.data, "request_nonce"@),
                ))
            })
        },
{
    let is_request = match &event.name {
        Option::Some(n) => {
            let needle: String = String::from_str("CrosschainTransferRequest");
            *n == needle
        },
        Option::None => false,
    };
    if !is_request {
        return Ok(None);
    }
    let data = match get_request_event_data(&event.data) {
        Ok(d) => d,
        Err(e) => {
            return Err(AzeroListenerError::AzeroContract(e));
        },
    };
    let hash = request_hash(
        committee_id,
        &data.dest_token_address,
        data.amount,
        &data.dest_receiver_address,
        data.request_nonce,
    );
    let dest_contract = match parse_eth_address(eth_contract_address) {
        Ok(a) => a,
        Err(e) => {
            return Err(e);
        },
    };
    Ok(
        Some(
            ReceiveRequestCall {
                dest_contract,
                request_hash: hash,
                committee_id,
                dest_token_address: data.dest_token_address,
                amount: data.amount,
                dest_receiver_address: data.dest_receiver_address,
                request_nonce: data.request_nonce,
            },
        ),
    )
}

} // verus!
