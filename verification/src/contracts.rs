//! The source bridge contract as the relayer sees it: the typed payload
//! of a `CrosschainTransferRequest` event, the decoder that reads it out
//! of a decoded event's named fields, and the handle used to address the
//! contract and to build `receive_request` call arguments.

use vstd::prelude::*;
use vstd::string::StringExecFns;

use crate::encoding::{bytes32_to_str, dec_of, hex0x, u128_to_dec_string};
use crate::errors::{AzeroContractError, FieldFault};
use crate::events::{field_of, ContractEvent, EventData, EventValue, SequenceValue};

verus! {

broadcast use vstd::array::group_array_axioms;

/// The low byte of a sequence element; elements of other kinds never
/// reach it (the decoder rejects them first).
pub open spec fn seq_item_byte(v: SequenceValue) -> u8 {
    match v {
        SequenceValue::UInt(x) => (x % 256) as u8,
        SequenceValue::Other => 0u8,
    }
}

/// Every element of the sequence is an unsigned integer.
pub open spec fn seq_items_ok(items: Seq<SequenceValue>) -> bool {
    forall|i: int| 0 <= i < items.len() ==> items[i] is UInt
}

/// Why the field named `name` cannot be decoded as 32 bytes, if it
/// cannot.  Elements are checked before the length, as the decoder does.
pub open spec fn seq_field_fault(data: EventData, name: Seq<char>) -> Option<FieldFault> {
    match field_of(data, name) {
        Option::None => Some(FieldFault::Absent),
        Option::Some(EventValue::Sequence(items)) => if !seq_items_ok(items@) {
            Some(FieldFault::WrongKind)
        } else if items@.len() != 32 {
            Some(FieldFault::WrongLength)
        } else {
            None
        },
        Option::Some(_) => Some(FieldFault::WrongKind),
    }
}

/// The bytes of the sequence field named `name`: the low byte of each
/// element, in order.
pub open spec fn seq_field_bytes(data: EventData, name: Seq<char>) -> Seq<u8> {
    match field_of(data, name) {
        Option::Some(EventValue::Sequence(items)) => Seq::new(
            items@.len(),
            |i: int| seq_item_byte(items@[i]),
        ),
        _ => Seq::empty(),
    }
}

/// Why the field named `name` cannot be decoded as an unsigned integer,
/// if it cannot.
pub open spec fn uint_field_fault(data: EventData, name: Seq<char>) -> Option<FieldFault> {
    match field_of(data, name) {
        Option::None => Some(FieldFault::Absent),
        Option::Some(EventValue::UInt(_)) => None,
        Option::Some(_) => Some(FieldFault::WrongKind),
    }
}

/// The value of the unsigned-integer field named `name`.
pub open spec fn uint_field_val(data: EventData, name: Seq<char>) -> u128 {
    match field_of(data, name) {
        Option::Some(EventValue::UInt(x)) => x,
        _ => 0u128,
    }
}

/// Decodes the field named `field` as exactly 32 bytes, taking the low
/// byte of each element.
pub fn decode_seq_field(data: &EventData, field: &str) -> (r: Result<
    [u8; 32],
    AzeroContractError,
>)
    ensures
        r is Ok <==> seq_field_fault(*data, field@) is None,
        r matches Ok(b) ==> b@ == seq_field_bytes(*data, field@),
        r matches Err(e) ==> (e matches AzeroContractError::MissingOrInvalidField(f, ff)
            && f@ == field@ && Some(ff) == seq_field_fault(*data, field@)),
{
    match data.get(field) {
        Option::Some(EventValue::Sequence(items)) => {
            proof {
                assert(field_of(*data, field@) == Some(EventValue::Sequence(*items)));
            }
            let mut out: Vec<u8> = Vec::new();
            let mut i: usize = 0;
            while i < items.len()
                invariant
                    field_of(*data, field@) == Some(EventValue::Sequence(*items)),
                    i <= items@.len(),
                    out@.len() == i,
                    forall|k: int| 0 <= k < i ==> items@[k] is UInt,
                    forall|k: int| 0 <= k < i ==> out@[k] == seq_item_byte(items@[k]),
                decreases items@.len() - i,
            {
                match items[i] {
                    SequenceValue::UInt(x) => {
                        proof {
                            assert(items@[i as int] == SequenceValue::UInt(x));
                        }
                        let byte: u8 = (x % 256) as u8;
                        out.push(byte);
                    },
                    SequenceValue::Other => {
                        proof {
                            assert(!(items@[i as int] is UInt));
                            assert(!seq_items_ok(items@));
                        }
                        return Err(AzeroContractError::MissingOrInvalidField(
                            String::from_str(field),
                            FieldFault::WrongKind,
                        ));
                    },
                }
                i = i + 1;
            }
            proof {
                assert(seq_items_ok(items@));
            }
            if items.len() != 32 {
                return Err(AzeroContractError::MissingOrInvalidField(
                    String::from_str(field),
                    FieldFault::WrongLength,
                ));
            }
            let mut b: [u8; 32] = [0u8; 32];
            let mut j: usize = 0;
            while j < 32
                invariant
                    j <= 32,
                    out@.len() == 32,
                    b@.len() == 32,
                    forall|k: int| 0 <= k < j ==> b@[k] == out@[k],
                decreases 32 - j,
            {
                b[j] = out[j];
                j = j + 1;
            }
            proof {
                assert(b@ =~= seq_field_bytes(*data, field@));
            }
            Ok(b)
        },
        Option::Some(_) => Err(AzeroContractError::MissingOrInvalidField(
            String::from_str(field),
            FieldFault::WrongKind,
        )),
        Option::None => Err(AzeroContractError::MissingOrInvalidField(
            String::from_str(field),
            FieldFault::Absent,
        )),
    }
}

/// Decodes the field named `field` as an unsigned integer.
pub fn decode_uint_field(data: &EventData, field: &str) -> (r: Result<u128, AzeroContractError>)
    ensures
        r is Ok <==> uint_field_fault(*data, field@) is None,
        r matches Ok(x) ==> x == uint_field_val(*data, field@),
        r matches Err(e) ==> (e matches AzeroContractError::MissingOrInvalidField(f, ff)
            && f@ == field@ && Some(ff) == uint_field_fault(*data, field@)),
{
    match data.get(field) {
        Option::Some(EventValue::UInt(x)) => Ok(*x),
        Option::Some(_) => Err(AzeroContractError::MissingOrInvalidField(
            String::from_str(field),
            FieldFault::WrongKind,
        )),
        Option::None => Err(AzeroContractError::MissingOrInvalidField(
            String::from_str(field),
            FieldFault::Absent,
        )),
    }
}

/// The typed payload of one `CrosschainTransferRequest` event.
#[derive(Clone, Copy, Debug, PartialEq, Eq)]
pub struct CrosschainTransferRequestData {
    pub dest_token_address: [u8; 32],
    pub amount: u128,
    pub dest_receiver_address: [u8; 32],
    pub request_nonce: u128,
}

/// All four request fields decode.
pub open spec fn request_data_ok(data: EventData) -> bool {
    &&& seq_field_fault(data, "dest_token_address"@) is None
    &&& uint_field_fault(data, "amount"@) is None
    &&& seq_field_fault(data, "dest_receiver_address"@) is None
    &&& uint_field_fault(data, "request_nonce"@) is None
}

/// Decodes the four request fields out of an event's data, in the fixed
/// order token address, amount, receiver address, nonce; the first field
/// that fails decides the error.
pub fn get_request_event_data(data: &EventData) -> (r: Result<
    CrosschainTransferRequestData,
    AzeroContractError,
>)
    ensures
        r is Ok <==> request_data_ok(*data),
        r matches Ok(d) ==> {
            &&& d.dest_token_address@ == seq_field_bytes(*data, "dest_token_address"@)
            &&& d.amount == uint_field_val(*data, "amount"@)
            &&& d.dest_receiver_address@ == seq_field_bytes(*data, "dest_receiver_address"@)
            &&& d.request_nonce == uint_field_val(*data, "request_nonce"@)
        },
        seq_field_fault(*data, "dest_token_address"@) matches Some(ff) ==> (r matches Err(
            AzeroContractError::MissingOrInvalidField(f, ff2),
        ) && f@ == "dest_token_address"@ && ff2 == ff),
        seq_field_fault(*data, "dest_token_address"@) is None ==> (uint_field_fault(
            *data,
            "amount"@,
        ) matches Some(ff) ==> (r matches Err(AzeroContractError::MissingOrInvalidField(f, ff2))
            && f@ == "amount"@ && ff2 == ff)),
        seq_field_fault(*data, "dest_token_address"@) is None && uint_field_fault(
            *data,
            "amount"@,
        ) is None ==> (seq_field_fault(*data, "dest_receiver_address"@) matches Some(ff) ==> (
        r matches Err(AzeroContractError::MissingOrInvalidField(f, ff2))
            && f@ == "dest_receiver_address"@ && ff2 == ff)),
        seq_field_fault(*data, "dest_token_address"@) is None && uint_field_fault(
            *data,
            "amount"@,
        ) is None && seq_field_fault(*data, "dest_receiver_address"@) is None ==> (
        uint_field_fault(*data, "request_nonce"@) matches Some(ff) ==> (r matches Err(
            AzeroContractError::MissingOrInvalidField(f, ff2),
        ) && f@ == "request_nonce"@ && ff2 == ff)),
{
    let dest_token_address = match decode_seq_field(data, "dest_token_address") {
        Ok(b) => b,
        Err(e) => { return Err(e); },
    };
    let amount = match decode_uint_field(data, "amount") {
        Ok(x) => x,
        Err(e) => { return Err(e); },
    };
    let dest_receiver_address = match decode_seq_field(data, "dest_receiver_address") {
        Ok(b) => b,
        Err(e) => { return Err(e); },
    };
    let request_nonce = match decode_uint_field(data, "request_nonce") {
        Ok(x) => x,
        Err(e) => { return Err(e); },
    };
    Ok(CrosschainTransferRequestData {
        dest_token_address,
        amount,
        dest_receiver_address,
        request_nonce,
    })
}

/// The events among the translation results, in order; failed
/// translations are dropped.
pub open spec fn translated_events(s: Seq<Option<ContractEvent>>) -> Seq<ContractEvent>
    decreases s.len(),
{
    if s.len() == 0 {
        Seq::empty()
    } else {
        match s[0] {
            Option::Some(e) => seq![e] + translated_events(s.drop_first()),
            Option::None => translated_events(s.drop_first()),
        }
    }
}

/// A handle on the source bridge contract: its address, the path of its
/// metadata, and the fee-model limits used when calling it.  Loading the
/// metadata and validating the address belong to the chain client.
#[derive(Clone, Debug, PartialEq, Eq)]
pub struct MostInstance {
    pub address: String,
    pub metadata_path: String,
    pub ref_time_limit: u64,
    pub proof_size_limit: u64,
}

impl MostInstance {
    pub fn new(
        address: &str,
        metadata_path: &str,
        ref_time_limit: u64,
        proof_size_limit: u64,
    ) -> (r: Self)
        ensures
            r.address@ == address@,
            r.metadata_path@ == metadata_path@,
            r.ref_time_limit == ref_time_limit,
            r.proof_size_limit == proof_size_limit,
    {
        MostInstance {
            address: String::from_str(address),
            metadata_path: String::from_str(metadata_path),
            ref_time_limit,
            proof_size_limit,
        }
    }

    /// The argument strings of a `receive_request` call, in the order the
    /// contract transcoder expects them: committee id, request hash,
    /// token address, amount, receiver address, nonce; integers in
    /// decimal, 32-byte values as `0x`-prefixed hex.
    pub fn receive_request_args(
        &self,
        request_hash: &[u8; 32],
        committee_id: u128,
        dest_token_address: &[u8; 32],
        amount: u128,
        dest_receiver_address: &[u8; 32],
        request_nonce: u128,
    ) -> (r: Vec<String>)
        ensures
            r@.len() == 6,
            r@[0]@ == dec_of(committee_id as nat),
            r@[1]@ == hex0x(request_hash@),
            r@[2]@ == hex0x(dest_token_address@),
            r@[3]@ == dec_of(amount as nat),
            r@[4]@ == hex0x(dest_receiver_address@),
            r@[5]@ == dec_of(request_nonce as nat),
    {
        let mut args: Vec<String> = Vec::new();
        args.push(u128_to_dec_string(committee_id));
        args.push(bytes32_to_str(request_hash));
        args.push(bytes32_to_str(dest_token_address));
        args.push(u128_to_dec_string(amount));
        args.push(bytes32_to_str(dest_receiver_address));
        args.push(u128_to_dec_string(request_nonce));
        args
    }

    /// Keeps the successfully translated events, in order.
    pub fn filter_events(&self, translated: Vec<Option<ContractEvent>>) -> (r: Vec<ContractEvent>)
        ensures
            r@ == translated_events(translated@),
    {
        let mut rest = translated;
        let mut out: Vec<ContractEvent> = Vec::new();
        proof {
            assert(out@ + translated_events(rest@) =~= translated_events(rest@));
        }
        while rest.len() > 0
            invariant
                translated_events(translated@) =~= out@ + translated_events(rest@),
            decreases rest@.len(),
        {
            let ghost pre_rest = rest@;
            let ghost pre_out = out@;
            let first = rest.remove(0);
            proof {
                assert(rest@ =~= pre_rest.drop_first());
            }
            match first {
                Option::Some(e) => {
                    out.push(e);
                    proof {
                        assert(translated_events(pre_rest) =~= seq![e] + translated_events(
                            rest@,
                        ));
                        assert(pre_out + translated_events(pre_rest) =~= out@
                            + translated_events(rest@));
                    }
                },
                Option::None => {
                    proof {
                        assert(translated_events(pre_rest) =~= translated_events(rest@));
                    }
                },
            }
        }
        proof {
            assert(translated_events(rest@) =~= Seq::<ContractEvent>::empty());
            assert(out@ =~= translated_events(translated@));
        }
        out
    }
}

} // verus!
