//! Plain-data model of a decoded contract event.
//!
//! The chain client hands decoded events over as named fields; the
//! library keeps them as a list of name/value pairs and reads them
//! through a first-match lookup (the client's field maps carry each name
//! at most once).

use vstd::prelude::*;

verus! {

/// One element of a sequence-valued event field.
#[derive(Clone, Debug, PartialEq, Eq)]
pub enum SequenceValue {
    UInt(u128),
    Other,
}

/// The value of one named event field, as far as the decoder reads it.
#[derive(Clone, Debug, PartialEq, Eq)]
pub enum EventValue {
    UInt(u128),
    Sequence(Vec<SequenceValue>),
    Other,
}

/// One named field of a decoded event.
#[derive(Clone, Debug, PartialEq, Eq)]
pub struct EventField {
    pub name: String,
    pub value: EventValue,
}

/// The named fields of one decoded event.
#[derive(Clone, Debug, PartialEq, Eq)]
pub struct EventData {
    pub fields: Vec<EventField>,
}

/// Where an event came from.
#[derive(Clone, Copy, Debug, PartialEq, Eq)]
pub struct BlockDetails {
    pub block_number: u32,
    pub block_hash: [u8; 32],
}

/// One decoded event of the source contract.
#[derive(Clone, Debug, PartialEq, Eq)]
pub struct ContractEvent {
    pub name: Option<String>,
    pub data: EventData,
    pub block_details: BlockDetails,
}

/// The value of the first field named `name`, if any.
pub open spec fn lookup_field(fields: Seq<EventField>, name: Seq<char>) -> Option<EventValue>
    decreases fields.len(),
{
    if fields.len() == 0 {
        None
    } else if fields[0].name@ == name {
        Some(fields[0].value)
    } else {
        lookup_field(fields.drop_first(), name)
    }
}

/// The value of the field named `name` in `data`, if any.
pub open spec fn field_of(data: EventData, name: Seq<char>) -> Option<EventValue> {
    lookup_field(data.fields@, name)
}

impl EventData {
    /// A reference to the value of the field named `name`, if any.
    pub fn get(&self, name: &str) -> (r: Option<&EventValue>)
        ensures
            r matches Some(v) ==> field_of(*self, name@) == Some(*v),
            r is None ==> field_of(*self, name@) is None,
    {
        let needle: String = String::from_str(name);
        let mut i: usize = 0;
        proof {
            assert(self.fields@.skip(0) =~= self.fields@);
        }
        while i < self.fields.len()
            invariant
                i <= self.fields@.len(),
                needle@ == name@,
                lookup_field(self.fields@.skip(i as int), name@) == field_of(*self, name@),
            decreases self.fields@.len() - i,
        {
            proof {
                assert(self.fields@.skip(i as int)[0] == self.fields@[i as int]);
                assert(self.fields@.skip(i as int).drop_first() =~= self.fields@.skip(
                    i as int + 1,
                ));
            }
            if self.fields[i].name == needle {
                return Some(&self.fields[i].value);
            }
            i = i + 1;
        }
        proof {
            assert(self.fields@.skip(i as int) =~= Seq::<EventField>::empty());
        }
        None
    }
}

} // verus!
