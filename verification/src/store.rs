//! Checkpoint-store rules: the key under which the last fully processed
//! block number is kept, and how the starting block is derived from a
//! stored value.  The durable store itself is driven from outside the
//! library; it hands the stored value in as a plain `Option<u32>`.

use vstd::prelude::*;
use vstd::string::StringExecFns;

verus! {

/// Store key suffix for the last block number known to be fully processed.
pub const ALEPH_LAST_BLOCK_KEY: &'static str = "alephzero_last_known_block_number";

/// The full store key, `"{name}:{key}"`.
pub fn checkpoint_key(name: &str, key: &str) -> (r: String)
    ensures
        r@ == name@ + seq![':'] + key@,
{
    proof {
        reveal_strlit(":");
    }
    let n: String = String::from_str(name);
    n.concat(":").concat(key)
}

/// The first block the pipeline must look at: one past the stored
/// checkpoint, or the configured default when nothing is stored (a fresh
/// or unreadable store must not wedge the relayer).
pub fn read_first_unprocessed_block_number(stored: Option<u32>, default_block: u32) -> (r: u32)
    requires
        stored matches Some(v) ==> v < u32::MAX,
    ensures
        stored matches Some(v) ==> r == v + 1,
        stored is None ==> r == default_block,
{
    match stored {
        Some(value) => value + 1,
        None => default_block,
    }
}

} // verus!
