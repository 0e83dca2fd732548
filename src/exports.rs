//! The exported entry point of the example contract.

use crate::host::{self, reserve_vec_space, written, Entry, Error, LocalKV};
use vstd::prelude::*;
use vstd::utf8::encode_utf8;

verus! {

/// The keyspace the entry point works in.
pub const KEY_SPACE_DEFAULT: u64 = 0;

/// The tag of the values it stores.
pub const TAG_BYTES: u64 = 0;

/// The key of the greeting.
pub const GREETING_KEY: &'static str = "hello";

/// The greeting itself.
pub const GREETING: &'static str = "Hello, world!";

/// The key under which the greeting is stored again once read back.
pub const READ_BACK_KEY: &'static str = "read back";

/// Reads the greeting's key before anything is written there, writes the
/// greeting, reads it back, and stores what was read under a second key.
/// Returns the entry that the second read found. The three raw arguments
/// are only reported by the caller.
pub fn call(kv: &mut LocalKV, arg1: &[u8], arg2: &[u8], arg3: &[u8]) -> (r: Result<Entry, Error>)
    requires
        old(kv).wf(),
    ensures
        final(kv).wf(),
        r matches Ok(e) && e.tag == TAG_BYTES && e.data@ == encode_utf8(GREETING@),
        final(kv)@ == written(
            written(
                old(kv)@,
                KEY_SPACE_DEFAULT,
                encode_utf8(GREETING_KEY@),
                TAG_BYTES,
                encode_utf8(GREETING@),
            ),
            KEY_SPACE_DEFAULT,
            encode_utf8(READ_BACK_KEY@),
            TAG_BYTES,
            encode_utf8(GREETING@),
        ),
{
    let _before = host::read(kv, KEY_SPACE_DEFAULT, GREETING_KEY.as_bytes(), reserve_vec_space);
    let _ = host::write(kv, KEY_SPACE_DEFAULT, GREETING_KEY.as_bytes(), TAG_BYTES, GREETING.as_bytes());
    let existing = match host::read(kv, KEY_SPACE_DEFAULT, GREETING_KEY.as_bytes(), reserve_vec_space) {
        Ok(Some(entry)) => entry,
        Ok(None) => {
            return Err(Error::Transport);
        },
        Err(e) => {
            return Err(e);
        },
    };
    let _ = host::write(kv, KEY_SPACE_DEFAULT, READ_BACK_KEY.as_bytes(), TAG_BYTES, existing.data.as_slice());
    Ok(existing)
}

} // verus!
