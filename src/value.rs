//! A named, typed cell of the store: its key is its name, its bytes the
//! encoding of its value.

use crate::codec::Codec;
use crate::error::ApiError;
use crate::host::{self, reserve_vec_space, stored, written, Error, LocalKV, StoreView};
use core::marker::PhantomData;
use vstd::prelude::*;
use vstd::utf8::encode_utf8;

verus! {

/// The tag under which a typed value is stored.
pub const VALUE_TAG: u64 = 0;

/// A value of type `T` stored under its name in one keyspace.
#[derive(Debug)]
pub struct Value<T> {
    name: &'static str,
    key_space: u64,
    _marker: PhantomData<T>,
}

impl<T> Value<T> {
    /// The name of the value.
    pub closed spec fn spec_name(&self) -> Seq<char> {
        self.name@
    }

    /// The keyspace the value is stored in.
    pub closed spec fn spec_key_space(&self) -> u64 {
        self.key_space
    }

    /// The key the value is stored under: the UTF-8 bytes of its name.
    pub open spec fn storage_key(&self) -> Seq<u8> {
        encode_utf8(self.spec_name())
    }

    pub fn new(name: &'static str, key_space: u64) -> (r: Self)
        ensures
            r.spec_name() == name@,
            r.spec_key_space() == key_space,
    {
        Self { name, key_space, _marker: PhantomData }
    }
}

impl<T: Codec> Value<T> {
    /// What a `get` on store `s` finds: nothing, the decoded value, or a
    /// decoding failure.
    pub open spec fn spec_get(&self, s: StoreView) -> Result<Option<T::V>, ApiError> {
        match stored(s, self.spec_key_space(), self.storage_key()) {
            None => Ok(None),
            Some(hit) => match T::decoding(hit.1) {
                Some(v) => Ok(Some(v)),
                None => Err(ApiError::Decode),
            },
        }
    }

    /// Encodes `value` and stores it under this value's key, with the tag
    /// `VALUE_TAG`; a value without an encoding is refused and nothing is
    /// stored.
    pub fn set(&mut self, kv: &mut LocalKV, value: T) -> (r: Result<(), ApiError>)
        requires
            old(kv).wf(),
        ensures
            final(kv).wf(),
            *final(self) == *old(self),
            T::encoding(value@) matches Some(b) ==> r is Ok && final(kv)@ == written(
                old(kv)@,
                old(self).spec_key_space(),
                old(self).storage_key(),
                VALUE_TAG,
                b,
            ),
            T::encoding(value@) is None ==> r == Err::<(), ApiError>(ApiError::Encode) && final(kv)@
                == old(kv)@,
    {
        match value.encode() {
            Some(v) => match host::write(kv, self.key_space, self.name.as_bytes(), VALUE_TAG, v.as_slice()) {
                Ok(()) => Ok(()),
                Err(Error::Transport) => Err(ApiError::Transport),
            },
            None => Err(ApiError::Encode),
        }
    }

    /// Reads and decodes the value stored under this value's key.
    pub fn get(&self, kv: &LocalKV) -> (r: Result<Option<T>, ApiError>)
        requires
            kv.wf(),
        ensures
            r matches Ok(Some(v)) ==> self.spec_get(kv@) == Ok::<Option<T::V>, ApiError>(Some(v@)),
            r matches Ok(None) ==> self.spec_get(kv@) == Ok::<Option<T::V>, ApiError>(None),
            r matches Err(e) ==> self.spec_get(kv@) == Err::<Option<T::V>, ApiError>(e),
    {
        match host::read(kv, self.key_space, self.name.as_bytes(), reserve_vec_space) {
            Ok(Some(entry)) => match T::decode(entry.data.as_slice()) {
                Some(v) => Ok(Some(v)),
                None => Err(ApiError::Decode),
            },
            Ok(None) => Ok(None),
            Err(Error::Transport) => Err(ApiError::Transport),
        }
    }
}

/// What `set` stores, `get` reads back: a value with an encoding, written
/// under the cell's key with the value tag, decodes to that same value.
pub proof fn lemma_value_round_trip<T: Codec>(cell: Value<T>, s: StoreView, v: T::V, bytes: Seq<u8>)
    requires
        T::encoding(v) == Some(bytes),
    ensures
        cell.spec_get(written(s, cell.spec_key_space(), cell.storage_key(), VALUE_TAG, bytes)) == Ok::<
            Option<T::V>,
            ApiError,
        >(Some(v)),
{
    T::lemma_decode_encode(v);
}

} // verus!
