//! Failures of the configuration store.

use vstd::prelude::*;
use crate::model::InvokeResponse;

verus! {

/// Why a store operation was refused.
pub enum StoreError {
    /// Another record of the same kind already holds this natural key.
    DuplicateKey(String),
    /// Every identity the store can hand out has been used.
    IdsExhausted,
}

pub open spec fn duplicate_message(key: Seq<char>) -> Seq<char> {
    "a record with key '"@ + key + "' already exists"@
}

impl StoreError {
    pub open spec fn describe(&self) -> Seq<char> {
        match self {
            StoreError::DuplicateKey(key) => duplicate_message(key@),
            StoreError::IdsExhausted => "no record identity is left"@,
        }
    }

    /// A human-readable account of the failure.
    pub fn message(&self) -> (r: String)
        ensures
            r@ == self.describe(),
    {
        match self {
            StoreError::DuplicateKey(key) => {
                let head = String::from_str("a record with key '");
                head.concat(key.as_str()).concat("' already exists")
            },
            StoreError::IdsExhausted => String::from_str("no record identity is left"),
        }
    }
}

/// Turns a store failure into the failure envelope handed to callers.
pub fn to_invoke_response<T>(err: StoreError) -> (r: InvokeResponse<T>)
    ensures
        r.code == 1,
        r.message@ == err.describe(),
        r.data is None,
{
    InvokeResponse::fail(err.message())
}

} // verus!
