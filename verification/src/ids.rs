//! Fresh identifiers.

use crate::hash::{digest_of, hash};
use vstd::prelude::*;
use vstd::string::*;

verus! {

/// `Uuid::new_v4` of the uuid crate, as text: a random identifier that is
/// fresh for all practical purposes. Which one comes back is a matter of
/// chance, so nothing is said of it.
#[verifier::external_body]
pub(crate) fn random_uuid() -> String {
    uuid::Uuid::new_v4().to_string()
}

/// A fresh agent id: the hash of a random identifier. Which identifier is
/// a matter of chance; the id is the digest of its text.
pub fn fresh_id() -> (id: u64)
    ensures
        exists|uuid: Seq<u8>| id == #[trigger] digest_of(uuid),
{
    let uuid = random_uuid();
    let text = uuid.as_str();
    let id = hash(text);
    assert(id == digest_of(text.spec_bytes()));
    id
}

} // verus!
