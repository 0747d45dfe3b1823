//! The per-request identifier that makes storage names unique.
//!
//! Each upload request draws one fresh 128-bit random identifier and renders
//! it in the canonical hyphenated form. Nothing can be promised of which value
//! comes out — it is random — but every outcome has the same shape, and that
//! shape alone makes the composed storage name safe to use in a path and
//! distinct from every name built from a different identifier.

use vstd::prelude::*;
use crate::naming::DOT;
use crate::naming::is_safe_ext_byte;
use crate::naming::storage_name_spec;
use crate::naming::valid_extension;

verus! {

/// The byte value of `-`.
pub const HYPHEN: u8 = 45;

/// A lowercase hexadecimal digit.
pub open spec fn is_lower_hex(b: u8) -> bool {
    (48 <= b <= 57) || (97 <= b <= 102)
}

/// The canonical hyphenated rendering of a 128-bit identifier: 36 bytes,
/// hyphens at positions 8, 13, 18 and 23, lowercase hex digits everywhere
/// else.
pub open spec fn valid_identifier(s: Seq<u8>) -> bool {
    &&& s.len() == 36
    &&& s[8] == HYPHEN
    &&& s[13] == HYPHEN
    &&& s[18] == HYPHEN
    &&& s[23] == HYPHEN
    &&& forall|i: int|
        0 <= i < 36 && i != 8 && i != 13 && i != 18 && i != 23 ==> is_lower_hex(#[trigger] s[i])
}

/// Draws the identifier for one request.
///
/// Relies on `uuid::Uuid::new_v4` and the `Display` rendering of `uuid::Uuid`:
/// a fresh random 128-bit value, printed hyphenated and in lowercase hex as 36
/// bytes. The value itself is random, so the contract states only the shape
/// that every outcome has.
#[verifier::external_body]
pub(crate) fn fresh_identifier() -> (r: Vec<u8>)
    ensures
        valid_identifier(r@),
{
    uuid::Uuid::new_v4().to_string().into_bytes()
}

/// Uniqueness: two distinct identifiers give two distinct storage names,
/// whatever extensions each is combined with.
pub proof fn lemma_distinct_identifiers_distinct_names(
    id1: Seq<u8>,
    e1: Seq<u8>,
    id2: Seq<u8>,
    e2: Seq<u8>,
)
    requires
        valid_identifier(id1),
        valid_identifier(id2),
        id1 != id2,
    ensures
        storage_name_spec(id1, e1) != storage_name_spec(id2, e2),
{
    if storage_name_spec(id1, e1) == storage_name_spec(id2, e2) {
        assert(id1 =~= (id1 + e1).subrange(0, 36));
        assert(id2 =~= (id2 + e2).subrange(0, 36));
    }
}

/// Hardening: a storage name composed of a valid identifier and a
/// storage-safe extension holds no path separator and exactly one dot, so it
/// cannot climb out of the storage directory or name a parent.
pub proof fn lemma_storage_name_safe(id: Seq<u8>, e: Seq<u8>)
    requires
        valid_identifier(id),
        valid_extension(e),
    ensures
        forall|i: int|
            0 <= i < storage_name_spec(id, e).len() ==> {
                &&& #[trigger] storage_name_spec(id, e)[i] != 47
                &&& storage_name_spec(id, e)[i] != 92
                &&& (storage_name_spec(id, e)[i] == DOT <==> i == id.len())
            },
{
    assert forall|i: int| 0 <= i < storage_name_spec(id, e).len() implies {
        &&& #[trigger] storage_name_spec(id, e)[i] != 47
        &&& storage_name_spec(id, e)[i] != 92
        &&& (storage_name_spec(id, e)[i] == DOT <==> i == id.len())
    } by {
        if i < id.len() {
            assert(storage_name_spec(id, e)[i] == id[i]);
        } else {
            assert(storage_name_spec(id, e)[i] == e[i - id.len()]);
        }
    }
}

} // verus!
