//! Deriving a storage-safe file name from the client filename.
//!
//! The extension is everything from the last `.` of the client filename to its
//! end, dot included. Before it may stand in a path it must be storage-safe:
//! only ASCII alphanumeric bytes after the dot, and of bounded length. The
//! storage name is the request's identifier followed by that extension.

use vstd::prelude::*;
use crate::errors::UploadError;

verus! {

/// The byte value of `.`.
pub const DOT: u8 = 46;

/// Most bytes an extension may hold after the dot.
pub const MAX_EXTENSION_LEN: usize = 16;

/// The index of the last `.` in `f`, or -1 when `f` holds none.
pub open spec fn last_dot(f: Seq<u8>) -> int
    decreases f.len(),
{
    if f.len() == 0 {
        -1
    } else if f[f.len() - 1] == DOT {
        f.len() - 1
    } else {
        last_dot(f.drop_last())
    }
}

/// Whether an extension can be taken from `f` at all.
pub open spec fn has_extension(f: Seq<u8>) -> bool {
    last_dot(f) >= 0
}

/// The extension of `f`: everything from the last `.` on, dot included.
/// Meaningful only when `has_extension(f)`.
pub open spec fn extension_of(f: Seq<u8>) -> Seq<u8> {
    f.subrange(last_dot(f), f.len() as int)
}

/// Bytes allowed after the dot: ASCII digits and letters.
pub open spec fn is_safe_ext_byte(b: u8) -> bool {
    (48 <= b <= 57) || (65 <= b <= 90) || (97 <= b <= 122)
}

/// A storage-safe extension: a dot, then at least one and at most
/// `MAX_EXTENSION_LEN` alphanumeric ASCII bytes. Such an extension can hold
/// no path separator and no second dot.
pub open spec fn valid_extension(e: Seq<u8>) -> bool {
    &&& 2 <= e.len() <= MAX_EXTENSION_LEN + 1
    &&& e[0] == DOT
    &&& forall|i: int| 1 <= i < e.len() ==> is_safe_ext_byte(#[trigger] e[i])
}

/// The storage name: the request's identifier followed by the extension.
pub open spec fn storage_name_spec(id: Seq<u8>, ext: Seq<u8>) -> Seq<u8> {
    id + ext
}

/// `s` ends in `suffix`.
pub open spec fn ends_with(s: Seq<u8>, suffix: Seq<u8>) -> bool {
    &&& s.len() >= suffix.len()
    &&& s.subrange(s.len() - suffix.len(), s.len() as int) == suffix
}

/// Where `last_dot` points: at the last `.` of `f`, and at nothing when `f`
/// holds no dot.
pub proof fn lemma_last_dot(f: Seq<u8>)
    ensures
        -1 <= last_dot(f) < f.len(),
        last_dot(f) == -1 ==> forall|i: int| 0 <= i < f.len() ==> f[i] != DOT,
        last_dot(f) >= 0 ==> {
            &&& 0 <= last_dot(f) < f.len()
            &&& f[last_dot(f)] == DOT
            &&& forall|i: int| last_dot(f) < i < f.len() ==> f[i] != DOT
        },
    decreases f.len(),
{
    if f.len() == 0 {
    } else if f[f.len() - 1] == DOT {
    } else {
        lemma_last_dot(f.drop_last());
        assert(forall|i: int| 0 <= i < f.len() - 1 ==> f.drop_last()[i] == f[i]);
    }
}

/// A dot with no later dot is where `last_dot` points.
pub proof fn lemma_last_dot_at(f: Seq<u8>, j: int)
    requires
        0 <= j < f.len(),
        f[j] == DOT,
        forall|i: int| j < i < f.len() ==> f[i] != DOT,
    ensures
        last_dot(f) == j,
    decreases f.len(),
{
    if j == f.len() - 1 {
    } else {
        assert(forall|i: int| 0 <= i < f.len() - 1 ==> f.drop_last()[i] == f[i]);
        lemma_last_dot_at(f.drop_last(), j);
    }
}

/// Finds the index of the last `.` in the client filename.
pub fn find_last_dot(filename: &Vec<u8>) -> (r: Option<usize>)
    ensures
        match r {
            Some(j) => j == last_dot(filename@),
            None => last_dot(filename@) == -1,
        },
{
    let mut i: usize = filename.len();
    while i > 0
        invariant
            i <= filename@.len(),
            forall|k: int| i <= k < filename@.len() ==> filename@[k] != DOT,
        decreases i,
    {
        i = i - 1;
        if filename[i] == DOT {
            proof {
                lemma_last_dot_at(filename@, i as int);
            }
            return Some(i);
        }
    }
    proof {
        lemma_last_dot(filename@);
        if last_dot(filename@) >= 0 {
            assert(filename@[last_dot(filename@)] != DOT);
        }
    }
    None
}

/// Checks that `e` is a storage-safe extension.
pub fn check_extension(e: &Vec<u8>) -> (r: bool)
    ensures
        r == valid_extension(e@),
{
    if e.len() < 2 || e.len() > MAX_EXTENSION_LEN + 1 {
        return false;
    }
    if e[0] != DOT {
        return false;
    }
    let mut i: usize = 1;
    while i < e.len()
        invariant
            1 <= i <= e@.len(),
            forall|k: int| 1 <= k < i ==> is_safe_ext_byte(#[trigger] e@[k]),
        decreases e@.len() - i,
    {
        let b = e[i];
        if !((48 <= b && b <= 57) || (65 <= b && b <= 90) || (97 <= b && b <= 122)) {
            return false;
        }
        i = i + 1;
    }
    true
}

/// Takes the extension from the client filename and checks that it is
/// storage-safe. A filename without a `.` is rejected as missing its
/// extension; one whose extension holds an unsafe byte, or is too long, is
/// rejected as invalid, so no malformed name ever reaches the storage path.
pub fn extract_extension(filename: &Vec<u8>) -> (r: Result<Vec<u8>, UploadError>)
    ensures
        match r {
            Ok(e) => {
                &&& has_extension(filename@)
                &&& valid_extension(extension_of(filename@))
                &&& e@ == extension_of(filename@)
            },
            Err(err) => {
                ||| (err == UploadError::MissingExtension && !has_extension(filename@))
                ||| (err == UploadError::InvalidExtension && has_extension(filename@)
                    && !valid_extension(extension_of(filename@)))
            },
        },
{
    match find_last_dot(filename) {
        None => Err(UploadError::MissingExtension),
        Some(j) => {
            proof {
                lemma_last_dot(filename@);
            }
            let mut e: Vec<u8> = Vec::new();
            let mut k: usize = j;
            while k < filename.len()
                invariant
                    j <= k <= filename@.len(),
                    j < filename@.len(),
                    e@ == filename@.subrange(j as int, k as int),
                decreases filename@.len() - k,
            {
                e.push(filename[k]);
                proof {
                    assert(filename@.subrange(j as int, k + 1) =~= filename@.subrange(
                        j as int,
                        k as int,
                    ).push(filename@[k as int]));
                }
                k = k + 1;
            }
            assert(e@ == extension_of(filename@));
            if check_extension(&e) {
                Ok(e)
            } else {
                Err(UploadError::InvalidExtension)
            }
        },
    }
}

/// Joins the identifier and the extension into the storage name.
pub fn compose_storage_name(identifier: &Vec<u8>, ext: &Vec<u8>) -> (r: Vec<u8>)
    ensures
        r@ == storage_name_spec(identifier@, ext@),
{
    let mut r: Vec<u8> = Vec::new();
    let mut i: usize = 0;
    while i < identifier.len()
        invariant
            i <= identifier@.len(),
            r@ == identifier@.subrange(0, i as int),
        decreases identifier@.len() - i,
    {
        r.push(identifier[i]);
        proof {
            assert(identifier@.subrange(0, i + 1) =~= identifier@.subrange(0, i as int).push(
                identifier@[i as int],
            ));
        }
        i = i + 1;
    }
    proof {
        assert(identifier@.subrange(0, identifier@.len() as int) =~= identifier@);
    }
    let mut k: usize = 0;
    while k < ext.len()
        invariant
            k <= ext@.len(),
            r@ == identifier@ + ext@.subrange(0, k as int),
        decreases ext@.len() - k,
    {
        r.push(ext[k]);
        proof {
            assert(identifier@ + ext@.subrange(0, k + 1) =~= (identifier@ + ext@.subrange(
                0,
                k as int,
            )).push(ext@[k as int]));
        }
        k = k + 1;
    }
    proof {
        assert(identifier@ + ext@.subrange(0, ext@.len() as int) =~= identifier@ + ext@);
    }
    r
}

/// Extension preservation: the storage name ends with the extension it was
/// composed with.
pub proof fn lemma_storage_name_keeps_extension(id: Seq<u8>, ext: Seq<u8>)
    ensures
        ends_with(storage_name_spec(id, ext), ext),
{
    assert((id + ext).subrange((id + ext).len() - ext.len(), (id + ext).len() as int) =~= ext);
}

} // verus!
