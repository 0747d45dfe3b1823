//! Buffering and classifying the fields of a multipart body.
//!
//! The decoder hands each field over as a name, an optional client filename,
//! and the payload in the chunks in which it arrived. The classifier
//! concatenates the chunks into one buffer and branches on the field name: a
//! `name` field becomes the form's text (empty when the bytes are not valid
//! UTF-8 — an undecodable name never fails the request), a `file` field
//! becomes the candidate upload after its filename passes extension checks,
//! and any other field is discarded. A later field of the same name replaces
//! an earlier one.

use vstd::prelude::*;
use vstd::utf8::decode_utf8;
use vstd::utf8::valid_utf8;
use crate::errors::UploadError;
use crate::naming::extension_of;
use crate::naming::extract_extension;
use crate::naming::has_extension;
use crate::naming::valid_extension;

verus! {

/// One named part of a multipart body, its payload still in the chunks in
/// which the decoder produced it.
pub struct Field {
    /// The field's name.
    pub name: Vec<u8>,
    /// The client-supplied filename; present only on file parts.
    pub filename: Option<Vec<u8>>,
    /// The payload, as the ordered chunks the decoder yielded.
    pub chunks: Vec<Vec<u8>>,
}

/// The model of a field: its name, its optional filename, and the payload as
/// one contiguous byte sequence.
pub ghost struct FieldView {
    pub name: Seq<u8>,
    pub filename: Option<Seq<u8>>,
    pub data: Seq<u8>,
}

impl View for Field {
    type V = FieldView;

    open spec fn view(&self) -> FieldView {
        FieldView {
            name: self.name@,
            filename: match self.filename {
                Some(f) => Some(f@),
                None => None,
            },
            data: self.chunks@.map_values(|c: Vec<u8>| c@).flatten(),
        }
    }
}

/// The bytes of the field name `name`.
pub open spec fn name_key() -> Seq<u8> {
    seq![110u8, 97u8, 109u8, 101u8]
}

/// The bytes of the field name `file`.
pub open spec fn file_key() -> Seq<u8> {
    seq![102u8, 105u8, 108u8, 101u8]
}

/// The accumulated result of classifying one request's fields.
pub struct FormData {
    /// The text of the last `name` field; empty when none arrived or when its
    /// bytes were not valid UTF-8.
    pub name: String,
    /// The candidate upload taken from the last `file` field.
    pub file: Option<FileCandidate>,
}

/// The candidate upload: the payload of a `file` field together with the
/// storage-safe extension taken from its client filename.
pub struct FileCandidate {
    /// The extension, dot included.
    pub extension: Vec<u8>,
    /// The payload.
    pub bytes: Vec<u8>,
}

/// The model of the accumulated form: the name text and, for a file, the
/// extension and payload.
pub ghost struct FormView {
    pub name: Seq<char>,
    pub file: Option<(Seq<u8>, Seq<u8>)>,
}

impl View for FormData {
    type V = FormView;

    open spec fn view(&self) -> FormView {
        FormView {
            name: self.name@,
            file: match self.file {
                Some(c) => Some((c.extension@, c.bytes@)),
                None => None,
            },
        }
    }
}

/// The form before any field has been classified.
pub open spec fn initial_form() -> FormView {
    FormView { name: Seq::empty(), file: None }
}

/// Every extension the form holds is storage-safe.
pub open spec fn form_wf(fv: FormView) -> bool {
    match fv.file {
        Some((e, _)) => valid_extension(e),
        None => true,
    }
}

impl FormData {
    /// A fresh form: empty name, no file candidate.
    pub fn new() -> (r: FormData)
        ensures
            r@ == initial_form(),
            form_wf(r@),
    {
        FormData { name: String::new(), file: None }
    }
}

/// What a `name` field's bytes mean: the decoded text when they are valid
/// UTF-8, the empty string otherwise.
pub open spec fn spec_form_name(data: Seq<u8>) -> Seq<char> {
    if valid_utf8(data) {
        decode_utf8(data)
    } else {
        Seq::empty()
    }
}

/// What ails a `file` field, if anything: no client filename, a filename
/// without a `.`, or an extension that is not storage-safe.
pub open spec fn file_field_error(f: FieldView) -> Option<UploadError> {
    match f.filename {
        None => Some(UploadError::MissingFilename),
        Some(fname) => if !has_extension(fname) {
            Some(UploadError::MissingExtension)
        } else if !valid_extension(extension_of(fname)) {
            Some(UploadError::InvalidExtension)
        } else {
            None
        },
    }
}

/// A field the classifier accepts: any field that is not a file part, and a
/// file part whose filename carries a storage-safe extension.
pub open spec fn field_ok(f: FieldView) -> bool {
    f.name == file_key() ==> file_field_error(f) is None
}

/// One classification step: a `name` field replaces the form's text, a `file`
/// field replaces the candidate upload, any other field changes nothing.
pub open spec fn step(st: FormView, f: FieldView) -> FormView {
    if f.name == name_key() {
        FormView { name: spec_form_name(f.data), file: st.file }
    } else if f.name == file_key() {
        FormView { name: st.name, file: Some((extension_of(f.filename->Some_0), f.data)) }
    } else {
        st
    }
}

/// Interprets the buffered bytes of a `name` field.
///
/// Relies on `String::from_utf8`: it returns the decoded string exactly when
/// the bytes are valid UTF-8, and an error otherwise.
#[verifier::external_body]
fn bytes_to_utf8(bytes: Vec<u8>) -> (r: Option<String>)
    ensures
        match r {
            Some(s) => valid_utf8(bytes@) && s@ == decode_utf8(bytes@),
            None => !valid_utf8(bytes@),
        },
{
    match String::from_utf8(bytes) {
        Ok(s) => Some(s),
        Err(_) => None,
    }
}

/// Decodes a `name` field's buffer, substituting the empty string when the
/// bytes are not valid UTF-8.
pub fn decode_form_name(data: Vec<u8>) -> (r: String)
    ensures
        r@ == spec_form_name(data@),
{
    match bytes_to_utf8(data) {
        Some(s) => s,
        None => String::new(),
    }
}

/// Appends `src` to `dst`.
fn append_bytes(dst: &mut Vec<u8>, src: &Vec<u8>)
    ensures
        final(dst)@ == old(dst)@ + src@,
{
    let mut k: usize = 0;
    while k < src.len()
        invariant
            k <= src@.len(),
            dst@ == old(dst)@ + src@.subrange(0, k as int),
        decreases src@.len() - k,
    {
        dst.push(src[k]);
        proof {
            assert(old(dst)@ + src@.subrange(0, k + 1) =~= (old(dst)@ + src@.subrange(
                0,
                k as int,
            )).push(src@[k as int]));
        }
        k = k + 1;
    }
    proof {
        assert(old(dst)@ + src@.subrange(0, src@.len() as int) =~= old(dst)@ + src@);
    }
}

/// Concatenates a field's chunks, in order, into one contiguous buffer. The
/// whole payload is held in memory before anything is classified or written.
pub fn concat_chunks(chunks: &Vec<Vec<u8>>) -> (r: Vec<u8>)
    ensures
        r@ == chunks@.map_values(|c: Vec<u8>| c@).flatten(),
{
    let ghost views = chunks@.map_values(|c: Vec<u8>| c@);
    let mut r: Vec<u8> = Vec::new();
    let mut i: usize = 0;
    while i < chunks.len()
        invariant
            i <= chunks@.len(),
            views == chunks@.map_values(|c: Vec<u8>| c@),
            r@ == views.take(i as int).flatten(),
        decreases chunks@.len() - i,
    {
        append_bytes(&mut r, &chunks[i]);
        proof {
            assert(views.take(i + 1) =~= views.take(i as int).push(views[i as int]));
            views.take(i as int).lemma_flatten_push(views[i as int]);
        }
        i = i + 1;
    }
    proof {
        assert(views.take(views.len() as int) =~= views);
    }
    r
}

/// Whether `n` is the field name `name`.
fn is_name_key(n: &Vec<u8>) -> (r: bool)
    ensures
        r == (n@ == name_key()),
{
    let r = n.len() == 4 && n[0] == 110 && n[1] == 97 && n[2] == 109 && n[3] == 101;
    proof {
        if r {
            assert(n@ =~= name_key());
        }
    }
    r
}

/// Whether `n` is the field name `file`.
fn is_file_key(n: &Vec<u8>) -> (r: bool)
    ensures
        r == (n@ == file_key()),
{
    let r = n.len() == 4 && n[0] == 102 && n[1] == 105 && n[2] == 108 && n[3] == 101;
    proof {
        if r {
            assert(n@ =~= file_key());
        }
    }
    r
}

/// Buffers one field's chunks and classifies the field. On success the form
/// advances by one `step`; a bad `file` field reports its error and leaves
/// the form as it was.
pub fn apply_field(form: &mut FormData, field: &Field) -> (r: Result<(), UploadError>)
    requires
        form_wf(old(form)@),
    ensures
        form_wf(final(form)@),
        match r {
            Ok(()) => field_ok(field@) && final(form)@ == step(old(form)@, field@),
            Err(e) => {
                &&& field@.name == file_key()
                &&& file_field_error(field@) == Some(e)
                &&& final(form)@ == old(form)@
            },
        },
{
    let data = concat_chunks(&field.chunks);
    if is_name_key(&field.name) {
        form.name = decode_form_name(data);
        Ok(())
    } else if is_file_key(&field.name) {
        match &field.filename {
            None => Err(UploadError::MissingFilename),
            Some(fname) => match extract_extension(fname) {
                Ok(ext) => {
                    form.file = Some(FileCandidate { extension: ext, bytes: data });
                    Ok(())
                },
                Err(e) => Err(e),
            },
        }
    } else {
        Ok(())
    }
}

} // verus!
