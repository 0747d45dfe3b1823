//! The upload orchestrator: one request's field stream in, one outcome out.
//!
//! A request draws one identifier, classifies each decoded field in order,
//! and, when any field carried a file, plans exactly one write: the payload of
//! the last file field under `<identifier><extension>`. The first bad file
//! field aborts the request with its error; nothing is retried.

use vstd::prelude::*;
use crate::errors::UploadError;
use crate::fields::Field;
use crate::fields::FieldView;
use crate::fields::FormData;
use crate::fields::FormView;
use crate::fields::apply_field;
use crate::fields::field_ok;
use crate::fields::file_field_error;
use crate::fields::file_key;
use crate::fields::form_wf;
use crate::fields::initial_form;
use crate::fields::name_key;
use crate::fields::step;
use crate::ident::fresh_identifier;
use crate::ident::valid_identifier;
use crate::naming::compose_storage_name;
use crate::naming::ends_with;
use crate::naming::extension_of;
use crate::naming::lemma_storage_name_keeps_extension;
use crate::naming::storage_name_spec;

verus! {

/// The planned persisted artifact: the storage name and the exact bytes to
/// commit under it.
pub struct StoredFile {
    /// `<identifier><extension>`, dot included in the extension.
    pub name: Vec<u8>,
    /// An exact copy of the uploaded payload.
    pub bytes: Vec<u8>,
}

/// The outcome of a successful upload request: the identifier the request
/// drew, the decoded `name` text, and the single write to commit — absent
/// when no field carried a file.
pub struct UploadOutcome {
    /// The identifier drawn at the start of the request.
    pub identifier: Vec<u8>,
    /// The text of the last `name` field, empty when none decoded.
    pub form_name: String,
    /// The one write this request commits, if any field carried a file.
    pub stored: Option<StoredFile>,
}

/// The models of a request's fields, in arrival order.
pub open spec fn views(fields: Seq<Field>) -> Seq<FieldView> {
    fields.map_values(|f: Field| f@)
}

/// Classifying a field stream from the form state `st`: the first bad file
/// field aborts with its error; every other field advances the form one step.
pub open spec fn run_from(st: FormView, fields: Seq<FieldView>) -> Result<FormView, UploadError>
    decreases fields.len(),
{
    if fields.len() == 0 {
        Ok(st)
    } else if !field_ok(fields.first()) {
        Err(file_field_error(fields.first())->Some_0)
    } else {
        run_from(step(st, fields.first()), fields.drop_first())
    }
}

/// Classifying a whole request's field stream, from the empty form.
pub open spec fn run(fields: Seq<FieldView>) -> Result<FormView, UploadError> {
    run_from(initial_form(), fields)
}

/// Classifies a request's fields in order. The result is exactly what `run`
/// says of the field models: the folded form on success, the first bad file
/// field's error otherwise.
pub fn process_fields(fields: &Vec<Field>) -> (r: Result<FormData, UploadError>)
    ensures
        match r {
            Ok(form) => run(views(fields@)) == Ok::<FormView, UploadError>(form@) && form_wf(
                form@,
            ),
            Err(e) => run(views(fields@)) == Err::<FormView, UploadError>(e),
        },
{
    let ghost vs = views(fields@);
    let mut form = FormData::new();
    let mut i: usize = 0;
    proof {
        assert(vs.skip(0) =~= vs);
    }
    while i < fields.len()
        invariant
            i <= fields@.len(),
            vs == views(fields@),
            form_wf(form@),
            run(vs) == run_from(form@, vs.skip(i as int)),
        decreases fields@.len() - i,
    {
        let ghost pre = form@;
        let ghost rest = vs.skip(i as int);
        proof {
            assert(rest.first() == vs[i as int]);
            assert(vs[i as int] == fields@[i as int]@);
        }
        match apply_field(&mut form, &fields[i]) {
            Ok(()) => {
                proof {
                    assert(rest.drop_first() =~= vs.skip(i + 1));
                    assert(run_from(pre, rest) == run_from(step(pre, rest.first()), rest.drop_first()));
                }
            },
            Err(e) => {
                proof {
                    assert(!field_ok(rest.first()));
                    assert(run_from(pre, rest) == Err::<FormView, UploadError>(e));
                }
                return Err(e);
            },
        }
        i = i + 1;
    }
    proof {
        assert(vs.skip(vs.len() as int) =~= Seq::<FieldView>::empty());
    }
    Ok(form)
}

/// Runs one request's pipeline with a given identifier: classify every field,
/// then plan the single write. On success the planned name is the identifier
/// followed by the last file field's extension, and the planned bytes are
/// that field's payload, byte for byte.
pub fn process_upload_with(fields: &Vec<Field>, identifier: &Vec<u8>) -> (r: Result<
    UploadOutcome,
    UploadError,
>)
    ensures
        match r {
            Ok(o) => {
                &&& run(views(fields@)) is Ok
                &&& o.identifier@ == identifier@
                &&& o.form_name@ == run(views(fields@))->Ok_0.name
                &&& match run(views(fields@))->Ok_0.file {
                    Some((e, b)) => {
                        &&& o.stored is Some
                        &&& o.stored->Some_0.name@ == storage_name_spec(identifier@, e)
                        &&& o.stored->Some_0.bytes@ == b
                    },
                    None => o.stored is None,
                }
            },
            Err(e) => run(views(fields@)) == Err::<FormView, UploadError>(e),
        },
{
    let form = match process_fields(fields) {
        Ok(form) => form,
        Err(e) => {
            return Err(e);
        },
    };
    let name = form.name;
    match form.file {
        None => Ok(
            UploadOutcome {
                identifier: identifier.clone(),
                form_name: name,
                stored: None,
            },
        ),
        Some(candidate) => {
            let storage_name = compose_storage_name(identifier, &candidate.extension);
            Ok(
                UploadOutcome {
                    identifier: identifier.clone(),
                    form_name: name,
                    stored: Some(StoredFile { name: storage_name, bytes: candidate.bytes }),
                },
            )
        },
    }
}

/// Handles one upload request: draws a fresh identifier, then runs the
/// pipeline with it. The identifier in the outcome is the one the request
/// drew, and it has the canonical hyphenated shape.
pub fn handle_upload(fields: &Vec<Field>) -> (r: Result<UploadOutcome, UploadError>)
    ensures
        match r {
            Ok(o) => {
                &&& valid_identifier(o.identifier@)
                &&& run(views(fields@)) is Ok
                &&& o.form_name@ == run(views(fields@))->Ok_0.name
                &&& match run(views(fields@))->Ok_0.file {
                    Some((e, b)) => {
                        &&& o.stored is Some
                        &&& o.stored->Some_0.name@ == storage_name_spec(o.identifier@, e)
                        &&& o.stored->Some_0.bytes@ == b
                    },
                    None => o.stored is None,
                }
            },
            Err(e) => run(views(fields@)) == Err::<FormView, UploadError>(e),
        },
{
    let identifier = fresh_identifier();
    process_upload_with(fields, &identifier)
}

/// The two field names the classifier reacts to are different names.
pub proof fn lemma_keys_distinct()
    ensures
        name_key() != file_key(),
{
    assert(name_key()[0] == 110);
    assert(file_key()[0] == 102);
}

/// Classification succeeds exactly when every file field in the stream is
/// acceptable: carries a filename whose extension is storage-safe.
pub proof fn lemma_run_ok_iff(st: FormView, fields: Seq<FieldView>)
    ensures
        run_from(st, fields) is Ok <==> (forall|i: int|
            0 <= i < fields.len() ==> field_ok(#[trigger] fields[i])),
    decreases fields.len(),
{
    if fields.len() == 0 {
    } else if !field_ok(fields.first()) {
        assert(!field_ok(fields[0]));
    } else {
        let tail = fields.drop_first();
        lemma_run_ok_iff(step(st, fields.first()), tail);
        if run_from(st, fields) is Ok {
            assert forall|i: int| 0 <= i < fields.len() implies field_ok(#[trigger] fields[i]) by {
                if i > 0 {
                    assert(tail[i - 1] == fields[i]);
                    assert(field_ok(tail[i - 1]));
                }
            }
        } else {
            assert(!(forall|i: int| 0 <= i < tail.len() ==> field_ok(#[trigger] tail[i])));
            let i0 = choose|i0: int| 0 <= i0 < tail.len() && !field_ok(#[trigger] tail[i0]);
            assert(tail[i0] == fields[i0 + 1]);
            assert(!field_ok(fields[i0 + 1]));
        }
    }
}

/// A failing classification pins its error: it is the error of the first bad
/// file field, and every field before that one is acceptable.
pub proof fn lemma_run_err(st: FormView, fields: Seq<FieldView>)
    requires
        run_from(st, fields) is Err,
    ensures
        exists|i: int|
            {
                &&& 0 <= i < fields.len()
                &&& !field_ok(#[trigger] fields[i])
                &&& (forall|j: int| 0 <= j < i ==> field_ok(#[trigger] fields[j]))
                &&& run_from(st, fields) == Err::<FormView, UploadError>(
                    file_field_error(fields[i])->Some_0,
                )
            },
    decreases fields.len(),
{
    if !field_ok(fields.first()) {
        let i = 0int;
        assert({
            &&& 0 <= i < fields.len()
            &&& !field_ok(fields[i])
            &&& (forall|j: int| 0 <= j < i ==> field_ok(#[trigger] fields[j]))
            &&& run_from(st, fields) == Err::<FormView, UploadError>(
                file_field_error(fields[i])->Some_0,
            )
        });
    } else {
        let tail = fields.drop_first();
        lemma_run_err(step(st, fields.first()), tail);
        let i0 = choose|i0: int|
            {
                &&& 0 <= i0 < tail.len()
                &&& !field_ok(#[trigger] tail[i0])
                &&& (forall|j: int| 0 <= j < i0 ==> field_ok(#[trigger] tail[j]))
                &&& run_from(step(st, fields.first()), tail) == Err::<FormView, UploadError>(
                    file_field_error(tail[i0])->Some_0,
                )
            };
        let i = i0 + 1;
        assert(tail[i0] == fields[i]);
        assert forall|j: int| 0 <= j < i implies field_ok(#[trigger] fields[j]) by {
            if j > 0 {
                assert(field_ok(tail[j - 1]));
                assert(tail[j - 1] == fields[j]);
            }
        }
        assert({
            &&& 0 <= i < fields.len()
            &&& !field_ok(fields[i])
            &&& (forall|j: int| 0 <= j < i ==> field_ok(#[trigger] fields[j]))
            &&& run_from(st, fields) == Err::<FormView, UploadError>(
                file_field_error(fields[i])->Some_0,
            )
        });
    }
}

/// The last file field of the stream, if any.
pub open spec fn last_file_field(fields: Seq<FieldView>) -> Option<FieldView>
    decreases fields.len(),
{
    if fields.len() == 0 {
        None
    } else if fields.last().name == file_key() {
        Some(fields.last())
    } else {
        last_file_field(fields.drop_last())
    }
}

/// How the last file field of a stream relates to the last file field of its
/// tail.
proof fn lemma_last_file_field_cons(fields: Seq<FieldView>)
    requires
        fields.len() > 0,
    ensures
        last_file_field(fields.drop_first()) is Some ==> last_file_field(fields)
            == last_file_field(fields.drop_first()),
        last_file_field(fields.drop_first()) is None ==> last_file_field(fields) == (
        if fields.first().name == file_key() {
            Some(fields.first())
        } else {
            None
        }),
    decreases fields.len(),
{
    if fields.len() == 1 {
        assert(fields.drop_first() =~= Seq::<FieldView>::empty());
        assert(fields.last() == fields.first());
    } else {
        assert(fields.drop_first().last() == fields.last());
        if fields.last().name == file_key() {
        } else {
            assert(fields.drop_last().drop_first() =~= fields.drop_first().drop_last());
            assert(fields.drop_last().first() == fields.first());
            lemma_last_file_field_cons(fields.drop_last());
        }
    }
}

/// Last write wins, and the payload survives intact: when classification
/// succeeds, the form holds exactly the last file field's extension and
/// payload — or the starting state's candidate when the stream holds no file
/// field at all.
pub proof fn lemma_last_write_wins(st: FormView, fields: Seq<FieldView>)
    requires
        run_from(st, fields) is Ok,
    ensures
        match last_file_field(fields) {
            Some(f) => run_from(st, fields)->Ok_0.file == Some(
                (extension_of(f.filename->Some_0), f.data),
            ),
            None => run_from(st, fields)->Ok_0.file == st.file,
        },
    decreases fields.len(),
{
    lemma_keys_distinct();
    if fields.len() == 0 {
    } else {
        let f0 = fields.first();
        lemma_last_write_wins(step(st, f0), fields.drop_first());
        lemma_last_file_field_cons(fields);
    }
}

/// What a whole successful request commits. When the stream held a file
/// field, the form's candidate is exactly the last file field's payload and
/// client extension, and the storage name composed for it, under any
/// identifier, ends with that extension; when it held none, nothing is
/// planned for writing.
pub proof fn lemma_upload_properties(fields: Seq<FieldView>, id: Seq<u8>)
    requires
        run(fields) is Ok,
    ensures
        last_file_field(fields) is Some ==> ({
            let f = last_file_field(fields)->Some_0;
            &&& run(fields)->Ok_0.file == Some((extension_of(f.filename->Some_0), f.data))
            &&& ends_with(
                storage_name_spec(id, extension_of(f.filename->Some_0)),
                extension_of(f.filename->Some_0),
            )
        }),
        last_file_field(fields) is None ==> run(fields)->Ok_0.file is None,
{
    lemma_last_write_wins(initial_form(), fields);
    if last_file_field(fields) is Some {
        let f = last_file_field(fields)->Some_0;
        lemma_storage_name_keeps_extension(id, extension_of(f.filename->Some_0));
    }
}

} // verus!
