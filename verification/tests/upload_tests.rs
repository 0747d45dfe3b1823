use upload_store::errors::UploadError;
use upload_store::fields::Field;
use upload_store::fields::FormData;
use upload_store::fields::apply_field;
use upload_store::fields::concat_chunks;
use upload_store::fields::decode_form_name;
use upload_store::health::health_message;
use upload_store::health::health_status;
use upload_store::naming::check_extension;
use upload_store::naming::compose_storage_name;
use upload_store::naming::extract_extension;
use upload_store::naming::find_last_dot;
use upload_store::upload::handle_upload;
use upload_store::upload::process_fields;
use upload_store::upload::process_upload_with;

fn field(name: &str, filename: Option<&str>, chunks: &[&[u8]]) -> Field {
    Field {
        name: name.as_bytes().to_vec(),
        filename: filename.map(|f| f.as_bytes().to_vec()),
        chunks: chunks.iter().map(|c| c.to_vec()).collect(),
    }
}

fn fixed_id() -> Vec<u8> {
    b"00000000-0000-4000-8000-000000000000".to_vec()
}

#[test]
fn health_check_is_fixed() {
    assert_eq!(health_status(), 200);
    assert_eq!(
        health_message(),
        "{\"status\":\"success\",\"message\":\"100% healthy\"}"
    );
}

#[test]
fn status_codes_by_error() {
    assert_eq!(UploadError::MissingFilename.status_code(), 400);
    assert_eq!(UploadError::MissingExtension.status_code(), 400);
    assert_eq!(UploadError::InvalidExtension.status_code(), 400);
    assert_eq!(UploadError::Decode.status_code(), 500);
    assert_eq!(UploadError::StorageIo.status_code(), 500);
}

#[test]
fn error_descriptions() {
    assert_eq!(
        UploadError::MissingExtension.describe(),
        "filename has no extension"
    );
    assert_eq!(
        UploadError::StorageIo.describe(),
        "stored file could not be written"
    );
}

#[test]
fn find_last_dot_positions() {
    assert_eq!(find_last_dot(&b"photo.jpg".to_vec()), Some(5));
    assert_eq!(find_last_dot(&b"a.b.c".to_vec()), Some(3));
    assert_eq!(find_last_dot(&b"nodot".to_vec()), None);
    assert_eq!(find_last_dot(&Vec::new()), None);
    assert_eq!(find_last_dot(&b".hidden".to_vec()), Some(0));
}

#[test]
fn extract_extension_takes_the_last_dot() {
    assert_eq!(extract_extension(&b"photo.jpg".to_vec()), Ok(b".jpg".to_vec()));
    assert_eq!(extract_extension(&b"archive.tar.gz".to_vec()), Ok(b".gz".to_vec()));
}

#[test]
fn extract_extension_rejects_missing_dot() {
    assert_eq!(
        extract_extension(&b"nodot".to_vec()),
        Err(UploadError::MissingExtension)
    );
}

#[test]
fn extract_extension_rejects_unsafe_bytes() {
    // A separator inside the extension.
    assert_eq!(
        extract_extension(&b"evil.j/g".to_vec()),
        Err(UploadError::InvalidExtension)
    );
    // A trailing dot leaves an empty extension.
    assert_eq!(
        extract_extension(&b"evil.".to_vec()),
        Err(UploadError::InvalidExtension)
    );
    // A dotted traversal attempt.
    assert_eq!(
        extract_extension(&b"x...".to_vec()),
        Err(UploadError::InvalidExtension)
    );
    // Too long an extension.
    assert_eq!(
        extract_extension(&b"a.abcdefghijklmnopq".to_vec()),
        Err(UploadError::InvalidExtension)
    );
}

#[test]
fn check_extension_bounds() {
    assert!(check_extension(&b".jpg".to_vec()));
    assert!(check_extension(&b".a".to_vec()));
    // Sixteen bytes after the dot is the most allowed.
    assert!(check_extension(&b".abcdefghijklmnop".to_vec()));
    assert!(!check_extension(&b".abcdefghijklmnopq".to_vec()));
    assert!(!check_extension(&b".".to_vec()));
    assert!(!check_extension(&b"jpg".to_vec()));
    assert!(!check_extension(&b".j pg".to_vec()));
}

#[test]
fn compose_joins_identifier_and_extension() {
    let name = compose_storage_name(&fixed_id(), &b".jpg".to_vec());
    assert_eq!(name, b"00000000-0000-4000-8000-000000000000.jpg".to_vec());
}

#[test]
fn concat_chunks_keeps_order() {
    let chunks = vec![b"he".to_vec(), b"l".to_vec(), Vec::new(), b"lo".to_vec()];
    assert_eq!(concat_chunks(&chunks), b"hello".to_vec());
    assert_eq!(concat_chunks(&Vec::new()), Vec::<u8>::new());
}

#[test]
fn decode_form_name_utf8_or_empty() {
    assert_eq!(decode_form_name(b"alice".to_vec()), "alice".to_string());
    assert_eq!(decode_form_name(vec![0xff, 0xfe]), "".to_string());
    assert_eq!(decode_form_name(Vec::new()), "".to_string());
}

#[test]
fn upload_preserves_extension_and_bytes() {
    let payload: Vec<u8> = vec![1, 2, 3, 250, 0, 7];
    let fields = vec![field("file", Some("photo.jpg"), &[&payload])];
    let outcome = process_upload_with(&fields, &fixed_id()).unwrap();
    let stored = outcome.stored.expect("one file field gives one stored file");
    assert!(stored.name.ends_with(b".jpg"));
    assert_eq!(stored.name, b"00000000-0000-4000-8000-000000000000.jpg".to_vec());
    assert_eq!(stored.bytes, payload);
}

#[test]
fn upload_buffers_chunks_in_order() {
    let fields = vec![field("file", Some("song.mp3"), &[b"abc", b"", b"def"])];
    let outcome = process_upload_with(&fields, &fixed_id()).unwrap();
    let stored = outcome.stored.unwrap();
    assert_eq!(stored.bytes, b"abcdef".to_vec());
    assert!(stored.name.ends_with(b".mp3"));
}

#[test]
fn fresh_identifier_has_canonical_shape() {
    let outcome = handle_upload(&Vec::new()).unwrap();
    let id = outcome.identifier;
    assert_eq!(id.len(), 36);
    for (i, b) in id.iter().enumerate() {
        if i == 8 || i == 13 || i == 18 || i == 23 {
            assert_eq!(*b, b'-');
        } else {
            assert!(b.is_ascii_digit() || (b'a'..=b'f').contains(b));
        }
    }
    assert!(outcome.stored.is_none());
    assert_eq!(outcome.form_name, "");
}

#[test]
fn same_filename_twice_gives_distinct_names() {
    let payload = b"same bytes".to_vec();
    let first = handle_upload(&vec![field("file", Some("photo.jpg"), &[&payload])]).unwrap();
    let second = handle_upload(&vec![field("file", Some("photo.jpg"), &[&payload])]).unwrap();
    let n1 = first.stored.unwrap();
    let n2 = second.stored.unwrap();
    assert_ne!(first.identifier, second.identifier);
    assert_ne!(n1.name, n2.name);
    assert!(n1.name.ends_with(b".jpg"));
    assert!(n2.name.ends_with(b".jpg"));
    assert_eq!(n1.bytes, payload);
    assert_eq!(n2.bytes, payload);
}

#[test]
fn last_file_field_wins() {
    let fields = vec![
        field("file", Some("first.png"), &[b"first payload"]),
        field("file", Some("second.gif"), &[b"second payload"]),
    ];
    let outcome = process_upload_with(&fields, &fixed_id()).unwrap();
    let stored = outcome.stored.expect("exactly one stored file");
    assert_eq!(stored.bytes, b"second payload".to_vec());
    assert!(stored.name.ends_with(b".gif"));
    assert!(!stored.name.ends_with(b".png"));
}

#[test]
fn missing_extension_is_rejected() {
    let fields = vec![field("file", Some("noextension"), &[b"data"])];
    let r = process_upload_with(&fields, &fixed_id());
    assert!(matches!(r, Err(UploadError::MissingExtension)));
}

#[test]
fn missing_filename_is_rejected() {
    let fields = vec![field("file", None, &[b"data"])];
    let r = process_upload_with(&fields, &fixed_id());
    assert!(matches!(r, Err(UploadError::MissingFilename)));
}

#[test]
fn unsafe_extension_is_rejected() {
    let fields = vec![field("file", Some("escape.j/g"), &[b"data"])];
    let r = process_upload_with(&fields, &fixed_id());
    assert!(matches!(r, Err(UploadError::InvalidExtension)));
}

#[test]
fn bad_file_field_aborts_even_before_a_good_one() {
    let fields = vec![
        field("file", Some("noextension"), &[b"data"]),
        field("file", Some("fine.jpg"), &[b"data"]),
    ];
    let r = process_upload_with(&fields, &fixed_id());
    assert!(matches!(r, Err(UploadError::MissingExtension)));
}

#[test]
fn name_field_is_decoded() {
    let fields = vec![
        field("name", None, &[b"alice"]),
        field("file", Some("photo.jpg"), &[b"bytes"]),
    ];
    let outcome = process_upload_with(&fields, &fixed_id()).unwrap();
    assert_eq!(outcome.form_name, "alice");
    assert!(outcome.stored.is_some());
}

#[test]
fn undecodable_name_becomes_empty_and_never_fails() {
    let fields = vec![field("name", None, &[&[0xff, 0x00, 0x9c]])];
    let outcome = process_upload_with(&fields, &fixed_id()).unwrap();
    assert_eq!(outcome.form_name, "");
    assert!(outcome.stored.is_none());
}

#[test]
fn later_name_field_replaces_earlier() {
    let fields = vec![
        field("name", None, &[b"alice"]),
        field("name", None, &[b"bob"]),
    ];
    let outcome = process_upload_with(&fields, &fixed_id()).unwrap();
    assert_eq!(outcome.form_name, "bob");
}

#[test]
fn unknown_fields_are_ignored() {
    let fields = vec![
        field("comment", Some("ignored.exe"), &[b"whatever"]),
        field("name", None, &[b"carol"]),
    ];
    let outcome = process_upload_with(&fields, &fixed_id()).unwrap();
    assert_eq!(outcome.form_name, "carol");
    assert!(outcome.stored.is_none());
}

#[test]
fn empty_request_succeeds_with_nothing_stored() {
    let outcome = process_upload_with(&Vec::new(), &fixed_id()).unwrap();
    assert_eq!(outcome.form_name, "");
    assert!(outcome.stored.is_none());
}

#[test]
fn apply_field_steps_the_form() {
    let mut form = FormData::new();
    assert_eq!(apply_field(&mut form, &field("name", None, &[b"dave"])), Ok(()));
    assert_eq!(form.name, "dave");
    assert!(form.file.is_none());

    assert_eq!(
        apply_field(&mut form, &field("file", Some("a.png"), &[b"one"])),
        Ok(())
    );
    assert_eq!(
        apply_field(&mut form, &field("file", Some("b.gif"), &[b"two"])),
        Ok(())
    );
    let candidate = form.file.as_ref().unwrap();
    assert_eq!(candidate.extension, b".gif".to_vec());
    assert_eq!(candidate.bytes, b"two".to_vec());

    // A bad file field reports its error and leaves the form as it was.
    assert_eq!(
        apply_field(&mut form, &field("file", Some("bad"), &[b"three"])),
        Err(UploadError::MissingExtension)
    );
    let candidate = form.file.as_ref().unwrap();
    assert_eq!(candidate.bytes, b"two".to_vec());
    assert_eq!(form.name, "dave");
}

#[test]
fn process_fields_accumulates() {
    let fields = vec![
        field("name", None, &[b"erin"]),
        field("file", Some("doc.pdf"), &[b"%PDF"]),
    ];
    let form = process_fields(&fields).unwrap();
    assert_eq!(form.name, "erin");
    let candidate = form.file.unwrap();
    assert_eq!(candidate.extension, b".pdf".to_vec());
    assert_eq!(candidate.bytes, b"%PDF".to_vec());
}

#[test]
fn uppercase_and_digit_extensions_are_safe() {
    let fields = vec![field("file", Some("clip.MP4"), &[b"data"])];
    let outcome = process_upload_with(&fields, &fixed_id()).unwrap();
    assert!(outcome.stored.unwrap().name.ends_with(b".MP4"));
}
