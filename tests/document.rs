use pdf_secure::cipher::encrypt_content_data;
use pdf_secure::document::{
    choose_file_id, encrypt_document, encrypt_objects, encrypt_with_file_id, resolve_file_id,
    IndirectObject, ObjectBody, StreamObject, DEFAULT_PERMISSIONS,
};

const SECRET_O: [u8; 32] = [
    0xE5, 0xA8, 0xD2, 0x68, 0x7B, 0xD9, 0xD0, 0xCF, 0xF9, 0x46, 0xB7, 0xAC, 0x55, 0xF5, 0x10, 0x81,
    0xDC, 0xF0, 0xD1, 0x16, 0x55, 0x4C, 0x4B, 0xFC, 0xB0, 0xA5, 0xE4, 0x46, 0xF6, 0x9E, 0xA4, 0x8A,
];
const SECRET_KEY: [u8; 5] = [0x2E, 0x3C, 0xF0, 0xAA, 0x1C];
const SECRET_U: [u8; 32] = [
    0x29, 0x07, 0x51, 0xE3, 0x6C, 0x1A, 0xBC, 0x5F, 0xB4, 0x0E, 0xF2, 0xF5, 0xC6, 0x46, 0x65, 0x54,
    0x66, 0xC8, 0x01, 0xFE, 0x4B, 0xFF, 0x29, 0xC0, 0x3D, 0xFE, 0xE7, 0x86, 0x39, 0xEC, 0xE1, 0xD7,
];

fn sequential_id() -> Vec<u8> {
    (0u8..16).collect()
}

fn single_page_document() -> Vec<IndirectObject> {
    vec![
        IndirectObject { id: 1, generation: 0, body: ObjectBody::Text(b"Hello".to_vec()) },
        IndirectObject {
            id: 2,
            generation: 0,
            body: ObjectBody::Stream(StreamObject {
                subtype: None,
                content: b"BT /F1 12 Tf (Hello) Tj ET".to_vec(),
            }),
        },
        IndirectObject { id: 3, generation: 0, body: ObjectBody::Other },
    ]
}

#[test]
fn existing_file_id_is_reused() {
    let existing = vec![9u8, 8, 7, 6, 5];
    assert_eq!(resolve_file_id(Some(existing.clone())), existing);
    assert_eq!(choose_file_id(Some(existing.clone()), [1u8; 16]), existing);
}

#[test]
fn missing_file_id_is_drawn_fresh() {
    assert_eq!(resolve_file_id(None).len(), 16);
    assert_eq!(choose_file_id(None, [3u8; 16]), vec![3u8; 16]);
}

#[test]
fn default_permissions_clear_the_two_lowest_bits() {
    assert_eq!(DEFAULT_PERMISSIONS, -4);
    assert_eq!(DEFAULT_PERMISSIONS as u32, 0xFFFF_FFFC);
}

#[test]
fn hello_document_encrypts_to_reference_values() {
    let mut objects = single_page_document();
    let result = encrypt_document(
        &mut objects,
        Some(sequential_id()),
        "secret",
        "secret",
        DEFAULT_PERMISSIONS,
    );
    assert_eq!(result.file_id, sequential_id());
    let d = &result.dictionary;
    assert_eq!(d.filter, b"Standard".to_vec());
    assert_eq!(d.version, 1);
    assert_eq!(d.revision, 2);
    assert_eq!(d.permissions, -4);
    assert_eq!(d.owner_value, SECRET_O.to_vec());
    assert_eq!(d.user_value, SECRET_U.to_vec());
    match &objects[0].body {
        ObjectBody::Text(b) => assert_eq!(b, &vec![0xB2, 0x22, 0x78, 0x43, 0x48]),
        _ => panic!("string object changed kind"),
    }
}

#[test]
fn fresh_file_id_is_used_for_the_key() {
    let mut objects = single_page_document();
    let result = encrypt_document(&mut objects, None, "secret", "secret", -4);
    assert_eq!(result.file_id.len(), 16);
    let mut again = single_page_document();
    let d = encrypt_with_file_id(&mut again, "secret", "secret", -4, &result.file_id);
    assert_eq!(d.user_value, result.dictionary.user_value);
    match (&objects[1].body, &again[1].body) {
        (ObjectBody::Stream(a), ObjectBody::Stream(b)) => assert_eq!(a.content, b.content),
        _ => panic!("stream object changed kind"),
    }
}

#[test]
fn objects_are_encrypted_with_their_own_keys() {
    let mut objects = single_page_document();
    objects.push(IndirectObject {
        id: 9,
        generation: 2,
        body: ObjectBody::Stream(StreamObject {
            subtype: Some(b"Image".to_vec()),
            content: vec![1, 2, 3, 4],
        }),
    });
    encrypt_objects(&SECRET_KEY, &mut objects);
    assert_eq!(objects.len(), 4);
    match &objects[1].body {
        ObjectBody::Stream(s) => {
            assert_eq!(s.subtype, None);
            assert_eq!(
                s.content,
                encrypt_content_data(&SECRET_KEY, 2, 0, b"BT /F1 12 Tf (Hello) Tj ET")
            );
        }
        _ => panic!("stream object changed kind"),
    }
    assert!(matches!(objects[2].body, ObjectBody::Other));
    match &objects[3].body {
        ObjectBody::Stream(s) => {
            assert_eq!(s.subtype, Some(b"Image".to_vec()));
            assert_eq!(s.content, encrypt_content_data(&SECRET_KEY, 9, 2, &[1, 2, 3, 4]));
        }
        _ => panic!("stream object changed kind"),
    }
    assert_eq!((objects[3].id, objects[3].generation), (9, 2));
}

#[test]
fn encrypting_twice_restores_payloads() {
    let mut objects = single_page_document();
    encrypt_objects(&SECRET_KEY, &mut objects);
    encrypt_objects(&SECRET_KEY, &mut objects);
    match &objects[0].body {
        ObjectBody::Text(b) => assert_eq!(b, &b"Hello".to_vec()),
        _ => panic!("string object changed kind"),
    }
}

#[test]
fn distinct_owner_password_changes_only_owner_value_input() {
    let mut a = single_page_document();
    let mut b = single_page_document();
    let da = encrypt_with_file_id(&mut a, "secret", "secret", -4, &sequential_id());
    let db = encrypt_with_file_id(&mut b, "secret", "boss", -4, &sequential_id());
    assert_ne!(da.owner_value, db.owner_value);
    assert_ne!(da.user_value, db.user_value);
}
