use vstd::prelude::*;
use vstd::string::StringSliceAdditionalSpecFns;
use crate::cipher::{object_cipher, encrypt_content_data};
use crate::primitives::prefix;
use crate::keys::{o_value, document_key, u_value, compute_o_value, compute_encryption_key,
    compute_u_value};

verus! {

/// The permission mask used when the caller has no other: every bit set but
/// the two lowest.
pub const DEFAULT_PERMISSIONS: i32 = -4;

/// The content of a stream object: the `Subtype` name of its dictionary, if
/// it has one, and its bytes.
pub struct StreamObject {
    pub subtype: Option<Vec<u8>>,
    pub content: Vec<u8>,
}

/// What an indirect object holds, as far as encryption and compression read it.
pub enum ObjectBody {
    Text(Vec<u8>),
    Stream(StreamObject),
    Other,
}

/// An indirect object with its number and generation.
pub struct IndirectObject {
    pub id: u32,
    pub generation: u16,
    pub body: ObjectBody,
}

/// The value of an object body: its bytes.
pub ghost enum BodyView {
    Text(Seq<u8>),
    Stream { subtype: Option<Seq<u8>>, content: Seq<u8> },
    Other,
}

/// The value of an indirect object.
pub ghost struct ObjectView {
    pub id: u32,
    pub generation: u16,
    pub body: BodyView,
}

/// The bytes of an optional name.
pub open spec fn bytes_view(b: Option<Vec<u8>>) -> Option<Seq<u8>> {
    match b {
        Some(v) => Some(v@),
        None => None,
    }
}

impl View for ObjectBody {
    type V = BodyView;

    open spec fn view(&self) -> BodyView {
        match self {
            ObjectBody::Text(b) => BodyView::Text(b@),
            ObjectBody::Stream(s) => BodyView::Stream {
                subtype: bytes_view(s.subtype),
                content: s.content@,
            },
            ObjectBody::Other => BodyView::Other,
        }
    }
}

impl View for IndirectObject {
    type V = ObjectView;

    open spec fn view(&self) -> ObjectView {
        ObjectView { id: self.id, generation: self.generation, body: self.body@ }
    }
}

/// An object after encryption under the document key `key`: strings and
/// stream contents are run through the object cipher; stream dictionaries and
/// all other objects stay as they were.
pub open spec fn encrypted_object(key: Seq<u8>, o: ObjectView) -> ObjectView {
    ObjectView {
        id: o.id,
        generation: o.generation,
        body: match o.body {
            BodyView::Text(b) => BodyView::Text(object_cipher(key, o.id, o.generation, b)),
            BodyView::Stream { subtype, content } => BodyView::Stream {
                subtype,
                content: object_cipher(key, o.id, o.generation, content),
            },
            BodyView::Other => BodyView::Other,
        },
    }
}

/// The entries of the `Encrypt` dictionary written into the trailer.
pub struct EncryptDictionary {
    pub filter: Vec<u8>,
    pub version: i64,
    pub revision: i64,
    pub permissions: i32,
    pub owner_value: Vec<u8>,
    pub user_value: Vec<u8>,
}

/// The outcome of encrypting a document: the file identifier, to be written
/// into both slots of the trailer's ID array, and the `Encrypt` dictionary.
pub struct Encryption {
    pub file_id: Vec<u8>,
    pub dictionary: EncryptDictionary,
}

/// The dictionary is the one of revision 2 for these passwords, permissions
/// and file identifier.
pub open spec fn is_dictionary_for(
    d: EncryptDictionary,
    user: Seq<u8>,
    owner: Seq<u8>,
    permissions: i32,
    file_id: Seq<u8>,
) -> bool {
    &&& d.filter@ == seq![83u8, 116u8, 97u8, 110u8, 100u8, 97u8, 114u8, 100u8]
    &&& d.version == 1
    &&& d.revision == 2
    &&& d.permissions == permissions
    &&& d.owner_value@ == o_value(user, owner)
    &&& d.user_value@ == u_value(document_key(user, o_value(user, owner), permissions, file_id))
}

/// Every object of `after` is the object at the same place in `before`,
/// encrypted under `key`.
pub open spec fn all_encrypted(key: Seq<u8>, before: Seq<IndirectObject>, after: Seq<
    IndirectObject,
>) -> bool {
    &&& after.len() == before.len()
    &&& forall|i: int| 0 <= i < before.len() ==> #[trigger] after[i]@ == encrypted_object(
        key,
        before[i]@,
    )
}

fn copy_bytes(b: &Vec<u8>) -> (r: Vec<u8>)
    ensures
        r@ == b@,
{
    let r = b.clone();
    assert(r@ =~= b@);
    r
}

/// Encrypts every string and stream payload of `objects` under the document
/// key, each with the key of its own number and generation.
pub fn encrypt_objects(key: &[u8], objects: &mut Vec<IndirectObject>)
    ensures
        all_encrypted(key@, old(objects)@, final(objects)@),
{
    let n = objects.len();
    let ghost before = objects@;
    let mut i: usize = 0;
    while i < n
        invariant
            i <= n,
            n == before.len(),
            objects@.len() == n,
            forall|j: int| 0 <= j < i ==> #[trigger] objects@[j]@ == encrypted_object(
                key@,
                before[j]@,
            ),
            forall|j: int| i <= j < n ==> #[trigger] objects@[j] == before[j],
        decreases n - i,
    {
        let id = objects[i].id;
        let generation = objects[i].generation;
        let body = match &objects[i].body {
            ObjectBody::Text(b) => ObjectBody::Text(
                encrypt_content_data(key, id, generation, b.as_slice()),
            ),
            ObjectBody::Stream(s) => {
                let subtype = match &s.subtype {
                    Some(t) => Some(copy_bytes(t)),
                    None => None,
                };
                let content = encrypt_content_data(key, id, generation, s.content.as_slice());
                ObjectBody::Stream(StreamObject { subtype, content })
            },
            ObjectBody::Other => ObjectBody::Other,
        };
        objects.set(i, IndirectObject { id, generation, body });
        i = i + 1;
    }
    assert(all_encrypted(key@, before, objects@));
}

/// Relies on `rand::random`: 16 bytes drawn from the thread-local
/// cryptographically secure generator; nothing is known of their values.
#[verifier::external_body]
fn random_file_id() -> (r: [u8; 16]) {
    rand::random::<[u8; 16]>()
}

/// The file identifier to use: the one the trailer already carries, or else
/// the freshly drawn `fresh`.
pub fn choose_file_id(existing: Option<Vec<u8>>, fresh: [u8; 16]) -> (r: Vec<u8>)
    ensures
        match existing {
            Some(b) => r@ == b@,
            None => r@ == fresh@,
        },
{
    match existing {
        Some(b) => b,
        None => prefix(&fresh, 16),
    }
}

/// The file identifier to use: the one the trailer already carries, kept
/// byte for byte, or else 16 random bytes.
pub fn resolve_file_id(existing: Option<Vec<u8>>) -> (r: Vec<u8>)
    ensures
        match existing {
            Some(b) => r@ == b@,
            None => r@.len() == 16,
        },
{
    match existing {
        Some(b) => b,
        None => choose_file_id(None, random_file_id()),
    }
}

/// Encrypts `objects` for the given passwords, permissions and file
/// identifier, and returns the `Encrypt` dictionary that describes it.
pub fn encrypt_with_file_id(
    objects: &mut Vec<IndirectObject>,
    user_password: &str,
    owner_password: &str,
    permissions: i32,
    file_id: &[u8],
) -> (d: EncryptDictionary)
    ensures
        is_dictionary_for(
            d,
            user_password.spec_bytes(),
            owner_password.spec_bytes(),
            permissions,
            file_id@,
        ),
        all_encrypted(
            document_key(
                user_password.spec_bytes(),
                o_value(user_password.spec_bytes(), owner_password.spec_bytes()),
                permissions,
                file_id@,
            ),
            old(objects)@,
            final(objects)@,
        ),
{
    let o = compute_o_value(user_password, owner_password);
    let key = compute_encryption_key(user_password, o.as_slice(), permissions, file_id);
    let u = compute_u_value(key.as_slice());
    encrypt_objects(key.as_slice(), objects);
    let filter: Vec<u8> = vec![83u8, 116u8, 97u8, 110u8, 100u8, 97u8, 114u8, 100u8];
    assert(filter@ =~= seq![83u8, 116u8, 97u8, 110u8, 100u8, 97u8, 114u8, 100u8]);
    EncryptDictionary {
        filter,
        version: 1,
        revision: 2,
        permissions,
        owner_value: o,
        user_value: u,
    }
}

/// Encrypts a document whose objects are `objects` and whose trailer carries
/// `existing_id` as the first element of its ID array, if any.
pub fn encrypt_document(
    objects: &mut Vec<IndirectObject>,
    existing_id: Option<Vec<u8>>,
    user_password: &str,
    owner_password: &str,
    permissions: i32,
) -> (r: Encryption)
    ensures
        match existing_id {
            Some(b) => r.file_id@ == b@,
            None => r.file_id@.len() == 16,
        },
        is_dictionary_for(
            r.dictionary,
            user_password.spec_bytes(),
            owner_password.spec_bytes(),
            permissions,
            r.file_id@,
        ),
        all_encrypted(
            document_key(
                user_password.spec_bytes(),
                o_value(user_password.spec_bytes(), owner_password.spec_bytes()),
                permissions,
                r.file_id@,
            ),
            old(objects)@,
            final(objects)@,
        ),
{
    let file_id = resolve_file_id(existing_id);
    let dictionary = encrypt_with_file_id(
        objects,
        user_password,
        owner_password,
        permissions,
        file_id.as_slice(),
    );
    Encryption { file_id, dictionary }
}

} // verus!
