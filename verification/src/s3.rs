//! The object-storage client description and the derivation of object
//! keys for uploads. The network upload itself is performed by the
//! surrounding process, from the values this type carries.
use crate::text::push_str_chars;
use crate::text::str_to_chars;
use crate::text::string_from_chars;
use vstd::prelude::*;

verus! {

/// Mathematical view of a client description.
pub struct S3ClientSpec {
    pub host: Seq<char>,
    pub access_key_id: Seq<char>,
    pub secret_access_key: Seq<char>,
    pub region: Seq<char>,
    pub bucket: Seq<char>,
}

/// The connection values of an object-storage client.
#[derive(Clone, Debug)]
pub struct S3Client {
    host: String,
    access_key_id: String,
    secret_access_key: String,
    region: String,
    bucket: String,
}

impl View for S3Client {
    type V = S3ClientSpec;

    closed spec fn view(&self) -> S3ClientSpec {
        S3ClientSpec {
            host: self.host@,
            access_key_id: self.access_key_id@,
            secret_access_key: self.secret_access_key@,
            region: self.region@,
            bucket: self.bucket@,
        }
    }
}

impl S3Client {
    /// A client description holding exactly the given values.
    pub fn new(
        host: &str,
        access_key_id: &str,
        secret_access_key: &str,
        region: &str,
        bucket: &str,
    ) -> (r: S3Client)
        ensures
            r@.host == host@,
            r@.access_key_id == access_key_id@,
            r@.secret_access_key == secret_access_key@,
            r@.region == region@,
            r@.bucket == bucket@,
    {
        S3Client {
            host: host.to_owned(),
            access_key_id: access_key_id.to_owned(),
            secret_access_key: secret_access_key.to_owned(),
            region: region.to_owned(),
            bucket: bucket.to_owned(),
        }
    }

    /// The endpoint host.
    pub fn host(&self) -> (r: &String)
        ensures
            r@ == self@.host,
    {
        &self.host
    }

    /// The access key id.
    pub fn access_key_id(&self) -> (r: &String)
        ensures
            r@ == self@.access_key_id,
    {
        &self.access_key_id
    }

    /// The secret access key.
    pub fn secret_access_key(&self) -> (r: &String)
        ensures
            r@ == self@.secret_access_key,
    {
        &self.secret_access_key
    }

    /// The region name.
    pub fn region(&self) -> (r: &String)
        ensures
            r@ == self@.region,
    {
        &self.region
    }

    /// The bucket name.
    pub fn bucket(&self) -> (r: &String)
        ensures
            r@ == self@.bucket,
    {
        &self.bucket
    }
}

/// An ASCII digit or lowercase hexadecimal letter.
pub open spec fn is_lower_hex(c: char) -> bool {
    (48 <= c as u32 && c as u32 <= 57) || (97 <= c as u32 && c as u32 <= 102)
}

/// The character at this position of a hyphenated UUID rendering is a
/// separating hyphen.
pub open spec fn is_uuid_hyphen_pos(i: int) -> bool {
    i == 8 || i == 13 || i == 18 || i == 23
}

/// Relies on `uuid::Uuid::new_v4` and `Uuid::to_string`: a fresh
/// version-4 UUID rendered in its hyphenated form — 36 characters,
/// hyphens at positions 8, 13, 18 and 23, lowercase hexadecimal digits
/// everywhere else. Nothing is assumed about which digits come out.
#[verifier::external_body]
fn fresh_uuid_string() -> (r: String)
    ensures
        r@.len() == 36,
        forall|i: int|
            0 <= i < 36 ==> if is_uuid_hyphen_pos(i) {
                #[trigger] r@[i] == '-'
            } else {
                is_lower_hex(r@[i])
            },
{
    uuid::Uuid::new_v4().to_string()
}

/// The object key for an upload: a fresh UUID name, a dot, and the
/// given file extension.
pub fn make_object_key(extension_name: &str) -> (r: String)
    ensures
        r@.len() == 37 + extension_name@.len(),
        r@.subrange(36, r@.len() as int) == "."@ + extension_name@,
        forall|i: int|
            0 <= i < 36 ==> if is_uuid_hyphen_pos(i) {
                #[trigger] r@[i] == '-'
            } else {
                is_lower_hex(r@[i])
            },
{
    let u = fresh_uuid_string();
    let mut out = str_to_chars(u.as_str());
    push_str_chars(&mut out, ".");
    push_str_chars(&mut out, extension_name);
    proof {
        reveal_strlit(".");
        assert("."@.len() == 1);
        assert(out@.subrange(36, out@.len() as int) =~= "."@ + extension_name@);
        assert forall|i: int| 0 <= i < 36 implies out@[i] == u@[i] by {}
    }
    string_from_chars(&out)
}

} // verus!
