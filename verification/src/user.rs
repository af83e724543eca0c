//! Users and their password hashes. A password is kept as the Base64 text of
//! its Whirlpool digest.
use vstd::prelude::*;
use vstd::utf8::encode_utf8;

use whirlpool::Digest;

use crate::text::str_eq;

verus! {

/// A registered user.
#[derive(Debug)]
pub struct User {
    pub id: i32,
    pub email: Option<String>,
    pub username: String,
    pub passhash: String,
}

/// The claims a user token carries.
#[derive(Debug)]
pub struct UserClaims {
    pub id: i64,
    pub username: String,
}

/// Names the Whirlpool digest of a byte string.
pub uninterp spec fn whirlpool_digest(data: Seq<u8>) -> Seq<u8>;

/// Names the standard Base64 text (with `=` padding) of a byte string.
pub uninterp spec fn base64_standard(data: Seq<u8>) -> Seq<char>;

/// Computes the Whirlpool digest of `data` with the `whirlpool` crate
/// (`Whirlpool::new().chain(data).result()`). The contract names the digest
/// and states its length, 64 bytes, as the crate's output size gives it.
#[verifier::external_body]
fn whirlpool(data: &[u8]) -> (r: Vec<u8>)
    ensures
        r@ == whirlpool_digest(data@),
        r@.len() == 64,
{
    whirlpool::Whirlpool::new().chain(data).result().to_vec()
}

/// Encodes `data` as standard Base64 with the `base64` crate
/// (`base64::encode`). The contract names the result only. The crate panics
/// when the length of the encoding overflows `usize`, which the bound on the
/// input rules out.
#[verifier::external_body]
fn base64_encode(data: &[u8]) -> (r: String)
    requires
        data@.len() <= usize::MAX / 2,
    ensures
        r@ == base64_standard(data@),
{
    base64::encode(data)
}

/// The stored form of a password: the Base64 text of the Whirlpool digest of
/// its UTF-8 bytes.
pub open spec fn password_hash(password: Seq<char>) -> Seq<char> {
    base64_standard(whirlpool_digest(encode_utf8(password)))
}

/// Computes the stored form of a password.
pub fn hash_password(password: &str) -> (r: String)
    ensures
        r@ == password_hash(password@),
        r@ == base64_standard(whirlpool_digest(encode_utf8(password@))),
{
    let bytes = password.as_bytes();
    let digest = whirlpool(bytes);
    base64_encode(digest.as_slice())
}

impl User {
    /// Whether `password` is this user's password: its stored form equals the
    /// user's password hash.
    pub fn validate(&self, password: &str) -> (r: bool)
        ensures
            r == (self.passhash@ == password_hash(password@)),
            r == (self.passhash@ == base64_standard(whirlpool_digest(encode_utf8(password@)))),
    {
        let hash = hash_password(password);
        str_eq(self.passhash.as_str(), hash.as_str())
    }
}

impl Default for UserClaims {
    fn default() -> (r: Self)
        ensures
            r.id == 0,
            r.username@.len() == 0,
    {
        UserClaims { id: 0, username: String::new() }
    }
}

/// A password's stored form is the Base64 text of the Whirlpool digest of
/// the UTF-8 bytes of the whole password, nothing cut off.
pub proof fn law_password_hash_whole(password: Seq<char>)
    ensures
        password_hash(password) == base64_standard(whirlpool_digest(encode_utf8(password))),
{
}

/// Two passwords have the same stored form when their UTF-8 bytes are the
/// same, and when the stored forms differ the bytes that were digested differ.
pub proof fn law_password_hash_by_bytes(p: Seq<char>, q: Seq<char>)
    ensures
        encode_utf8(p) == encode_utf8(q) ==> password_hash(p) == password_hash(q),
        password_hash(p) != password_hash(q) ==> encode_utf8(p) != encode_utf8(q),
{
}

/// A user whose stored hash was made from a password is let in with that
/// password.
pub proof fn law_validate_own_password(passhash: Seq<char>, password: Seq<char>)
    requires
        passhash == base64_standard(whirlpool_digest(encode_utf8(password))),
    ensures
        passhash == password_hash(password),
{
}

} // verus!
