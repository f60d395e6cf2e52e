use vstd::prelude::*;
use vstd::string::StrSliceExecFns;
use crate::errors::RepoError;
use mongodb::bson::oid::ObjectId;

verus! {

/// bson's 12-byte object identifier, opaque here: this library only
/// ever carries a parsed one through to the caller.
#[verifier::external_type_specification]
#[verifier::external_body]
pub struct ExObjectId(ObjectId);

/// bson's identifier-parse error, opaque here: it is mapped to
/// [`RepoError::MalformedId`] right after the parse.
#[verifier::external_type_specification]
#[verifier::external_body]
pub struct ExObjectIdError(mongodb::bson::oid::Error);

/// A hexadecimal digit: `0-9`, `a-f` or `A-F`.
pub open spec fn is_hex_digit(c: char) -> bool {
    (48 <= c as u32 && c as u32 <= 57) || (97 <= c as u32 && c as u32 <= 102) || (65 <= c as u32
        && c as u32 <= 70)
}

/// The shape of a valid identifier string: exactly 24 hexadecimal
/// digits, the hex form of a 12-byte object identifier.
pub open spec fn is_object_id_hex(s: Seq<char>) -> bool {
    s.len() == 24 && forall|i: int| 0 <= i < s.len() ==> is_hex_digit(s[i])
}

/// Relies on bson's `ObjectId::parse_str`: it decodes the string as
/// hex and succeeds exactly when the string is 24 hexadecimal digits
/// (either letter case); anything else gives an invalid-character or
/// invalid-length error.
#[verifier::external_body]
fn parse_object_id(s: &str) -> (r: Result<ObjectId, mongodb::bson::oid::Error>)
    ensures
        r is Ok <==> is_object_id_hex(s@),
{
    ObjectId::parse_str(s)
}

/// Checks an identifier string the way the get-by-id operation does:
/// an empty string is a client error, rejected before the store is
/// consulted; anything that is not a valid identifier shape is a
/// parse error, also raised before any store access.
pub fn parse_post_id(id: &str) -> (r: Result<ObjectId, RepoError>)
    ensures
        r is Ok <==> id@.len() > 0 && is_object_id_hex(id@),
        id@.len() == 0 ==> r == Err::<ObjectId, RepoError>(RepoError::InvalidId),
        id@.len() > 0 && !is_object_id_hex(id@) ==> r == Err::<ObjectId, RepoError>(
            RepoError::MalformedId,
        ),
{
    if id.is_empty() {
        return Err(RepoError::InvalidId);
    }
    match parse_object_id(id) {
        Ok(o) => Ok(o),
        Err(_) => Err(RepoError::MalformedId),
    }
}

/// The identifier check of the reference store, written out: the same
/// acceptance condition as the bson parser, with the same empty-string
/// client error first.
pub fn check_post_id(id: &str) -> (r: Result<(), RepoError>)
    ensures
        r is Ok <==> id@.len() > 0 && is_object_id_hex(id@),
        id@.len() == 0 ==> r == Err::<(), RepoError>(RepoError::InvalidId),
        id@.len() > 0 && !is_object_id_hex(id@) ==> r == Err::<(), RepoError>(
            RepoError::MalformedId,
        ),
{
    if id.is_empty() {
        return Err(RepoError::InvalidId);
    }
    let len = id.unicode_len();
    if len != 24 {
        return Err(RepoError::MalformedId);
    }
    let mut i: usize = 0;
    while i < 24
        invariant
            id@.len() == 24,
            i <= 24,
            forall|j: int| 0 <= j < i ==> is_hex_digit(id@[j]),
        decreases 24 - i,
    {
        let c = id.get_char(i);
        let u = c as u32;
        let ok = (48 <= u && u <= 57) || (97 <= u && u <= 102) || (65 <= u && u <= 70);
        if !ok {
            return Err(RepoError::MalformedId);
        }
        i += 1;
    }
    Ok(())
}

} // verus!
