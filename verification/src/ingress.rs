//! Key assignment for the upload ingress collaborator.
//!
//! The ingress service stores each accepted upload under a generated
//! unique key.  The key's shape is fixed here; drawing the identifier
//! is the one outside call.

use vstd::prelude::*;

verus! {

#[verifier::external_type_specification]
#[verifier::external_body]
pub struct ExUuid(uuid::Uuid);

/// Relies on `uuid::Uuid::new_v4` of the uuid crate: a freshly drawn
/// random identifier.  Nothing holds of every draw, so nothing is
/// promised.
#[verifier::external_body]
fn fresh_uuid() -> (u: uuid::Uuid) {
    uuid::Uuid::new_v4()
}

/// Relies on `uuid::Uuid`'s display form of the uuid crate: the
/// hyphenated text of the identifier, thirty-six characters long.
#[verifier::external_body]
fn uuid_text(u: &uuid::Uuid) -> (r: String)
    ensures
        r@.len() == 36,
{
    u.to_string()
}

/// The object key an upload with the given identifier text is stored
/// under: `upload-`, the text, `.mp4`.
pub fn upload_key_for(token: &str) -> (k: String)
    ensures
        k@ == "upload-"@ + token@ + ".mp4"@,
{
    let mut k = String::from_str("upload-");
    k.append(token);
    k.append(".mp4");
    proof {
        assert(k@ =~= "upload-"@ + token@ + ".mp4"@);
    }
    k
}

/// A fresh upload key: `upload-`, a newly drawn identifier's text,
/// `.mp4` — forty-seven characters with that prefix and suffix.
pub fn fresh_upload_key() -> (k: String)
    ensures
        k@.len() == 47,
        k@.subrange(0, 7) == "upload-"@,
        k@.subrange(43, 47) == ".mp4"@,
{
    let u = fresh_uuid();
    let t = uuid_text(&u);
    let k = upload_key_for(t.as_str());
    proof {
        reveal_strlit("upload-");
        reveal_strlit(".mp4");
        assert(k@.subrange(0, 7) =~= "upload-"@);
        assert(k@.subrange(43, 47) =~= ".mp4"@);
    }
    k
}

} // verus!
