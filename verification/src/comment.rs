//! The request that posts a comment on a package.

use vstd::prelude::*;
use vstd::string::*;
use crate::cache::{has_package, MprCache};

verus! {

/// A text as JSON writes a string: in double quotes, with what JSON
/// cannot hold as it is escaped.
pub uninterp spec fn json_string(text: Seq<char>) -> Seq<char>;

/// Writes a text as a JSON string with `serde_json::Value::String` and its
/// `to_string`.
///
/// Trusted: the result is what the crate writes for a string value of this
/// text. It depends on the text alone.
#[verifier::external_body]
fn to_json_string(text: &str) -> (r: String)
    ensures
        r@ == json_string(text@),
{
    serde_json::Value::String(text.to_owned()).to_string()
}

/// The body of the request that posts the comment `msg`: a JSON object
/// with the comment as its only member, `msg`.
pub open spec fn spec_comment_body(msg: Seq<char>) -> Seq<char> {
    "{\"msg\":"@ + json_string(msg) + "}"@
}

/// The body of a request around a member that is already written as JSON.
pub fn body_around(member: &str) -> (r: String)
    ensures
        r@ == "{\"msg\":"@ + member@ + "}"@,
{
    "{\"msg\":".to_owned().concat(member).concat("}")
}

/// The request that posts a comment.
#[derive(Debug)]
pub struct CommentRequest {
    /// The method of the repository's interface to call.
    pub path: String,
    pub body: String,
}

/// The request that posts the comment `message` on the package `pkg`;
/// nothing where the repository has no such package.
pub fn comment(mpr_cache: &MprCache, pkg: &str, message: &str) -> (r: Option<CommentRequest>)
    ensures
        match r {
            Some(request) => has_package(mpr_cache@, pkg@) && request.path@ == "comment/"@ + pkg@
                && request.body@ == spec_comment_body(message@),
            None => !has_package(mpr_cache@, pkg@),
        },
{
    if !mpr_cache.contains_key(pkg) {
        return None;
    }
    Some(
        CommentRequest {
            path: "comment/".to_owned().concat(pkg),
            body: body_around(to_json_string(message).as_str()),
        },
    )
}

} // verus!
