//! The request that asks the repository who the user is.

use vstd::prelude::*;
use vstd::string::*;
use crate::cli::Cli;
use crate::util::AuthenticatedRequest;

verus! {

/// The method of the repository's interface that tells the user of a
/// token.
pub fn whoami_path() -> (r: &'static str)
    ensures
        r@ == "test"@,
{
    "test"
}

/// The request that asks who the user is; nothing where the command line
/// gives no token.
pub fn whoami<'a>(args: &'a Cli) -> (r: Option<AuthenticatedRequest<'a>>)
    ensures
        match r {
            Some(request) => args.token is Some && request.token() == args.token->0@
                && request.site() == args.mpr_url@,
            None => args.token is None,
        },
{
    match &args.token {
        Some(token) => Some(AuthenticatedRequest::new(token.as_str(), args.mpr_url.as_str())),
        None => None,
    }
}

} // verus!
