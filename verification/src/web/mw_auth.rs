//! Who may call the service.

use vstd::prelude::*;
use crate::error::Error;
use crate::text::same_text;

verus! {

/// What a request's credential comes to: `auth` is what its `Authorization` header
/// reads, if it has one that can be read; `key` is the service's key, if it has one.
pub open spec fn auth_result(auth: Option<Seq<char>>, key: Option<Seq<char>>) -> Result<(), Error> {
    match auth {
        None => Err(Error::InvalidArgument),
        Some(given) => match key {
            None => Err(Error::NoAuthKey),
            Some(wanted) => if given == wanted {
                Ok(())
            } else {
                Err(Error::InvalidAuthKey)
            },
        },
    }
}

/// The characters of a string that may be missing.
pub open spec fn text_of(s: Option<&str>) -> Option<Seq<char>> {
    match s {
        Some(s) => Some(s@),
        None => None,
    }
}

/// Decides whether a request may pass: it must carry the service's key.
///
/// A request without a readable credential is refused before the key is looked at.
pub fn mw_require_auth(auth: Option<&str>, key: Option<&str>) -> (r: Result<(), Error>)
    ensures
        r == auth_result(text_of(auth), text_of(key)),
{
    let given = match auth {
        Some(given) => given,
        None => {
            return Err(Error::InvalidArgument);
        },
    };
    let wanted = match key {
        Some(wanted) => wanted,
        None => {
            return Err(Error::NoAuthKey);
        },
    };
    if same_text(given, wanted) {
        Ok(())
    } else {
        Err(Error::InvalidAuthKey)
    }
}

} // verus!
