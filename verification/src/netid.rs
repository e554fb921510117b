//! Validation of network identifiers.
//!
//! A network identifier is used verbatim as a URL path segment and as a
//! directory name, so it must not contain path separators and must not be a
//! path-traversal component. Validation is pure: an invalid identifier is
//! rejected before any network or filesystem access can be attempted.

use vstd::prelude::*;
use vstd::string::StrSliceExecFns;

verus! {

/// A network identifier is safe when it holds no path separator and is not
/// itself a relative path component ("." or "..").
pub open spec fn valid_network_id(s: Seq<char>) -> bool {
    &&& forall|i: int| 0 <= i < s.len() ==> s[i] != '/' && s[i] != '\\'
    &&& s != "."@
    &&& s != ".."@
}

/// Rejection of a malformed network identifier, before any I/O.
#[derive(Clone, Copy, Debug, PartialEq, Eq, Structural)]
pub enum NetworkIdError {
    /// The identifier holds a path separator or is a traversal component.
    InvalidNetworkId,
}

/// Check a network identifier against [`valid_network_id`].
pub fn validate_network_id(id: &str) -> (r: Result<(), NetworkIdError>)
    ensures
        r is Ok <==> valid_network_id(id@),
        r is Err ==> (r matches Err(e) && e == NetworkIdError::InvalidNetworkId),
{
    proof {
        reveal_strlit(".");
        reveal_strlit("..");
    }
    let n = id.unicode_len();
    let mut i: usize = 0;
    while i < n
        invariant
            i <= n,
            n == id@.len(),
            forall|j: int| 0 <= j < i ==> id@[j] != '/' && id@[j] != '\\',
        decreases n - i,
    {
        let c = id.get_char(i);
        if c == '/' || c == '\\' {
            return Err(NetworkIdError::InvalidNetworkId);
        }
        i += 1;
    }
    if n == 1 && id.get_char(0) == '.' {
        proof {
            assert(id@ =~= "."@);
        }
        return Err(NetworkIdError::InvalidNetworkId);
    }
    if n == 2 && id.get_char(0) == '.' && id.get_char(1) == '.' {
        proof {
            assert(id@ =~= ".."@);
        }
        return Err(NetworkIdError::InvalidNetworkId);
    }
    proof {
        if id@ == "."@ {
            assert(id@.len() == 1 && id@[0] == '.');
        }
        if id@ == ".."@ {
            assert(id@.len() == 2 && id@[0] == '.' && id@[1] == '.');
        }
    }
    Ok(())
}

} // verus!
