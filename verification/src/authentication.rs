//! Credential validation for authenticated requests. The transport hands
//! over the two header values as text (or `None` where a header is
//! absent) and the credential table; the decision of who the caller is,
//! and with which error a bad request fails, is made here.

use vstd::prelude::*;
use crate::parse::{all_digits, dec_value, parse_u32};

verus! {

/// An authenticated caller.
#[derive(Debug)]
pub struct Auth {
    pub client_id: u32,
    pub client_secret: String,
}

/// Why a request failed authentication.
#[derive(Clone, Copy, PartialEq, Eq, Structural, Debug)]
pub enum AuthError {
    /// A credential header is absent.
    MissingData,
    /// The client id header is not a decimal number that fits 32 bits.
    InvalidClientId,
    /// No stored secret for the client id matches the presented one.
    InvalidSecret,
}

/// The secret stored for `id`: the first matching entry of the credential
/// table.
pub open spec fn stored_secret(creds: Seq<(u32, String)>, id: u32) -> Option<Seq<char>>
    decreases creds.len(),
{
    if creds.len() == 0 {
        None
    } else if creds[0].0 == id {
        Some(creds[0].1@)
    } else {
        stored_secret(creds.drop_first(), id)
    }
}

/// Entries that do not carry `id` play no part in its lookup.
proof fn lemma_stored_secret_skip(creds: Seq<(u32, String)>, id: u32, t: int)
    requires
        0 <= t <= creds.len(),
        forall|m: int| 0 <= m < t ==> (#[trigger] creds[m]).0 != id,
    ensures
        stored_secret(creds, id) == stored_secret(creds.skip(t), id),
    decreases t,
{
    if t > 0 {
        assert(creds[0].0 != id);
        lemma_stored_secret_skip(creds.drop_first(), id, t - 1);
        assert(creds.drop_first().skip(t - 1) =~= creds.skip(t));
    } else {
        assert(creds.skip(0) =~= creds);
    }
}

/// The client id header parses and its value is `id`.
pub open spec fn id_header_is(header: Seq<char>, id: u32) -> bool {
    &&& header.len() > 0
    &&& all_digits(header)
    &&& dec_value(header) == id
}

/// Validate a request's credentials. Succeeds exactly when both headers
/// are present, the client id is a decimal `u32`, and the stored secret
/// for that id equals the presented secret; each failure names its cause.
pub fn validate_authentication_data(
    client_id: Option<&str>,
    client_secret: Option<&str>,
    credentials: &Vec<(u32, String)>,
) -> (r: Result<Auth, AuthError>)
    ensures
        r matches Ok(auth) ==> {
            &&& client_id matches Some(h) && id_header_is(h@, auth.client_id)
            &&& client_secret matches Some(s) && auth.client_secret@ == s@
            &&& stored_secret(credentials@, auth.client_id) == Some(auth.client_secret@)
        },
        r == Err::<Auth, AuthError>(AuthError::MissingData) <==> (client_id is None
            || client_secret is None),
        r == Err::<Auth, AuthError>(AuthError::InvalidClientId) <==> (client_id matches Some(h)
            && client_secret is Some
            && !(h@.len() > 0 && all_digits(h@) && dec_value(h@) <= u32::MAX)),
        r == Err::<Auth, AuthError>(AuthError::InvalidSecret) <==> (client_id matches Some(h)
            && client_secret matches Some(s)
            && h@.len() > 0 && all_digits(h@) && dec_value(h@) <= u32::MAX
            && stored_secret(credentials@, dec_value(h@) as u32) != Some(s@)),
{
    let id_header = match client_id {
        Some(h) => h,
        None => {
            return Err(AuthError::MissingData);
        },
    };
    let secret = match client_secret {
        Some(s) => s,
        None => {
            return Err(AuthError::MissingData);
        },
    };
    let id = match parse_u32(id_header) {
        Some(v) => v,
        None => {
            return Err(AuthError::InvalidClientId);
        },
    };

    let n = credentials.len();
    let mut t: usize = 0;
    while t < n
        invariant
            n == credentials@.len(),
            0 <= t <= n,
            forall|m: int| 0 <= m < t ==> (#[trigger] credentials@[m]).0 != id,
            client_id matches Some(h) && h@ == id_header@,
            client_secret matches Some(s) && s@ == secret@,
            id_header@.len() > 0,
            all_digits(id_header@),
            dec_value(id_header@) == id,
        decreases n - t,
    {
        if credentials[t].0 == id {
            proof {
                lemma_stored_secret_skip(credentials@, id, t as int);
                assert(credentials@.skip(t as int)[0] == credentials@[t as int]);
                assert(stored_secret(credentials@, id) == Some(credentials@[t as int].1@));
            }
            let presented: String = secret.to_owned();
            if credentials[t].1 == presented {
                return Ok(Auth { client_id: id, client_secret: presented });
            } else {
                return Err(AuthError::InvalidSecret);
            }
        }
        t = t + 1;
    }
    proof {
        lemma_stored_secret_skip(credentials@, id, n as int);
        assert(credentials@.skip(n as int) =~= Seq::<(u32, String)>::empty());
    }
    Err(AuthError::InvalidSecret)
}

} // verus!
