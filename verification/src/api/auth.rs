//! Who may use the control interface.

use crate::api::reply;
use crate::api::reply::Reply;
use crate::text;
use subtle::ConstantTimeEq;
use vstd::prelude::*;
use vstd::string::*;
use vstd::utf8::*;

verus! {

/// `subtle::ConstantTimeEq::ct_eq` on slices tells whether they are equal, in a time
/// that does not depend on what they hold.
#[verifier::external_body]
pub(crate) fn equal_bytes(a: &[u8], b: &[u8]) -> (r: bool)
    ensures
        r == (a@ == b@),
{
    a.ct_eq(b).into()
}

/// Whether a request asks for a web socket.
pub open spec fn web_socket(upgrade: Option<Seq<char>>) -> bool {
    upgrade matches Some(u) && text::ascii_lower(u) == "websocket"@
}

/// Whether a request asks for a web socket.
pub fn is_websocket(upgrade: Option<&str>) -> (r: bool)
    ensures
        r == web_socket(opt(upgrade)),
{
    match upgrade {
        Some(u) => {
            let l = text::to_ascii_lower(u);
            text::same(l.as_str(), "websocket")
        },
        None => false,
    }
}

/// An optional text.
pub open spec fn opt(o: Option<&str>) -> Option<Seq<char>> {
    match o {
        Some(s) => Some(s@),
        None => None,
    }
}

/// Whether a secret is asked for: one that is set and not empty.
pub open spec fn guarded(secret: Option<Seq<char>>) -> bool {
    secret matches Some(s) && s.len() > 0
}

/// The secret that a request gives: in its header, or for a web socket in its
/// address.
pub open spec fn given(
    authorization: Option<Seq<char>>,
    upgrade: Option<Seq<char>>,
    token: Option<Seq<char>>,
) -> Option<Seq<char>> {
    if authorization matches Some(a) && "Bearer "@.is_prefix_of(a) {
        Some(authorization->0.skip("Bearer "@.len() as int))
    } else if web_socket(upgrade) {
        token
    } else {
        None
    }
}

/// Whether a request may pass.
pub open spec fn passes(
    secret: Option<Seq<char>>,
    authorization: Option<Seq<char>>,
    upgrade: Option<Seq<char>>,
    token: Option<Seq<char>>,
) -> bool {
    !guarded(secret) || given(authorization, upgrade, token) == secret
}

/// The secret that a request gives.
fn find_given(authorization: Option<&str>, upgrade: Option<&str>, token: Option<&str>) -> (r:
    Option<String>)
    ensures
        text::opt_view(r) == given(opt(authorization), opt(upgrade), opt(token)),
{
    if let Some(a) = authorization {
        if text::starts_with(a, "Bearer ") {
            let n: usize = "Bearer ".unicode_len();
            return Some(text::skip(a, n));
        }
    }
    if is_websocket(upgrade) {
        match token {
            Some(t) => Some(t.to_owned()),
            None => None,
        }
    } else {
        None
    }
}

/// Lets a request pass, or answers that it may not.
pub fn require_auth_ws(
    secret: Option<&str>,
    authorization: Option<&str>,
    upgrade: Option<&str>,
    token: Option<&str>,
) -> (r: Result<(), Reply>)
    ensures
        (match r {
            Ok(_) => passes(opt(secret), opt(authorization), opt(upgrade), opt(token)),
            Err(e) => !passes(opt(secret), opt(authorization), opt(upgrade), opt(token)) && e@
                == reply::told(401, "Unauthorized"@),
        }),
{
    let expected = match secret {
        Some(s) => {
            if s.unicode_len() == 0 {
                return Ok(());
            }
            s
        },
        None => return Ok(()),
    };
    let ok = match find_given(authorization, upgrade, token) {
        Some(t) => {
            let a = text::bytes_of(t.as_str());
            let b = text::bytes_of(expected);
            let same = equal_bytes(a.as_slice(), b.as_slice());
            proof {
                if same {
                    text::lemma_same_bytes(t@, expected@);
                }
            }
            same
        },
        None => false,
    };
    if ok {
        Ok(())
    } else {
        Err(reply::msg_err(reply::UNAUTHORIZED, "Unauthorized"))
    }
}

/// Without a secret every request passes.
pub proof fn law_no_secret_no_guard(
    authorization: Option<Seq<char>>,
    upgrade: Option<Seq<char>>,
    token: Option<Seq<char>>,
)
    ensures
        passes(None, authorization, upgrade, token),
        passes(Some(Seq::empty()), authorization, upgrade, token),
{
}

/// A secret in the address counts for web sockets alone.
pub proof fn law_tokens_are_for_web_sockets(
    secret: Seq<char>,
    upgrade: Option<Seq<char>>,
    token: Option<Seq<char>>,
)
    requires
        secret.len() > 0,
    ensures
        passes(Some(secret), None, upgrade, token) <==> web_socket(upgrade) && token == Some(
            secret,
        ),
{
}

} // verus!
