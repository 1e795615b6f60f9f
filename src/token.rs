use vstd::prelude::*;
use vstd::string::StringExecFns;

verus! {

/// What the credential source answered to one request for headers.
pub enum CredentialResult {
    /// The value handed out last is still good.
    NotModified,
    /// A new value: the source's `authorization` header, `None` where it
    /// carried none.
    New(Option<String>),
}

/// Why no authorization value could be had.
pub enum CredentialError {
    /// The credential source could not produce any value.
    Unavailable,
    /// The source's value is not a valid header value.
    Malformed,
}

/// A valid HTTP header value: every byte visible ASCII, a space, a tab, or
/// part of a non-ASCII character (DEL and the other control bytes are not).
pub open spec fn header_value_ok(s: Seq<char>) -> bool {
    forall|i: int|
        0 <= i < s.len() ==> ((#[trigger] s[i] as u32) >= 32 && (s[i] as u32) != 127) || s[i] == '\t'
}

/// Relies on `HeaderValue::from_str` of the `http` crate (through reqwest),
/// which accepts a string exactly when each byte is a tab or at least 32 and
/// not 127.
#[verifier::external_body]
fn is_header_value(s: &str) -> (r: bool)
    ensures
        r == header_value_ok(s@),
{
    reqwest::header::HeaderValue::from_str(s).is_ok()
}

/// The value that a new credential stands for.
pub open spec fn new_value(v: Option<String>) -> Seq<char> {
    match v {
        Some(s) => s@,
        None => Seq::empty(),
    }
}

/// The cached value after the source answered `r`.
pub open spec fn next_auth(auth: Seq<char>, r: CredentialResult) -> Seq<char> {
    match r {
        CredentialResult::NotModified => auth,
        CredentialResult::New(v) => if header_value_ok(new_value(v)) {
            new_value(v)
        } else {
            auth
        },
    }
}

/// The cached value after the source answered each of `rs` in turn.
pub open spec fn auth_after(auth: Seq<char>, rs: Seq<CredentialResult>) -> Seq<char>
    decreases rs.len(),
{
    if rs.len() == 0 {
        auth
    } else {
        next_auth(auth_after(auth, rs.drop_last()), rs.last())
    }
}

/// The last authorization value the credential source handed out.
pub struct TokenSlot {
    pub auth: String,
}

impl TokenSlot {
    /// A slot that holds the empty value, before any credential was seen.
    pub fn new() -> (r: TokenSlot)
        ensures
            r.auth@ == Seq::<char>::empty(),
    {
        TokenSlot { auth: String::new() }
    }

    /// Takes the source's answer and gives the authorization value to use:
    /// the cached one on `NotModified`, the new one (which replaces it) on
    /// `New`, and `Malformed` for a new value that is no valid header value,
    /// which leaves the slot as it was.
    pub fn authorization(&mut self, result: CredentialResult) -> (r: Result<String, CredentialError>)
        ensures
            final(self).auth@ == next_auth(old(self).auth@, result),
            match result {
                CredentialResult::NotModified => r matches Ok(v) && v@ == old(self).auth@,
                CredentialResult::New(v) => if header_value_ok(new_value(v)) {
                    r matches Ok(a) && a@ == new_value(v)
                } else {
                    r matches Err(CredentialError::Malformed)
                },
            },
    {
        match result {
            CredentialResult::NotModified => Ok(self.auth.clone()),
            CredentialResult::New(v) => {
                let value = match v {
                    Some(s) => s,
                    None => String::new(),
                };
                if is_header_value(value.as_str()) {
                    self.auth = value.clone();
                    Ok(value)
                } else {
                    Err(CredentialError::Malformed)
                }
            },
        }
    }
}

/// Once the source hands out a valid new value, the slot gives that exact
/// value for as long as the source answers `NotModified`.
pub proof fn lemma_new_value_sticks(auth: Seq<char>, v: Option<String>, rest: Seq<CredentialResult>)
    requires
        header_value_ok(new_value(v)),
        forall|i: int| 0 <= i < rest.len() ==> #[trigger] rest[i] is NotModified,
    ensures
        auth_after(auth, seq![CredentialResult::New(v)] + rest) == new_value(v),
    decreases rest.len(),
{
    let all = seq![CredentialResult::New(v)] + rest;
    if rest.len() == 0 {
        assert(all =~= seq![CredentialResult::New(v)]);
        assert(all.drop_last() =~= Seq::<CredentialResult>::empty());
    } else {
        assert(all.drop_last() =~= seq![CredentialResult::New(v)] + rest.drop_last());
        assert(rest[rest.len() - 1] is NotModified);
        assert(all.last() == rest.last());
        lemma_new_value_sticks(auth, v, rest.drop_last());
    }
}

} // verus!
