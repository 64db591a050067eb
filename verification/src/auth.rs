//! Passwordless login: who may ask for a login link, what the link is, and
//! the session cookie that a verified link earns.
use vstd::prelude::*;
use vstd::string::*;

use crate::error::{is_single_validation, ApiError};
use crate::text::{chars_of, contains_white_space, has_white_space, is_white_space, trim, trimmed};

verus! {

pub const MAGIC_LINK_TTL_MINUTES: i64 = 15;
pub const SESSION_COOKIE: &'static str = "session";

/// A request for a login link.
#[derive(Debug, Clone)]
pub struct MagicLinkRequest {
    pub email: String,
}

/// A login link's token, presented for verification.
#[derive(Debug, Clone)]
pub struct VerifyRequest {
    pub token: String,
}

/// The position of the first `@` at or after position `i`.
pub open spec fn first_at_sign(s: Seq<char>, i: int) -> Option<int>
    decreases s.len() - i,
{
    if i < 0 || i >= s.len() {
        None
    } else if s[i] == '@' {
        Some(i)
    } else {
        first_at_sign(s, i + 1)
    }
}

/// Deliberately minimal: something before the first `@`, a dot in what
/// follows but not at its start or end, and no white space once trimmed.
pub open spec fn plausible_email(email: Seq<char>) -> bool {
    let t = trimmed(email);
    match first_at_sign(t, 0) {
        Some(i) => {
            let local = t.take(i);
            let domain = t.skip(i + 1);
            &&& local.len() > 0
            &&& domain.contains('.')
            &&& domain[0] != '.'
            &&& domain.last() != '.'
            &&& !has_white_space(t)
        },
        None => false,
    }
}

proof fn lemma_first_at_sign_bounds(s: Seq<char>, i: int)
    ensures
        first_at_sign(s, i) matches Some(p) ==> i <= p < s.len() && s[p] == '@' && (forall|k: int|
            i <= k < p ==> s[k] != '@'),
    decreases s.len() - i,
{
    if 0 <= i < s.len() && s[i] != '@' {
        lemma_first_at_sign_bounds(s, i + 1);
    }
}

proof fn lemma_first_at_sign_is(s: Seq<char>, i: int, p: int)
    requires
        0 <= i <= p < s.len(),
        s[p] == '@',
        forall|k: int| i <= k < p ==> s[k] != '@',
    ensures
        first_at_sign(s, i) == Some(p),
    decreases p - i,
{
    if i < p {
        lemma_first_at_sign_is(s, i + 1, p);
    }
}

/// What makes an address plausible, read off its shape. Split the trimmed
/// address at its first `@` into the part before and the domain after: it is
/// plausible exactly when the part before is not empty, whatever characters
/// (dots included) it holds, the domain holds a dot that is neither its first
/// nor its last character, and the address holds no white space. An address
/// with no `@` at all is never plausible.
pub proof fn lemma_plausible_email_by_shape(email: Seq<char>, local: Seq<char>, domain: Seq<char>)
    ensures
        trimmed(email) == local + seq!['@'] + domain && !local.contains('@') ==> (plausible_email(
            email,
        ) <==> (local.len() > 0 && domain.contains('.') && domain[0] != '.' && domain.last()
            != '.' && forall|k: int|
            0 <= k < trimmed(email).len() ==> !is_white_space(#[trigger] trimmed(email)[k]))),
        !trimmed(email).contains('@') ==> !plausible_email(email),
{
    let t = trimmed(email);
    if t == local + seq!['@'] + domain && !local.contains('@') {
        let p = local.len() as int;
        assert(t[p] == '@');
        assert forall|k: int| 0 <= k < p implies t[k] != '@' by {
            assert(t[k] == local[k]);
        }
        lemma_first_at_sign_is(t, 0, p);
        assert(t.take(p) =~= local);
        assert(t.skip(p + 1) =~= domain);
    }
    if !t.contains('@') {
        lemma_first_at_sign_bounds(t, 0);
    }
}

/// A full RFC 5322 parser would reject valid addresses and accept unusable
/// ones. Deliverability is proven by the link itself.
pub fn is_plausible_email(email: &str) -> (r: bool)
    ensures
        r == plausible_email(email@),
{
    let t = trim(email);
    let cs = chars_of(t.as_str());
    let ghost tv = t@;
    let n = cs.len();
    let mut i: usize = 0;
    while i < n && cs[i] != '@'
        invariant
            i <= n,
            n == tv.len(),
            cs@ == tv,
            first_at_sign(tv, 0) == first_at_sign(tv, i as int),
        decreases n - i,
    {
        i = i + 1;
    }
    if i == n {
        return false;
    }
    proof {
        lemma_first_at_sign_bounds(tv, 0);
    }
    let ghost domain = tv.skip(i + 1);
    if i == 0 {
        return false;
    }
    let mut has_dot = false;
    let mut k: usize = i + 1;
    while k < n
        invariant
            i < k <= n,
            n == tv.len(),
            cs@ == tv,
            domain == tv.skip(i + 1),
            has_dot == domain.take(k - i - 1).contains('.'),
        decreases n - k,
    {
        assert(domain.take(k - i) =~= domain.take(k - i - 1).push(cs@[k as int]));
        proof {
            vstd::seq_lib::lemma_seq_contains_after_push(domain.take(k - i - 1), cs@[k as int], '.');
        }
        if cs[k] == '.' {
            has_dot = true;
        }
        k = k + 1;
    }
    assert(domain.take(n - i - 1) =~= domain);
    if !has_dot {
        return false;
    }
    if cs[i + 1] == '.' || cs[n - 1] == '.' {
        return false;
    }
    !contains_white_space(t.as_str())
}

/// The first check of a login-link request: the address must be plausible.
pub fn check_login_email(email: &str) -> (r: Result<(), ApiError>)
    ensures
        match r {
            Ok(()) => plausible_email(email@),
            Err(e) => !plausible_email(email@) && is_single_validation(
                e,
                "email"@,
                "must be a valid email address"@,
            ),
        },
{
    if is_plausible_email(email) {
        Ok(())
    } else {
        Err(ApiError::invalid_field("email", "must be a valid email address"))
    }
}

/// The link mailed to a user: the site's base address, the verify path, and the token.
pub fn login_link(base_url: &str, token: &str) -> (r: String)
    ensures
        r@ == base_url@ + "/verify?token="@ + token@,
{
    let mut link = String::from_str(base_url);
    link.append("/verify?token=");
    link.append(token);
    link
}

/// The attributes of a cookie to set or remove; `max_age_days` is absent
/// when the cookie carries no lifetime of its own.
#[derive(Debug, Clone)]
pub struct SessionCookie {
    pub name: &'static str,
    pub value: String,
    pub http_only: bool,
    pub same_site_lax: bool,
    pub secure: bool,
    pub path: &'static str,
    pub max_age_days: Option<i64>,
}

/// The session cookie: HTTP-only, same-site lax, for the whole site.
pub fn session_cookie(token: String, secure: bool, max_age_days: i64) -> (c: SessionCookie)
    ensures
        c.name@ == "session"@,
        c.value == token,
        c.http_only,
        c.same_site_lax,
        c.secure == secure,
        c.path@ == "/"@,
        c.max_age_days == Some(max_age_days),
{
    SessionCookie {
        name: SESSION_COOKIE,
        value: token,
        http_only: true,
        same_site_lax: true,
        secure,
        path: "/",
        max_age_days: Some(max_age_days),
    }
}

/// The cookie that removes the session. It must carry the same path as the
/// one that was set, or the browser treats it as a different cookie and
/// keeps the one it has.
pub fn removal_cookie() -> (c: SessionCookie)
    ensures
        c.name@ == "session"@,
        c.value@.len() == 0,
        c.path@ == "/"@,
        !c.http_only,
        !c.same_site_lax,
        !c.secure,
        c.max_age_days is None,
{
    proof {
        reveal_strlit("");
    }
    SessionCookie {
        name: SESSION_COOKIE,
        value: String::from_str(""),
        http_only: false,
        same_site_lax: false,
        secure: false,
        path: "/",
        max_age_days: None,
    }
}

} // verus!
