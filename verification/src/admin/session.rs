//! The admin session: the password check at login, the session cookie that
//! login sets, and the check of the cookie on every protected request.

use vstd::prelude::*;
use vstd::string::*;
use vstd::utf8::*;
use crate::text::{
    chars_of, first_index_of, is_white_space, lemma_first_index_of, range_equals, scan_for,
    trim_end_spec, trim_range, trim_spec, trim_start_spec,
};
use crate::crypto::{
    bytes_equal_constant_time, is_url_safe_base64_char, sha256, sha256_of_text,
    text_equal_constant_time,
};
use crate::admin::pages::{login_html, login_html_spec};

verus! {

/// The name of the admin session cookie.
pub const ADMIN_COOKIE_NAME: &'static str = "time_tracker_admin";

/// The name and value of one `;`-separated piece of a `Cookie` header: the
/// piece is trimmed and split at its first `=`; a piece without `=` holds no
/// cookie.
pub open spec fn cookie_pair(piece: Seq<char>) -> Option<(Seq<char>, Seq<char>)> {
    let t = trim_spec(piece);
    let k = first_index_of(t, '=') as int;
    if k < t.len() {
        Some((t.subrange(0, k), t.subrange(k + 1, t.len() as int)))
    } else {
        None
    }
}

/// The value of the first cookie named `name` in the `Cookie` header text
/// `header`, whose pieces are separated by `;`.
pub open spec fn find_cookie(header: Seq<char>, name: Seq<char>) -> Option<Seq<char>>
    decreases header.len(),
{
    let k = first_index_of(header, ';') as int;
    let piece = header.subrange(0, k);
    let here = match cookie_pair(piece) {
        Some(p) => if p.0 == name {
            Some(p.1)
        } else {
            None
        },
        None => None,
    };
    if here is Some {
        here
    } else if k < header.len() {
        find_cookie(header.subrange(k + 1, header.len() as int), name)
    } else {
        None
    }
}

/// The value of the first cookie named `name` in the header text `header`.
pub fn find_cookie_value<'a>(header: &'a str, name: &str) -> (r: Option<&'a str>)
    ensures
        match r {
            Some(v) => find_cookie(header@, name@) == Some(v@),
            None => find_cookie(header@, name@) is None,
        },
{
    let v = chars_of(header);
    let nm = chars_of(name);
    let n = v.len();
    let mut start: usize = 0;
    proof {
        assert(v@.subrange(0, n as int) =~= v@);
    }
    loop
        invariant
            start <= n == v@.len(),
            v@ == header@,
            nm@ == name@,
            find_cookie(header@, name@) == find_cookie(v@.subrange(start as int, n as int), name@),
        decreases n - start,
    {
        let ghost h = v@.subrange(start as int, n as int);
        let k = scan_for(&v, start, n, ';');
        let (a, b) = trim_range(&v, start, k);
        let e = scan_for(&v, a, b, '=');
        proof {
            let piece = h.subrange(0, k - start);
            assert(piece =~= v@.subrange(start as int, k as int));
            let t = trim_spec(piece);
            assert(t == v@.subrange(a as int, b as int));
            if e < b {
                assert(t.subrange(0, e - a) =~= v@.subrange(a as int, e as int));
                assert(t.subrange(e - a + 1, t.len() as int) =~= v@.subrange(e + 1, b as int));
            }
            if k < n {
                assert(h.subrange(k - start + 1, h.len() as int) =~= v@.subrange(k + 1, n as int));
            }
        }
        if e < b && range_equals(&v, a, e, &nm) {
            return Some(header.substring_char(e + 1, b));
        }
        if k == n {
            return None;
        }
        start = k + 1;
    }
}

/// Whether the `Cookie` header text (absent when the request has none, or when
/// it is not visible ASCII) holds the admin cookie with exactly the value
/// `expected`. The value is compared in constant time.
pub fn has_valid_admin_cookie(cookie_header: Option<&str>, expected: &str) -> (r: bool)
    ensures
        r == match cookie_header {
            Some(h) => find_cookie(h@, ADMIN_COOKIE_NAME@) == Some(expected@),
            None => false,
        },
{
    match cookie_header {
        None => false,
        Some(h) => match find_cookie_value(h, ADMIN_COOKIE_NAME) {
            None => false,
            Some(value) => {
                if value.len() != expected.len() {
                    proof {
                        if value@ == expected@ {
                            assert(value.spec_bytes() == expected.spec_bytes());
                        }
                    }
                    false
                } else {
                    text_equal_constant_time(value, expected)
                }
            },
        },
    }
}

/// The cookie that the browser sends back after login is accepted: a header
/// `time_tracker_admin=<token>` carries `<token>` as the admin cookie, for any
/// token written in the URL-safe base64 alphabet, which is what
/// `generate_auth_token` yields.
pub proof fn lemma_session_cookie_read_back(token: Seq<char>)
    requires
        forall|i: int| 0 <= i < token.len() ==> is_url_safe_base64_char(#[trigger] token[i]),
    ensures
        find_cookie(ADMIN_COOKIE_NAME@ + seq!['='] + token, ADMIN_COOKIE_NAME@) == Some(token),
{
    reveal_strlit("time_tracker_admin");
    broadcast use vstd::string::group_string_axioms;
    let name = ADMIN_COOKIE_NAME@;
    let header = name + seq!['='] + token;
    assert(name.len() == 18);
    assert(header.len() == 19 + token.len());
    assert forall|j: int| 0 <= j < header.len() implies header[j] != ';' by {
        if j >= 19 {
            assert(header[j] == token[j - 19]);
        }
    }
    lemma_first_index_of(header, ';', header.len() as int);
    assert(header.subrange(0, header.len() as int) =~= header);
    assert(!is_white_space(header[0]));
    assert(trim_start_spec(header) == header);
    assert(!is_white_space(header.last())) by {
        if token.len() > 0 {
            assert(header.last() == token[token.len() - 1]);
        }
    }
    assert(trim_end_spec(header) == header);
    assert forall|j: int| 0 <= j < 18 implies header[j] != '=' by {
        assert(header[j] == name[j]);
    }
    lemma_first_index_of(header, '=', 18);
    assert(header.subrange(0, 18) =~= name);
    assert(header.subrange(19, header.len() as int) =~= token);
}

/// A piece without the admin cookie before a `;` is passed over: a browser
/// that sends other cookies first, `a=b; time_tracker_admin=<token>`, is
/// recognised by the cookie after them. The space that browsers put after
/// the `;` is trimmed away.
pub proof fn lemma_other_cookies_are_passed_over(first: Seq<char>, token: Seq<char>)
    requires
        forall|i: int| 0 <= i < first.len() ==> #[trigger] first[i] != ';',
        !(cookie_pair(first) matches Some(p) && p.0 == ADMIN_COOKIE_NAME@),
        forall|i: int| 0 <= i < token.len() ==> is_url_safe_base64_char(#[trigger] token[i]),
    ensures
        find_cookie(first + seq![';', ' '] + ADMIN_COOKIE_NAME@ + seq!['='] + token, ADMIN_COOKIE_NAME@)
            == Some(token),
{
    let rest = ADMIN_COOKIE_NAME@ + seq!['='] + token;
    let h = first + seq![';', ' '] + ADMIN_COOKIE_NAME@ + seq!['='] + token;
    assert(h =~= first + (seq![';'] + (seq![' '] + rest)));
    assert forall|j: int| 0 <= j < first.len() implies h[j] != ';' by {
        assert(h[j] == first[j]);
    }
    assert(h[first.len() as int] == ';');
    lemma_first_index_of(h, ';', first.len() as int);
    assert(h.subrange(0, first.len() as int) =~= first);
    let tail = h.subrange(first.len() as int + 1, h.len() as int);
    assert(tail =~= seq![' '] + rest);
    lemma_session_cookie_read_back(token);
    lemma_leading_space_is_trimmed(rest, token);
}

proof fn lemma_leading_space_is_trimmed(rest: Seq<char>, token: Seq<char>)
    requires
        rest == ADMIN_COOKIE_NAME@ + seq!['='] + token,
        find_cookie(rest, ADMIN_COOKIE_NAME@) == Some(token),
        forall|i: int| 0 <= i < token.len() ==> is_url_safe_base64_char(#[trigger] token[i]),
    ensures
        find_cookie(seq![' '] + rest, ADMIN_COOKIE_NAME@) == Some(token),
{
    reveal_strlit("time_tracker_admin");
    broadcast use vstd::string::group_string_axioms;
    let h = seq![' '] + rest;
    assert forall|j: int| 0 <= j < h.len() implies h[j] != ';' by {
        if j >= 20 {
            assert(h[j] == token[j - 20]);
        }
    }
    lemma_first_index_of(h, ';', h.len() as int);
    assert forall|j: int| 0 <= j < rest.len() implies rest[j] != ';' by {
        assert(rest[j] == h[j + 1]);
    }
    lemma_first_index_of(rest, ';', rest.len() as int);
    assert(h.subrange(0, h.len() as int) =~= h);
    assert(rest.subrange(0, rest.len() as int) =~= rest);
    assert(is_white_space(h[0]));
    assert(h.drop_first() =~= rest);
    assert(trim_start_spec(h) == trim_start_spec(rest));
}

/// Logging out ends the session: the emptied cookie that logout leaves
/// carries the empty value, which is no session token that
/// `generate_auth_token` makes (those are 43 characters long).
pub proof fn lemma_logged_out_cookie_is_refused(token: Seq<char>)
    requires
        token.len() > 0,
    ensures
        find_cookie(ADMIN_COOKIE_NAME@ + seq!['='], ADMIN_COOKIE_NAME@) == Some(Seq::<char>::empty()),
        find_cookie(ADMIN_COOKIE_NAME@ + seq!['='], ADMIN_COOKIE_NAME@) != Some(token),
{
    lemma_session_cookie_read_back(Seq::empty());
    assert(ADMIN_COOKIE_NAME@ + seq!['='] + Seq::<char>::empty() =~= ADMIN_COOKIE_NAME@ + seq!['=']);
}

/// The `Set-Cookie` value that starts an admin session carrying `token`.
pub open spec fn session_cookie_spec(token: Seq<char>) -> Seq<char> {
    ADMIN_COOKIE_NAME@ + "="@ + token + "; Path=/admin; HttpOnly; SameSite=Strict"@
}

/// The `Set-Cookie` value that starts an admin session carrying `token`.
pub fn session_cookie(token: &str) -> (c: String)
    ensures
        c@ == session_cookie_spec(token@),
{
    let mut c = String::from_str(ADMIN_COOKIE_NAME);
    c.append("=");
    c.append(token);
    c.append("; Path=/admin; HttpOnly; SameSite=Strict");
    c
}

/// The `Set-Cookie` value that ends the admin session: the cookie emptied and
/// expired at once.
pub fn logout_cookie() -> (c: &'static str)
    ensures
        c@ == "time_tracker_admin=; Path=/admin; HttpOnly; SameSite=Strict; Max-Age=0"@,
{
    "time_tracker_admin=; Path=/admin; HttpOnly; SameSite=Strict; Max-Age=0"
}

/// What the admin login checks against: the SHA-256 digest of the configured
/// password, and the token of the one admin session.
pub struct AdminAuthState {
    pub password_hash: [u8; 32],
    pub session_token: String,
}

impl AdminAuthState {
    /// The state for the configured admin password and a session token.
    pub fn new(admin_password: &str, session_token: String) -> (s: Self)
        ensures
            s.password_hash@ == sha256(encode_utf8(admin_password@)),
            s.session_token@ == session_token@,
    {
        AdminAuthState { password_hash: sha256_of_text(admin_password), session_token }
    }
}

/// Whether a login with `password` passes against the stored digest.
pub open spec fn password_accepted(password_hash: Seq<u8>, password: Seq<char>) -> bool {
    sha256(encode_utf8(password)) == password_hash
}

/// The configured password is accepted at login.
pub proof fn lemma_configured_password_accepted(admin_password: Seq<char>)
    ensures
        password_accepted(sha256(encode_utf8(admin_password)), admin_password),
{
}

/// The answer to a login attempt.
pub enum LoginReply {
    /// Wrong password: the status code and the login page with the error.
    Rejected { status: u16, html: String },
    /// Right password: where to go, and the cookie that starts the session.
    Accepted { location: String, set_cookie: String },
}

/// Checks the password of a login attempt against the stored digest (in
/// constant time). A right password leads to the device list with the
/// session cookie set; a wrong one gets 401 and the login page saying so.
pub fn login(auth: &AdminAuthState, password: &str) -> (r: LoginReply)
    ensures
        match r {
            LoginReply::Accepted { location, set_cookie } => {
                &&& password_accepted(auth.password_hash@, password@)
                &&& location@ == "/admin/devices"@
                &&& set_cookie@ == session_cookie_spec(auth.session_token@)
            },
            LoginReply::Rejected { status, html } => {
                &&& !password_accepted(auth.password_hash@, password@)
                &&& status == 401
                &&& html@ == login_html_spec(Some("Incorrect password"@))
            },
        },
{
    let supplied = sha256_of_text(password);
    if !bytes_equal_constant_time(&supplied, &auth.password_hash) {
        return LoginReply::Rejected { status: 401, html: login_html(Some("Incorrect password")) };
    }
    LoginReply::Accepted {
        location: String::from_str("/admin/devices"),
        set_cookie: session_cookie(auth.session_token.as_str()),
    }
}

/// What the admin gate does with a request to a protected page.
pub enum AdminGate {
    /// The session cookie is there: the page is served.
    Allow,
    /// No session cookie: the request is sent to the login page and no page
    /// handler runs.
    RedirectToLogin { location: String },
}

/// Decides a request for an admin page other than the login page: with the
/// admin cookie carrying the session token it passes; without, it goes to
/// `/admin/login`.
pub fn admin_gate(cookie_header: Option<&str>, session_token: &str) -> (g: AdminGate)
    ensures
        match g {
            AdminGate::Allow => match cookie_header {
                Some(h) => find_cookie(h@, ADMIN_COOKIE_NAME@) == Some(session_token@),
                None => false,
            },
            AdminGate::RedirectToLogin { location } => {
                &&& location@ == "/admin/login"@
                &&& match cookie_header {
                    Some(h) => find_cookie(h@, ADMIN_COOKIE_NAME@) != Some(session_token@),
                    None => true,
                }
            },
        },
{
    if has_valid_admin_cookie(cookie_header, session_token) {
        AdminGate::Allow
    } else {
        AdminGate::RedirectToLogin { location: String::from_str("/admin/login") }
    }
}

} // verus!
