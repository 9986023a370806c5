//! The HTML of the admin dashboard: the page frame, the login page, and the
//! device and log pages. Every text that comes from the database or the
//! request is escaped.

use vstd::prelude::*;
use vstd::string::*;
use crate::model::{Log, PubDevice};
use crate::markup::{
    clean_end, concat_all, input_opening, lacks, lemma_concat_all_append, lemma_lacking_is_clean,
    lemma_piece_in_place, lemma_prefilled_field, lemma_runs_meet, lemma_triples_lie_in_pieces,
    piece_start,
    prefilled_with, triple_at,
};
use crate::text::{
    contains_text, decimal, decimal_digits, escape_html, lemma_decimal_is_inert,
    lemma_decimal_parses_back, lemma_escape_html_is_inert, lemma_unescape_escape, parse_i64_spec,
    push_decimal_i64, push_decimal_u64, push_escaped, trim_spec, unescape_html,
};

verus! {

/// The style sheet that every admin page carries.
pub const SHARED_STYLE: &'static str = r#"<style>
    :root{color-scheme:dark;font-family:Inter,ui-sans-serif,system-ui,sans-serif;background:#0b1120;color:#e5e7eb}
    *{box-sizing:border-box}body{margin:0;background:#0b1120;color:#e5e7eb}header{border-bottom:1px solid #263244;background:#111827}
    nav{max-width:1100px;margin:auto;padding:16px 24px;display:flex;align-items:center;justify-content:space-between}nav span{display:flex;align-items:center;gap:18px}nav form,.actions form{display:inline;margin:0}
    a,.link{color:#93c5fd;text-decoration:none}.link{border:0;background:none;padding:0;font:inherit;cursor:pointer}main{max-width:1100px;margin:36px auto;padding:0 24px}
    h1{margin:0 0 8px;font-size:28px}p{color:#9ca3af}.title-row{display:flex;justify-content:space-between;align-items:center;margin-bottom:24px}
    table{width:100%;border-collapse:collapse;background:#111827;border:1px solid #263244;border-radius:10px;overflow:hidden}th,td{padding:14px 16px;text-align:left;border-bottom:1px solid #263244}th{font-size:12px;text-transform:uppercase;letter-spacing:.06em;color:#9ca3af}tr:last-child td{border-bottom:0}
    .uuid{font-family:ui-monospace,monospace;color:#6b7280;font-size:12px;margin-top:4px}.status{display:inline-block;padding:4px 9px;border-radius:999px;font-size:12px;font-weight:700}.active{background:#064e3b;color:#a7f3d0}.pending{background:#78350f;color:#fde68a}
    .actions{display:flex;align-items:center;gap:12px}button{border:0;border-radius:7px;background:#2563eb;color:white;padding:9px 14px;font-weight:700;cursor:pointer}.secondary{background:#374151}button:hover{filter:brightness(1.12)}
    input{display:block;width:100%;margin-top:7px;padding:10px 12px;border:1px solid #374151;border-radius:7px;background:#0f172a;color:white}label{display:block;margin:18px 0;color:#d1d5db}
    .login{min-height:100vh;display:grid;place-items:center}.login main{margin:0}.login-card{width:min(420px,calc(100vw - 32px));padding:30px;background:#111827;border:1px solid #263244;border-radius:12px}.login-card button{width:100%;margin-top:4px}.error{color:#fca5a5;background:#450a0a;padding:10px 12px;border-radius:7px}
    </style>"#;

/// The style sheet that every admin page carries.
pub fn shared_style() -> (s: &'static str)
    ensures
        s@ == SHARED_STYLE@,
{
    SHARED_STYLE
}

/// `s` with `&`, `<`, `>` and `"` replaced by their HTML entities.
pub fn esc(s: &str) -> (r: String)
    ensures
        r@ == escape_html(s@),
{
    let mut r = String::new();
    push_escaped(&mut r, s);
    proof {
        assert(r@ =~= escape_html(s@));
    }
    r
}

/// The character view of an optional text.
pub open spec fn opt_view(o: Option<&str>) -> Option<Seq<char>> {
    match o {
        Some(s) => Some(s@),
        None => None,
    }
}

pub const PAGE_OPEN: &'static str = "<!doctype html><html><head><meta charset=\"utf-8\"><meta name=\"viewport\" content=\"width=device-width,initial-scale=1\"><title>";

pub const PAGE_TITLE_CLOSE: &'static str = "</title>";

pub const PAGE_NAV: &'static str = "</head><body><header><nav><strong>Time Tracker Admin</strong><span><a href=\"/admin/devices\">Devices</a><a href=\"/admin/logs\">Logs</a><form method=\"post\" action=\"/admin/logout\"><button class=\"link\" type=\"submit\">Log out</button></form></span></nav></header><main>";

pub const PAGE_CLOSE: &'static str = "</main></body></html>";

/// An admin page: the frame with the navigation bar around `body`, titled
/// with the escaped `title`.
pub open spec fn page_spec(title: Seq<char>, body: Seq<char>) -> Seq<char> {
    PAGE_OPEN@ + escape_html(title) + PAGE_TITLE_CLOSE@ + SHARED_STYLE@ + PAGE_NAV@ + body
        + PAGE_CLOSE@
}

/// An admin page with the given title and body.
pub fn page(title: &str, body: &str) -> (r: String)
    ensures
        r@ == page_spec(title@, body@),
{
    let mut out = String::from_str(PAGE_OPEN);
    push_escaped(&mut out, title);
    out.append(PAGE_TITLE_CLOSE);
    out.append(SHARED_STYLE);
    out.append(PAGE_NAV);
    out.append(body);
    out.append(PAGE_CLOSE);
    out
}

pub const LOGIN_OPEN: &'static str = "<!doctype html><html><head><meta charset=\"utf-8\"><meta name=\"viewport\" content=\"width=device-width,initial-scale=1\"><title>Admin login</title>";

pub const LOGIN_INTRO: &'static str = "</head><body class=\"login\"><main class=\"login-card\"><h1>Time Tracker Admin</h1><p>Sign in to approve registered devices.</p>";

pub const LOGIN_FORM: &'static str = "<form method=\"post\" action=\"/admin/login\"><label>Password<input name=\"password\" type=\"password\" autocomplete=\"current-password\" required autofocus></label><button type=\"submit\">Log in</button></form></main></body></html>";

/// The error paragraph of the login page: empty when there is no error.
pub open spec fn login_error_spec(error: Option<Seq<char>>) -> Seq<char> {
    match error {
        Some(m) => "<p class=\"error\">"@ + escape_html(m) + "</p>"@,
        None => Seq::empty(),
    }
}

/// The login page, with the escaped error message when there is one.
pub open spec fn login_html_spec(error: Option<Seq<char>>) -> Seq<char> {
    LOGIN_OPEN@ + SHARED_STYLE@ + LOGIN_INTRO@ + login_error_spec(error) + LOGIN_FORM@
}

/// The login page with an error is the page without one, with the error
/// paragraph `<p class="error">` + escaped message + `</p>` put right after
/// the introduction `<p>Sign in to approve registered devices.</p>`; the page
/// without an error holds nothing between the introduction and the form.
pub proof fn lemma_login_error_is_inserted(message: Seq<char>)
    ensures
        ({
            let head = LOGIN_OPEN@ + SHARED_STYLE@ + LOGIN_INTRO@;
            &&& login_html_spec(None) == head + LOGIN_FORM@
            &&& login_html_spec(Some(message)) == head + ("<p class=\"error\">"@ + escape_html(
                message,
            ) + "</p>"@) + LOGIN_FORM@
        }),
{
    assert(LOGIN_OPEN@ + SHARED_STYLE@ + LOGIN_INTRO@ + Seq::<char>::empty() =~= LOGIN_OPEN@
        + SHARED_STYLE@ + LOGIN_INTRO@);
}

/// Whether `s` holds, from index `i` on, a `<p` tag with attributes: `<`,
/// `p` and a space in a row. The error paragraph starts so.
pub open spec fn opens_p_with_attributes(s: Seq<char>, i: int) -> bool {
    s[i] == '<' && s[i + 1] == 'p' && s[i + 2] == ' '
}

/// None of the fixed pieces of the login page opens a `<p` tag with
/// attributes, and none but the last ends in the middle of one. Verus learns
/// what a string literal holds from `reveal_strlit` applied to the same
/// literal, so the pieces, the style sheet among them, are written out again.
#[verifier::spinoff_prover]
proof fn lemma_login_pieces_open_no_p_with_attributes()
    ensures
        forall|i: int|
            0 <= i < LOGIN_OPEN@.len() - 2 ==> !#[trigger] opens_p_with_attributes(LOGIN_OPEN@, i),
        forall|i: int|
            0 <= i < SHARED_STYLE@.len() - 2 ==> !#[trigger] opens_p_with_attributes(
                SHARED_STYLE@,
                i,
            ),
        forall|i: int|
            0 <= i < LOGIN_INTRO@.len() - 2 ==> !#[trigger] opens_p_with_attributes(LOGIN_INTRO@, i),
        forall|i: int|
            0 <= i < LOGIN_FORM@.len() - 2 ==> !#[trigger] opens_p_with_attributes(LOGIN_FORM@, i),
        LOGIN_OPEN@.len() > 2,
        SHARED_STYLE@.len() > 2,
        LOGIN_INTRO@.len() > 2,
        LOGIN_OPEN@.last() == '>',
        SHARED_STYLE@.last() == '>',
        LOGIN_INTRO@.last() == '>',
        LOGIN_OPEN@[LOGIN_OPEN@.len() - 2] != '<',
        SHARED_STYLE@[SHARED_STYLE@.len() - 2] != '<',
        LOGIN_INTRO@[LOGIN_INTRO@.len() - 2] != '<',
{
    reveal_strlit("<!doctype html><html><head><meta charset=\"utf-8\"><meta name=\"viewport\" content=\"width=device-width,initial-scale=1\"><title>Admin login</title>");
    reveal_strlit(r#"<style>
    :root{color-scheme:dark;font-family:Inter,ui-sans-serif,system-ui,sans-serif;background:#0b1120;color:#e5e7eb}
    *{box-sizing:border-box}body{margin:0;background:#0b1120;color:#e5e7eb}header{border-bottom:1px solid #263244;background:#111827}
    nav{max-width:1100px;margin:auto;padding:16px 24px;display:flex;align-items:center;justify-content:space-between}nav span{display:flex;align-items:center;gap:18px}nav form,.actions form{display:inline;margin:0}
    a,.link{color:#93c5fd;text-decoration:none}.link{border:0;background:none;padding:0;font:inherit;cursor:pointer}main{max-width:1100px;margin:36px auto;padding:0 24px}
    h1{margin:0 0 8px;font-size:28px}p{color:#9ca3af}.title-row{display:flex;justify-content:space-between;align-items:center;margin-bottom:24px}
    table{width:100%;border-collapse:collapse;background:#111827;border:1px solid #263244;border-radius:10px;overflow:hidden}th,td{padding:14px 16px;text-align:left;border-bottom:1px solid #263244}th{font-size:12px;text-transform:uppercase;letter-spacing:.06em;color:#9ca3af}tr:last-child td{border-bottom:0}
    .uuid{font-family:ui-monospace,monospace;color:#6b7280;font-size:12px;margin-top:4px}.status{display:inline-block;padding:4px 9px;border-radius:999px;font-size:12px;font-weight:700}.active{background:#064e3b;color:#a7f3d0}.pending{background:#78350f;color:#fde68a}
    .actions{display:flex;align-items:center;gap:12px}button{border:0;border-radius:7px;background:#2563eb;color:white;padding:9px 14px;font-weight:700;cursor:pointer}.secondary{background:#374151}button:hover{filter:brightness(1.12)}
    input{display:block;width:100%;margin-top:7px;padding:10px 12px;border:1px solid #374151;border-radius:7px;background:#0f172a;color:white}label{display:block;margin:18px 0;color:#d1d5db}
    .login{min-height:100vh;display:grid;place-items:center}.login main{margin:0}.login-card{width:min(420px,calc(100vw - 32px));padding:30px;background:#111827;border:1px solid #263244;border-radius:12px}.login-card button{width:100%;margin-top:4px}.error{color:#fca5a5;background:#450a0a;padding:10px 12px;border-radius:7px}
    </style>"#);
    reveal_strlit("</head><body class=\"login\"><main class=\"login-card\"><h1>Time Tracker Admin</h1><p>Sign in to approve registered devices.</p>");
    reveal_strlit("<form method=\"post\" action=\"/admin/login\"><label>Password<input name=\"password\" type=\"password\" autocomplete=\"current-password\" required autofocus></label><button type=\"submit\">Log in</button></form></main></body></html>");
    broadcast use vstd::string::group_string_axioms;
}

/// The login page without an error holds no error paragraph: the opening
/// `<p class="error">` occurs nowhere in it.
pub proof fn lemma_login_without_error_has_no_error_paragraph()
    ensures
        !contains_text(login_html_spec(None), "<p class=\"error\">"@),
{
    lemma_login_pieces_open_no_p_with_attributes();
    reveal_strlit("<p class=\"error\">");
    broadcast use vstd::string::group_string_axioms;
    let (a, b, c, d) = (LOGIN_OPEN@, SHARED_STYLE@, LOGIN_INTRO@, LOGIN_FORM@);
    let page = login_html_spec(None);
    let opening = "<p class=\"error\">"@;
    assert(page =~= a + b + c + d);
    if contains_text(page, opening) {
        let k = choose|k: int|
            0 <= k && k + opening.len() <= page.len() && #[trigger] page.subrange(
                k,
                k + opening.len(),
            ) == opening;
        let found = page.subrange(k, k + opening.len());
        assert(found[0] == page[k] && found[1] == page[k + 1] && found[2] == page[k + 2]);
        assert(opens_p_with_attributes(page, k));
        let end_a = a.len() as int;
        let end_b = end_a + b.len();
        let end_c = end_b + c.len();
        if k < end_a - 2 {
            assert(opens_p_with_attributes(a, k));
        } else if k < end_b - 2 {
            if k >= end_a {
                assert(opens_p_with_attributes(b, k - end_a));
            }
        } else if k < end_c - 2 {
            if k >= end_b {
                assert(opens_p_with_attributes(c, k - end_b));
            }
        } else if k >= end_c {
            assert(opens_p_with_attributes(d, k - end_c));
        }
    }
}

/// The login page, showing `error` when there is one.
pub fn login_html(error: Option<&str>) -> (r: String)
    ensures
        r@ == login_html_spec(opt_view(error)),
{
    let note = match error {
        Some(message) => {
            let mut note = String::from_str("<p class=\"error\">");
            push_escaped(&mut note, message);
            note.append("</p>");
            note
        },
        None => String::new(),
    };
    let mut out = String::from_str(LOGIN_OPEN);
    out.append(SHARED_STYLE);
    out.append(LOGIN_INTRO);
    out.append(note.as_str());
    out.append(LOGIN_FORM);
    out
}


// ---------------------------------------------------------------------------
// Devices
// ---------------------------------------------------------------------------

pub const STATUS_ACTIVE: &'static str = "<span class=\"status active\">Active</span>";

pub const STATUS_PENDING: &'static str = "<span class=\"status pending\">Waiting for approval</span>";

pub const DEVICE_ACTION_OPEN: &'static str = "<form method=\"post\" action=\"/admin/devices/";

pub const DEVICE_DEACTIVATE_TAIL: &'static str = "/deactivate\"><button class=\"secondary\" type=\"submit\">Deactivate</button></form>";

pub const DEVICE_ACTIVATE_TAIL: &'static str = "/activate\"><button type=\"submit\">Activate</button></form>";

/// One row of the device table: name and identifier, approval status, last
/// synchronised log id, the button that flips the approval, and the link to
/// the device's page.
pub open spec fn device_row_spec(d: PubDevice) -> Seq<char> {
    "<tr><td><strong>"@ + escape_html(d.name@) + "</strong><div class=\"uuid\">"@ + escape_html(
        d.uuid@,
    ) + "</div></td><td>"@ + (if d.is_active {
        STATUS_ACTIVE@
    } else {
        STATUS_PENDING@
    }) + "</td><td>"@ + decimal(d.last_sync_id as int) + "</td><td class=\"actions\">"@
        + DEVICE_ACTION_OPEN@ + escape_html(d.uuid@) + (if d.is_active {
        DEVICE_DEACTIVATE_TAIL@
    } else {
        DEVICE_ACTIVATE_TAIL@
    }) + "<a href=\"/admin/devices/"@ + escape_html(d.uuid@) + "\">Manage</a></td></tr>"@
}

/// The rows of the device table, one per device, in order.
pub open spec fn device_rows_spec(ds: Seq<PubDevice>) -> Seq<char>
    decreases ds.len(),
{
    if ds.len() == 0 {
        Seq::empty()
    } else {
        device_rows_spec(ds.drop_last()) + device_row_spec(ds.last())
    }
}

/// How many of the devices wait for approval.
pub open spec fn pending_count(ds: Seq<PubDevice>) -> nat
    decreases ds.len(),
{
    if ds.len() == 0 {
        0
    } else {
        pending_count(ds.drop_last()) + if ds.last().is_active {
            0nat
        } else {
            1nat
        }
    }
}

pub const DEVICES_TABLE_HEAD: &'static str = " total</p></div></div><table><tr><th>Device</th><th>Status</th><th>Last sync ID</th><th>Actions</th></tr>";

/// The body of the device list: the counts of waiting and all devices, and
/// the table.
pub open spec fn devices_body_spec(ds: Seq<PubDevice>) -> Seq<char> {
    "<div class=\"title-row\"><div><h1>Device approvals</h1><p>"@ + decimal_digits(pending_count(ds))
        + " waiting · "@ + decimal_digits(ds.len()) + DEVICES_TABLE_HEAD@ + device_rows_spec(ds)
        + "</table>"@
}

/// One row of the device table.
pub fn device_row(d: &PubDevice) -> (r: String)
    ensures
        r@ == device_row_spec(*d),
{
    let mut out = String::from_str("<tr><td><strong>");
    push_escaped(&mut out, d.name.as_str());
    out.append("</strong><div class=\"uuid\">");
    push_escaped(&mut out, d.uuid.as_str());
    out.append("</div></td><td>");
    out.append(
        if d.is_active {
            STATUS_ACTIVE
        } else {
            STATUS_PENDING
        },
    );
    out.append("</td><td>");
    push_decimal_i64(&mut out, d.last_sync_id);
    out.append("</td><td class=\"actions\">");
    out.append(DEVICE_ACTION_OPEN);
    push_escaped(&mut out, d.uuid.as_str());
    out.append(
        if d.is_active {
            DEVICE_DEACTIVATE_TAIL
        } else {
            DEVICE_ACTIVATE_TAIL
        },
    );
    out.append("<a href=\"/admin/devices/");
    push_escaped(&mut out, d.uuid.as_str());
    out.append("\">Manage</a></td></tr>");
    out
}

/// The pieces of a device's row, in order: fixed markup, and the escaped
/// name and identifier, the status badge and the last synchronised id.
pub open spec fn device_row_pieces(d: PubDevice) -> Seq<Seq<char>> {
    seq![
        "<tr><td><strong>"@,
        escape_html(d.name@),
        "</strong><div class=\"uuid\">"@,
        escape_html(d.uuid@),
        "</div></td><td>"@,
        if d.is_active {
            STATUS_ACTIVE@
        } else {
            STATUS_PENDING@
        },
        "</td><td>"@,
        decimal(d.last_sync_id as int),
        "</td><td class=\"actions\">"@,
        DEVICE_ACTION_OPEN@,
        escape_html(d.uuid@),
        if d.is_active {
            DEVICE_DEACTIVATE_TAIL@
        } else {
            DEVICE_ACTIVATE_TAIL@
        },
        "<a href=\"/admin/devices/"@,
        escape_html(d.uuid@),
        "\">Manage</a></td></tr>"@,
    ]
}

#[verifier::spinoff_prover]
proof fn lemma_device_row_is_its_pieces(d: PubDevice)
    ensures
        concat_all(device_row_pieces(d)) == device_row_spec(d),
{
    reveal_with_fuel(concat_all, 16);
    assert(concat_all(device_row_pieces(d)) =~= device_row_spec(d));
}

/// In a device's row, `<sp` opens the status badge and nothing else: no
/// piece ends in its beginning, and only the badge, at its start, holds it.
#[verifier::spinoff_prover]
proof fn lemma_device_row_pieces_open_one_span(d: PubDevice)
    ensures
        ({
            let ps = device_row_pieces(d);
            let t = ('<', 's', 'p');
            &&& ps.len() == 15
            &&& forall|i: int| 0 <= i < ps.len() ==> clean_end(#[trigger] ps[i], t)
            &&& forall|i: int, j: int| 0 <= i < ps.len() && #[trigger] triple_at(ps[i], j, t) ==> i
                == 5 && j == 0
        }),
        STATUS_ACTIVE@.len() > 20 && STATUS_ACTIVE@[20] == 'a',
        STATUS_PENDING@.len() > 20 && STATUS_PENDING@[20] == 'p',
        triple_at(STATUS_ACTIVE@, 0, ('<', 's', 'p')),
        triple_at(STATUS_PENDING@, 0, ('<', 's', 'p')),
{
    reveal_strlit("<tr><td><strong>");
    reveal_strlit("</strong><div class=\"uuid\">");
    reveal_strlit("</div></td><td>");
    reveal_strlit("<span class=\"status active\">Active</span>");
    reveal_strlit("<span class=\"status pending\">Waiting for approval</span>");
    reveal_strlit("</td><td>");
    reveal_strlit("</td><td class=\"actions\">");
    reveal_strlit("<form method=\"post\" action=\"/admin/devices/");
    reveal_strlit("/deactivate\"><button class=\"secondary\" type=\"submit\">Deactivate</button></form>");
    reveal_strlit("/activate\"><button type=\"submit\">Activate</button></form>");
    reveal_strlit("<a href=\"/admin/devices/");
    reveal_strlit("\">Manage</a></td></tr>");
    broadcast use vstd::string::group_string_axioms;
    let ps = device_row_pieces(d);
    let t = ('<', 's', 'p');
    lemma_escape_html_is_inert(d.name@);
    lemma_escape_html_is_inert(d.uuid@);
    lemma_decimal_is_inert(d.last_sync_id as int);
    lemma_lacking_is_clean(ps[1], t);
    lemma_lacking_is_clean(ps[3], t);
    lemma_lacking_is_clean(ps[7], t);
    assert forall|i: int, j: int| 0 <= i < ps.len() && #[trigger] triple_at(ps[i], j, t) implies i
        == 5 && j == 0 by {
        if i == 1 {
            assert(!triple_at(ps[1], j, t));
        } else if i == 3 || i == 10 || i == 13 {
            assert(!triple_at(ps[3], j, t));
        } else if i == 7 {
            assert(!triple_at(ps[7], j, t));
        }
    }
}

/// A device's row shows the badge `Active` exactly when the device is
/// approved, and the badge `Waiting for approval` exactly when it is not.
pub proof fn lemma_device_row_shows_its_status(d: PubDevice)
    ensures
        contains_text(device_row_spec(d), STATUS_ACTIVE@) <==> d.is_active,
        contains_text(device_row_spec(d), STATUS_PENDING@) <==> !d.is_active,
{
    let t = ('<', 's', 'p');
    let ps = device_row_pieces(d);
    let row = device_row_spec(d);
    lemma_device_row_is_its_pieces(d);
    lemma_device_row_pieces_open_one_span(d);
    let status = ps[5];
    let other = if d.is_active {
        STATUS_PENDING@
    } else {
        STATUS_ACTIVE@
    };
    lemma_piece_in_place(ps, 5);
    let at = piece_start(ps, 5);
    assert(row.subrange(at, at + status.len()) == status);
    assert(contains_text(row, status));
    if contains_text(row, other) {
        let k = choose|k: int|
            0 <= k && k + other.len() <= row.len() && #[trigger] row.subrange(k, k + other.len())
                == other;
        let found = row.subrange(k, k + other.len());
        assert(found[0] == row[k] && found[1] == row[k + 1] && found[2] == row[k + 2]);
        assert(triple_at(row, k, t));
        lemma_triples_lie_in_pieces(ps, t, k);
        let i = choose|i: int|
            0 <= i < ps.len() && #[trigger] triple_at(ps[i], k - piece_start(ps, i), t);
        assert(k == at);
        assert(found[20] == row[at + 20]);
        assert(row[at + 20] == status[20]);
    }
}

/// In a device's row, `<fo` opens the form that flips the approval and
/// nothing else.
#[verifier::spinoff_prover]
proof fn lemma_device_row_pieces_open_one_form(d: PubDevice)
    ensures
        ({
            let ps = device_row_pieces(d);
            let t = ('<', 'f', 'o');
            &&& ps.len() == 15
            &&& forall|i: int| 0 <= i < ps.len() ==> clean_end(#[trigger] ps[i], t)
            &&& forall|i: int, j: int| 0 <= i < ps.len() && #[trigger] triple_at(ps[i], j, t) ==> i
                == 9 && j == 0
        }),
        triple_at(DEVICE_ACTION_OPEN@, 0, ('<', 'f', 'o')),
        DEVICE_DEACTIVATE_TAIL@.len() > 1 && DEVICE_DEACTIVATE_TAIL@[1] == 'd',
        DEVICE_ACTIVATE_TAIL@.len() > 1 && DEVICE_ACTIVATE_TAIL@[1] == 'a',
        DEVICE_DEACTIVATE_TAIL@.subrange(0, 12) == "/deactivate\""@,
        DEVICE_ACTIVATE_TAIL@.subrange(0, 10) == "/activate\""@,
        "/deactivate\""@.len() == 12 && "/deactivate\""@[1] == 'd',
        "/activate\""@.len() == 10 && "/activate\""@[1] == 'a',
        device_row_pieces(d)[11].len() >= flip_action(d.is_active).len(),
        device_row_pieces(d)[11].subrange(0, flip_action(d.is_active).len() as int) == flip_action(
            d.is_active,
        ),
        flip_action(d.is_active)[1] != flip_action(!d.is_active)[1],
        flip_action(d.is_active).len() > 1 && flip_action(!d.is_active).len() > 1,
{
    reveal_strlit("<tr><td><strong>");
    reveal_strlit("</strong><div class=\"uuid\">");
    reveal_strlit("</div></td><td>");
    reveal_strlit("<span class=\"status active\">Active</span>");
    reveal_strlit("<span class=\"status pending\">Waiting for approval</span>");
    reveal_strlit("</td><td>");
    reveal_strlit("</td><td class=\"actions\">");
    reveal_strlit("<form method=\"post\" action=\"/admin/devices/");
    reveal_strlit("/deactivate\"><button class=\"secondary\" type=\"submit\">Deactivate</button></form>");
    reveal_strlit("/activate\"><button type=\"submit\">Activate</button></form>");
    reveal_strlit("<a href=\"/admin/devices/");
    reveal_strlit("\">Manage</a></td></tr>");
    reveal_strlit("/deactivate\"");
    reveal_strlit("/activate\"");
    broadcast use vstd::string::group_string_axioms;
    let ps = device_row_pieces(d);
    let t = ('<', 'f', 'o');
    lemma_escape_html_is_inert(d.name@);
    lemma_escape_html_is_inert(d.uuid@);
    lemma_decimal_is_inert(d.last_sync_id as int);
    lemma_lacking_is_clean(ps[1], t);
    lemma_lacking_is_clean(ps[3], t);
    lemma_lacking_is_clean(ps[7], t);
    assert(DEVICE_DEACTIVATE_TAIL@.subrange(0, 12) =~= "/deactivate\""@);
    assert(DEVICE_ACTIVATE_TAIL@.subrange(0, 10) =~= "/activate\""@);
    assert forall|i: int, j: int| 0 <= i < ps.len() && #[trigger] triple_at(ps[i], j, t) implies i
        == 9 && j == 0 by {
        if i == 1 {
            assert(!triple_at(ps[1], j, t));
        } else if i == 3 || i == 10 || i == 13 {
            assert(!triple_at(ps[3], j, t));
        } else if i == 7 {
            assert(!triple_at(ps[7], j, t));
        }
    }
}

/// The words of the action that flips a device's approval, and of the
/// other one.
spec fn flip_action(active: bool) -> Seq<char> {
    if active {
        "/deactivate\""@
    } else {
        "/activate\""@
    }
}

/// Where the approval form of a device's row starts, and what follows the
/// escaped identifier in it.
#[verifier::spinoff_prover]
proof fn lemma_device_row_action_in_place(d: PubDevice)
    ensures
        ({
            let ps = device_row_pieces(d);
            let row = device_row_spec(d);
            let head = DEVICE_ACTION_OPEN@ + escape_html(d.uuid@);
            let at = piece_start(ps, 9);
            &&& row == concat_all(ps)
            &&& at + head.len() + 1 < row.len()
            &&& row.subrange(at, at + head.len()) == head
            &&& row[at + head.len() + 1] == flip_action(d.is_active)[1]
            &&& contains_text(row, head + flip_action(d.is_active))
        }),
{
    let ps = device_row_pieces(d);
    let row = concat_all(ps);
    lemma_device_row_is_its_pieces(d);
    lemma_device_row_pieces_open_one_form(d);
    let head = DEVICE_ACTION_OPEN@ + escape_html(d.uuid@);
    let own = flip_action(d.is_active);
    lemma_piece_in_place(ps, 9);
    lemma_piece_in_place(ps, 10);
    lemma_piece_in_place(ps, 11);
    let at = piece_start(ps, 9);
    let mid = piece_start(ps, 10);
    let after = piece_start(ps, 11);
    lemma_runs_meet(row, at, mid, after, ps[9], ps[10]);
    assert(row.subrange(after, after + own.len()) =~= own) by {
        assert forall|y: int| 0 <= y < own.len() implies row.subrange(after, after + own.len())[y]
            == own[y] by {
            assert(row[after + y] == ps[11][y]);
            assert(ps[11].subrange(0, own.len() as int)[y] == ps[11][y]);
        }
    }
    lemma_runs_meet(row, at, after, after + own.len(), head, own);
    assert(row.subrange(at, at + (head + own).len()) == head + own);
    assert(row[after + 1] == ps[11][1]);
    assert(ps[11].subrange(0, own.len() as int)[1] == ps[11][1]);
}

/// The button in a device's row posts to the device's `deactivate` action
/// exactly when the device is approved, and to its `activate` action
/// exactly when it is not.
pub proof fn lemma_device_row_flips_the_approval(d: PubDevice)
    ensures
        contains_text(
            device_row_spec(d),
            DEVICE_ACTION_OPEN@ + escape_html(d.uuid@) + "/deactivate\""@,
        ) <==> d.is_active,
        contains_text(
            device_row_spec(d),
            DEVICE_ACTION_OPEN@ + escape_html(d.uuid@) + "/activate\""@,
        ) <==> !d.is_active,
{
    let t = ('<', 'f', 'o');
    let ps = device_row_pieces(d);
    let row = device_row_spec(d);
    lemma_device_row_pieces_open_one_form(d);
    lemma_device_row_action_in_place(d);
    let head = DEVICE_ACTION_OPEN@ + escape_html(d.uuid@);
    let at = piece_start(ps, 9);
    let wrong = head + flip_action(!d.is_active);
    if contains_text(row, wrong) {
        let k = choose|k: int|
            0 <= k && k + wrong.len() <= row.len() && #[trigger] row.subrange(k, k + wrong.len())
                == wrong;
        let found = row.subrange(k, k + wrong.len());
        assert(found[0] == row[k] && found[1] == row[k + 1] && found[2] == row[k + 2]);
        assert(wrong[0] == ps[9][0] && wrong[1] == ps[9][1] && wrong[2] == ps[9][2]);
        assert(triple_at(row, k, t));
        lemma_triples_lie_in_pieces(ps, t, k);
        let i = choose|i: int|
            0 <= i < ps.len() && #[trigger] triple_at(ps[i], k - piece_start(ps, i), t);
        assert(k == at);
        assert(found[head.len() as int + 1] == row[at + (head.len() + 1)]);
        assert(wrong[head.len() as int + 1] == flip_action(!d.is_active)[1]);
    }
}

/// The count of devices waiting for approval is the number of devices that
/// are not approved.
pub proof fn lemma_pending_count_counts_the_waiting(ds: Seq<PubDevice>)
    ensures
        pending_count(ds) == ds.filter(|d: PubDevice| !d.is_active).len(),
    decreases ds.len(),
{
    reveal(Seq::filter);
    if ds.len() > 0 {
        lemma_pending_count_counts_the_waiting(ds.drop_last());
    }
}

/// The device list opens with its counts: the number of devices waiting
/// for approval, then the number of all devices.
pub proof fn lemma_devices_page_counts(ds: Seq<PubDevice>)
    ensures
        ({
            let head = "<div class=\"title-row\"><div><h1>Device approvals</h1><p>"@ + decimal(
                ds.filter(|d: PubDevice| !d.is_active).len() as int,
            ) + " waiting · "@ + decimal(ds.len() as int) + " total</p>"@;
            &&& head.len() <= devices_body_spec(ds).len()
            &&& devices_body_spec(ds).subrange(0, head.len() as int) == head
        }),
{
    reveal_strlit(" total</p></div></div><table><tr><th>Device</th><th>Status</th><th>Last sync ID</th><th>Actions</th></tr>");
    reveal_strlit(" total</p>");
    broadcast use vstd::string::group_string_axioms;
    lemma_pending_count_counts_the_waiting(ds);
    let opening = "<div class=\"title-row\"><div><h1>Device approvals</h1><p>"@ + decimal(
        ds.filter(|d: PubDevice| !d.is_active).len() as int,
    ) + " waiting · "@ + decimal(ds.len() as int);
    let head = opening + " total</p>"@;
    let body = devices_body_spec(ds);
    let rest = DEVICES_TABLE_HEAD@ + device_rows_spec(ds) + "</table>"@;
    assert(body =~= opening + rest);
    assert(DEVICES_TABLE_HEAD@.subrange(0, 10) =~= " total</p>"@);
    assert(body.subrange(0, head.len() as int) =~= head) by {
        assert forall|i: int| 0 <= i < head.len() implies body.subrange(0, head.len() as int)[i]
            == head[i] by {
            if i >= opening.len() {
                assert(body[i] == rest[i - opening.len()]);
                assert(rest[i - opening.len()] == DEVICES_TABLE_HEAD@[i - opening.len()]);
                assert(DEVICES_TABLE_HEAD@.subrange(0, 10)[i - opening.len()]
                    == DEVICES_TABLE_HEAD@[i - opening.len()]);
            }
        }
    }
}

/// The device list page.
pub fn devices_page(devices: &Vec<PubDevice>) -> (r: String)
    ensures
        r@ == page_spec("Devices"@, devices_body_spec(devices@)),
{
    let mut rows = String::new();
    let mut pending: u64 = 0;
    for i in 0..devices.len()
        invariant
            rows@ == device_rows_spec(devices@.take(i as int)),
            pending == pending_count(devices@.take(i as int)),
            pending <= i,
    {
        let row = device_row(&devices[i]);
        rows.append(row.as_str());
        if !devices[i].is_active {
            pending = pending + 1;
        }
        proof {
            let t = devices@.take(i + 1);
            assert(t.drop_last() =~= devices@.take(i as int));
            assert(t.last() == devices@[i as int]);
        }
    }
    proof {
        assert(devices@.take(devices@.len() as int) =~= devices@);
    }
    let mut body = String::from_str("<div class=\"title-row\"><div><h1>Device approvals</h1><p>");
    push_decimal_u64(&mut body, pending);
    body.append(" waiting · ");
    push_decimal_u64(&mut body, devices.len() as u64);
    body.append(DEVICES_TABLE_HEAD);
    body.append(rows.as_str());
    body.append("</table>");
    page("Devices", body.as_str())
}

pub const EDIT_DEVICE_NAME_FIELD: &'static str = "\"><p>Name: <input name=\"name\" value=\"";

pub const EDIT_DEVICE_SYNC_FIELD: &'static str = "\" size=\"40\"></p><p>last_sync_id: <input name=\"last_sync_id\" value=\"";

pub const EDIT_DEVICE_DELETE_FORM: &'static str = "\" size=\"20\"></p><p><button type=\"submit\">Save</button></p></form><form method=\"post\" action=\"/admin/devices/";

pub const EDIT_DEVICE_LOGS_LINK: &'static str = "/delete\" onsubmit=\"return confirm('Delete device and all its logs?');\"><button type=\"submit\">Delete device</button></form><p><a href=\"/admin/logs?device_uuid=";

/// The body of a device's page: its status and the button that flips it,
/// the form for its name and last synchronised id, the delete button, and
/// the link to its logs.
pub open spec fn edit_device_body_spec(d: PubDevice) -> Seq<char> {
    "<h1>Manage device</h1><p>Status: "@ + (if d.is_active {
        "Active"@
    } else {
        "Waiting for approval"@
    }) + "</p><form method=\"post\" action=\"/admin/devices/"@ + escape_html(d.uuid@) + "/"@ + (
    if d.is_active {
        "deactivate"@
    } else {
        "activate"@
    }) + "\"><button type=\"submit\">"@ + (if d.is_active {
        "Deactivate"@
    } else {
        "Activate"@
    }) + "</button></form><form method=\"post\" action=\"/admin/devices/"@ + escape_html(d.uuid@)
        + EDIT_DEVICE_NAME_FIELD@ + escape_html(d.name@) + EDIT_DEVICE_SYNC_FIELD@ + decimal(
        d.last_sync_id as int,
    ) + EDIT_DEVICE_DELETE_FORM@ + escape_html(d.uuid@) + EDIT_DEVICE_LOGS_LINK@ + escape_html(
        d.uuid@,
    ) + "\">View logs for this device</a></p>"@
}

/// The pieces of a device's page, in order: fixed markup, the status and
/// action words, and the escaped title, identifier and name, and the
/// decimal last synchronised id.
pub open spec fn edit_device_page_pieces(d: PubDevice) -> Seq<Seq<char>> {
    seq![
        PAGE_OPEN@,
        escape_html("Edit device"@),
        PAGE_TITLE_CLOSE@,
        SHARED_STYLE@,
        PAGE_NAV@,
        "<h1>Manage device</h1><p>Status: "@,
        if d.is_active {
            "Active"@
        } else {
            "Waiting for approval"@
        },
        "</p><form method=\"post\" action=\"/admin/devices/"@,
        escape_html(d.uuid@),
        "/"@,
        if d.is_active {
            "deactivate"@
        } else {
            "activate"@
        },
        "\"><button type=\"submit\">"@,
        if d.is_active {
            "Deactivate"@
        } else {
            "Activate"@
        },
        "</button></form><form method=\"post\" action=\"/admin/devices/"@,
        escape_html(d.uuid@),
        EDIT_DEVICE_NAME_FIELD@,
        escape_html(d.name@),
        EDIT_DEVICE_SYNC_FIELD@,
        decimal(d.last_sync_id as int),
        EDIT_DEVICE_DELETE_FORM@,
        escape_html(d.uuid@),
        EDIT_DEVICE_LOGS_LINK@,
        escape_html(d.uuid@),
        "\">View logs for this device</a></p>"@,
        PAGE_CLOSE@,
    ]
}

#[verifier::spinoff_prover]
proof fn lemma_edit_device_page_is_its_pieces(d: PubDevice)
    ensures
        concat_all(edit_device_page_pieces(d)) == page_spec("Edit device"@, edit_device_body_spec(d)),
{
    let ps = edit_device_page_pieces(d);
    let a = ps.subrange(0, 5);
    let b = ps.subrange(5, 24);
    let c = ps.subrange(24, 25);
    assert(ps =~= a + b + c);
    lemma_concat_all_append(a + b, c);
    lemma_concat_all_append(a, b);
    assert(concat_all(a) =~= PAGE_OPEN@ + escape_html("Edit device"@) + PAGE_TITLE_CLOSE@
        + SHARED_STYLE@ + PAGE_NAV@) by {
        reveal_with_fuel(concat_all, 6);
    }
    assert(concat_all(b) =~= edit_device_body_spec(d)) by {
        reveal_with_fuel(concat_all, 20);
    }
    assert(concat_all(c) =~= PAGE_CLOSE@) by {
        reveal_with_fuel(concat_all, 2);
    }
    assert(concat_all(ps) =~= page_spec("Edit device"@, edit_device_body_spec(d)));
}

/// In a device's page, every `<in` opens one of the two fields of the form,
/// and no piece ends in the beginning of one.
#[verifier::spinoff_prover]
proof fn lemma_edit_device_page_fields(d: PubDevice)
    ensures
        ({
            let ps = edit_device_page_pieces(d);
            let t = ('<', 'i', 'n');
            &&& ps.len() == 25
            &&& forall|i: int| 0 <= i < ps.len() ==> clean_end(#[trigger] ps[i], t)
            &&& forall|i: int, j: int|
                0 <= i < ps.len() && #[trigger] triple_at(ps[i], j, t) ==> (i == 15 && j == 11) || (
                i == 17 && j == 33)
            &&& ps[15].len() == 11 + input_opening("name"@).len()
            &&& ps[15].subrange(11, ps[15].len() as int) == input_opening("name"@)
            &&& ps[17].len() == 33 + input_opening("last_sync_id"@).len()
            &&& ps[17].subrange(33, ps[17].len() as int) == input_opening("last_sync_id"@)
            &&& ps[15].len() > 24 && ps[15][24] == 'n'
            &&& ps[17].len() > 46 && ps[17][46] == 'l'
            &&& ps[17].len() > 0 && ps[17][0] == '"'
            &&& ps[19].len() > 0 && ps[19][0] == '"'
            &&& "name"@.len() > 0 && "name"@[0] == 'n'
            &&& "last_sync_id"@.len() > 0 && "last_sync_id"@[0] == 'l'
        }),
{
    reveal_strlit("<!doctype html><html><head><meta charset=\"utf-8\"><meta name=\"viewport\" content=\"width=device-width,initial-scale=1\"><title>");
    reveal_strlit("</title>");
    reveal_strlit(r#"<style>
    :root{color-scheme:dark;font-family:Inter,ui-sans-serif,system-ui,sans-serif;background:#0b1120;color:#e5e7eb}
    *{box-sizing:border-box}body{margin:0;background:#0b1120;color:#e5e7eb}header{border-bottom:1px solid #263244;background:#111827}
    nav{max-width:1100px;margin:auto;padding:16px 24px;display:flex;align-items:center;justify-content:space-between}nav span{display:flex;align-items:center;gap:18px}nav form,.actions form{display:inline;margin:0}
    a,.link{color:#93c5fd;text-decoration:none}.link{border:0;background:none;padding:0;font:inherit;cursor:pointer}main{max-width:1100px;margin:36px auto;padding:0 24px}
    h1{margin:0 0 8px;font-size:28px}p{color:#9ca3af}.title-row{display:flex;justify-content:space-between;align-items:center;margin-bottom:24px}
    table{width:100%;border-collapse:collapse;background:#111827;border:1px solid #263244;border-radius:10px;overflow:hidden}th,td{padding:14px 16px;text-align:left;border-bottom:1px solid #263244}th{font-size:12px;text-transform:uppercase;letter-spacing:.06em;color:#9ca3af}tr:last-child td{border-bottom:0}
    .uuid{font-family:ui-monospace,monospace;color:#6b7280;font-size:12px;margin-top:4px}.status{display:inline-block;padding:4px 9px;border-radius:999px;font-size:12px;font-weight:700}.active{background:#064e3b;color:#a7f3d0}.pending{background:#78350f;color:#fde68a}
    .actions{display:flex;align-items:center;gap:12px}button{border:0;border-radius:7px;background:#2563eb;color:white;padding:9px 14px;font-weight:700;cursor:pointer}.secondary{background:#374151}button:hover{filter:brightness(1.12)}
    input{display:block;width:100%;margin-top:7px;padding:10px 12px;border:1px solid #374151;border-radius:7px;background:#0f172a;color:white}label{display:block;margin:18px 0;color:#d1d5db}
    .login{min-height:100vh;display:grid;place-items:center}.login main{margin:0}.login-card{width:min(420px,calc(100vw - 32px));padding:30px;background:#111827;border:1px solid #263244;border-radius:12px}.login-card button{width:100%;margin-top:4px}.error{color:#fca5a5;background:#450a0a;padding:10px 12px;border-radius:7px}
    </style>"#);
    reveal_strlit("</head><body><header><nav><strong>Time Tracker Admin</strong><span><a href=\"/admin/devices\">Devices</a><a href=\"/admin/logs\">Logs</a><form method=\"post\" action=\"/admin/logout\"><button class=\"link\" type=\"submit\">Log out</button></form></span></nav></header><main>");
    reveal_strlit("<h1>Manage device</h1><p>Status: ");
    reveal_strlit("Active");
    reveal_strlit("Waiting for approval");
    reveal_strlit("</p><form method=\"post\" action=\"/admin/devices/");
    reveal_strlit("/");
    reveal_strlit("deactivate");
    reveal_strlit("activate");
    reveal_strlit("\"><button type=\"submit\">");
    reveal_strlit("Deactivate");
    reveal_strlit("Activate");
    reveal_strlit("</button></form><form method=\"post\" action=\"/admin/devices/");
    reveal_strlit("\"><p>Name: <input name=\"name\" value=\"");
    reveal_strlit("\" size=\"40\"></p><p>last_sync_id: <input name=\"last_sync_id\" value=\"");
    reveal_strlit("\" size=\"20\"></p><p><button type=\"submit\">Save</button></p></form><form method=\"post\" action=\"/admin/devices/");
    reveal_strlit("/delete\" onsubmit=\"return confirm('Delete device and all its logs?');\"><button type=\"submit\">Delete device</button></form><p><a href=\"/admin/logs?device_uuid=");
    reveal_strlit("\">View logs for this device</a></p>");
    reveal_strlit("</main></body></html>");
    reveal_strlit("<input name=\"");
    reveal_strlit("\" value=\"");
    reveal_strlit("name");
    reveal_strlit("last_sync_id");
    broadcast use vstd::string::group_string_axioms;
    let ps = edit_device_page_pieces(d);
    let t = ('<', 'i', 'n');
    lemma_escape_html_is_inert("Edit device"@);
    lemma_escape_html_is_inert(d.uuid@);
    lemma_escape_html_is_inert(d.name@);
    lemma_decimal_is_inert(d.last_sync_id as int);
    lemma_lacking_is_clean(ps[1], t);
    lemma_lacking_is_clean(ps[8], t);
    lemma_lacking_is_clean(ps[16], t);
    lemma_lacking_is_clean(ps[18], t);
    assert(ps[15].subrange(11, ps[15].len() as int) =~= input_opening("name"@));
    assert(ps[17].subrange(33, ps[17].len() as int) =~= input_opening("last_sync_id"@));
    assert forall|i: int, j: int|
        0 <= i < ps.len() && #[trigger] triple_at(ps[i], j, t) implies (i == 15 && j == 11) || (i
        == 17 && j == 33) by {
        if i == 1 {
            assert(!triple_at(ps[1], j, t));
        } else if i == 8 || i == 14 || i == 20 || i == 22 {
            assert(!triple_at(ps[8], j, t));
        } else if i == 16 {
            assert(!triple_at(ps[16], j, t));
        } else if i == 18 {
            assert(!triple_at(ps[18], j, t));
        }
    }
}

/// A device's page prefills its form with the device's own fields, as the
/// form handler reads them back: the `name` field, its entities decoded, is
/// the device's name, and the `last_sync_id` field, trimmed and read as a
/// number, is the device's last synchronised id.
pub proof fn lemma_edit_device_form_reads_back_the_device(d: PubDevice)
    ensures
        ({
            let page = page_spec("Edit device"@, edit_device_body_spec(d));
            &&& exists|v: Seq<char>| prefilled_with(page, "name"@, v)
            &&& exists|v: Seq<char>| prefilled_with(page, "last_sync_id"@, v)
            &&& forall|v: Seq<char>| #[trigger]
                prefilled_with(page, "name"@, v) ==> unescape_html(v) == d.name@
            &&& forall|v: Seq<char>| #[trigger]
                prefilled_with(page, "last_sync_id"@, v) ==> parse_i64_spec(trim_spec(v)) == Some(
                    d.last_sync_id,
                )
        }),
{
    let ps = edit_device_page_pieces(d);
    let page = page_spec("Edit device"@, edit_device_body_spec(d));
    lemma_edit_device_page_is_its_pieces(d);
    lemma_edit_device_page_fields(d);
    lemma_escape_html_is_inert(d.name@);
    lemma_decimal_is_inert(d.last_sync_id as int);
    assert(lacks(ps[16], '"'));
    assert(lacks(ps[18], '"'));
    lemma_unescape_escape(d.name@);
    lemma_decimal_parses_back(d.last_sync_id);
    let t = ('<', 'i', 'n');
    assert forall|i: int, j: int| 0 <= i < ps.len() && #[trigger] triple_at(ps[i], j, t) implies (i
        == 15 && j == 11) || (j + 13 < ps[i].len() && ps[i][j + 13] != "name"@[0]) by {}
    assert forall|i: int, j: int| 0 <= i < ps.len() && #[trigger] triple_at(ps[i], j, t) implies (i
        == 17 && j == 33) || (j + 13 < ps[i].len() && ps[i][j + 13] != "last_sync_id"@[0]) by {}
    assert forall|v: Seq<char>| #[trigger] prefilled_with(page, "name"@, v) implies unescape_html(v)
        == d.name@ by {
        lemma_prefilled_field(ps, "name"@, 15, 11, v);
    }
    assert forall|v: Seq<char>| #[trigger] prefilled_with(page, "last_sync_id"@, v) implies parse_i64_spec(
        trim_spec(v),
    ) == Some(d.last_sync_id) by {
        lemma_prefilled_field(ps, "last_sync_id"@, 17, 33, v);
    }
    lemma_prefilled_field(ps, "name"@, 15, 11, ps[16]);
    lemma_prefilled_field(ps, "last_sync_id"@, 17, 33, ps[18]);
}

/// A device's page.
pub fn edit_device_page(d: &PubDevice) -> (r: String)
    ensures
        r@ == page_spec("Edit device"@, edit_device_body_spec(*d)),
{
    let mut out = String::from_str("<h1>Manage device</h1><p>Status: ");
    out.append(
        if d.is_active {
            "Active"
        } else {
            "Waiting for approval"
        },
    );
    out.append("</p><form method=\"post\" action=\"/admin/devices/");
    push_escaped(&mut out, d.uuid.as_str());
    out.append("/");
    out.append(
        if d.is_active {
            "deactivate"
        } else {
            "activate"
        },
    );
    out.append("\"><button type=\"submit\">");
    out.append(
        if d.is_active {
            "Deactivate"
        } else {
            "Activate"
        },
    );
    out.append("</button></form><form method=\"post\" action=\"/admin/devices/");
    push_escaped(&mut out, d.uuid.as_str());
    out.append(EDIT_DEVICE_NAME_FIELD);
    push_escaped(&mut out, d.name.as_str());
    out.append(EDIT_DEVICE_SYNC_FIELD);
    push_decimal_i64(&mut out, d.last_sync_id);
    out.append(EDIT_DEVICE_DELETE_FORM);
    push_escaped(&mut out, d.uuid.as_str());
    out.append(EDIT_DEVICE_LOGS_LINK);
    push_escaped(&mut out, d.uuid.as_str());
    out.append("\">View logs for this device</a></p>");
    page("Edit device", out.as_str())
}


// ---------------------------------------------------------------------------
// Logs
// ---------------------------------------------------------------------------

/// The most log rows that the log list shows.
pub const LOG_LIST_LIMIT: i64 = 2000;

/// The device filter of the log list: the `device_uuid` query value when it
/// is present and not empty.
pub open spec fn log_filter_spec(device_uuid: Option<Seq<char>>) -> Option<Seq<char>> {
    match device_uuid {
        Some(u) => if u.len() > 0 {
            Some(u)
        } else {
            None
        },
        None => None,
    }
}

/// The device filter of the log list.
pub fn log_filter(device_uuid: Option<&str>) -> (r: Option<&str>)
    ensures
        opt_view(r) == log_filter_spec(opt_view(device_uuid)),
{
    match device_uuid {
        Some(u) => if u.is_empty() {
            None
        } else {
            Some(u)
        },
        None => None,
    }
}

/// One row of the log table, with the link to the log's page.
pub open spec fn log_row_spec(l: Log) -> Seq<char> {
    "<tr><td>"@ + decimal(l.id as int) + "</td><td>"@ + escape_html(l.device_uuid@) + "</td><td>"@
        + escape_html(l.app@) + "</td><td>"@ + decimal(l.timestamp as int) + "</td><td>"@ + decimal(
        l.duration as int,
    ) + "</td><td><a href=\"/admin/logs/"@ + escape_html(l.device_uuid@) + "/"@ + decimal(
        l.id as int,
    ) + "\">edit</a></td></tr>"@
}

/// The rows of the log table, one per log, in order.
pub open spec fn log_rows_spec(ls: Seq<Log>) -> Seq<char>
    decreases ls.len(),
{
    if ls.len() == 0 {
        Seq::empty()
    } else {
        log_rows_spec(ls.drop_last()) + log_row_spec(ls.last())
    }
}

/// The note that names the device the list is filtered by.
pub open spec fn filter_note_spec(device_uuid: Option<Seq<char>>) -> Seq<char> {
    match log_filter_spec(device_uuid) {
        Some(u) => "<p>Filtered by device: "@ + escape_html(u) + "</p>"@,
        None => Seq::empty(),
    }
}

/// The query value shown in the filter field: the raw value, or nothing.
pub open spec fn filter_field_spec(device_uuid: Option<Seq<char>>) -> Seq<char> {
    match device_uuid {
        Some(u) => u,
        None => Seq::empty(),
    }
}

pub const LOGS_FILTER_FORM: &'static str = " rows (newest first).</p><p>Filter: <form method=\"get\" action=\"/admin/logs\">device_uuid <input name=\"device_uuid\" value=\"";

pub const LOGS_TABLE_HEAD: &'static str = "\" size=\"40\"><button type=\"submit\">Filter</button><a href=\"/admin/logs\">clear</a></form></p><table border=\"1\" cellpadding=\"4\"><tr><th>id</th><th>device_uuid</th><th>app</th><th>timestamp</th><th>duration</th><th></th></tr>";

/// The body of the log list for the `device_uuid` query value and the logs
/// found.
pub open spec fn logs_body_spec(device_uuid: Option<Seq<char>>, ls: Seq<Log>) -> Seq<char> {
    "<h1>Logs</h1>"@ + filter_note_spec(device_uuid) + "<p>Showing up to "@ + decimal(
        LOG_LIST_LIMIT as int,
    ) + LOGS_FILTER_FORM@ + escape_html(filter_field_spec(device_uuid)) + LOGS_TABLE_HEAD@
        + log_rows_spec(ls) + "</table>"@
}

/// One row of the log table.
pub fn log_row(l: &Log) -> (r: String)
    ensures
        r@ == log_row_spec(*l),
{
    let mut out = String::from_str("<tr><td>");
    push_decimal_i64(&mut out, l.id);
    out.append("</td><td>");
    push_escaped(&mut out, l.device_uuid.as_str());
    out.append("</td><td>");
    push_escaped(&mut out, l.app.as_str());
    out.append("</td><td>");
    push_decimal_i64(&mut out, l.timestamp);
    out.append("</td><td>");
    push_decimal_i64(&mut out, l.duration);
    out.append("</td><td><a href=\"/admin/logs/");
    push_escaped(&mut out, l.device_uuid.as_str());
    out.append("/");
    push_decimal_i64(&mut out, l.id);
    out.append("\">edit</a></td></tr>");
    out
}

/// The log list page for the `device_uuid` query value and the logs found.
pub fn logs_page(device_uuid: Option<&str>, logs: &Vec<Log>) -> (r: String)
    ensures
        r@ == page_spec("Logs"@, logs_body_spec(opt_view(device_uuid), logs@)),
{
    let mut rows = String::new();
    for i in 0..logs.len()
        invariant
            rows@ == log_rows_spec(logs@.take(i as int)),
    {
        let row = log_row(&logs[i]);
        rows.append(row.as_str());
        proof {
            let t = logs@.take(i + 1);
            assert(t.drop_last() =~= logs@.take(i as int));
            assert(t.last() == logs@[i as int]);
        }
    }
    proof {
        assert(logs@.take(logs@.len() as int) =~= logs@);
    }
    let note = match log_filter(device_uuid) {
        Some(u) => {
            let mut note = String::from_str("<p>Filtered by device: ");
            push_escaped(&mut note, u);
            note.append("</p>");
            note
        },
        None => String::new(),
    };
    let mut body = String::from_str("<h1>Logs</h1>");
    body.append(note.as_str());
    body.append("<p>Showing up to ");
    push_decimal_i64(&mut body, LOG_LIST_LIMIT);
    body.append(LOGS_FILTER_FORM);
    match device_uuid {
        Some(u) => push_escaped(&mut body, u),
        None => {
            proof {
                reveal_strlit("");
                broadcast use vstd::string::group_string_axioms;
                assert(""@ =~= Seq::<char>::empty());
            }
            push_escaped(&mut body, "");
        },
    }
    body.append(LOGS_TABLE_HEAD);
    body.append(rows.as_str());
    body.append("</table>");
    page("Logs", body.as_str())
}

pub const EDIT_LOG_APP_FIELD: &'static str = "\"><p>app: <input name=\"app\" value=\"";

pub const EDIT_LOG_TIMESTAMP_FIELD: &'static str = "\" size=\"60\"></p><p>timestamp: <input name=\"timestamp\" value=\"";

pub const EDIT_LOG_DURATION_FIELD: &'static str = "\" size=\"20\"></p><p>duration: <input name=\"duration\" value=\"";

pub const EDIT_LOG_DELETE_FORM: &'static str = "\" size=\"20\"></p><p><button type=\"submit\">Save</button></p></form><form method=\"post\" action=\"/admin/logs/";

pub const EDIT_LOG_DELETE_TAIL: &'static str = "/delete\" onsubmit=\"return confirm('Delete this log?');\"><button type=\"submit\">Delete log</button></form>";

/// The body of a log's page: its key, the form for its fields, and the
/// delete button.
pub open spec fn edit_log_body_spec(l: Log) -> Seq<char> {
    "<h1>Edit log</h1><p>device_uuid: "@ + escape_html(l.device_uuid@) + "</p><p>id: "@ + decimal(
        l.id as int,
    ) + "</p><form method=\"post\" action=\"/admin/logs/"@ + escape_html(l.device_uuid@) + "/"@
        + decimal(l.id as int) + EDIT_LOG_APP_FIELD@ + escape_html(l.app@)
        + EDIT_LOG_TIMESTAMP_FIELD@ + decimal(l.timestamp as int) + EDIT_LOG_DURATION_FIELD@
        + decimal(l.duration as int) + EDIT_LOG_DELETE_FORM@ + escape_html(l.device_uuid@) + "/"@
        + decimal(l.id as int) + EDIT_LOG_DELETE_TAIL@
}

/// A log's page.
pub fn edit_log_page(l: &Log) -> (r: String)
    ensures
        r@ == page_spec("Edit log"@, edit_log_body_spec(*l)),
{
    let mut out = String::from_str("<h1>Edit log</h1><p>device_uuid: ");
    push_escaped(&mut out, l.device_uuid.as_str());
    out.append("</p><p>id: ");
    push_decimal_i64(&mut out, l.id);
    out.append("</p><form method=\"post\" action=\"/admin/logs/");
    push_escaped(&mut out, l.device_uuid.as_str());
    out.append("/");
    push_decimal_i64(&mut out, l.id);
    out.append(EDIT_LOG_APP_FIELD);
    push_escaped(&mut out, l.app.as_str());
    out.append(EDIT_LOG_TIMESTAMP_FIELD);
    push_decimal_i64(&mut out, l.timestamp);
    out.append(EDIT_LOG_DURATION_FIELD);
    push_decimal_i64(&mut out, l.duration);
    out.append(EDIT_LOG_DELETE_FORM);
    push_escaped(&mut out, l.device_uuid.as_str());
    out.append("/");
    push_decimal_i64(&mut out, l.id);
    out.append(EDIT_LOG_DELETE_TAIL);
    page("Edit log", out.as_str())
}


/// The pieces of a log's page, in order: fixed markup, and the escaped
/// title, device, app, the decimal id, timestamp and duration.
pub open spec fn edit_log_page_pieces(l: Log) -> Seq<Seq<char>> {
    seq![
        PAGE_OPEN@,
        escape_html("Edit log"@),
        PAGE_TITLE_CLOSE@,
        SHARED_STYLE@,
        PAGE_NAV@,
        "<h1>Edit log</h1><p>device_uuid: "@,
        escape_html(l.device_uuid@),
        "</p><p>id: "@,
        decimal(l.id as int),
        "</p><form method=\"post\" action=\"/admin/logs/"@,
        escape_html(l.device_uuid@),
        "/"@,
        decimal(l.id as int),
        EDIT_LOG_APP_FIELD@,
        escape_html(l.app@),
        EDIT_LOG_TIMESTAMP_FIELD@,
        decimal(l.timestamp as int),
        EDIT_LOG_DURATION_FIELD@,
        decimal(l.duration as int),
        EDIT_LOG_DELETE_FORM@,
        escape_html(l.device_uuid@),
        "/"@,
        decimal(l.id as int),
        EDIT_LOG_DELETE_TAIL@,
        PAGE_CLOSE@,
    ]
}

#[verifier::spinoff_prover]
proof fn lemma_edit_log_page_is_its_pieces(l: Log)
    ensures
        concat_all(edit_log_page_pieces(l)) == page_spec("Edit log"@, edit_log_body_spec(l)),
{
    let ps = edit_log_page_pieces(l);
    let a = ps.subrange(0, 5);
    let b = ps.subrange(5, 24);
    let c = ps.subrange(24, 25);
    assert(ps =~= a + b + c);
    lemma_concat_all_append(a + b, c);
    lemma_concat_all_append(a, b);
    assert(concat_all(a) =~= PAGE_OPEN@ + escape_html("Edit log"@) + PAGE_TITLE_CLOSE@
        + SHARED_STYLE@ + PAGE_NAV@) by {
        reveal_with_fuel(concat_all, 6);
    }
    assert(concat_all(b) =~= edit_log_body_spec(l)) by {
        reveal_with_fuel(concat_all, 20);
    }
    assert(concat_all(c) =~= PAGE_CLOSE@) by {
        reveal_with_fuel(concat_all, 2);
    }
    assert(concat_all(ps) =~= page_spec("Edit log"@, edit_log_body_spec(l)));
}

/// In a log's page, every `<in` opens one of the three fields of the form,
/// and no piece ends in the beginning of one.
#[verifier::spinoff_prover]
proof fn lemma_edit_log_page_fields(l: Log)
    ensures
        ({
            let ps = edit_log_page_pieces(l);
            let t = ('<', 'i', 'n');
            &&& ps.len() == 25
            &&& forall|i: int| 0 <= i < ps.len() ==> clean_end(#[trigger] ps[i], t)
            &&& forall|i: int, j: int|
                0 <= i < ps.len() && #[trigger] triple_at(ps[i], j, t) ==> (i == 13 && j == 10) || (
                i == 15 && j == 30) || (i == 17 && j == 29)
            &&& ps[13].len() == 10 + input_opening("app"@).len()
            &&& ps[13].subrange(10, ps[13].len() as int) == input_opening("app"@)
            &&& ps[15].len() == 30 + input_opening("timestamp"@).len()
            &&& ps[15].subrange(30, ps[15].len() as int) == input_opening("timestamp"@)
            &&& ps[17].len() == 29 + input_opening("duration"@).len()
            &&& ps[17].subrange(29, ps[17].len() as int) == input_opening("duration"@)
            &&& ps[13][23] == 'a' && ps[15][43] == 't' && ps[17][42] == 'd'
            &&& ps[13].len() > 23 && ps[15].len() > 43 && ps[17].len() > 42
            &&& ps[15].len() > 0 && ps[15][0] == '"'
            &&& ps[17].len() > 0 && ps[17][0] == '"'
            &&& ps[19].len() > 0 && ps[19][0] == '"'
            &&& "app"@[0] == 'a' && "timestamp"@[0] == 't' && "duration"@[0] == 'd'
            &&& "app"@.len() > 0 && "timestamp"@.len() > 0 && "duration"@.len() > 0
        }),
{
    reveal_strlit("<!doctype html><html><head><meta charset=\"utf-8\"><meta name=\"viewport\" content=\"width=device-width,initial-scale=1\"><title>");
    reveal_strlit("</title>");
    reveal_strlit(r#"<style>
    :root{color-scheme:dark;font-family:Inter,ui-sans-serif,system-ui,sans-serif;background:#0b1120;color:#e5e7eb}
    *{box-sizing:border-box}body{margin:0;background:#0b1120;color:#e5e7eb}header{border-bottom:1px solid #263244;background:#111827}
    nav{max-width:1100px;margin:auto;padding:16px 24px;display:flex;align-items:center;justify-content:space-between}nav span{display:flex;align-items:center;gap:18px}nav form,.actions form{display:inline;margin:0}
    a,.link{color:#93c5fd;text-decoration:none}.link{border:0;background:none;padding:0;font:inherit;cursor:pointer}main{max-width:1100px;margin:36px auto;padding:0 24px}
    h1{margin:0 0 8px;font-size:28px}p{color:#9ca3af}.title-row{display:flex;justify-content:space-between;align-items:center;margin-bottom:24px}
    table{width:100%;border-collapse:collapse;background:#111827;border:1px solid #263244;border-radius:10px;overflow:hidden}th,td{padding:14px 16px;text-align:left;border-bottom:1px solid #263244}th{font-size:12px;text-transform:uppercase;letter-spacing:.06em;color:#9ca3af}tr:last-child td{border-bottom:0}
    .uuid{font-family:ui-monospace,monospace;color:#6b7280;font-size:12px;margin-top:4px}.status{display:inline-block;padding:4px 9px;border-radius:999px;font-size:12px;font-weight:700}.active{background:#064e3b;color:#a7f3d0}.pending{background:#78350f;color:#fde68a}
    .actions{display:flex;align-items:center;gap:12px}button{border:0;border-radius:7px;background:#2563eb;color:white;padding:9px 14px;font-weight:700;cursor:pointer}.secondary{background:#374151}button:hover{filter:brightness(1.12)}
    input{display:block;width:100%;margin-top:7px;padding:10px 12px;border:1px solid #374151;border-radius:7px;background:#0f172a;color:white}label{display:block;margin:18px 0;color:#d1d5db}
    .login{min-height:100vh;display:grid;place-items:center}.login main{margin:0}.login-card{width:min(420px,calc(100vw - 32px));padding:30px;background:#111827;border:1px solid #263244;border-radius:12px}.login-card button{width:100%;margin-top:4px}.error{color:#fca5a5;background:#450a0a;padding:10px 12px;border-radius:7px}
    </style>"#);
    reveal_strlit("</head><body><header><nav><strong>Time Tracker Admin</strong><span><a href=\"/admin/devices\">Devices</a><a href=\"/admin/logs\">Logs</a><form method=\"post\" action=\"/admin/logout\"><button class=\"link\" type=\"submit\">Log out</button></form></span></nav></header><main>");
    reveal_strlit("<h1>Edit log</h1><p>device_uuid: ");
    reveal_strlit("</p><p>id: ");
    reveal_strlit("</p><form method=\"post\" action=\"/admin/logs/");
    reveal_strlit("/");
    reveal_strlit("\"><p>app: <input name=\"app\" value=\"");
    reveal_strlit("\" size=\"60\"></p><p>timestamp: <input name=\"timestamp\" value=\"");
    reveal_strlit("\" size=\"20\"></p><p>duration: <input name=\"duration\" value=\"");
    reveal_strlit("\" size=\"20\"></p><p><button type=\"submit\">Save</button></p></form><form method=\"post\" action=\"/admin/logs/");
    reveal_strlit("/delete\" onsubmit=\"return confirm('Delete this log?');\"><button type=\"submit\">Delete log</button></form>");
    reveal_strlit("</main></body></html>");
    reveal_strlit("<input name=\"");
    reveal_strlit("\" value=\"");
    reveal_strlit("app");
    reveal_strlit("timestamp");
    reveal_strlit("duration");
    broadcast use vstd::string::group_string_axioms;
    let ps = edit_log_page_pieces(l);
    let t = ('<', 'i', 'n');
    lemma_escape_html_is_inert("Edit log"@);
    lemma_escape_html_is_inert(l.device_uuid@);
    lemma_escape_html_is_inert(l.app@);
    lemma_decimal_is_inert(l.id as int);
    lemma_decimal_is_inert(l.timestamp as int);
    lemma_decimal_is_inert(l.duration as int);
    lemma_lacking_is_clean(ps[1], t);
    lemma_lacking_is_clean(ps[6], t);
    lemma_lacking_is_clean(ps[8], t);
    lemma_lacking_is_clean(ps[14], t);
    lemma_lacking_is_clean(ps[16], t);
    lemma_lacking_is_clean(ps[18], t);
    assert(ps[13].subrange(10, ps[13].len() as int) =~= input_opening("app"@));
    assert(ps[15].subrange(30, ps[15].len() as int) =~= input_opening("timestamp"@));
    assert(ps[17].subrange(29, ps[17].len() as int) =~= input_opening("duration"@));
    assert forall|i: int, j: int|
        0 <= i < ps.len() && #[trigger] triple_at(ps[i], j, t) implies (i == 13 && j == 10) || (i
        == 15 && j == 30) || (i == 17 && j == 29) by {
        if i == 1 {
            assert(!triple_at(ps[1], j, t));
        } else if i == 6 || i == 10 || i == 20 {
            assert(!triple_at(ps[6], j, t));
        } else if i == 8 || i == 12 || i == 22 {
            assert(!triple_at(ps[8], j, t));
        } else if i == 14 {
            assert(!triple_at(ps[14], j, t));
        } else if i == 16 {
            assert(!triple_at(ps[16], j, t));
        } else if i == 18 {
            assert(!triple_at(ps[18], j, t));
        }
    }
}

/// A log's page prefills its form with the log's own fields, as the form
/// handler reads them back: the `app` field, its entities decoded, is the
/// log's app, and the `timestamp` and `duration` fields, trimmed and read
/// as numbers, are the log's timestamp and duration.
pub proof fn lemma_edit_log_form_reads_back_the_log(l: Log)
    ensures
        ({
            let page = page_spec("Edit log"@, edit_log_body_spec(l));
            &&& exists|v: Seq<char>| prefilled_with(page, "app"@, v)
            &&& exists|v: Seq<char>| prefilled_with(page, "timestamp"@, v)
            &&& exists|v: Seq<char>| prefilled_with(page, "duration"@, v)
            &&& forall|v: Seq<char>| #[trigger]
                prefilled_with(page, "app"@, v) ==> unescape_html(v) == l.app@
            &&& forall|v: Seq<char>| #[trigger]
                prefilled_with(page, "timestamp"@, v) ==> parse_i64_spec(trim_spec(v)) == Some(
                    l.timestamp,
                )
            &&& forall|v: Seq<char>| #[trigger]
                prefilled_with(page, "duration"@, v) ==> parse_i64_spec(trim_spec(v)) == Some(
                    l.duration,
                )
        }),
{
    let ps = edit_log_page_pieces(l);
    let page = page_spec("Edit log"@, edit_log_body_spec(l));
    lemma_edit_log_page_is_its_pieces(l);
    lemma_edit_log_page_fields(l);
    lemma_escape_html_is_inert(l.app@);
    lemma_decimal_is_inert(l.timestamp as int);
    lemma_decimal_is_inert(l.duration as int);
    assert(lacks(ps[14], '"'));
    assert(lacks(ps[16], '"'));
    assert(lacks(ps[18], '"'));
    lemma_unescape_escape(l.app@);
    lemma_decimal_parses_back(l.timestamp);
    lemma_decimal_parses_back(l.duration);
    let t = ('<', 'i', 'n');
    assert forall|i: int, j: int| 0 <= i < ps.len() && #[trigger] triple_at(ps[i], j, t) implies (i
        == 13 && j == 10) || (j + 13 < ps[i].len() && ps[i][j + 13] != "app"@[0]) by {}
    assert forall|i: int, j: int| 0 <= i < ps.len() && #[trigger] triple_at(ps[i], j, t) implies (i
        == 15 && j == 30) || (j + 13 < ps[i].len() && ps[i][j + 13] != "timestamp"@[0]) by {}
    assert forall|i: int, j: int| 0 <= i < ps.len() && #[trigger] triple_at(ps[i], j, t) implies (i
        == 17 && j == 29) || (j + 13 < ps[i].len() && ps[i][j + 13] != "duration"@[0]) by {}
    assert forall|v: Seq<char>| #[trigger] prefilled_with(page, "app"@, v) implies unescape_html(v)
        == l.app@ by {
        lemma_prefilled_field(ps, "app"@, 13, 10, v);
    }
    assert forall|v: Seq<char>| #[trigger] prefilled_with(page, "timestamp"@, v) implies parse_i64_spec(
        trim_spec(v),
    ) == Some(l.timestamp) by {
        lemma_prefilled_field(ps, "timestamp"@, 15, 30, v);
    }
    assert forall|v: Seq<char>| #[trigger] prefilled_with(page, "duration"@, v) implies parse_i64_spec(
        trim_spec(v),
    ) == Some(l.duration) by {
        lemma_prefilled_field(ps, "duration"@, 17, 29, v);
    }
    lemma_prefilled_field(ps, "app"@, 13, 10, ps[14]);
    lemma_prefilled_field(ps, "timestamp"@, 15, 30, ps[16]);
    lemma_prefilled_field(ps, "duration"@, 17, 29, ps[18]);
}

} // verus!
