//! CORS layer presets: a permissive one for development, and restrictive
//! ones whose origins come from configuration and are checked strictly.

use vstd::prelude::*;
use vstd::string::StrSliceExecFns;
use vstd::string::StringExecFns;
use vstd::utf8::encode_utf8;

use crate::cors_layer::{
    allow_credentials, allow_credentials_of, allow_headers, allow_headers_any, allow_headers_any_of,
    allow_headers_list, allow_headers_list_of, allow_headers_of, allow_methods_any,
    allow_methods_any_of, allow_methods_list, allow_methods_list_of, allow_origin_any,
    allow_origin_any_of, allow_origin_exact, allow_origin_exact_of, allow_origin_list,
    allow_origin_list_of, allow_private_network, allow_private_network_of, expose_headers_list,
    expose_headers_list_of, layer_new, max_age_secs, max_age_secs_of, non_wildcard_header_value,
};
use crate::headers::{
    header_name_from_static, header_name_of, header_value_bytes_ok, header_value_char_ok,
    header_value_from_str, header_value_from_str_of, header_value_text_ok,
    lemma_header_value_text_ok, method_from_str, method_of, standard_method_name,
};
use crate::request_id::{request_id_header, request_id_header_text};

verus! {

/// Errors from CORS layer construction.
///
/// Construction is fallible because origins come from configuration; a
/// malformed origin surfaces as a typed startup error, not a panic.
#[derive(Debug)]
pub enum CorsError {
    /// An origin string is not a valid `scheme://host[:port]` value.
    InvalidOrigin {
        /// The rejected origin string.
        origin: String,
    },
    /// `cors_restrictive` was called with no origins. A "restrictive"
    /// builder never allows every origin by accident; callers opt into
    /// `cors_permissive` explicitly.
    NoOrigins,
}

/// The text that `format!("{:?}", s)` writes for the string `s`: the
/// string in double quotes, with quotes, backslashes and control
/// characters escaped.
pub uninterp spec fn debug_text_of(s: Seq<char>) -> Seq<char>;

/// Calls the `Debug` formatting of `str` (through `format!`). What it
/// writes depends on the text alone; the escaping rules themselves are
/// left unsaid.
#[verifier::external_body]
fn debug_text(s: &str) -> (r: String)
    ensures
        r@ == debug_text_of(s@),
{
    format!("{:?}", s)
}

/// `invalid CORS origin: `
pub open spec fn invalid_origin_prefix() -> Seq<char> {
    seq!['i', 'n', 'v', 'a', 'l', 'i', 'd', ' ', 'C', 'O', 'R', 'S', ' ', 'o', 'r', 'i', 'g', 'i', 'n', ':', ' ']
}

/// `no origins given; use cors_permissive() explicitly for allow-all`
pub open spec fn no_origins_message() -> Seq<char> {
    seq![
        'n', 'o', ' ', 'o', 'r', 'i', 'g', 'i', 'n', 's', ' ', 'g', 'i', 'v', 'e', 'n', ';', ' ',
        'u', 's', 'e', ' ', 'c', 'o', 'r', 's', '_', 'p', 'e', 'r', 'm', 'i', 's', 's', 'i', 'v',
        'e', '(', ')', ' ', 'e', 'x', 'p', 'l', 'i', 'c', 'i', 't', 'l', 'y', ' ', 'f', 'o', 'r',
        ' ', 'a', 'l', 'l', 'o', 'w', '-', 'a', 'l', 'l',
    ]
}

/// The message of a CORS error.
pub open spec fn cors_error_message(e: CorsError) -> Seq<char> {
    match e {
        CorsError::InvalidOrigin { origin } => invalid_origin_prefix() + debug_text_of(origin@),
        CorsError::NoOrigins => no_origins_message(),
    }
}

impl CorsError {
    /// The error's message: `invalid CORS origin: "<origin>"`, or, for an
    /// empty origin list, a hint to use `cors_permissive()` explicitly.
    pub fn message(&self) -> (m: String)
        ensures
            m@ == cors_error_message(*self),
    {
        proof {
            reveal_strlit("invalid CORS origin: ");
            reveal_strlit("no origins given; use cors_permissive() explicitly for allow-all");
            assert("invalid CORS origin: "@ =~= invalid_origin_prefix());
            assert("no origins given; use cors_permissive() explicitly for allow-all"@
                =~= no_origins_message());
        }
        match self {
            CorsError::InvalidOrigin { origin } => {
                let mut m = String::from_str("invalid CORS origin: ");
                let quoted = debug_text(origin.as_str());
                m.append(quoted.as_str());
                m
            },
            CorsError::NoOrigins => String::from_str(
                "no origins given; use cors_permissive() explicitly for allow-all",
            ),
        }
    }
}

/// `e` is the error that rejects the origin text `s`.
pub open spec fn rejects_origin(e: CorsError, s: Seq<char>) -> bool {
    e matches CorsError::InvalidOrigin { origin } && origin@ == s
}

/// How long, in seconds, browsers may cache a preflight answer.
pub open spec fn preflight_max_age_secs() -> u64 {
    3600
}

/// `http://`
pub open spec fn http_prefix() -> Seq<char> {
    seq!['h', 't', 't', 'p', ':', '/', '/']
}

/// `https://`
pub open spec fn https_prefix() -> Seq<char> {
    seq!['h', 't', 't', 'p', 's', ':', '/', '/']
}

/// A character that may stand in a host name (a URL's registered name):
/// an ASCII letter or digit, one of `-._~`, one of the sub-delimiters
/// `!$&'()*+,;=`, `%` (of percent-encoding), or a non-ASCII character (of
/// an internationalized name). Left out are the characters that end or
/// split an authority (`:/?#[]@`), `\`, spaces, other ASCII punctuation
/// and control characters.
pub open spec fn host_char(c: char) -> bool {
    ||| ('a' <= c && c <= 'z') || ('A' <= c && c <= 'Z') || ('0' <= c && c <= '9')
    ||| c == '-' || c == '.' || c == '_' || c == '~'
    ||| c == '!' || c == '$' || c == '&' || c == '\'' || c == '(' || c == ')'
    ||| c == '*' || c == '+' || c == ',' || c == ';' || c == '='
    ||| c == '%'
    ||| c > '\x7f'
}

/// Every character of `h` is a host-name character.
pub open spec fn host_text(h: Seq<char>) -> bool {
    forall|i: int| 0 <= i < h.len() ==> #[trigger] host_char(h[i])
}

/// A registered name: one or more host-name characters.
pub open spec fn reg_name(h: Seq<char>) -> bool {
    h.len() > 0 && host_text(h)
}

/// A character inside the brackets of an IP literal: a hexadecimal digit,
/// `:` or `.` (IPv6, possibly ending in IPv4 notation).
pub open spec fn ip_char(c: char) -> bool {
    ('0' <= c && c <= '9') || ('a' <= c && c <= 'f') || ('A' <= c && c <= 'F') || c == ':' || c
        == '.'
}

/// An IP literal: `[`, one or more IP characters, `]`.
pub open spec fn ip_literal(h: Seq<char>) -> bool {
    &&& h.len() >= 3
    &&& h[0] == '['
    &&& h[h.len() - 1] == ']'
    &&& forall|i: int| 1 <= i < h.len() - 1 ==> #[trigger] ip_char(h[i])
}

/// A host: a registered name or an IP literal in brackets.
pub open spec fn host(h: Seq<char>) -> bool {
    reg_name(h) || ip_literal(h)
}

/// A decimal digit.
pub open spec fn digit_char(c: char) -> bool {
    '0' <= c && c <= '9'
}

/// A port: one or more decimal digits.
pub open spec fn port_text(p: Seq<char>) -> bool {
    p.len() > 0 && forall|i: int| 0 <= i < p.len() ==> #[trigger] digit_char(p[i])
}

/// `a` is a host, a `:` at position `k`, and a port.
pub open spec fn host_and_port(a: Seq<char>, k: int) -> bool {
    &&& 0 < k < a.len()
    &&& a[k] == ':'
    &&& host(a.take(k))
    &&& port_text(a.skip(k + 1))
}

/// The `host[:port]` part of an origin: a host (a registered name, or an
/// IP literal in brackets), optionally followed by `:` and a port of
/// decimal digits. No path, query, fragment or user information.
pub open spec fn origin_authority(a: Seq<char>) -> bool {
    ||| host(a)
    ||| exists|k: int| #[trigger] host_and_port(a, k)
}

/// `s` has the shape `scheme://host[:port]` with scheme `http` or `https`.
pub open spec fn origin_shape(s: Seq<char>) -> bool {
    ||| (s.len() >= 7 && s.take(7) == http_prefix() && origin_authority(s.skip(7)))
    ||| (s.len() >= 8 && s.take(8) == https_prefix() && origin_authority(s.skip(8)))
}

/// An origin text that the restrictive presets accept: it has the origin
/// shape and every byte of its UTF-8 encoding may stand in a header value.
pub open spec fn origin_accepted(s: Seq<char>) -> bool {
    origin_shape(s) && header_value_bytes_ok(encode_utf8(s))
}

/// Every character of a host may stand in a header value.
proof fn lemma_host_header_text(h: Seq<char>)
    requires
        host(h),
    ensures
        header_value_text_ok(h),
{
    assert forall|i: int| 0 <= i < h.len() implies #[trigger] header_value_char_ok(h[i]) by {
        if reg_name(h) {
            assert(host_char(h[i]));
        } else if 1 <= i < h.len() - 1 {
            assert(ip_char(h[i]));
        }
    }
}

/// Every character of an origin authority may stand in a header value.
proof fn lemma_authority_header_text(a: Seq<char>)
    requires
        origin_authority(a),
    ensures
        header_value_text_ok(a),
{
    if host(a) {
        lemma_host_header_text(a);
    } else {
        let k = choose|k: int| #[trigger] host_and_port(a, k);
        lemma_host_header_text(a.take(k));
        assert forall|i: int| 0 <= i < a.len() implies #[trigger] header_value_char_ok(a[i]) by {
            if i < k {
                assert(a.take(k)[i] == a[i]);
                assert(header_value_char_ok(a.take(k)[i]));
            } else if i > k {
                assert(a.skip(k + 1)[i - k - 1] == a[i]);
                assert(digit_char(a.skip(k + 1)[i - k - 1]));
            }
        }
    }
}

/// A scheme prefix followed by an authority that is header-value text is
/// header-value text as a whole.
proof fn lemma_prefixed_header_text(s: Seq<char>, n: int)
    requires
        0 <= n <= s.len(),
        header_value_text_ok(s.take(n)),
        header_value_text_ok(s.skip(n)),
    ensures
        header_value_text_ok(s),
{
    assert forall|i: int| 0 <= i < s.len() implies #[trigger] header_value_char_ok(s[i]) by {
        if i < n {
            assert(s.take(n)[i] == s[i]);
        } else {
            assert(s.skip(n)[i - n] == s[i]);
        }
    }
}

/// Which origins the restrictive presets accept: exactly the texts of the
/// shape `http://host[:port]` or `https://host[:port]`. Such a text holds
/// no control character, space or DEL, so the header-value rules never
/// reject it.
pub proof fn lemma_origin_accepted_text(s: Seq<char>)
    ensures
        origin_accepted(s) <==> origin_shape(s),
        origin_shape(s) ==> header_value_text_ok(s),
{
    lemma_header_value_text_ok(s);
    if origin_shape(s) {
        let n: int = if s.len() >= 7 && s.take(7) == http_prefix() && origin_authority(s.skip(7)) {
            7
        } else {
            8
        };
        lemma_authority_header_text(s.skip(n));
        assert(header_value_text_ok(s.take(n))) by {
            assert forall|i: int| 0 <= i < n implies #[trigger] header_value_char_ok(s.take(n)[i]) by {
                if n == 7 {
                    assert(s.take(n)[i] == http_prefix()[i]);
                } else {
                    assert(s.take(n)[i] == https_prefix()[i]);
                }
            }
        }
        lemma_prefixed_header_text(s, n);
    }
}

/// The texts of a slice of origins.
pub open spec fn origin_texts(origins: Seq<&str>) -> Seq<Seq<char>> {
    origins.map_values(|o: &str| o@)
}

/// Every origin text is accepted.
pub open spec fn all_accepted(texts: Seq<Seq<char>>) -> bool {
    forall|i: int| 0 <= i < texts.len() ==> #[trigger] origin_accepted(texts[i])
}

/// `i` is the position of the first origin text that is not accepted.
pub open spec fn first_rejected(texts: Seq<Seq<char>>, i: int) -> bool {
    &&& 0 <= i < texts.len()
    &&& !origin_accepted(texts[i])
    &&& all_accepted(texts.take(i))
}

/// The methods that a restrictive layer allows: GET, POST, PUT, DELETE,
/// PATCH and OPTIONS, in that order.
pub open spec fn restrictive_methods() -> Seq<http::Method> {
    seq![
        method_of(seq!['G', 'E', 'T']),
        method_of(seq!['P', 'O', 'S', 'T']),
        method_of(seq!['P', 'U', 'T']),
        method_of(seq!['D', 'E', 'L', 'E', 'T', 'E']),
        method_of(seq!['P', 'A', 'T', 'C', 'H']),
        method_of(seq!['O', 'P', 'T', 'I', 'O', 'N', 'S']),
    ]
}

/// The request headers a credentialed layer allows: `authorization`,
/// `content-type`, `accept`, `origin`, `x-requested-with`, `x-csrf-token`.
/// The CORS rules forbid a wildcard together with credentials, so they
/// are listed one by one.
pub open spec fn credentialed_header_names() -> Seq<http::HeaderName> {
    seq![
        header_name_of(seq!['a', 'u', 't', 'h', 'o', 'r', 'i', 'z', 'a', 't', 'i', 'o', 'n']),
        header_name_of(seq!['c', 'o', 'n', 't', 'e', 'n', 't', '-', 't', 'y', 'p', 'e']),
        header_name_of(seq!['a', 'c', 'c', 'e', 'p', 't']),
        header_name_of(seq!['o', 'r', 'i', 'g', 'i', 'n']),
        header_name_of(
            seq!['x', '-', 'r', 'e', 'q', 'u', 'e', 's', 't', 'e', 'd', '-', 'w', 'i', 't', 'h'],
        ),
        header_name_of(seq!['x', '-', 'c', 's', 'r', 'f', '-', 't', 'o', 'k', 'e', 'n']),
    ]
}

/// The response headers exposed to browser scripts: `x-request-id`.
pub open spec fn exposed_header_names() -> Seq<http::HeaderName> {
    seq![header_name_of(request_id_header_text())]
}

/// The settings every preset fixes last, whatever layer it starts from:
/// credentials as given, private-network access off, and the exposed
/// response headers.
pub open spec fn final_settings(
    layer: tower_http::cors::CorsLayer,
    credentials: bool,
    exposed: Seq<http::HeaderName>,
) -> tower_http::cors::CorsLayer {
    expose_headers_list_of(
        allow_private_network_of(allow_credentials_of(layer, credentials), false),
        exposed,
    )
}

/// The permissive preset applied to `base`: any origin, any method, any
/// header, preflight cached for an hour, no credentials, no private-network
/// access, no exposed response header.
pub open spec fn permissive_layer(base: tower_http::cors::CorsLayer) -> tower_http::cors::CorsLayer {
    final_settings(
        max_age_secs_of(
            allow_headers_any_of(allow_methods_any_of(allow_origin_any_of(base))),
            preflight_max_age_secs(),
        ),
        false,
        Seq::empty(),
    )
}

/// The origin setting of a restrictive layer: one exact origin when there
/// is one, else the list of them, each parsed as a header value.
pub open spec fn origin_setting(
    base: tower_http::cors::CorsLayer,
    texts: Seq<Seq<char>>,
) -> tower_http::cors::CorsLayer {
    if texts.len() == 1 {
        allow_origin_exact_of(base, header_value_from_str_of(texts[0]))
    } else {
        allow_origin_list_of(base, texts.map_values(|t: Seq<char>| header_value_from_str_of(t)))
    }
}

/// The restrictive preset applied to `base` for accepted origin texts: the
/// listed origins, six methods, the enumerated headers with credentials or
/// any header without, preflight cached for an hour, credentials exactly
/// when asked for, no private-network access, `x-request-id` exposed.
pub open spec fn restrictive_layer(
    base: tower_http::cors::CorsLayer,
    texts: Seq<Seq<char>>,
    credentials: bool,
) -> tower_http::cors::CorsLayer {
    let l1 = allow_methods_list_of(origin_setting(base, texts), restrictive_methods());
    let l2 = if credentials {
        allow_headers_of(l1, allow_headers_list_of(credentialed_header_names()))
    } else {
        allow_headers_any_of(l1)
    };
    let l3 = max_age_secs_of(l2, preflight_max_age_secs());
    final_settings(l3, credentials, exposed_header_names())
}

/// What a restrictive builder returns for the origin texts: `NoOrigins`
/// for none, the rejection of the first text that is not accepted, or a
/// layer built by the restrictive preset.
pub open spec fn restrictive_outcome(
    r: Result<tower_http::cors::CorsLayer, CorsError>,
    texts: Seq<Seq<char>>,
    credentials: bool,
) -> bool {
    &&& (r is Ok <==> texts.len() > 0 && all_accepted(texts))
    &&& (texts.len() == 0 ==> r matches Err(CorsError::NoOrigins))
    &&& (forall|i: int| #[trigger] first_rejected(texts, i) ==> (r matches Err(e) && rejects_origin(e, texts[i])))
    &&& (r matches Ok(layer) ==> exists|base: tower_http::cors::CorsLayer| layer == #[trigger] restrictive_layer(base, texts, credentials))
}

/// Create a permissive CORS layer (allows all origins, methods, headers).
///
/// Use only in development. Never in production. The default middleware
/// stack does not include this layer; enabling CORS is always an explicit
/// choice.
pub fn cors_permissive() -> (layer: tower_http::cors::CorsLayer)
    ensures
        exists|base: tower_http::cors::CorsLayer| layer == #[trigger] permissive_layer(base),
{
    let base = layer_new();
    let layer = allow_origin_any(base);
    let layer = allow_methods_any(layer);
    let layer = allow_headers_any(layer);
    let layer = max_age_secs(layer, 3600);
    let layer = allow_credentials(layer, false);
    let layer = allow_private_network(layer, false);
    let none: Vec<http::HeaderName> = Vec::new();
    let layer = expose_headers_list(layer, none);
    assert(none@ =~= Seq::<http::HeaderName>::empty());
    assert(layer == permissive_layer(base));
    layer
}

/// The `n` characters of `s` start with `http://`.
fn starts_with_http(s: &str, n: usize) -> (r: bool)
    requires
        n == s@.len(),
    ensures
        r == (n >= 7 && s@.take(7) == http_prefix()),
{
    if n < 7 {
        return false;
    }
    let r = s.get_char(0) == 'h' && s.get_char(1) == 't' && s.get_char(2) == 't' && s.get_char(3)
        == 'p' && s.get_char(4) == ':' && s.get_char(5) == '/' && s.get_char(6) == '/';
    proof {
        if r {
            assert(s@.take(7) =~= http_prefix());
        } else {
            assert(s@.take(7) != http_prefix()) by {
                if s@.take(7) == http_prefix() {
                    assert(s@.take(7)[0] == 'h' && s@.take(7)[1] == 't' && s@.take(7)[2] == 't'
                        && s@.take(7)[3] == 'p' && s@.take(7)[4] == ':' && s@.take(7)[5] == '/'
                        && s@.take(7)[6] == '/');
                }
            }
        }
    }
    r
}

/// The `n` characters of `s` start with `https://`.
fn starts_with_https(s: &str, n: usize) -> (r: bool)
    requires
        n == s@.len(),
    ensures
        r == (n >= 8 && s@.take(8) == https_prefix()),
{
    if n < 8 {
        return false;
    }
    let r = s.get_char(0) == 'h' && s.get_char(1) == 't' && s.get_char(2) == 't' && s.get_char(3)
        == 'p' && s.get_char(4) == 's' && s.get_char(5) == ':' && s.get_char(6) == '/'
        && s.get_char(7) == '/';
    proof {
        if r {
            assert(s@.take(8) =~= https_prefix());
        } else {
            assert(s@.take(8) != https_prefix()) by {
                if s@.take(8) == https_prefix() {
                    assert(s@.take(8)[0] == 'h' && s@.take(8)[1] == 't' && s@.take(8)[2] == 't'
                        && s@.take(8)[3] == 'p' && s@.take(8)[4] == 's' && s@.take(8)[5] == ':'
                        && s@.take(8)[6] == '/' && s@.take(8)[7] == '/');
                }
            }
        }
    }
    r
}

/// A host-name character.
fn is_host_char(c: char) -> (r: bool)
    ensures
        r == host_char(c),
{
    ('a' <= c && c <= 'z') || ('A' <= c && c <= 'Z') || ('0' <= c && c <= '9') || c == '-' || c
        == '.' || c == '_' || c == '~' || c == '!' || c == '$' || c == '&' || c == '\'' || c == '('
        || c == ')' || c == '*' || c == '+' || c == ',' || c == ';' || c == '=' || c == '%' || c
        > '\x7f'
}

/// A character inside the brackets of an IP literal.
fn is_ip_char(c: char) -> (r: bool)
    ensures
        r == ip_char(c),
{
    ('0' <= c && c <= '9') || ('a' <= c && c <= 'f') || ('A' <= c && c <= 'F') || c == ':' || c
        == '.'
}

/// For a text that does not start with `[` and whose host characters run
/// up to position `m`: it is a host exactly when the run is all of it and
/// not empty.
proof fn lemma_reg_run(x: Seq<char>, m: int)
    requires
        0 <= m <= x.len(),
        m < x.len() ==> !host_char(x[m]),
        forall|j: int| 0 <= j < m ==> #[trigger] host_char(x[j]),
        x.len() > 0 ==> x[0] != '[',
    ensures
        host(x) <==> (m == x.len() && m > 0),
{
    if m < x.len() {
        assert(!host_text(x));
    }
    if m == x.len() && m > 0 {
        assert(host_text(x));
    }
}

/// For a text that starts with `[` and whose IP characters run from
/// position 1 up to position `m`: it is a host exactly when it ends right
/// after the run, with `]`, and the run is not empty.
proof fn lemma_ip_run(x: Seq<char>, m: int)
    requires
        x.len() > 0,
        x[0] == '[',
        1 <= m <= x.len(),
        m < x.len() ==> !ip_char(x[m]),
        forall|j: int| 1 <= j < m ==> #[trigger] ip_char(x[j]),
    ensures
        host(x) <==> (m == x.len() - 1 && x[m] == ']' && m >= 2),
{
    assert(!host_char(x[0]));
    assert(!reg_name(x));
    if ip_literal(x) {
        if m < x.len() - 1 {
            assert(ip_char(x[m]));
        }
        if m == x.len() {
            assert(ip_char(x[x.len() - 1]));
        }
    }
}

/// Where the host characters of an authority that does not start with `[`
/// end (at `m`), the authority is well formed exactly when the host is not
/// empty and either nothing follows or `:` and a port follow.
proof fn lemma_authority_reg(a: Seq<char>, m: int)
    requires
        0 <= m <= a.len(),
        m < a.len() ==> !host_char(a[m]),
        forall|j: int| 0 <= j < m ==> #[trigger] host_char(a[j]),
        a.len() > 0 ==> a[0] != '[',
    ensures
        origin_authority(a) <==> (m > 0 && (m == a.len() || (a[m] == ':' && port_text(
            a.skip(m + 1),
        )))),
{
    lemma_reg_run(a, m);
    if exists|k: int| #[trigger] host_and_port(a, k) {
        let k = choose|k: int| #[trigger] host_and_port(a, k);
        let x = a.take(k);
        let m2 = if m < k {
            m
        } else {
            k
        };
        assert forall|j: int| 0 <= j < m2 implies #[trigger] host_char(x[j]) by {
            assert(x[j] == a[j]);
        }
        if m2 < k {
            assert(x[m2] == a[m2]);
        }
        lemma_reg_run(x, m2);
        if k < m {
            assert(host_char(a[k]));
        }
        assert(k == m);
    }
    if m > 0 && m < a.len() && a[m] == ':' && port_text(a.skip(m + 1)) {
        let x = a.take(m);
        assert forall|j: int| 0 <= j < m implies #[trigger] host_char(x[j]) by {
            assert(x[j] == a[j]);
        }
        lemma_reg_run(x, m);
        assert(host_and_port(a, m));
    }
}

/// Where the IP characters of an authority that starts with `[` end (at
/// `m`), the authority is well formed exactly when `]` stands at `m`
/// after at least one IP character, and either nothing follows or `:` and
/// a port follow.
proof fn lemma_authority_ip(a: Seq<char>, m: int)
    requires
        a.len() > 0,
        a[0] == '[',
        1 <= m <= a.len(),
        m < a.len() ==> !ip_char(a[m]),
        forall|j: int| 1 <= j < m ==> #[trigger] ip_char(a[j]),
    ensures
        origin_authority(a) <==> (m < a.len() && a[m] == ']' && m >= 2 && (m + 1 == a.len() || (
        a[m + 1] == ':' && port_text(a.skip(m + 2))))),
{
    lemma_ip_run(a, m);
    if exists|k: int| #[trigger] host_and_port(a, k) {
        let k = choose|k: int| #[trigger] host_and_port(a, k);
        let x = a.take(k);
        let m2 = if m < k {
            m
        } else {
            k
        };
        assert forall|j: int| 1 <= j < m2 implies #[trigger] ip_char(x[j]) by {
            assert(x[j] == a[j]);
        }
        if m2 < k {
            assert(x[m2] == a[m2]);
        }
        lemma_ip_run(x, m2);
        assert(m2 == k - 1);
        assert(x[m2] == a[m2]);
    }
    if m < a.len() && a[m] == ']' && m >= 2 && m + 1 < a.len() && a[m + 1] == ':' && port_text(
        a.skip(m + 2),
    ) {
        let x = a.take(m + 1);
        assert forall|j: int| 1 <= j < m implies #[trigger] ip_char(x[j]) by {
            assert(x[j] == a[j]);
        }
        lemma_ip_run(x, m);
        assert(host_and_port(a, m + 1));
    }
}

/// The characters of `s` from position `start` on are all digits, and
/// there is at least one.
fn port_from(s: &str, n: usize, start: usize) -> (r: bool)
    requires
        n == s@.len(),
        start <= n,
    ensures
        r == port_text(s@.skip(start as int)),
{
    if start >= n {
        return false;
    }
    let mut i = start;
    while i < n
        invariant
            n == s@.len(),
            start <= i <= n,
            forall|j: int| start <= j < i ==> #[trigger] digit_char(s@[j]),
        decreases n - i,
    {
        let c = s.get_char(i);
        if !('0' <= c && c <= '9') {
            assert(s@.skip(start as int)[i - start] == c);
            assert(!digit_char(s@.skip(start as int)[i - start]));
            return false;
        }
        i = i + 1;
    }
    assert forall|k: int| 0 <= k < s@.skip(start as int).len() implies #[trigger] digit_char(
        s@.skip(start as int)[k],
    ) by {
        assert(s@.skip(start as int)[k] == s@[start + k]);
    }
    true
}

/// The characters of `s` from position `start` on form an origin authority.
fn authority_from(s: &str, n: usize, start: usize) -> (r: bool)
    requires
        n == s@.len(),
        start <= n,
    ensures
        r == origin_authority(s@.skip(start as int)),
{
    let ghost a = s@.skip(start as int);
    if start < n && s.get_char(start) == '[' {
        assert(a[0] == s@[start as int]);
        let mut i = start + 1;
        while i < n && is_ip_char(s.get_char(i))
            invariant
                n == s@.len(),
                start < i <= n,
                a == s@.skip(start as int),
                forall|j: int| start < j < i ==> #[trigger] ip_char(s@[j]),
            decreases n - i,
        {
            i = i + 1;
        }
        assert forall|j: int| 1 <= j < i - start implies #[trigger] ip_char(a[j]) by {
            assert(a[j] == s@[start + j]);
        }
        if i < n {
            assert(a[i - start] == s@[i as int]);
        }
        proof {
            lemma_authority_ip(a, i - start);
        }
        if i == n || i == start + 1 || s.get_char(i) != ']' {
            return false;
        }
        let e = i + 1;
        if e == n {
            return true;
        }
        assert(a[e - start] == s@[e as int]);
        if s.get_char(e) != ':' {
            return false;
        }
        let r = port_from(s, n, e + 1);
        assert(a.skip(e - start + 1) =~= s@.skip(e + 1));
        return r;
    }
    let mut i = start;
    while i < n && is_host_char(s.get_char(i))
        invariant
            n == s@.len(),
            start <= i <= n,
            a == s@.skip(start as int),
            forall|j: int| start <= j < i ==> #[trigger] host_char(s@[j]),
        decreases n - i,
    {
        i = i + 1;
    }
    assert forall|j: int| 0 <= j < i - start implies #[trigger] host_char(a[j]) by {
        assert(a[j] == s@[start + j]);
    }
    if start < n {
        assert(a[0] == s@[start as int]);
    }
    if i < n {
        assert(a[i - start] == s@[i as int]);
    }
    proof {
        lemma_authority_reg(a, i - start);
    }
    if i == start {
        return false;
    }
    if i == n {
        return true;
    }
    if s.get_char(i) != ':' {
        return false;
    }
    let r = port_from(s, n, i + 1);
    assert(a.skip(i - start + 1) =~= s@.skip(i + 1));
    r
}

/// `origin` has the shape `scheme://host[:port]` with scheme `http` or
/// `https`.
pub fn looks_like_origin(origin: &str) -> (r: bool)
    ensures
        r == origin_shape(origin@),
{
    let n = origin.unicode_len();
    if starts_with_http(origin, n) {
        authority_from(origin, n, 7)
    } else if starts_with_https(origin, n) {
        authority_from(origin, n, 8)
    } else {
        proof {
            // `https://` does not start with `http://`: its fifth character is `s`.
            if n >= 8 && origin@.take(8) == https_prefix() {
                assert(origin@.take(7)[4] == origin@.take(8)[4]);
            }
        }
        false
    }
}

/// The error that rejects the origin text `origin`.
fn invalid_origin(origin: &str) -> (e: CorsError)
    ensures
        rejects_origin(e, origin@),
{
    CorsError::InvalidOrigin { origin: String::from_str(origin) }
}

/// Validate one origin string and convert it to a header value.
///
/// Accepts `scheme://host[:port]` (e.g. `https://app.example.com`) with
/// scheme `http` or `https`.
pub fn parse_origin(origin: &str) -> (r: Result<http::HeaderValue, CorsError>)
    ensures
        r is Ok <==> origin_accepted(origin@),
        r matches Ok(v) ==> v == header_value_from_str_of(origin@),
        r matches Err(e) ==> rejects_origin(e, origin@),
{
    if !looks_like_origin(origin) {
        return Err(invalid_origin(origin));
    }
    match header_value_from_str(origin) {
        Ok(v) => Ok(v),
        Err(_) => Err(invalid_origin(origin)),
    }
}

/// A standard method, by name.
fn standard_method(name: &str) -> (m: http::Method)
    requires
        standard_method_name(name@),
    ensures
        m == method_of(name@),
{
    match method_from_str(name) {
        Ok(m) => m,
        Err(_) => vstd::pervasive::unreached(),
    }
}

/// The methods a restrictive layer allows.
fn restrictive_method_list() -> (v: Vec<http::Method>)
    ensures
        v@ == restrictive_methods(),
{
    proof {
        reveal_strlit("GET");
        reveal_strlit("POST");
        reveal_strlit("PUT");
        reveal_strlit("DELETE");
        reveal_strlit("PATCH");
        reveal_strlit("OPTIONS");
        assert("GET"@ =~= seq!['G', 'E', 'T']);
        assert("POST"@ =~= seq!['P', 'O', 'S', 'T']);
        assert("PUT"@ =~= seq!['P', 'U', 'T']);
        assert("DELETE"@ =~= seq!['D', 'E', 'L', 'E', 'T', 'E']);
        assert("PATCH"@ =~= seq!['P', 'A', 'T', 'C', 'H']);
        assert("OPTIONS"@ =~= seq!['O', 'P', 'T', 'I', 'O', 'N', 'S']);
    }
    let v = vec![
        standard_method("GET"),
        standard_method("POST"),
        standard_method("PUT"),
        standard_method("DELETE"),
        standard_method("PATCH"),
        standard_method("OPTIONS"),
    ];
    assert(v@ =~= restrictive_methods());
    v
}

/// Headers allowed on credentialed requests. The CORS rules (and
/// tower-http's checks) forbid `Access-Control-Allow-Headers: *` together
/// with `Access-Control-Allow-Credentials: true`, so credentialed layers
/// enumerate headers explicitly.
fn credentialed_headers() -> (h: tower_http::cors::AllowHeaders)
    ensures
        h == allow_headers_list_of(credentialed_header_names()),
{
    proof {
        reveal_strlit("authorization");
        reveal_strlit("content-type");
        reveal_strlit("accept");
        reveal_strlit("origin");
        reveal_strlit("x-requested-with");
        reveal_strlit("x-csrf-token");
        assert("authorization"@ =~= seq!['a', 'u', 't', 'h', 'o', 'r', 'i', 'z', 'a', 't', 'i', 'o', 'n']);
        assert("content-type"@ =~= seq!['c', 'o', 'n', 't', 'e', 'n', 't', '-', 't', 'y', 'p', 'e']);
        assert("accept"@ =~= seq!['a', 'c', 'c', 'e', 'p', 't']);
        assert("origin"@ =~= seq!['o', 'r', 'i', 'g', 'i', 'n']);
        assert("x-requested-with"@ =~= seq!['x', '-', 'r', 'e', 'q', 'u', 'e', 's', 't', 'e', 'd', '-', 'w', 'i', 't', 'h']);
        assert("x-csrf-token"@ =~= seq!['x', '-', 'c', 's', 'r', 'f', '-', 't', 'o', 'k', 'e', 'n']);
    }
    let names = vec![
        header_name_from_static("authorization"),
        header_name_from_static("content-type"),
        header_name_from_static("accept"),
        header_name_from_static("origin"),
        header_name_from_static("x-requested-with"),
        header_name_from_static("x-csrf-token"),
    ];
    assert(names@ =~= credentialed_header_names());
    allow_headers_list(names)
}

/// Response headers exposed to browser JS on cross-origin requests.
fn exposed_headers() -> (names: Vec<http::HeaderName>)
    ensures
        names@ == exposed_header_names(),
{
    let names = vec![request_id_header()];
    assert(names@ =~= exposed_header_names());
    names
}

/// Create a restrictive CORS layer with explicit origins.
///
/// * `origins` — allowed origins (e.g. `["https://app.example.com"]`).
///   Must be non-empty; an empty slice is [`CorsError::NoOrigins`] rather
///   than a silent allow-all.
/// * `credentials` — whether to allow credentials (cookies, auth headers).
///
/// Returns [`CorsError::InvalidOrigin`] for the first origin that is not a
/// well-formed `scheme://host[:port]` string, and [`CorsError::NoOrigins`]
/// for an empty origin list.
pub fn cors_restrictive(origins: &[&str], credentials: bool) -> (r: Result<
    tower_http::cors::CorsLayer,
    CorsError,
>)
    ensures
        restrictive_outcome(r, origin_texts(origins@), credentials),
{
    let ghost texts = origin_texts(origins@);
    if origins.len() == 0 {
        return Err(CorsError::NoOrigins);
    }
    let base = layer_new();
    let layer;
    if origins.len() == 1 {
        match parse_origin(origins[0]) {
            Ok(origin) => {
                layer = allow_origin_exact(base, origin);
            },
            Err(e) => {
                assert(first_rejected(texts, 0)) by {
                    assert(texts.take(0) =~= Seq::<Seq<char>>::empty());
                }
                assert forall|i: int| #[trigger] first_rejected(texts, i) implies i == 0 by {}
                return Err(e);
            },
        }
        assert(all_accepted(texts));
    } else {
        let mut parsed: Vec<http::HeaderValue> = Vec::with_capacity(origins.len());
        let mut k: usize = 0;
        while k < origins.len()
            invariant
                texts == origin_texts(origins@),
                k <= origins.len(),
                parsed@ == texts.take(k as int).map_values(|t: Seq<char>| header_value_from_str_of(t)),
                all_accepted(texts.take(k as int)),
            decreases origins.len() - k,
        {
            match parse_origin(origins[k]) {
                Ok(v) => {
                    parsed.push(v);
                    assert(texts.take(k + 1) =~= texts.take(k as int).push(texts[k as int]));
                    assert(parsed@ =~= texts.take(k + 1).map_values(|t: Seq<char>| header_value_from_str_of(t)));
                    k = k + 1;
                },
                Err(e) => {
                    assert(first_rejected(texts, k as int));
                    assert forall|i: int| #[trigger] first_rejected(texts, i) implies i == k by {
                        if i < k {
                            assert(texts.take(k as int)[i] == texts[i]);
                        }
                        if i > k {
                            assert(texts.take(i)[k as int] == texts[k as int]);
                        }
                    }
                    return Err(e);
                },
            }
        }
        assert(texts.take(k as int) =~= texts);
        assert forall|i: int| 0 <= i < parsed@.len() implies #[trigger] non_wildcard_header_value(
            parsed@[i],
        ) by {
            let t = texts[i];
            assert(origin_accepted(t));
            assert(t.len() >= 7);
            assert(t != seq!['*']);
            assert(parsed@[i] == header_value_from_str_of(t));
        }
        layer = allow_origin_list(base, parsed);
    }
    let layer = allow_methods_list(layer, restrictive_method_list());
    let layer = if credentials {
        // `*` together with credentials is an illegal CORS combination: enumerate.
        allow_headers(layer, credentialed_headers())
    } else {
        allow_headers_any(layer)
    };
    let layer = max_age_secs(layer, 3600);
    let layer = allow_credentials(layer, credentials);
    let layer = allow_private_network(layer, false);
    let layer = expose_headers_list(layer, exposed_headers());
    assert(layer == restrictive_layer(base, texts, credentials));
    assert forall|i: int| #[trigger] first_rejected(texts, i) implies false by {}
    Ok(layer)
}

/// Create a CORS layer for API-only access: no credentials, specific
/// origins. Fails as [`cors_restrictive`] does.
pub fn cors_api(origins: &[&str]) -> (r: Result<tower_http::cors::CorsLayer, CorsError>)
    ensures
        restrictive_outcome(r, origin_texts(origins@), false),
{
    cors_restrictive(origins, false)
}

} // verus!
