//! What the CORS presets guarantee, stated setting by setting.
//!
//! Every builder method of `CorsLayer` replaces one setting of the layer
//! and keeps the others (tower-http's source assigns one field and returns
//! the layer). So a layer's value for a setting is the one given by the
//! last builder call of that kind. The laws below say, for each preset,
//! which value each setting was last given, whatever the origins and the
//! credentials flag.

use vstd::prelude::*;

use crate::cors::{
    origin_accepted, origin_authority, origin_shape, permissive_layer, restrictive_outcome,
    restrictive_layer, host, host_and_port, host_char, digit_char, port_text, reg_name,
    lemma_origin_accepted_text, http_prefix, https_prefix,
};
use crate::cors_layer::{
    allow_credentials_of, allow_headers_any_of, allow_headers_list_of, allow_headers_of,
    allow_methods_any_of, allow_methods_list_of, allow_origin_any_of, allow_origin_exact_of,
    allow_origin_list_of, allow_private_network_of, expose_headers_list_of, max_age_secs_of,
};
use crate::headers::{header_name_of, header_value_from_str_of, method_of};

verus! {

/// One builder call of a CORS layer, with its argument.
pub ghost enum CorsSetting {
    /// `allow_origin(Any)`
    OriginAny,
    /// `allow_origin(origin)`
    OriginExact(http::HeaderValue),
    /// `allow_origin(origins)`
    OriginList(Seq<http::HeaderValue>),
    /// `allow_methods(Any)`
    MethodsAny,
    /// `allow_methods(methods)`
    MethodsList(Seq<http::Method>),
    /// `allow_headers(Any)`
    HeadersAny,
    /// `allow_headers(headers)`
    Headers(tower_http::cors::AllowHeaders),
    /// `max_age(Duration::from_secs(secs))`
    MaxAgeSecs(u64),
    /// `allow_credentials(allow)`
    Credentials(bool),
    /// `allow_private_network(allow)`
    PrivateNetwork(bool),
    /// `expose_headers(names)`
    Expose(Seq<http::HeaderName>),
}

/// Which setting of the layer a builder call replaces.
pub open spec fn setting_kind(s: CorsSetting) -> int {
    match s {
        CorsSetting::OriginAny | CorsSetting::OriginExact(_) | CorsSetting::OriginList(_) => 0,
        CorsSetting::MethodsAny | CorsSetting::MethodsList(_) => 1,
        CorsSetting::HeadersAny | CorsSetting::Headers(_) => 2,
        CorsSetting::MaxAgeSecs(_) => 3,
        CorsSetting::Credentials(_) => 4,
        CorsSetting::PrivateNetwork(_) => 5,
        CorsSetting::Expose(_) => 6,
    }
}

/// The layer after one builder call.
pub open spec fn apply_setting(
    layer: tower_http::cors::CorsLayer,
    s: CorsSetting,
) -> tower_http::cors::CorsLayer {
    match s {
        CorsSetting::OriginAny => allow_origin_any_of(layer),
        CorsSetting::OriginExact(v) => allow_origin_exact_of(layer, v),
        CorsSetting::OriginList(vs) => allow_origin_list_of(layer, vs),
        CorsSetting::MethodsAny => allow_methods_any_of(layer),
        CorsSetting::MethodsList(ms) => allow_methods_list_of(layer, ms),
        CorsSetting::HeadersAny => allow_headers_any_of(layer),
        CorsSetting::Headers(h) => allow_headers_of(layer, h),
        CorsSetting::MaxAgeSecs(secs) => max_age_secs_of(layer, secs),
        CorsSetting::Credentials(b) => allow_credentials_of(layer, b),
        CorsSetting::PrivateNetwork(b) => allow_private_network_of(layer, b),
        CorsSetting::Expose(names) => expose_headers_list_of(layer, names),
    }
}

/// The layer after a sequence of builder calls, in order.
pub open spec fn apply_settings(
    layer: tower_http::cors::CorsLayer,
    steps: Seq<CorsSetting>,
) -> tower_http::cors::CorsLayer
    decreases steps.len(),
{
    if steps.len() == 0 {
        layer
    } else {
        apply_settings(apply_setting(layer, steps[0]), steps.drop_first())
    }
}

/// `layer` was last given the setting `s`: it is some layer with `s`
/// applied, followed by builder calls that replace other settings only.
pub open spec fn last_set(layer: tower_http::cors::CorsLayer, s: CorsSetting) -> bool {
    exists|x: tower_http::cors::CorsLayer, steps: Seq<CorsSetting>|
        #![trigger apply_settings(apply_setting(x, s), steps)]
        (forall|i: int| 0 <= i < steps.len() ==> #[trigger] setting_kind(steps[i]) != setting_kind(s))
            && layer == apply_settings(apply_setting(x, s), steps)
}

/// Every setting a restrictive layer is built with, for accepted origins
/// and the credentials flag `c`:
/// - origins: the one origin exactly, or the list of all of them, each
///   parsed as a header value;
/// - methods: GET, POST, PUT, DELETE, PATCH, OPTIONS, with or without
///   credentials;
/// - request headers: with credentials, `authorization`, `content-type`,
///   `accept`, `origin`, `x-requested-with`, `x-csrf-token`; without, any;
/// - preflight cached for 3600 seconds;
/// - credentials allowed exactly when `c`, however many origins there are;
/// - private-network access off; `x-request-id` exposed.
pub proof fn lemma_restrictive_settings(
    r: Result<tower_http::cors::CorsLayer, crate::cors::CorsError>,
    texts: Seq<Seq<char>>,
    c: bool,
)
    requires
        restrictive_outcome(r, texts, c),
        r is Ok,
    ensures
        last_set(r->Ok_0, CorsSetting::Credentials(c)),
        last_set(
            r->Ok_0,
            CorsSetting::MethodsList(
                seq![
                    method_of(seq!['G', 'E', 'T']),
                    method_of(seq!['P', 'O', 'S', 'T']),
                    method_of(seq!['P', 'U', 'T']),
                    method_of(seq!['D', 'E', 'L', 'E', 'T', 'E']),
                    method_of(seq!['P', 'A', 'T', 'C', 'H']),
                    method_of(seq!['O', 'P', 'T', 'I', 'O', 'N', 'S']),
                ],
            ),
        ),
        c ==> last_set(
            r->Ok_0,
            CorsSetting::Headers(
                allow_headers_list_of(
                    seq![
                        header_name_of(seq!['a', 'u', 't', 'h', 'o', 'r', 'i', 'z', 'a', 't', 'i', 'o', 'n']),
                        header_name_of(seq!['c', 'o', 'n', 't', 'e', 'n', 't', '-', 't', 'y', 'p', 'e']),
                        header_name_of(seq!['a', 'c', 'c', 'e', 'p', 't']),
                        header_name_of(seq!['o', 'r', 'i', 'g', 'i', 'n']),
                        header_name_of(
                            seq!['x', '-', 'r', 'e', 'q', 'u', 'e', 's', 't', 'e', 'd', '-', 'w', 'i', 't', 'h'],
                        ),
                        header_name_of(seq!['x', '-', 'c', 's', 'r', 'f', '-', 't', 'o', 'k', 'e', 'n']),
                    ],
                ),
            ),
        ),
        !c ==> last_set(r->Ok_0, CorsSetting::HeadersAny),
        last_set(r->Ok_0, CorsSetting::MaxAgeSecs(3600)),
        last_set(r->Ok_0, CorsSetting::PrivateNetwork(false)),
        last_set(
            r->Ok_0,
            CorsSetting::Expose(
                seq![header_name_of(seq!['x', '-', 'r', 'e', 'q', 'u', 'e', 's', 't', '-', 'i', 'd'])],
            ),
        ),
        texts.len() == 1 ==> last_set(
            r->Ok_0,
            CorsSetting::OriginExact(header_value_from_str_of(texts[0])),
        ),
        texts.len() > 1 ==> last_set(
            r->Ok_0,
            CorsSetting::OriginList(
                Seq::new(texts.len(), |i: int| header_value_from_str_of(texts[i])),
            ),
        ),
{
    reveal_with_fuel(apply_settings, 8);
    let layer = r->Ok_0;
    let base = choose|base: tower_http::cors::CorsLayer| layer == #[trigger] restrictive_layer(base, texts, c);
    let names = seq![
        header_name_of(seq!['a', 'u', 't', 'h', 'o', 'r', 'i', 'z', 'a', 't', 'i', 'o', 'n']),
        header_name_of(seq!['c', 'o', 'n', 't', 'e', 'n', 't', '-', 't', 'y', 'p', 'e']),
        header_name_of(seq!['a', 'c', 'c', 'e', 'p', 't']),
        header_name_of(seq!['o', 'r', 'i', 'g', 'i', 'n']),
        header_name_of(
            seq!['x', '-', 'r', 'e', 'q', 'u', 'e', 's', 't', 'e', 'd', '-', 'w', 'i', 't', 'h'],
        ),
        header_name_of(seq!['x', '-', 'c', 's', 'r', 'f', '-', 't', 'o', 'k', 'e', 'n']),
    ];
    let methods = seq![
        method_of(seq!['G', 'E', 'T']),
        method_of(seq!['P', 'O', 'S', 'T']),
        method_of(seq!['P', 'U', 'T']),
        method_of(seq!['D', 'E', 'L', 'E', 'T', 'E']),
        method_of(seq!['P', 'A', 'T', 'C', 'H']),
        method_of(seq!['O', 'P', 'T', 'I', 'O', 'N', 'S']),
    ];
    let exposed = seq![header_name_of(seq!['x', '-', 'r', 'e', 'q', 'u', 'e', 's', 't', '-', 'i', 'd'])];
    let origin = if texts.len() == 1 {
        CorsSetting::OriginExact(header_value_from_str_of(texts[0]))
    } else {
        CorsSetting::OriginList(Seq::new(texts.len(), |i: int| header_value_from_str_of(texts[i])))
    };
    if texts.len() != 1 {
        assert(texts.map_values(|t: Seq<char>| header_value_from_str_of(t)) =~= Seq::new(
            texts.len(),
            |i: int| header_value_from_str_of(texts[i]),
        ));
    }
    let hdr = if c {
        CorsSetting::Headers(allow_headers_list_of(names))
    } else {
        CorsSetting::HeadersAny
    };
    let all = seq![
        origin,
        CorsSetting::MethodsList(methods),
        hdr,
        CorsSetting::MaxAgeSecs(3600),
        CorsSetting::Credentials(c),
        CorsSetting::PrivateNetwork(false),
        CorsSetting::Expose(exposed),
    ];
    assert(layer == apply_settings(base, all));
    assert forall|j: int| 0 <= j < 7 implies last_set(layer, #[trigger] all[j]) by {
        let x = apply_settings(base, all.take(j));
        let rest = all.skip(j + 1);
        lemma_apply_split(base, all, j);
        assert forall|i: int| 0 <= i < rest.len() implies #[trigger] setting_kind(rest[i])
            != setting_kind(all[j]) by {
            assert(rest[i] == all[j + 1 + i]);
        }
        assert(layer == apply_settings(apply_setting(x, all[j]), rest));
    }
    assert(last_set(layer, all[0]));
    assert(last_set(layer, all[1]));
    assert(last_set(layer, all[2]));
    assert(last_set(layer, all[3]));
    assert(last_set(layer, all[4]));
    assert(last_set(layer, all[5]));
    assert(last_set(layer, all[6]));
}

/// Applying a sequence of builder calls is applying its first `j`, then
/// the call at `j`, then the rest.
pub proof fn lemma_apply_split(
    layer: tower_http::cors::CorsLayer,
    steps: Seq<CorsSetting>,
    j: int,
)
    requires
        0 <= j < steps.len(),
    ensures
        apply_settings(layer, steps) == apply_settings(
            apply_setting(apply_settings(layer, steps.take(j)), steps[j]),
            steps.skip(j + 1),
        ),
    decreases j,
{
    if j == 0 {
        assert(steps.take(0) =~= Seq::<CorsSetting>::empty());
        assert(steps.drop_first() =~= steps.skip(1));
    } else {
        let first = apply_setting(layer, steps[0]);
        let tail = steps.drop_first();
        lemma_apply_split(first, tail, j - 1);
        assert(tail.take(j - 1) =~= steps.take(j).drop_first());
        assert(steps.take(j)[0] == steps[0]);
        assert(tail.skip(j) =~= steps.skip(j + 1));
        assert(tail[j - 1] == steps[j]);
    }
}

/// Every setting of the permissive preset: any origin, any method, any
/// request header, preflight cached for 3600 seconds, no credentials, no
/// private-network access, no exposed response header.
pub proof fn lemma_permissive_settings(layer: tower_http::cors::CorsLayer)
    requires
        exists|base: tower_http::cors::CorsLayer| layer == #[trigger] permissive_layer(base),
    ensures
        last_set(layer, CorsSetting::OriginAny),
        last_set(layer, CorsSetting::MethodsAny),
        last_set(layer, CorsSetting::HeadersAny),
        last_set(layer, CorsSetting::MaxAgeSecs(3600)),
        last_set(layer, CorsSetting::Credentials(false)),
        last_set(layer, CorsSetting::PrivateNetwork(false)),
        last_set(layer, CorsSetting::Expose(Seq::empty())),
{
    reveal_with_fuel(apply_settings, 8);
    let base = choose|base: tower_http::cors::CorsLayer| layer == #[trigger] permissive_layer(base);
    let all = seq![
        CorsSetting::OriginAny,
        CorsSetting::MethodsAny,
        CorsSetting::HeadersAny,
        CorsSetting::MaxAgeSecs(3600),
        CorsSetting::Credentials(false),
        CorsSetting::PrivateNetwork(false),
        CorsSetting::Expose(Seq::empty()),
    ];
    assert(layer == apply_settings(base, all));
    assert forall|j: int| 0 <= j < 7 implies last_set(layer, #[trigger] all[j]) by {
        let x = apply_settings(base, all.take(j));
        let rest = all.skip(j + 1);
        lemma_apply_split(base, all, j);
        assert forall|i: int| 0 <= i < rest.len() implies #[trigger] setting_kind(rest[i])
            != setting_kind(all[j]) by {
            assert(rest[i] == all[j + 1 + i]);
        }
        assert(layer == apply_settings(apply_setting(x, all[j]), rest));
    }
    assert(last_set(layer, all[0]));
    assert(last_set(layer, all[1]));
    assert(last_set(layer, all[2]));
    assert(last_set(layer, all[3]));
    assert(last_set(layer, all[4]));
    assert(last_set(layer, all[5]));
    assert(last_set(layer, all[6]));
}

/// `http://` (or `https://` when `secure`) followed by `rest`.
pub open spec fn with_scheme(secure: bool, rest: Seq<char>) -> Seq<char> {
    if secure {
        seq!['h', 't', 't', 'p', 's', ':', '/', '/'] + rest
    } else {
        seq!['h', 't', 't', 'p', ':', '/', '/'] + rest
    }
}

/// Texts made of ASCII letters, digits, `-` and `.` only, and not empty:
/// ordinary host names such as `localhost` or `app.example.com`.
pub open spec fn plain_host_name(h: Seq<char>) -> bool {
    &&& h.len() > 0
    &&& forall|i: int|
        0 <= i < h.len() ==> {
            let c = #[trigger] h[i];
            ('a' <= c && c <= 'z') || ('A' <= c && c <= 'Z') || ('0' <= c && c <= '9') || c == '-'
                || c == '.'
        }
}

/// An ordinary host name is a host.
proof fn lemma_plain_host(h: Seq<char>)
    requires
        plain_host_name(h),
    ensures
        host(h),
{
    assert forall|i: int| 0 <= i < h.len() implies #[trigger] host_char(h[i]) by {
        let c = h[i];
        assert(('a' <= c && c <= 'z') || ('A' <= c && c <= 'Z') || ('0' <= c && c <= '9') || c
            == '-' || c == '.');
    }
    assert(reg_name(h));
}

/// A well-formed authority after a scheme prefix makes an accepted origin.
proof fn lemma_scheme_and_authority(secure: bool, a: Seq<char>)
    requires
        origin_authority(a),
    ensures
        origin_accepted(with_scheme(secure, a)),
{
    let s = with_scheme(secure, a);
    if secure {
        assert(s.take(8) =~= https_prefix());
        assert(s.skip(8) =~= a);
    } else {
        assert(s.take(7) =~= http_prefix());
        assert(s.skip(7) =~= a);
    }
    assert(origin_shape(s));
    lemma_origin_accepted_text(s);
}

/// Every origin `http://host` or `https://host` whose host is made of
/// ASCII letters (any of them, either case), digits, `-` and `.` is
/// accepted by `parse_origin` and the restrictive presets.
pub proof fn lemma_plain_origin_accepted(secure: bool, h: Seq<char>)
    requires
        plain_host_name(h),
    ensures
        origin_accepted(with_scheme(secure, h)),
{
    lemma_plain_host(h);
    lemma_scheme_and_authority(secure, h);
}

/// Every origin `http://host:port` or `https://host:port` whose host is
/// made of ASCII letters, digits, `-` and `.` and whose port is one or
/// more decimal digits (any of `0` to `9`) is accepted.
pub proof fn lemma_plain_origin_with_port_accepted(secure: bool, h: Seq<char>, p: Seq<char>)
    requires
        plain_host_name(h),
        p.len() > 0,
        forall|i: int| 0 <= i < p.len() ==> '0' <= #[trigger] p[i] && p[i] <= '9',
    ensures
        origin_accepted(with_scheme(secure, h + seq![':'] + p)),
{
    lemma_plain_host(h);
    let a = h + seq![':'] + p;
    let k = h.len() as int;
    assert(a.take(k) =~= h);
    assert(a.skip(k + 1) =~= p);
    assert(a[k] == ':');
    assert forall|i: int| 0 <= i < p.len() implies #[trigger] digit_char(p[i]) by {
        assert('0' <= p[i] && p[i] <= '9');
    }
    assert(port_text(p));
    assert(host_and_port(a, k));
    lemma_scheme_and_authority(secure, a);
}

/// A character that never stands after the scheme of an accepted origin:
/// `/` (a path), `?` (a query), `#` (a fragment), `@` (user information),
/// `\`, a space, or a control character.
pub open spec fn outside_origin_char(c: char) -> bool {
    c == '/' || c == '?' || c == '#' || c == '@' || c == '\\' || c == ' ' || c < ' ' || c == '\x7f'
}

/// No character of an authority is outside the origin characters.
proof fn lemma_authority_excludes(a: Seq<char>)
    requires
        origin_authority(a),
    ensures
        forall|i: int| 0 <= i < a.len() ==> !outside_origin_char(#[trigger] a[i]),
{
    if host(a) {
        assert forall|i: int| 0 <= i < a.len() implies !outside_origin_char(#[trigger] a[i]) by {
            if reg_name(a) {
                assert(host_char(a[i]));
            } else if 1 <= i < a.len() - 1 {
                assert(crate::cors::ip_char(a[i]));
            }
        }
    } else {
        let k = choose|k: int| #[trigger] host_and_port(a, k);
        let h = a.take(k);
        assert forall|i: int| 0 <= i < a.len() implies !outside_origin_char(#[trigger] a[i]) by {
            if i < k {
                assert(h[i] == a[i]);
                if reg_name(h) {
                    assert(host_char(h[i]));
                } else if 1 <= i < h.len() - 1 {
                    assert(crate::cors::ip_char(h[i]));
                }
            } else if i > k {
                assert(a.skip(k + 1)[i - k - 1] == a[i]);
                assert(digit_char(a.skip(k + 1)[i - k - 1]));
            }
        }
    }
}

/// An accepted origin is `http://` or `https://` followed by a non-empty
/// authority in which no path, query, fragment, user information, `\`,
/// space or control character stands.
pub proof fn lemma_accepted_origin_has_no_extras(s: Seq<char>)
    requires
        origin_accepted(s),
    ensures
        exists|secure: bool, a: Seq<char>|
            #![trigger with_scheme(secure, a)]
            s == with_scheme(secure, a) && a.len() > 0 && forall|i: int|
                0 <= i < a.len() ==> !outside_origin_char(#[trigger] a[i]),
{
    if s.len() >= 7 && s.take(7) == http_prefix() && origin_authority(s.skip(7)) {
        let a = s.skip(7);
        lemma_authority_excludes(a);
        assert(s =~= with_scheme(false, a));
        if a.len() == 0 {
            assert(!host(a));
            assert forall|k: int| !#[trigger] host_and_port(a, k) by {}
        }
    } else {
        let a = s.skip(8);
        lemma_authority_excludes(a);
        assert(s =~= with_scheme(true, a));
        if a.len() == 0 {
            assert(!host(a));
            assert forall|k: int| !#[trigger] host_and_port(a, k) by {}
        }
    }
}

} // verus!
