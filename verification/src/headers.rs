//! Header names, header values and methods of the `http` crate, as the
//! CORS and request-id builders use them.

use vstd::prelude::*;
use vstd::string::StringSliceAdditionalSpecFns;
use vstd::utf8::{encode_scalar, encode_utf8};

verus! {

#[verifier::external_type_specification]
#[verifier::external_body]
pub struct ExHeaderValue(http::HeaderValue);

#[verifier::external_type_specification]
#[verifier::external_body]
pub struct ExInvalidHeaderValue(http::header::InvalidHeaderValue);

#[verifier::external_type_specification]
#[verifier::external_body]
pub struct ExHeaderName(http::HeaderName);

#[verifier::external_type_specification]
#[verifier::external_body]
pub struct ExMethod(http::Method);

#[verifier::external_type_specification]
#[verifier::external_body]
pub struct ExInvalidMethod(http::method::InvalidMethod);

/// A byte that may appear in a header value: visible ASCII, any byte of
/// 128 and above, or a horizontal tab (everything but the other control
/// bytes and DEL).
pub open spec fn header_value_byte_ok(b: u8) -> bool {
    (b >= 32 && b != 127) || b == 9
}

/// Every byte of `bytes` may appear in a header value.
pub open spec fn header_value_bytes_ok(bytes: Seq<u8>) -> bool {
    forall|i: int| 0 <= i < bytes.len() ==> #[trigger] header_value_byte_ok(bytes[i])
}

/// A character whose UTF-8 encoding may appear in a header value: any
/// character but the control characters other than tab, and DEL.
pub open spec fn header_value_char_ok(c: char) -> bool {
    (c >= ' ' && c != '\x7f') || c == '\t'
}

/// Every character of `s` may appear in a header value.
pub open spec fn header_value_text_ok(s: Seq<char>) -> bool {
    forall|i: int| 0 <= i < s.len() ==> #[trigger] header_value_char_ok(s[i])
}

/// Every byte of a UTF-8 encoding two to four bytes long is 128 or more.
proof fn lemma_continuation_bytes_high(x: u32)
    by (bit_vector)
    ensures
        (0xC0 | ((x >> 6) & 0x1F) as u8) >= 128,
        (0xE0 | ((x >> 12) & 0x0F) as u8) >= 128,
        (0xF0 | ((x >> 18) & 0x7) as u8) >= 128,
        (0x80 | (x & 0x3F) as u8) >= 128,
        (0x80 | ((x >> 6) & 0x3F) as u8) >= 128,
        (0x80 | ((x >> 12) & 0x3F) as u8) >= 128,
{
}

/// The bytes of one character are all allowed in a header value exactly
/// when the character is.
proof fn lemma_header_value_scalar_ok(c: char)
    ensures
        header_value_bytes_ok(encode_scalar(c as u32)) <==> header_value_char_ok(c),
{
    let v = c as u32;
    let e = encode_scalar(v);
    if v <= 0x7F {
        assert((v & 0x7F) as u8 == v) by (bit_vector)
            requires
                v <= 0x7F,
        ;
        assert(e.len() == 1 && e[0] == v);
        if header_value_bytes_ok(e) {
            assert(header_value_byte_ok(e[0]));
        }
    } else {
        lemma_continuation_bytes_high(v);
        assert forall|i: int| 0 <= i < e.len() implies #[trigger] header_value_byte_ok(e[i]) by {
            assert(e[i] >= 128);
        }
    }
}

/// The UTF-8 encoding of a text passes the header-value byte check
/// exactly when no character of the text is a control character other
/// than tab, or DEL.
pub proof fn lemma_header_value_text_ok(s: Seq<char>)
    ensures
        header_value_bytes_ok(encode_utf8(s)) <==> header_value_text_ok(s),
    decreases s.len(),
{
    if s.len() > 0 {
        let head = encode_scalar(s[0] as u32);
        let tail = encode_utf8(s.drop_first());
        lemma_header_value_scalar_ok(s[0]);
        lemma_header_value_text_ok(s.drop_first());
        assert(encode_utf8(s) == head + tail);
        if header_value_bytes_ok(head + tail) {
            assert forall|i: int| 0 <= i < head.len() implies #[trigger] header_value_byte_ok(head[i]) by {
                assert((head + tail)[i] == head[i]);
            }
            assert forall|i: int| 0 <= i < tail.len() implies #[trigger] header_value_byte_ok(tail[i]) by {
                assert((head + tail)[head.len() + i] == tail[i]);
            }
            assert forall|i: int| 0 <= i < s.len() implies #[trigger] header_value_char_ok(s[i]) by {
                if i > 0 {
                    assert(s.drop_first()[i - 1] == s[i]);
                }
            }
        }
        if header_value_text_ok(s) {
            assert(header_value_char_ok(s[0]));
            assert forall|i: int| 0 <= i < s.drop_first().len() implies #[trigger] header_value_char_ok(
                s.drop_first()[i],
            ) by {
                assert(s.drop_first()[i] == s[i + 1]);
            }
            assert forall|i: int| 0 <= i < (head + tail).len() implies #[trigger] header_value_byte_ok(
                (head + tail)[i],
            ) by {
                if i < head.len() {
                    assert((head + tail)[i] == head[i]);
                } else {
                    assert((head + tail)[i] == tail[i - head.len()]);
                }
            }
        }
    } else {
        assert(encode_utf8(s) =~= Seq::<u8>::empty());
    }
}

/// The header value that `HeaderValue::from_str` makes of the text `s`.
pub uninterp spec fn header_value_from_str_of(s: Seq<char>) -> http::HeaderValue;

/// Calls `http::HeaderValue::from_str`. Its source checks every byte of the
/// UTF-8 text and fails exactly when one of them is a control byte other
/// than a tab, or DEL; otherwise it copies the bytes into a value that
/// depends on the text alone.
#[verifier::external_body]
pub(crate) fn header_value_from_str(s: &str) -> (r: Result<http::HeaderValue, http::header::InvalidHeaderValue>)
    ensures
        r is Ok <==> header_value_bytes_ok(s.spec_bytes()),
        r matches Ok(v) ==> v == header_value_from_str_of(s@),
{
    http::HeaderValue::from_str(s)
}

/// A character that `HeaderName::from_static` accepts without panicking
/// and keeps as it is: a lower-case ASCII letter, a digit or `-`.
pub open spec fn static_header_name_char(c: char) -> bool {
    ('a' <= c && c <= 'z') || ('0' <= c && c <= '9') || c == '-'
}

/// A text that `HeaderName::from_static` accepts: not empty, at most
/// 65535 characters, and made of lower-case letters, digits and `-` only.
pub open spec fn static_header_name_ok(s: Seq<char>) -> bool {
    &&& 0 < s.len() <= 65535
    &&& forall|i: int| 0 <= i < s.len() ==> #[trigger] static_header_name_char(s[i])
}

/// The header name that `HeaderName::from_static` makes of the text `s`.
pub uninterp spec fn header_name_of(s: Seq<char>) -> http::HeaderName;

/// Calls `http::HeaderName::from_static`. Its source panics on an empty
/// name, on one longer than 65535 bytes, and on a byte outside the
/// lower-case token characters; the `requires` keeps to a subset of the
/// accepted texts. The name it returns depends on the text alone.
#[verifier::external_body]
pub(crate) fn header_name_from_static(s: &'static str) -> (r: http::HeaderName)
    requires
        static_header_name_ok(s@),
    ensures
        r == header_name_of(s@),
{
    http::HeaderName::from_static(s)
}

/// One of the method names that `Method::from_bytes` maps to a standard
/// method: `GET`, `PUT`, `POST`, `HEAD`, `PATCH`, `TRACE`, `QUERY`,
/// `DELETE`, `OPTIONS`, `CONNECT`.
pub open spec fn standard_method_name(s: Seq<char>) -> bool {
    ||| s == seq!['G', 'E', 'T']
    ||| s == seq!['P', 'U', 'T']
    ||| s == seq!['P', 'O', 'S', 'T']
    ||| s == seq!['H', 'E', 'A', 'D']
    ||| s == seq!['P', 'A', 'T', 'C', 'H']
    ||| s == seq!['T', 'R', 'A', 'C', 'E']
    ||| s == seq!['Q', 'U', 'E', 'R', 'Y']
    ||| s == seq!['D', 'E', 'L', 'E', 'T', 'E']
    ||| s == seq!['O', 'P', 'T', 'I', 'O', 'N', 'S']
    ||| s == seq!['C', 'O', 'N', 'N', 'E', 'C', 'T']
}

/// The method that `Method::from_bytes` makes of the bytes of the text `s`.
pub uninterp spec fn method_of(s: Seq<char>) -> http::Method;

/// Calls `http::Method::from_bytes` on the bytes of `s`. Its source maps
/// each standard method name to that method with no error; any result it
/// returns depends on the bytes alone. Which other texts it accepts as
/// extension methods is left unsaid.
#[verifier::external_body]
pub(crate) fn method_from_str(s: &str) -> (r: Result<http::Method, http::method::InvalidMethod>)
    ensures
        standard_method_name(s@) ==> r is Ok,
        r matches Ok(m) ==> m == method_of(s@),
{
    http::Method::from_bytes(s.as_bytes())
}

} // verus!
