//! Addresses and messages of the delta-sync client: base URLs, query
//! encoding, and the error text shown for a failed request.

use vstd::prelude::*;

use crate::router::{resolve_endpoint, spec_resolve_endpoint};
use crate::store::{ConvRow, MemRow, MsgRow};
use crate::text::{append_chars, chars_of, string_of, trim_end_char, trim_end_char_chars};

verus! {

/// Rows pulled since a cursor, and the cursor to pass next time.
pub struct PullResponse {
    pub conversations: Vec<ConvRow>,
    pub messages: Vec<MsgRow>,
    pub memories: Vec<MemRow>,
    pub cursor: String,
}

/// A session obtained by signing up or logging in.
pub struct Auth {
    pub user_id: String,
    pub display_name: String,
    pub profile: String,
    pub session_token: String,
    pub litellm_key: String,
}

/// A device already registered to the account.
pub struct DeviceInfo {
    pub id: String,
    pub name: String,
    pub last_sync: Option<String>,
}

/// What logging in returns: the session and the account's devices.
pub struct LoginResult {
    pub auth: Auth,
    pub devices: Vec<DeviceInfo>,
}

/// Credentials issued to this device.
pub struct DeviceCredentials {
    pub device_id: String,
    pub user_id: String,
    pub device_token: String,
    pub litellm_key: String,
}

/// Upper-case hexadecimal digits.
pub const HEX_UPPER: [char; 16] = [
    '0', '1', '2', '3', '4', '5', '6', '7', '8', '9', 'A', 'B', 'C', 'D', 'E', 'F',
];

/// Decimal digits.
pub const DIGITS: [char; 10] = ['0', '1', '2', '3', '4', '5', '6', '7', '8', '9'];

/// Whether `b` is an unreserved URL byte: an ASCII letter or digit, `-`,
/// `_`, `.` or `~`.
pub open spec fn is_unreserved(b: u8) -> bool {
    (0x41 <= b <= 0x5a) || (0x61 <= b <= 0x7a) || (0x30 <= b <= 0x39) || b == 0x2d || b == 0x5f
        || b == 0x2e || b == 0x7e
}

/// The encoding of one byte: itself when unreserved, else `%` and two
/// upper-case hex digits.
pub open spec fn encode_byte(b: u8) -> Seq<char> {
    if is_unreserved(b) {
        seq![b as char]
    } else {
        seq!['%', HEX_UPPER@[(b / 16) as int], HEX_UPPER@[(b % 16) as int]]
    }
}

/// The percent-encoding of a byte string, byte by byte.
pub open spec fn encode_bytes(bytes: Seq<u8>) -> Seq<char>
    decreases bytes.len(),
{
    if bytes.len() == 0 {
        Seq::<char>::empty()
    } else {
        encode_bytes(bytes.drop_last()) + encode_byte(bytes.last())
    }
}

/// The percent-encoding of the UTF-8 bytes of `s`.
pub open spec fn spec_urlencoding(s: Seq<char>) -> Seq<char> {
    encode_bytes(vstd::utf8::encode_utf8(s))
}

/// The decimal digits of `n`.
pub open spec fn spec_decimal(n: nat) -> Seq<char>
    decreases n,
{
    if n < 10 {
        seq![DIGITS@[n as int]]
    } else {
        spec_decimal(n / 10).push(DIGITS@[(n % 10) as int])
    }
}

/// Whether `c` is one of the decimal digits `0`-`9`.
pub open spec fn is_decimal_digit(c: char) -> bool {
    48 <= (c as u32) <= 57
}

/// The number that a string of decimal digits stands for, most significant
/// digit first.
pub open spec fn decimal_value(s: Seq<char>) -> int
    decreases s.len(),
{
    if s.len() == 0 {
        0
    } else {
        decimal_value(s.drop_last()) * 10 + ((s.last() as u32) - 48)
    }
}

/// The decimal form of a number reads back as that number: it is a
/// non-empty string of digits whose base-10 value is `n`, with no leading
/// zero unless `n` is zero.
pub proof fn law_decimal_reads_back(n: nat)
    ensures
        spec_decimal(n).len() > 0,
        forall|i: int| 0 <= i < spec_decimal(n).len() ==> is_decimal_digit(#[trigger] spec_decimal(n)[i]),
        decimal_value(spec_decimal(n)) == n,
        spec_decimal(n)[0] == '0' ==> n == 0,
    decreases n,
{
    assert(DIGITS@ =~= seq!['0', '1', '2', '3', '4', '5', '6', '7', '8', '9']);
    assert(forall|d: int| 0 <= d < 10 ==> (#[trigger] DIGITS@[d] as u32) == 48 + d);
    let s = spec_decimal(n);
    if n < 10 {
        assert(s.drop_last() =~= Seq::<char>::empty());
        assert(decimal_value(s.drop_last()) == 0);
        assert(s.last() == DIGITS@[n as int]);
        assert(decimal_value(s) == n);
    } else {
        let m = n / 10;
        let d = n % 10;
        assert(m < n && m >= 1);
        law_decimal_reads_back(m);
        let p = spec_decimal(m);
        assert(s == p.push(DIGITS@[d as int]));
        assert(s.drop_last() =~= p);
        assert(s.last() == DIGITS@[d as int]);
        assert(forall|i: int| 0 <= i < p.len() ==> s[i] == #[trigger] p[i]);
        assert(s[s.len() - 1] == DIGITS@[d as int]);
        assert(forall|i: int| 0 <= i < s.len() ==> is_decimal_digit(#[trigger] s[i])) by {
            assert forall|i: int| 0 <= i < s.len() implies is_decimal_digit(#[trigger] s[i]) by {
                if i < p.len() {
                    assert(s[i] == p[i]);
                }
            }
        }
        assert(n == m * 10 + d) by (nonlinear_arith)
            requires
                m == n / 10,
                d == n % 10,
        ;
        assert(decimal_value(s) == decimal_value(p) * 10 + d);
        assert(s[0] == p[0]);
        if p[0] == '0' {
            assert(m == 0);
        }
    }
}

/// The endpoint normalized, without trailing slashes.
pub open spec fn spec_base(endpoint: Seq<char>) -> Seq<char> {
    trim_end_char(spec_resolve_endpoint(endpoint), '/')
}

/// The memory-search URL: the query, then the result count, then the user
/// when one is given.
pub open spec fn spec_memories_search_url(
    base_url: Seq<char>,
    query: Seq<char>,
    user_id: Seq<char>,
    k: u32,
) -> Seq<char> {
    base_url + "/memories/search?q="@ + spec_urlencoding(query) + "&k="@ + spec_decimal(k as nat)
        + if user_id.len() > 0 {
        "&user="@ + spec_urlencoding(user_id)
    } else {
        Seq::<char>::empty()
    }
}

/// The pull URL: `since` and `user` parameters, each only when non-empty.
pub open spec fn spec_pull_url(base_url: Seq<char>, since: Seq<char>, user_id: Seq<char>) -> Seq<
    char,
> {
    let path = base_url + "/sync/pull"@;
    if since.len() > 0 && user_id.len() > 0 {
        path + "?since="@ + spec_urlencoding(since) + "&user="@ + spec_urlencoding(user_id)
    } else if since.len() > 0 {
        path + "?since="@ + spec_urlencoding(since)
    } else if user_id.len() > 0 {
        path + "?user="@ + spec_urlencoding(user_id)
    } else {
        path
    }
}

/// The URL that claims an existing device entry for this install.
pub open spec fn spec_claim_device_url(base_url: Seq<char>, device_id: Seq<char>) -> Seq<char> {
    base_url + "/devices/"@ + spec_urlencoding(device_id) + "/claim"@
}

/// Whether `c` may stand in a query value unescaped: an ASCII letter or
/// digit, `-`, `_`, `.`, `~`, or the `%` that starts an escape.
pub open spec fn is_query_safe(c: char) -> bool {
    let u = c as u32;
    (0x41 <= u <= 0x5a) || (0x61 <= u <= 0x7a) || (0x30 <= u <= 0x39) || u == 0x2d || u == 0x5f
        || u == 0x2e || u == 0x7e || u == 0x25
}

proof fn lemma_encode_byte_safe(b: u8)
    ensures
        forall|i: int| 0 <= i < encode_byte(b).len() ==> is_query_safe(#[trigger] encode_byte(b)[i]),
{
    assert(((b as char) as u32) == b as u32);
    assert(HEX_UPPER@ =~= seq![
        '0', '1', '2', '3', '4', '5', '6', '7', '8', '9', 'A', 'B', 'C', 'D', 'E', 'F',
    ]);
    assert(forall|k: int| 0 <= k < 16 ==> is_query_safe(#[trigger] HEX_UPPER@[k]));
}

/// Percent-encoding leaves only unreserved characters and `%` escapes: no
/// space, `&`, `=`, `?`, `/` or `#` survives, so the result is safe as a
/// query value.
pub proof fn law_urlencoding_is_query_safe(s: Seq<char>)
    ensures
        forall|i: int|
            0 <= i < spec_urlencoding(s).len() ==> is_query_safe(#[trigger] spec_urlencoding(s)[i]),
{
    lemma_encode_bytes_safe(vstd::utf8::encode_utf8(s));
}

/// Percent-encoding is one to one: two strings with the same encoding are
/// the same string, so an encoded query value names its text unambiguously.
pub proof fn law_urlencoding_is_injective(s: Seq<char>, t: Seq<char>)
    ensures
        spec_urlencoding(s) == spec_urlencoding(t) ==> s == t,
{
    if spec_urlencoding(s) == spec_urlencoding(t) {
        lemma_encode_bytes_injective(vstd::utf8::encode_utf8(s), vstd::utf8::encode_utf8(t));
        vstd::utf8::encode_utf8_decode_utf8(s);
        vstd::utf8::encode_utf8_decode_utf8(t);
    }
}

proof fn lemma_encode_bytes_front(bytes: Seq<u8>)
    requires
        bytes.len() > 0,
    ensures
        encode_bytes(bytes) == encode_byte(bytes[0]) + encode_bytes(bytes.skip(1)),
    decreases bytes.len(),
{
    let dl = bytes.drop_last();
    if bytes.len() == 1 {
        assert(bytes.skip(1) =~= Seq::<u8>::empty());
        assert(encode_bytes(dl) == Seq::<char>::empty());
        assert(bytes.last() == bytes[0]);
        assert(encode_bytes(bytes) =~= encode_byte(bytes[0]));
        assert(encode_byte(bytes[0]) + encode_bytes(bytes.skip(1)) =~= encode_byte(bytes[0]));
    } else {
        lemma_encode_bytes_front(dl);
        assert(bytes.skip(1).drop_last() =~= dl.skip(1));
        assert(bytes.skip(1).last() == bytes.last());
        assert(dl[0] == bytes[0]);
        assert(encode_bytes(bytes) =~= encode_byte(bytes[0]) + encode_bytes(bytes.skip(1)));
    }
}

proof fn lemma_encode_bytes_injective(a: Seq<u8>, b: Seq<u8>)
    requires
        encode_bytes(a) == encode_bytes(b),
    ensures
        a == b,
    decreases a.len(),
{
    let out = encode_bytes(a);
    if a.len() == 0 {
        if b.len() > 0 {
            lemma_encode_bytes_front(b);
        }
        assert(a =~= b);
    } else {
        lemma_encode_bytes_front(a);
        if b.len() == 0 {
            assert(out.len() > 0);
        }
        lemma_encode_bytes_front(b);
        let (x, y) = (a[0], b[0]);
        let ex = encode_byte(x);
        let ey = encode_byte(y);
        assert(HEX_UPPER@ =~= seq![
            '0', '1', '2', '3', '4', '5', '6', '7', '8', '9', 'A', 'B', 'C', 'D', 'E', 'F',
        ]);
        assert(((x as char) as u32) == x as u32);
        assert(((y as char) as u32) == y as u32);
        assert(out[0] == ex[0]);
        assert(out[0] == ey[0]);
        if is_unreserved(x) && is_unreserved(y) {
            assert(x == y);
        } else if is_unreserved(x) {
            assert(ey[0] == '%');
        } else if is_unreserved(y) {
            assert(ex[0] == '%');
        } else {
            assert(out[1] == ex[1] && out[1] == ey[1]);
            assert(out[2] == ex[2] && out[2] == ey[2]);
            assert(x / 16 == y / 16 && x % 16 == y % 16);
            assert(x == y) by (nonlinear_arith)
                requires
                    x / 16 == y / 16,
                    x % 16 == y % 16,
            ;
        }
        assert(ex == ey);
        assert(encode_bytes(a.skip(1)) =~= out.skip(ex.len() as int));
        assert(encode_bytes(b.skip(1)) =~= out.skip(ey.len() as int));
        lemma_encode_bytes_injective(a.skip(1), b.skip(1));
        assert(a =~= seq![x] + a.skip(1));
        assert(b =~= seq![y] + b.skip(1));
    }
}

proof fn lemma_encode_bytes_safe(bytes: Seq<u8>)
    ensures
        forall|i: int| 0 <= i < encode_bytes(bytes).len() ==> is_query_safe(#[trigger] encode_bytes(bytes)[i]),
    decreases bytes.len(),
{
    if bytes.len() > 0 {
        lemma_encode_bytes_safe(bytes.drop_last());
        lemma_encode_byte_safe(bytes.last());
        let a = encode_bytes(bytes.drop_last());
        let b = encode_byte(bytes.last());
        assert forall|i: int| 0 <= i < encode_bytes(bytes).len() implies is_query_safe(
            #[trigger] encode_bytes(bytes)[i],
        ) by {
            if i < a.len() {
                assert(encode_bytes(bytes)[i] == a[i]);
            } else {
                assert(encode_bytes(bytes)[i] == b[i - a.len()]);
            }
        }
    }
}

fn push_encoded_byte(out: &mut Vec<char>, b: u8)
    ensures
        final(out)@ == old(out)@ + encode_byte(b),
{
    if (0x41 <= b && b <= 0x5a) || (0x61 <= b && b <= 0x7a) || (0x30 <= b && b <= 0x39) || b
        == 0x2d || b == 0x5f || b == 0x2e || b == 0x7e {
        out.push(b as char);
    } else {
        out.push('%');
        out.push(HEX_UPPER[(b / 16) as usize]);
        out.push(HEX_UPPER[(b % 16) as usize]);
    }
}

/// Minimal percent-encoding for the few query values sent (timestamps,
/// ids, search text): every byte that is not an unreserved URL character
/// becomes `%XX`.
pub fn urlencoding(s: &str) -> (r: String)
    ensures
        r@ == spec_urlencoding(s@),
{
    let bytes = s.as_bytes();
    let mut out: Vec<char> = Vec::new();
    let mut i: usize = 0;
    assert(bytes@.take(0) =~= Seq::<u8>::empty());
    while i < bytes.len()
        invariant
            i <= bytes.len(),
            out@ == encode_bytes(bytes@.take(i as int)),
        decreases bytes.len() - i,
    {
        assert(bytes@.take(i + 1).drop_last() =~= bytes@.take(i as int));
        push_encoded_byte(&mut out, bytes[i]);
        i = i + 1;
    }
    assert(bytes@.take(bytes.len() as int) =~= bytes@);
    string_of(out.as_slice())
}

fn decimal(n: u32) -> (r: Vec<char>)
    ensures
        r@ == spec_decimal(n as nat),
    decreases n,
{
    if n < 10 {
        let mut v: Vec<char> = Vec::new();
        v.push(DIGITS[n as usize]);
        v
    } else {
        let mut v = decimal(n / 10);
        v.push(DIGITS[(n % 10) as usize]);
        v
    }
}

/// The normalized sync endpoint without trailing slashes.
pub fn base(endpoint: &str) -> (r: String)
    ensures
        r@ == spec_base(endpoint@),
{
    let e = resolve_endpoint(endpoint);
    string_of(trim_end_char_chars(chars_of(e.as_str()).as_slice(), '/').as_slice())
}

/// `GET /memories/search` URL for a query, an optional user and a result count.
pub fn memories_search_url(base_url: &str, query: &str, user_id: &str, k: u32) -> (r: String)
    ensures
        r@ == spec_memories_search_url(base_url@, query@, user_id@, k),
{
    let mut out = chars_of(base_url);
    append_chars(&mut out, chars_of("/memories/search?q=").as_slice());
    append_chars(&mut out, chars_of(urlencoding(query).as_str()).as_slice());
    append_chars(&mut out, chars_of("&k=").as_slice());
    append_chars(&mut out, decimal(k).as_slice());
    if !user_id.is_empty() {
        append_chars(&mut out, chars_of("&user=").as_slice());
        append_chars(&mut out, chars_of(urlencoding(user_id).as_str()).as_slice());
    }
    string_of(out.as_slice())
}

/// `GET /sync/pull` URL, with `since` and `user` only when non-empty.
pub fn pull_url(base_url: &str, since: &str, user_id: &str) -> (r: String)
    ensures
        r@ == spec_pull_url(base_url@, since@, user_id@),
{
    let mut out = chars_of(base_url);
    append_chars(&mut out, chars_of("/sync/pull").as_slice());
    if !since.is_empty() {
        append_chars(&mut out, chars_of("?since=").as_slice());
        append_chars(&mut out, chars_of(urlencoding(since).as_str()).as_slice());
    }
    if !user_id.is_empty() {
        if !since.is_empty() {
            append_chars(&mut out, chars_of("&user=").as_slice());
        } else {
            append_chars(&mut out, chars_of("?user=").as_slice());
        }
        append_chars(&mut out, chars_of(urlencoding(user_id).as_str()).as_slice());
    }
    string_of(out.as_slice())
}

/// `POST /devices/:id/claim` URL.
pub fn claim_device_url(base_url: &str, device_id: &str) -> (r: String)
    ensures
        r@ == spec_claim_device_url(base_url@, device_id@),
{
    let mut out = chars_of(base_url);
    append_chars(&mut out, chars_of("/devices/").as_slice());
    append_chars(&mut out, chars_of(urlencoding(device_id).as_str()).as_slice());
    append_chars(&mut out, chars_of("/claim").as_slice());
    string_of(out.as_slice())
}

/// The string that `serde_json` finds under the top-level `"error"` key of
/// `body`, when `body` parses as JSON and that value is a string.
pub uninterp spec fn json_error_field(body: Seq<char>) -> Option<Seq<char>>;

/// Parses `body` with `serde_json::from_str` into a `serde_json::Value` and
/// reads `get("error")` then `as_str()` on it. The claim is that the answer
/// is a function of `body` alone, named `json_error_field`; no JSON grammar
/// is stated.
#[verifier::external_body]
fn error_field_of(body: &str) -> (r: Option<String>)
    ensures
        match r {
            Some(e) => json_error_field(body@) == Some(e@),
            None => json_error_field(body@) is None,
        },
{
    match serde_json::from_str::<serde_json::Value>(body) {
        Ok(v) => match v.get("error") {
            Some(e) => match e.as_str() {
                Some(text) => Some(text.to_string()),
                None => None,
            },
            None => None,
        },
        Err(_) => None,
    }
}

/// The fallback text of a failed sync request: status line and raw body.
pub open spec fn spec_status_text(status: Seq<char>, body: Seq<char>) -> Seq<char> {
    "sync HTTP "@ + status + ": "@ + body
}

/// The message for a failed request, given what the body's `error` field
/// held: that field when there is one, else the status line and raw body.
pub fn error_text(json_error: Option<String>, status: &str, body: &str) -> (r: String)
    ensures
        r@ == match json_error {
            Some(e) => e@,
            None => spec_status_text(status@, body@),
        },
{
    match json_error {
        Some(e) => e,
        None => {
            let mut out = chars_of("sync HTTP ");
            append_chars(&mut out, chars_of(status).as_slice());
            append_chars(&mut out, chars_of(": ").as_slice());
            append_chars(&mut out, chars_of(body).as_slice());
            string_of(out.as_slice())
        },
    }
}

/// Pull the server's `{"error":"..."}` message out of a failed-response
/// body, falling back to the status line (such as `409 Conflict`) and the
/// raw body when the body is not JSON with a string `error` field.
pub fn extract_error(status: &str, body: &str) -> (r: String)
    ensures
        r@ == match json_error_field(body@) {
            Some(e) => e,
            None => spec_status_text(status@, body@),
        },
{
    error_text(error_field_of(body), status, body)
}

} // verus!
