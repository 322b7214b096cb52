//! What the requests say: every query, key and count can be read back from the address it went
//! into.

use vstd::prelude::*;
use vstd::utf8::*;

use crate::percent::{encoded_byte, encoded_bytes, is_unreserved, law_encoded_safe, percent_encoded};
use crate::providers::{
    bing_request, bing_url, brave_request, brave_url, capped, ddg_url, google_url, GoogleModel,
};
use crate::text::{decimal, digit};

verus! {

/// The number that a hexadecimal digit stands for.
pub open spec fn hex_value(c: char) -> int {
    if '0' <= c <= '9' {
        c as int - 48
    } else if 'A' <= c <= 'F' {
        c as int - 55
    } else {
        c as int - 87
    }
}

/// The bytes that a percent-encoded text stands for: a percent sign and the two hexadecimal digits
/// after it stand for one byte, every other character for itself.
pub open spec fn decoded_bytes(s: Seq<char>) -> Seq<u8>
    decreases s.len(),
{
    if s.len() == 0 {
        Seq::empty()
    } else if s[0] == '%' && s.len() >= 3 {
        seq![(16 * hex_value(s[1]) + hex_value(s[2])) as u8] + decoded_bytes(s.skip(3))
    } else {
        seq![s[0] as u8] + decoded_bytes(s.skip(1))
    }
}

/// The text that a percent-encoded text stands for.
pub open spec fn decoded(s: Seq<char>) -> Seq<char> {
    decode_utf8(decoded_bytes(s))
}

proof fn lemma_decode_byte(b: u8, rest: Seq<char>)
    ensures
        decoded_bytes(encoded_byte(b) + rest) == seq![b] + decoded_bytes(rest),
{
    let s = encoded_byte(b) + rest;
    assert(s[0] == encoded_byte(b)[0]);
    if is_unreserved(b) {
        assert((b as char) as u8 == b);
        assert((b as char) as int == b as int);
        assert(s[0] != '%');
        assert(s.skip(1) =~= rest);
    } else {
        assert(s[1] == encoded_byte(b)[1]);
        assert(s[2] == encoded_byte(b)[2]);
        assert(hex_value(s[1]) == b as int / 16);
        assert(hex_value(s[2]) == b as int % 16);
        assert(16 * (b as int / 16) + b as int % 16 == b as int);
        assert(s.skip(3) =~= rest);
    }
}

proof fn lemma_encoded_first(bytes: Seq<u8>)
    requires
        bytes.len() > 0,
    ensures
        encoded_bytes(bytes) == encoded_byte(bytes[0]) + encoded_bytes(bytes.drop_first()),
{
    let f = |b: u8| encoded_byte(b);
    let pieces = bytes.map_values(f);
    assert(pieces.drop_first() =~= bytes.drop_first().map_values(f));
    assert(pieces.first() == encoded_byte(bytes[0]));
}

proof fn lemma_decode_bytes(bytes: Seq<u8>)
    ensures
        decoded_bytes(encoded_bytes(bytes)) == bytes,
    decreases bytes.len(),
{
    if bytes.len() > 0 {
        lemma_encoded_first(bytes);
        lemma_decode_bytes(bytes.drop_first());
        lemma_decode_byte(bytes[0], encoded_bytes(bytes.drop_first()));
        assert(seq![bytes[0]] + bytes.drop_first() =~= bytes);
    } else {
        assert(encoded_bytes(bytes) =~= Seq::empty());
        assert(decoded_bytes(encoded_bytes(bytes)) =~= bytes);
    }
}

/// A text is encoded as its UTF-8 bytes are. Decoding gives the text back, so two texts with one
/// encoding are the same.
pub proof fn law_decoded(text: Seq<char>)
    ensures
        percent_encoded(text) == encoded_bytes(encode_utf8(text)),
        decoded(percent_encoded(text)) == text,
        forall|other: Seq<char>|
            #[trigger] percent_encoded(other) == percent_encoded(text) ==> other == text,
{
    lemma_decoded(text);
    assert forall|other: Seq<char>|
        #[trigger] percent_encoded(other) == percent_encoded(text) implies other == text by {
        lemma_decoded(other);
    }
}

proof fn lemma_decoded(text: Seq<char>)
    ensures
        decoded(percent_encoded(text)) == text,
{
    lemma_decode_bytes(encode_utf8(text));
    encode_utf8_decode_utf8(text);
}

/// A text is encoded byte by byte. A letter, a digit, `-`, `.`, `_` and `~` stand for themselves;
/// every other byte becomes a percent sign and two hexadecimal digits, in upper case.
pub proof fn law_encoded_bytes(bytes: Seq<u8>)
    ensures
        bytes.len() == 0 ==> encoded_bytes(bytes).len() == 0,
        bytes.len() > 0 ==> {
            let code = bytes[0] as int;
            let piece = encoded_bytes(bytes.take(1));
            &&& encoded_bytes(bytes) == piece + encoded_bytes(bytes.skip(1))
            &&& if 48 <= code <= 57 || 65 <= code <= 90 || 97 <= code <= 122 || code == 45 || code
                == 46 || code == 95 || code == 126 {
                piece.len() == 1 && piece[0] as int == code
            } else {
                &&& piece.len() == 3
                &&& piece[0] == '%'
                &&& hex_value(piece[1]) == code / 16
                &&& hex_value(piece[2]) == code % 16
                &&& piece[1] <= 'F'
                &&& piece[2] <= 'F'
            }
        },
{
    if bytes.len() > 0 {
        let b = bytes[0];
        let one = bytes.take(1);
        lemma_encoded_first(bytes);
        lemma_encoded_first(one);
        assert(bytes.drop_first() =~= bytes.skip(1));
        assert(one.drop_first() =~= Seq::empty());
        assert(encoded_bytes(Seq::empty()) =~= Seq::empty()) by {
            assert(Seq::<u8>::empty().map_values(|b: u8| encoded_byte(b)) =~= Seq::empty());
        }
        assert(encoded_bytes(one) =~= encoded_byte(b));
        if !is_unreserved(b) {
            assert(0 <= b as int / 16 < 16);
            assert(0 <= b as int % 16 < 16);
        } else {
            assert((b as char) as int == b as int);
        }
    } else {
        assert(bytes.map_values(|b: u8| encoded_byte(b)) =~= Seq::empty());
    }
}

/// Whether a text holds none of the characters that end a parameter, stand for a space or start a
/// fragment.
pub open spec fn one_parameter(s: Seq<char>) -> bool {
    forall|i: int|
        0 <= i < s.len() ==> {
            let c = #[trigger] s[i];
            c != '&' && c != '#' && c != '+' && c != ' ' && c != '=' && c != '?' && c != '/'
        }
}

proof fn lemma_one_parameter(text: Seq<char>)
    ensures
        one_parameter(percent_encoded(text)),
{
    law_encoded_safe(text);
    let s = percent_encoded(text);
    assert forall|i: int| 0 <= i < s.len() implies {
        let c = #[trigger] s[i];
        c != '&' && c != '#' && c != '+' && c != ' ' && c != '=' && c != '?' && c != '/'
    } by {
        assert(crate::percent::is_query_safe(s[i]));
    }
}

/// The number that decimal digits stand for.
pub open spec fn number_of(digits: Seq<char>) -> int
    decreases digits.len(),
{
    if digits.len() == 0 {
        0
    } else {
        10 * number_of(digits.drop_last()) + (digits.last() as int - 48)
    }
}

/// Whether `digits` is the decimal notation of `n`: digits only, and no zero in front of others.
pub open spec fn writes(digits: Seq<char>, n: int) -> bool {
    &&& digits.len() > 0
    &&& forall|i: int| 0 <= i < digits.len() ==> '0' <= #[trigger] digits[i] <= '9'
    &&& digits.len() > 1 ==> digits[0] != '0'
    &&& number_of(digits) == n
}

/// `n`, or `limit` where `n` is above it.
pub open spec fn at_most(n: nat, limit: int) -> int {
    if n <= limit {
        n as int
    } else {
        limit
    }
}

/// Decimal notation can be read back, so two numbers never have the same one.
pub proof fn law_decimal(n: nat)
    ensures
        writes(decimal(n), n as int),
    decreases n,
{
    let digits = decimal(n);
    if n < 10 {
        assert(digits.drop_last() =~= Seq::empty());
        assert(digit(n) as int == 48 + n);
        assert(number_of(digits.drop_last()) == 0);
    } else {
        law_decimal(n / 10);
        assert(digits.drop_last() =~= decimal(n / 10));
        assert(digit(n % 10) as int == 48 + n % 10);
        assert forall|i: int| 0 <= i < digits.len() implies '0' <= #[trigger] digits[i] <= '9' by {
            if i < digits.len() - 1 {
                assert(digits[i] == decimal(n / 10)[i]);
            }
        }
        assert(digits[0] == decimal(n / 10)[0]);
        if decimal(n / 10).len() == 1 {
            let c = decimal(n / 10)[0];
            assert(decimal(n / 10).drop_last() =~= Seq::empty());
            assert(number_of(decimal(n / 10).drop_last()) == 0);
            assert(c as int - 48 == (n / 10) as int);
        }
    }
}

/// The address of a DuckDuckGo search is a fixed beginning, the parameter `q` and a fixed end. The
/// query can be read back: decoding the value of `q` gives exactly the query.
pub proof fn law_ddg_address(query: Seq<char>)
    ensures
        ({
            let url = ddg_url(query);
            let start = "https://api.duckduckgo.com/?q="@;
            let end = "&format=json&no_html=1"@;
            let value = url.subrange(start.len() as int, url.len() - end.len());
            &&& url.len() >= start.len() + end.len()
            &&& url == start + value + end
            &&& one_parameter(value)
            &&& decoded(value) == query
        }),
{
    let url = ddg_url(query);
    let start = "https://api.duckduckgo.com/?q="@;
    let end = "&format=json&no_html=1"@;
    let value = url.subrange(start.len() as int, url.len() - end.len());
    assert(value =~= percent_encoded(query));
    lemma_one_parameter(query);
    law_decoded(query);
}

/// Two different queries never have the same address at DuckDuckGo.
pub proof fn law_ddg_address_unique(query: Seq<char>, other: Seq<char>)
    requires
        ddg_url(query) == ddg_url(other),
    ensures
        query == other,
{
    law_ddg_address(query);
    law_ddg_address(other);
}

/// The address of a Brave search is a fixed beginning, the query as it is and the count, which is
/// never above 50.
pub proof fn law_brave_address(query: Seq<char>, max_results: nat)
    ensures
        exists|count: Seq<char>|
            {
                &&& brave_url(query, max_results)
                    == "https://api.search.brave.com/res/v1/web/search?q="@ + query + "&count="@
                    + count
                &&& #[trigger] writes(count, at_most(max_results, 50))
            },
{
    law_decimal(capped(max_results, 50));
    assert(writes(decimal(capped(max_results, 50)), at_most(max_results, 50)));
}

/// Two different queries never have the same address at Brave, for one count.
pub proof fn law_brave_address_unique(query: Seq<char>, other: Seq<char>, max_results: nat)
    requires
        brave_url(query, max_results) == brave_url(other, max_results),
    ensures
        query == other,
{
    let start = "https://api.search.brave.com/res/v1/web/search?q="@;
    let url = brave_url(query, max_results);
    assert(url.subrange(start.len() as int, (start.len() + query.len()) as int) =~= query);
    assert(url.subrange(start.len() as int, (start.len() + other.len()) as int) =~= other);
}

/// The address of a Bing search is a fixed beginning, the parameter `q` and the count, which is
/// never above 50. Decoding the value of `q` gives exactly the query.
pub proof fn law_bing_address(query: Seq<char>, max_results: nat)
    ensures
        exists|value: Seq<char>, count: Seq<char>|
            {
                &&& bing_url(query, max_results)
                    == "https://api.bing.microsoft.com/v7.0/search?q="@ + value + "&count="@ + count
                &&& #[trigger] one_parameter(value)
                &&& decoded(value) == query
                &&& #[trigger] writes(count, at_most(max_results, 50))
            },
{
    law_decimal(capped(max_results, 50));
    lemma_one_parameter(query);
    law_decoded(query);
    assert(one_parameter(percent_encoded(query)));
    assert(writes(decimal(capped(max_results, 50)), at_most(max_results, 50)));
}

proof fn lemma_until_ampersand(x: Seq<char>, t: Seq<char>, y: Seq<char>, u: Seq<char>)
    requires
        one_parameter(x),
        one_parameter(y),
        t.len() > 0,
        t[0] == '&',
        u.len() > 0,
        u[0] == '&',
        x + t == y + u,
    ensures
        x == y,
        t == u,
{
    let s = x + t;
    if x.len() < y.len() {
        assert(s[x.len() as int] == t[0]);
        assert(s[x.len() as int] == y[x.len() as int]);
    } else if y.len() < x.len() {
        assert(s[y.len() as int] == u[0]);
        assert(s[y.len() as int] == x[y.len() as int]);
    }
    assert(s.take(x.len() as int) =~= x);
    assert(s.take(x.len() as int) =~= y);
    assert(s.skip(x.len() as int) =~= t);
    assert(s.skip(x.len() as int) =~= u);
}

proof fn lemma_after_start(start: Seq<char>, a: Seq<char>, b: Seq<char>)
    requires
        start + a == start + b,
    ensures
        a == b,
{
    assert((start + a).skip(start.len() as int) =~= a);
    assert((start + b).skip(start.len() as int) =~= b);
}

/// Two searches with the same address at Bing have the same query and the same count.
pub proof fn law_bing_address_unique(query: Seq<char>, n: nat, other: Seq<char>, m: nat)
    requires
        bing_url(query, n) == bing_url(other, m),
    ensures
        query == other,
        n == m || (n >= 50 && m >= 50),
{
    reveal_strlit("&count=");
    let start = "https://api.bing.microsoft.com/v7.0/search?q="@;
    let x = percent_encoded(query);
    let y = percent_encoded(other);
    let t = "&count="@ + decimal(capped(n, 50));
    let u = "&count="@ + decimal(capped(m, 50));
    assert(bing_url(query, n) =~= start + (x + t));
    assert(bing_url(other, m) =~= start + (y + u));
    lemma_after_start(start, x + t, y + u);
    lemma_one_parameter(query);
    lemma_one_parameter(other);
    lemma_until_ampersand(x, t, y, u);
    law_decoded(query);
    lemma_after_start("&count="@, decimal(capped(n, 50)), decimal(capped(m, 50)));
    law_decimal(capped(n, 50));
    law_decimal(capped(m, 50));
}

/// The address of a Google search is a fixed beginning and the parameters `key`, `cx`, `q` and
/// `num`, which is never above 10. Decoding the first three gives the key, the engine and the
/// query.
pub proof fn law_google_address(provider: GoogleModel, query: Seq<char>, max_results: nat)
    ensures
        exists|key: Seq<char>, cx: Seq<char>, value: Seq<char>, count: Seq<char>|
            {
                &&& google_url(provider, query, max_results)
                    == "https://www.googleapis.com/customsearch/v1?key="@ + key + "&cx="@ + cx
                    + "&q="@ + value + "&num="@ + count
                &&& #[trigger] one_parameter(key)
                &&& #[trigger] one_parameter(cx)
                &&& #[trigger] one_parameter(value)
                &&& decoded(key) == provider.api_key
                &&& decoded(cx) == provider.cx
                &&& decoded(value) == query
                &&& #[trigger] writes(count, at_most(max_results, 10))
            },
{
    law_decimal(capped(max_results, 10));
    lemma_one_parameter(provider.api_key);
    lemma_one_parameter(provider.cx);
    lemma_one_parameter(query);
    law_decoded(provider.api_key);
    law_decoded(provider.cx);
    law_decoded(query);
    let key = percent_encoded(provider.api_key);
    let cx = percent_encoded(provider.cx);
    let value = percent_encoded(query);
    let count = decimal(capped(max_results, 10));
    assert(google_url(provider, query, max_results)
        == "https://www.googleapis.com/customsearch/v1?key="@ + key + "&cx="@ + cx + "&q="@ + value
        + "&num="@ + count);
    assert(one_parameter(key) && one_parameter(cx) && one_parameter(value));
    assert(writes(count, at_most(max_results, 10)));
}

/// Two searches with the same address at Google have the same key, engine, query and count.
pub proof fn law_google_address_unique(
    provider: GoogleModel,
    query: Seq<char>,
    n: nat,
    other_provider: GoogleModel,
    other: Seq<char>,
    m: nat,
)
    requires
        google_url(provider, query, n) == google_url(other_provider, other, m),
    ensures
        provider.api_key == other_provider.api_key,
        provider.cx == other_provider.cx,
        query == other,
        n == m || (n >= 10 && m >= 10),
{
    reveal_strlit("&cx=");
    reveal_strlit("&q=");
    reveal_strlit("&num=");
    let start = "https://www.googleapis.com/customsearch/v1?key="@;
    let a = percent_encoded(provider.api_key);
    let b = percent_encoded(provider.cx);
    let c = percent_encoded(query);
    let d = decimal(capped(n, 10));
    let e = percent_encoded(other_provider.api_key);
    let f = percent_encoded(other_provider.cx);
    let g = percent_encoded(other);
    let h = decimal(capped(m, 10));
    let t3 = "&num="@ + d;
    let u3 = "&num="@ + h;
    let t2 = "&q="@ + (c + t3);
    let u2 = "&q="@ + (g + u3);
    let t1 = "&cx="@ + (b + t2);
    let u1 = "&cx="@ + (f + u2);
    assert(google_url(provider, query, n) =~= start + (a + t1));
    assert(google_url(other_provider, other, m) =~= start + (e + u1));
    lemma_one_parameter(provider.api_key);
    lemma_one_parameter(provider.cx);
    lemma_one_parameter(query);
    lemma_one_parameter(other_provider.api_key);
    lemma_one_parameter(other_provider.cx);
    lemma_one_parameter(other);
    lemma_after_start(start, a + t1, e + u1);
    lemma_until_ampersand(a, t1, e, u1);
    lemma_after_start("&cx="@, b + t2, f + u2);
    lemma_until_ampersand(b, t2, f, u2);
    lemma_after_start("&q="@, c + t3, g + u3);
    lemma_until_ampersand(c, t3, g, u3);
    lemma_after_start("&num="@, d, h);
    law_decoded(provider.api_key);
    law_decoded(provider.cx);
    law_decoded(query);
    law_decimal(capped(n, 10));
    law_decimal(capped(m, 10));
}

/// Brave and Bing are handed the key in a header; Brave is also told which answer is understood.
pub proof fn law_request_headers(api_key: Seq<char>, query: Seq<char>, max_results: nat)
    ensures
        brave_request(api_key, query, max_results).url == brave_url(query, max_results),
        brave_request(api_key, query, max_results).headers.len() == 2,
        brave_request(api_key, query, max_results).headers[0].0 == "X-Subscription-Token"@,
        brave_request(api_key, query, max_results).headers[0].1 == api_key,
        brave_request(api_key, query, max_results).headers[1].0 == "Accept"@,
        brave_request(api_key, query, max_results).headers[1].1 == "application/json"@,
        bing_request(api_key, query, max_results).url == bing_url(query, max_results),
        bing_request(api_key, query, max_results).headers.len() == 1,
        bing_request(api_key, query, max_results).headers[0].0 == "Ocp-Apim-Subscription-Key"@,
        bing_request(api_key, query, max_results).headers[0].1 == api_key,
{
}

} // verus!
