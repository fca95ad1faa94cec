//! The HTTP side of the providers that is plain computation: endpoints, and
//! what a failed HTTP response means.
use vstd::prelude::*;
use crate::message::ProviderError;
use crate::text::{chars_of, decimal, digit_char, push_decimal, push_str};

verus! {

/// Where the Groq API lives.
pub const GROQ_BASE_URL: &'static str = "https://api.groq.com/openai/v1";

/// The model Groq runs when none is asked for.
pub const GROQ_DEFAULT_MODEL: &'static str = "openai/gpt-oss-20b";

/// Where the Gemini API lives.
pub const GEMINI_BASE_URL: &'static str = "https://generativelanguage.googleapis.com/v1beta";

/// The model Gemini runs when none is asked for.
pub const GEMINI_DEFAULT_MODEL: &'static str = "gemini-3.6-flash";

/// Where a local Ollama server listens by default.
pub const OLLAMA_BASE_URL: &'static str = "http://localhost:11434";

/// The model Ollama runs when none is asked for.
pub const OLLAMA_DEFAULT_MODEL: &'static str = "llama3.1";

/// The chat completions endpoint of the Groq API at `base`.
pub fn groq_endpoint(base: &str) -> (r: String)
    ensures
        r@ == base@ + "/chat/completions"@,
{
    let mut s = String::new();
    push_str(&mut s, base);
    push_str(&mut s, "/chat/completions");
    s
}

/// The method of the Gemini API that answers, streamed as server-sent
/// events or in one piece.
pub open spec fn gemini_method(stream: bool) -> Seq<char> {
    if stream {
        "streamGenerateContent?alt=sse"@
    } else {
        "generateContent"@
    }
}

/// The endpoint of `model` in the Gemini API at `base`.
pub fn gemini_endpoint(base: &str, model: &str, stream: bool) -> (r: String)
    ensures
        r@ == base@ + "/models/"@ + model@ + ":"@ + gemini_method(stream),
{
    let mut s = String::new();
    push_str(&mut s, base);
    push_str(&mut s, "/models/");
    push_str(&mut s, model);
    push_str(&mut s, ":");
    if stream {
        push_str(&mut s, "streamGenerateContent?alt=sse");
    } else {
        push_str(&mut s, "generateContent");
    }
    s
}

/// The chat endpoint of the Ollama server at `base`.
pub fn ollama_endpoint(base: &str) -> (r: String)
    ensures
        r@ == base@ + "/api/chat"@,
{
    let mut s = String::new();
    push_str(&mut s, base);
    push_str(&mut s, "/api/chat");
    s
}

/// The reason phrase the `http` crate gives to a status code, if it knows one.
pub uninterp spec fn status_reason(code: u16) -> Option<Seq<char>>;

/// The reason phrase of a status code.
///
/// Calls `StatusCode::from_u16` (which accepts every code from 100 to 999)
/// and then `StatusCode::canonical_reason`; the phrase is named
/// `status_reason(code)`.
#[verifier::external_body]
fn reason_phrase(code: u16) -> (r: Option<&'static str>)
    requires
        100 <= code <= 999,
    ensures
        match r {
            Some(t) => status_reason(code) == Some(t@),
            None => status_reason(code) is None,
        },
{
    match reqwest::StatusCode::from_u16(code) {
        Ok(status) => status.canonical_reason(),
        Err(_) => None,
    }
}

/// A status code as `StatusCode`'s `Display` writes it: the number and the
/// reason phrase.
pub open spec fn status_text(code: u16) -> Seq<char> {
    decimal(code as nat) + " "@ + match status_reason(code) {
        Some(t) => t,
        None => "<unknown status code>"@,
    }
}

/// A status code as `StatusCode`'s `Display` writes it.
pub fn status_line(code: u16) -> (r: String)
    requires
        100 <= code <= 999,
    ensures
        r@ == status_text(code),
{
    let mut s = String::new();
    push_decimal(&mut s, code as u64);
    push_str(&mut s, " ");
    match reason_phrase(code) {
        Some(t) => push_str(&mut s, t),
        None => push_str(&mut s, "<unknown status code>"),
    }
    s
}

/// Whether every character of `s` is an ASCII digit.
pub open spec fn all_digits(s: Seq<char>) -> bool {
    forall|i: int| 0 <= i < s.len() ==> '0' <= #[trigger] s[i] && s[i] <= '9'
}

/// The number the decimal digits `s` write.
pub open spec fn digits_value(s: Seq<char>) -> nat
    decreases s.len(),
{
    if s.len() == 0 {
        0
    } else {
        digits_value(s.drop_last()) * 10 + ((s.last() as nat) - 48) as nat
    }
}

/// What `str::parse::<u64>` makes of `s`: an optional `+` and at least one
/// decimal digit, of a value that fits in a `u64`.
pub open spec fn parsed_u64(s: Seq<char>) -> Option<u64> {
    let d = if s.len() > 0 && s[0] == '+' {
        s.drop_first()
    } else {
        s
    };
    if d.len() > 0 && all_digits(d) && digits_value(d) <= u64::MAX {
        Some(digits_value(d) as u64)
    } else {
        None
    }
}

/// The character of a decimal digit stands for that digit.
proof fn lemma_digit_char(d: nat)
    requires
        d < 10,
    ensures
        '0' <= digit_char(d) <= '9',
        (digit_char(d) as nat) - 48 == d,
{
    assert(((48 + d) as u8) as nat == 48 + d);
}

/// Reading the decimal digits of a number gives the number back.
proof fn lemma_decimal_digits(n: nat)
    ensures
        decimal(n).len() > 0,
        all_digits(decimal(n)),
        digits_value(decimal(n)) == n,
    decreases n,
{
    if n < 10 {
        lemma_digit_char(n);
        let s = decimal(n);
        assert(s == seq![digit_char(n)]);
        assert(s.drop_last() =~= Seq::<char>::empty());
        assert(digits_value(s) == digits_value(s.drop_last()) * 10 + ((s.last() as nat) - 48) as nat);
    } else {
        lemma_decimal_digits(n / 10);
        lemma_digit_char(n % 10);
        assert(n == (n / 10) * 10 + n % 10) by (nonlinear_arith);
        let d = decimal(n / 10);
        let s = d.push(digit_char(n % 10));
        assert(decimal(n) == s);
        assert(s.drop_last() =~= d);
        assert(s.last() == digit_char(n % 10));
        assert(digits_value(s) == digits_value(d) * 10 + ((s.last() as nat) - 48) as nat);
        assert(digits_value(s) == (n / 10) * 10 + n % 10);
        assert forall|i: int| 0 <= i < s.len() implies '0' <= #[trigger] s[i] && s[i] <= '9' by {
            if i < d.len() {
                assert(s[i] == d[i]);
            }
        }
    }
}

/// A number written in decimal, as a `Retry-After` header carries it, is
/// read back as that number: parsing inverts writing for every `u64`.
pub proof fn law_parse_reads_back_decimal(n: u64)
    ensures
        parsed_u64(decimal(n as nat)) == Some(n),
{
    lemma_decimal_digits(n as nat);
    let s = decimal(n as nat);
    assert('0' <= s[0] && s[0] <= '9');
}

proof fn lemma_digits_grow(d: Seq<char>, i: int, j: int)
    requires
        0 <= i <= j <= d.len(),
        all_digits(d),
    ensures
        digits_value(d.take(i)) <= digits_value(d.take(j)),
    decreases j - i,
{
    if i < j {
        lemma_digits_grow(d, i, j - 1);
        assert(d.take(j).drop_last() =~= d.take(j - 1));
        let v = digits_value(d.take(j - 1));
        assert(v <= v * 10) by (nonlinear_arith);
    }
}

/// Reads a decimal number as `str::parse::<u64>` does.
pub fn parse_u64(s: &str) -> (r: Option<u64>)
    ensures
        r == parsed_u64(s@),
{
    let v = chars_of(s);
    let start: usize = if v.len() > 0 && v[0] == '+' {
        1
    } else {
        0
    };
    let ghost d = if s@.len() > 0 && s@[0] == '+' {
        s@.drop_first()
    } else {
        s@
    };
    assert(d =~= v@.subrange(start as int, v@.len() as int));
    if start == v.len() {
        return None;
    }
    let mut acc: u64 = 0;
    let mut i: usize = start;
    while i < v.len()
        invariant
            start <= i <= v@.len(),
            v@ == s@,
            d == v@.subrange(start as int, v@.len() as int),
            d == (if s@.len() > 0 && s@[0] == '+' {
                s@.drop_first()
            } else {
                s@
            }),
            all_digits(d.take(i - start)),
            acc as nat == digits_value(d.take(i - start)),
        decreases v.len() - i,
    {
        let c = v[i];
        if c < '0' || c > '9' {
            assert(d[i - start] == c);
            return None;
        }
        let digit: u64 = (c as u32 - 48) as u64;
        assert(d.take(i - start + 1).drop_last() =~= d.take(i - start));
        assert(d.take(i - start + 1).last() == c);
        if acc > (u64::MAX - digit) / 10 {
            proof {
                assert(acc * 10 + digit > u64::MAX) by (nonlinear_arith)
                    requires
                        acc > (u64::MAX - digit) / 10,
                        digit <= 9,
                ;
                assert(digits_value(d.take(i - start + 1)) == acc * 10 + digit);
                if all_digits(d) {
                    lemma_digits_grow(d, i - start + 1, d.len() as int);
                    assert(d.take(d.len() as int) =~= d);
                }
            }
            return None;
        }
        acc = acc * 10 + digit;
        i = i + 1;
    }
    assert(d.take(i - start) =~= d);
    Some(acc)
}

/// A duration of `secs` whole seconds.
pub uninterp spec fn seconds(secs: u64) -> std::time::Duration;

/// `Duration::from_secs`; the duration is named `seconds(secs)`.
#[verifier::external_body]
fn duration_of_secs(secs: u64) -> (r: std::time::Duration)
    ensures
        r == seconds(secs),
{
    std::time::Duration::from_secs(secs)
}

/// The wait a `Retry-After` header asks for: its value in whole seconds,
/// when it is one.
pub open spec fn retry_wait(header: Option<&str>) -> Option<std::time::Duration> {
    match header {
        Some(h) => match parsed_u64(h@) {
            Some(n) => Some(seconds(n)),
            None => None,
        },
        None => None,
    }
}

/// What a failed response of a provider's API means: a refused key
/// (401, 403), a rate limit with the wait the `Retry-After` header asks for
/// (429), or any other failure, described by the service, the status and
/// the body.
pub open spec fn api_failure(
    service: Seq<char>,
    status: u16,
    retry_after: Option<&str>,
    body: Seq<char>,
    e: ProviderError,
) -> bool {
    if status == 401 || status == 403 {
        e is Auth
    } else if status == 429 {
        e == ProviderError::RateLimited { retry_after: retry_wait(retry_after) }
    } else {
        e matches ProviderError::Other(m) && m@ == service + " api error ("@ + status_text(status)
            + "): "@ + body
    }
}

/// The error a failed response of a provider's API stands for. `service`
/// names the API in messages; `retry_after` is the `Retry-After` header
/// where the API's client reads it.
pub fn api_error(service: &str, status: u16, retry_after: Option<&str>, body: &str) -> (r:
    ProviderError)
    requires
        100 <= status <= 999,
    ensures
        api_failure(service@, status, retry_after, body@, r),
{
    if status == 401 || status == 403 {
        ProviderError::Auth
    } else if status == 429 {
        let wait = match retry_after {
            Some(h) => match parse_u64(h) {
                Some(n) => Some(duration_of_secs(n)),
                None => None,
            },
            None => None,
        };
        ProviderError::RateLimited { retry_after: wait }
    } else {
        let mut m = String::new();
        push_str(&mut m, service);
        push_str(&mut m, " api error (");
        let line = status_line(status);
        push_str(&mut m, line.as_str());
        push_str(&mut m, "): ");
        push_str(&mut m, body);
        ProviderError::Other(m)
    }
}

} // verus!
