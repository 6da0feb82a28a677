//! The settings of the server, and how they follow from the command line
//! and the environment.
//!
//! Reading the environment is the host's business. What it finds is
//! handed in as [`EnvValues`]; which value wins is decided here.

use crate::text::{
    all_digits, chars_of, has_at, is_digit, matches_at, push_range, push_str, same_chars,
    starts_with, string_of, strings_view,
};
use vstd::prelude::*;

verus! {

/// The port that is listened on where none is set.
pub const DEFAULT_HTTP_PORT: u16 = 6621;

/// The settings of the server.
#[derive(Clone, Debug, PartialEq, Eq)]
pub struct OpenRouterConfig {
    pub api_key: String,
    pub base_url: String,
    pub http_referer: String,
    pub x_title: String,
    pub http_port: u16,
    pub model: String,
    pub sse_keep_alive_secs: Option<u64>,
}

/// Mathematical value of an [`OpenRouterConfig`].
pub struct OpenRouterConfigView {
    pub api_key: Seq<char>,
    pub base_url: Seq<char>,
    pub http_referer: Seq<char>,
    pub x_title: Seq<char>,
    pub http_port: u16,
    pub model: Seq<char>,
    pub sse_keep_alive_secs: Option<u64>,
}

impl View for OpenRouterConfig {
    type V = OpenRouterConfigView;

    open spec fn view(&self) -> OpenRouterConfigView {
        OpenRouterConfigView {
            api_key: self.api_key@,
            base_url: self.base_url@,
            http_referer: self.http_referer@,
            x_title: self.x_title@,
            http_port: self.http_port,
            model: self.model@,
            sse_keep_alive_secs: self.sse_keep_alive_secs,
        }
    }
}

/// What the environment holds of the variables that matter; `None` for a
/// variable that is not set.
#[derive(Clone, Debug, PartialEq, Eq)]
pub struct EnvValues {
    /// `OPENROUTER_API_KEY`
    pub api_key: Option<String>,
    /// `OPENROUTER_BASE_URL`
    pub base_url: Option<String>,
    /// `HTTP_REFERER`
    pub http_referer: Option<String>,
    /// `X_TITLE`
    pub x_title: Option<String>,
    /// `MCP_HTTP_PORT`
    pub http_port: Option<String>,
    /// `MCP_SSE_KEEP_ALIVE_SECS`
    pub sse_keep_alive_secs: Option<String>,
    /// `MCP_MODEL`
    pub model: Option<String>,
}

/// Mathematical value of [`EnvValues`].
pub struct EnvValuesView {
    pub api_key: Option<Seq<char>>,
    pub base_url: Option<Seq<char>>,
    pub http_referer: Option<Seq<char>>,
    pub x_title: Option<Seq<char>>,
    pub http_port: Option<Seq<char>>,
    pub sse_keep_alive_secs: Option<Seq<char>>,
    pub model: Option<Seq<char>>,
}

/// Mathematical value of an optional string.
pub open spec fn option_view(o: Option<String>) -> Option<Seq<char>> {
    match o {
        Some(s) => Some(s@),
        None => None,
    }
}

impl View for EnvValues {
    type V = EnvValuesView;

    open spec fn view(&self) -> EnvValuesView {
        EnvValuesView {
            api_key: option_view(self.api_key),
            base_url: option_view(self.base_url),
            http_referer: option_view(self.http_referer),
            x_title: option_view(self.x_title),
            http_port: option_view(self.http_port),
            sse_keep_alive_secs: option_view(self.sse_keep_alive_secs),
            model: option_view(self.model),
        }
    }
}

/// No API key is given, neither on the command line nor in the
/// environment.
#[derive(Clone, Copy, Debug, PartialEq, Eq, Structural)]
pub struct MissingApiKey;

/// `s` without every leading occurrence of `pat`.
pub open spec fn without_leading(s: Seq<char>, pat: Seq<char>) -> Seq<char>
    decreases s.len(),
{
    if pat.len() > 0 && starts_with(s, pat) {
        without_leading(s.subrange(pat.len() as int, s.len() as int), pat)
    } else {
        s
    }
}

/// The value that the arguments from index `i` on give to the option
/// `flag`.
///
/// The first argument that is `flag` itself and has a successor gives the
/// successor; the first that starts with `flag=` gives what follows; of
/// the two, the one that comes first decides.
pub open spec fn flag_value_from(args: Seq<Seq<char>>, flag: Seq<char>, i: int) -> Option<
    Seq<char>,
>
    decreases args.len() - i,
{
    if i < 0 || i >= args.len() {
        None
    } else if args[i] == flag && i + 1 < args.len() {
        Some(args[i + 1])
    } else if starts_with(args[i], flag + seq!['=']) {
        Some(without_leading(args[i], flag + seq!['=']))
    } else {
        flag_value_from(args, flag, i + 1)
    }
}

/// The value that the arguments give to the option `flag`.
pub open spec fn flag_value(args: Seq<Seq<char>>, flag: Seq<char>) -> Option<Seq<char>> {
    flag_value_from(args, flag, 0)
}

/// The number that a run of decimal digits stands for.
pub open spec fn digits_value(s: Seq<char>) -> nat
    decreases s.len(),
{
    if s.len() == 0 {
        0
    } else {
        digits_value(s.drop_last()) * 10 + ((s.last() as u32 - '0' as u32) as nat)
    }
}

/// The number that `s` is the notation of, if it is one and does not
/// exceed `max`: decimal digits, at least one, with or without a `+` in
/// front.
pub open spec fn parsed_unsigned(s: Seq<char>, max: nat) -> Option<nat> {
    let digits = if s.len() > 0 && s[0] == '+' {
        s.subrange(1, s.len() as int)
    } else {
        s
    };
    if digits.len() > 0 && all_digits(digits) && digits_value(digits) <= max {
        Some(digits_value(digits))
    } else {
        None
    }
}

/// The first of two optional values that is there.
pub open spec fn first_of(a: Option<Seq<char>>, b: Option<Seq<char>>) -> Option<Seq<char>> {
    match a {
        Some(x) => Some(x),
        None => b,
    }
}

/// The value, or `default` where there is none.
pub open spec fn or_default(a: Option<Seq<char>>, default: Seq<char>) -> Seq<char> {
    match a {
        Some(x) => x,
        None => default,
    }
}

/// The port that the environment asks for; the default where it names
/// none, or none that is a port.
pub open spec fn port_of(text: Option<Seq<char>>) -> u16 {
    match text {
        Some(t) => match parsed_unsigned(t, u16::MAX as nat) {
            Some(n) => n as u16,
            None => DEFAULT_HTTP_PORT,
        },
        None => DEFAULT_HTTP_PORT,
    }
}

/// The keep-alive interval that the environment asks for, if it names one.
pub open spec fn keep_alive_of(text: Option<Seq<char>>) -> Option<u64> {
    match text {
        Some(t) => match parsed_unsigned(t, u64::MAX as nat) {
            Some(n) => Some(n as u64),
            None => None,
        },
        None => None,
    }
}

/// The settings that follow from the command line and the environment.
///
/// The API key and the model are taken from the command line first, then
/// from the environment; the key must be there, the model has a default.
pub open spec fn resolved(args: Seq<Seq<char>>, env: EnvValuesView) -> Result<
    OpenRouterConfigView,
    MissingApiKey,
> {
    match first_of(flag_value(args, "--api-key"@), env.api_key) {
        None => Err(MissingApiKey),
        Some(api_key) => Ok(
            OpenRouterConfigView {
                api_key,
                base_url: or_default(env.base_url, "https://openrouter.ai/api/v1"@),
                http_referer: or_default(env.http_referer, "http://localhost:3000"@),
                x_title: or_default(env.x_title, "OpenRouter MCP Server (Rust)"@),
                http_port: port_of(env.http_port),
                model: or_default(
                    first_of(flag_value(args, "--model"@), env.model),
                    "google/gemini-2.5-flash-preview-06-17"@,
                ),
                sse_keep_alive_secs: keep_alive_of(env.sse_keep_alive_secs),
            },
        ),
    }
}

/// The headers that every request carries, as names and values.
pub open spec fn headers_of(c: OpenRouterConfigView) -> Seq<(Seq<char>, Seq<char>)> {
    seq![
        ("authorization"@, "Bearer "@ + c.api_key),
        ("http-referer"@, c.http_referer),
        ("x-title"@, c.x_title),
        ("content-type"@, "application/json"@),
    ]
}

/// View of a list of pairs of strings.
pub open spec fn pairs_view(v: Seq<(String, String)>) -> Seq<(Seq<char>, Seq<char>)> {
    Seq::new(v.len(), |i: int| (v[i].0@, v[i].1@))
}

/// A longer run of digits stands for no smaller number than its start.
proof fn lemma_digits_value_grows(s: Seq<char>, k: int)
    requires
        0 <= k <= s.len(),
    ensures
        digits_value(s.take(k)) <= digits_value(s),
    decreases s.len(),
{
    if k == s.len() {
        assert(s.take(k) =~= s);
    } else {
        assert(s.drop_last().take(k) =~= s.take(k));
        lemma_digits_value_grows(s.drop_last(), k);
    }
}

/// `s` without every leading occurrence of `pat`.
fn strip_leading(s: &Vec<char>, pat: &Vec<char>) -> (r: Vec<char>)
    ensures
        r@ == without_leading(s@, pat@),
{
    let mut from: usize = 0;
    assert(s@.subrange(0, s.len() as int) =~= s@);
    while pat.len() > 0 && matches_at(s, from, pat)
        invariant
            from <= s.len(),
            without_leading(s@, pat@) == without_leading(
                s@.subrange(from as int, s.len() as int),
                pat@,
            ),
        decreases s.len() - from,
    {
        let ghost rest = s@.subrange(from as int, s.len() as int);
        assert(starts_with(rest, pat@)) by {
            assert forall|k: int| 0 <= k < pat@.len() implies rest[0 + k] == #[trigger] pat@[k] by {
                assert(s@[from + k] == pat@[k]);
            }
        }
        assert(rest.subrange(pat.len() as int, rest.len() as int) =~= s@.subrange(
            from + pat.len(),
            s.len() as int,
        ));
        from = from + pat.len();
    }
    proof {
        let rest = s@.subrange(from as int, s.len() as int);
        if pat.len() > 0 && starts_with(rest, pat@) {
            assert forall|k: int| 0 <= k < pat@.len() implies s@[from + k] == #[trigger] pat@[
                k
            ] by {
                assert(rest[0 + k] == pat@[k]);
            }
            assert(has_at(s@, from as int, pat@));
        }
    }
    let mut r: Vec<char> = Vec::new();
    push_range(&mut r, s, from, s.len());
    r
}

/// The value that the arguments give to the option `flag`.
pub fn flag_from_args(args: &[String], flag: &str) -> (r: Option<String>)
    ensures
        option_view(r) == flag_value(strings_view(args@), flag@),
{
    let name = chars_of(flag);
    let mut assigned: Vec<char> = Vec::new();
    push_str(&mut assigned, flag);
    assigned.push('=');
    assert(assigned@ =~= flag@ + seq!['=']);
    let ghost all = strings_view(args@);
    let mut i: usize = 0;
    while i < args.len()
        invariant
            i <= args.len(),
            all == strings_view(args@),
            name@ == flag@,
            assigned@ == flag@ + seq!['='],
            flag_value(all, flag@) == flag_value_from(all, flag@, i as int),
        decreases args.len() - i,
    {
        let arg = chars_of(args[i].as_str());
        assert(all[i as int] == arg@);
        if same_chars(&arg, &name) && i + 1 < args.len() {
            assert(all[i + 1] == args@[i + 1]@);
            return Some(args[i + 1].clone());
        }
        if matches_at(&arg, 0, &assigned) {
            return Some(string_of(&strip_leading(&arg, &assigned)));
        }
        i = i + 1;
    }
    None
}

/// The number that `s` is the notation of, if it does not exceed `max`.
pub fn parse_unsigned(s: &str, max: u64) -> (r: Option<u64>)
    ensures
        match r {
            Some(n) => parsed_unsigned(s@, max as nat) == Some(n as nat),
            None => parsed_unsigned(s@, max as nat) is None,
        },
{
    let chars = chars_of(s);
    let start: usize = if chars.len() > 0 && chars[0] == '+' {
        1
    } else {
        0
    };
    let ghost digits = chars@.subrange(start as int, chars.len() as int);
    assert(start == 0 ==> digits =~= chars@);
    assert(digits == if s@.len() > 0 && s@[0] == '+' {
        s@.subrange(1, s@.len() as int)
    } else {
        s@
    });
    if start == chars.len() {
        return None;
    }
    let mut value: u64 = 0;
    let mut i: usize = start;
    assert(digits.take(0) =~= Seq::<char>::empty());
    while i < chars.len()
        invariant
            start <= i <= chars.len(),
            start < chars.len(),
            digits == chars@.subrange(start as int, chars.len() as int),
            digits == if s@.len() > 0 && s@[0] == '+' {
                s@.subrange(1, s@.len() as int)
            } else {
                s@
            },
            all_digits(digits.take(i - start)),
            value == digits_value(digits.take(i - start)),
            value <= max,
        decreases chars.len() - i,
    {
        let c = chars[i];
        let ghost k = i - start;
        assert(digits[k] == c);
        if c < '0' || c > '9' {
            assert(!is_digit(digits[k]));
            assert(!all_digits(digits));
            return None;
        }
        let d: u64 = (c as u32 - '0' as u32) as u64;
        let next: u128 = value as u128 * 10 + d as u128;
        assert(digits.take(k + 1).drop_last() =~= digits.take(k));
        assert(digits.take(k + 1).last() == c);
        assert(next == digits_value(digits.take(k + 1)));
        if next > max as u128 {
            proof {
                lemma_digits_value_grows(digits, k + 1);
                assert(digits_value(digits) > max);
            }
            return None;
        }
        assert forall|j: int| 0 <= j < digits.take(k + 1).len() implies is_digit(
            #[trigger] digits.take(k + 1)[j],
        ) by {
            if j < k {
                assert(digits.take(k)[j] == digits.take(k + 1)[j]);
            }
        }
        value = next as u64;
        i = i + 1;
    }
    assert(digits.take(chars.len() - start) =~= digits);
    Some(value)
}

/// The value, or `default` where there is none.
fn value_or(value: &Option<String>, default: &str) -> (r: String)
    ensures
        r@ == or_default(option_view(*value), default@),
{
    match value {
        Some(v) => v.clone(),
        None => default.to_owned(),
    }
}

impl OpenRouterConfig {
    /// The API key that the command line gives: the argument behind
    /// `--api-key`, or what follows `--api-key=`.
    pub fn get_api_key_from_args(args: &[String]) -> (r: Option<String>)
        ensures
            option_view(r) == flag_value(strings_view(args@), "--api-key"@),
    {
        flag_from_args(args, "--api-key")
    }

    /// The model that the command line gives: the argument behind
    /// `--model`, or what follows `--model=`.
    pub fn get_model_from_args(args: &[String]) -> (r: Option<String>)
        ensures
            option_view(r) == flag_value(strings_view(args@), "--model"@),
    {
        flag_from_args(args, "--model")
    }

    /// The settings that follow from the command line `args` and from
    /// `env`, what the environment holds.
    pub fn from_env(args: &[String], env: &EnvValues) -> (r: Result<
        OpenRouterConfig,
        MissingApiKey,
    >)
        ensures
            match r {
                Ok(c) => resolved(strings_view(args@), env@) == Ok::<
                    OpenRouterConfigView,
                    MissingApiKey,
                >(c@),
                Err(e) => resolved(strings_view(args@), env@) == Err::<
                    OpenRouterConfigView,
                    MissingApiKey,
                >(e),
            },
    {
        let api_key = match OpenRouterConfig::get_api_key_from_args(args) {
            Some(k) => k,
            None => match &env.api_key {
                Some(k) => k.clone(),
                None => {
                    return Err(MissingApiKey);
                },
            },
        };
        let http_port = match &env.http_port {
            Some(t) => match parse_unsigned(t.as_str(), 65535) {
                Some(n) => n as u16,
                None => DEFAULT_HTTP_PORT,
            },
            None => DEFAULT_HTTP_PORT,
        };
        let sse_keep_alive_secs = match &env.sse_keep_alive_secs {
            Some(t) => parse_unsigned(t.as_str(), u64::MAX),
            None => None,
        };
        let model = match OpenRouterConfig::get_model_from_args(args) {
            Some(m) => m,
            None => value_or(&env.model, "google/gemini-2.5-flash-preview-06-17"),
        };
        Ok(
            OpenRouterConfig {
                api_key,
                base_url: value_or(&env.base_url, "https://openrouter.ai/api/v1"),
                http_referer: value_or(&env.http_referer, "http://localhost:3000"),
                x_title: value_or(&env.x_title, "OpenRouter MCP Server (Rust)"),
                http_port,
                model,
                sse_keep_alive_secs,
            },
        )
    }

    /// The headers that every request carries, as names and values.
    pub fn get_headers(&self) -> (r: Vec<(String, String)>)
        ensures
            pairs_view(r@) == headers_of(self@),
    {
        let mut bearer: Vec<char> = Vec::new();
        push_str(&mut bearer, "Bearer ");
        push_str(&mut bearer, self.api_key.as_str());
        let mut r: Vec<(String, String)> = Vec::new();
        r.push(("authorization".to_owned(), string_of(&bearer)));
        r.push(("http-referer".to_owned(), self.http_referer.clone()));
        r.push(("x-title".to_owned(), self.x_title.clone()));
        r.push(("content-type".to_owned(), "application/json".to_owned()));
        assert(pairs_view(r@) =~= headers_of(self@));
        r
    }
}

} // verus!
