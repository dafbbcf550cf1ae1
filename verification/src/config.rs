//! Runtime configuration, built once at startup from the values of the process's environment
//! variables. Unset variables take their defaults; a port or database index that is not a
//! valid `u16` is treated as unset; an empty session host, password or Sentry DSN is unset.

use vstd::prelude::*;

use crate::text::{decimal, digit_char, lemma_decimal_digits};

verus! {

/// Runtime configuration.
#[derive(Clone, Debug)]
pub struct Config {
    pub port: u16,
    pub shared_url: String,
    /// Base URL for `game-systems-api`.
    pub game_systems_api_url: String,
    pub otlp_endpoint: Option<String>,
    pub log_level: String,
    /// Host of the shared session Redis instance; `None` keeps sessions disabled.
    pub shared_session_redis_host: Option<String>,
    pub shared_session_redis_port: u16,
    /// Logical DB index on the shared Redis instance.
    pub shared_session_redis_db: u16,
    pub shared_session_redis_pass: Option<String>,
    /// Sentry error-reporting DSN; `None` keeps reporting a no-op.
    pub sentry_dsn: Option<String>,
    pub env: String,
}

/// The values of the environment variables the configuration reads, `None` where a variable
/// is unset (or not valid Unicode).
#[derive(Clone, Debug, Default)]
pub struct EnvValues {
    /// `PORT`
    pub port: Option<String>,
    /// `SHARED_URL`
    pub shared_url: Option<String>,
    /// `GAME_SYSTEMS_API_URL`
    pub game_systems_api_url: Option<String>,
    /// `OTEL_EXPORTER_OTLP_ENDPOINT`
    pub otlp_endpoint: Option<String>,
    /// `LOG_LEVEL`
    pub log_level: Option<String>,
    /// `SHARED_SESSION_REDIS_HOST`
    pub shared_session_redis_host: Option<String>,
    /// `SHARED_SESSION_REDIS_PORT`
    pub shared_session_redis_port: Option<String>,
    /// `SHARED_SESSION_REDIS_DB`
    pub shared_session_redis_db: Option<String>,
    /// `SHARED_SESSION_REDIS_PASS`
    pub shared_session_redis_pass: Option<String>,
    /// `SENTRY_DSN`
    pub sentry_dsn: Option<String>,
    /// `ENV`
    pub env: Option<String>,
}

pub open spec fn is_ascii_digit(c: char) -> bool {
    '0' <= c <= '9'
}

pub open spec fn digit_value(c: char) -> nat {
    (c as int - '0' as int) as nat
}

/// The number a string of decimal digits spells.
pub open spec fn digits_value(s: Seq<char>) -> nat
    decreases s.len(),
{
    if s.len() == 0 {
        0
    } else {
        digits_value(s.drop_last()) * 10 + digit_value(s.last())
    }
}

/// `s` without one leading `+`.
pub open spec fn unsigned_part(s: Seq<char>) -> Seq<char> {
    if s.len() > 0 && s[0] == '+' {
        s.drop_first()
    } else {
        s
    }
}

pub open spec fn all_digits(d: Seq<char>) -> bool {
    forall|k: int| 0 <= k < d.len() ==> is_ascii_digit(#[trigger] d[k])
}

/// What `str::parse::<u16>` gives: an optional `+`, then one or more ASCII digits whose value
/// fits in a `u16`.
pub open spec fn parsed_u16(s: Seq<char>) -> Option<u16> {
    let d = unsigned_part(s);
    if d.len() > 0 && all_digits(d) && digits_value(d) <= u16::MAX {
        Some(digits_value(d) as u16)
    } else {
        None
    }
}

proof fn lemma_digits_value_of_decimal(n: nat)
    ensures
        digits_value(decimal(n)) == n,
        decimal(n).len() > 0,
    decreases n,
{
    let d = decimal(n);
    if n >= 10 {
        lemma_digits_value_of_decimal(n / 10);
        assert(d.drop_last() =~= decimal(n / 10));
        assert(d.last() == digit_char(n % 10));
        assert(digit_value(digit_char(n % 10)) == n % 10);
        assert(digits_value(d) == digits_value(decimal(n / 10)) * 10 + n % 10);
        assert((n / 10) * 10 + n % 10 == n) by (nonlinear_arith);
    } else {
        assert(d.drop_last() =~= Seq::<char>::empty());
        assert(digits_value(d.drop_last()) == 0);
        assert(digit_value(digit_char(n)) == n);
        assert(digits_value(d) == digits_value(d.drop_last()) * 10 + digit_value(d.last()));
    }
}

/// Every number a `u16` holds reads back from its decimal text, with or without a leading `+`;
/// an empty text, or one with anything but digits after the optional `+`, reads as nothing.
pub proof fn law_u16_text_reads_back(n: u16, s: Seq<char>)
    ensures
        parsed_u16(decimal(n as nat)) == Some(n),
        parsed_u16(seq!['+'] + decimal(n as nat)) == Some(n),
        parsed_u16(Seq::empty()) is None,
        parsed_u16(seq!['+']) is None,
        (exists|k: int| 0 <= k < unsigned_part(s).len() && !is_ascii_digit(
            #[trigger] unsigned_part(s)[k],
        )) ==> parsed_u16(s) is None,
{
    let d = decimal(n as nat);
    lemma_digits_value_of_decimal(n as nat);
    lemma_decimal_digits(n as nat);
    assert(!(d[0] == '+'));
    assert(unsigned_part(d) == d);
    assert((seq!['+'] + d)[0] == '+');
    assert((seq!['+'] + d).drop_first() =~= d);
    assert(unsigned_part(seq!['+']) =~= Seq::<char>::empty());
}

proof fn lemma_digits_value_grows(s: Seq<char>, i: int, j: int)
    requires
        0 <= i <= j <= s.len(),
        forall|k: int| 0 <= k < s.len() ==> is_ascii_digit(#[trigger] s[k]),
    ensures
        digits_value(s.take(i)) <= digits_value(s.take(j)),
    decreases j - i,
{
    if i < j {
        lemma_digits_value_grows(s, i, j - 1);
        assert(s.take(j).drop_last() =~= s.take(j - 1));
    }
}

/// Parses a `u16` as `str::parse` does.
pub fn parse_u16(s: &str) -> (r: Option<u16>)
    ensures
        r == parsed_u16(s@),
{
    let n = s.unicode_len();
    let start: usize = if n > 0 && s.get_char(0) == '+' {
        1
    } else {
        0
    };
    let ghost d = unsigned_part(s@);
    assert(d =~= s@.subrange(start as int, n as int));
    if start == n {
        return None;
    }
    let mut acc: u32 = 0;
    let mut i: usize = start;
    while i < n
        invariant
            n == s@.len(),
            start <= i <= n,
            d =~= s@.subrange(start as int, n as int),
            d == unsigned_part(s@),
            forall|k: int| 0 <= k < i - start ==> is_ascii_digit(#[trigger] d[k]),
            acc == digits_value(d.take(i - start)),
            acc <= u16::MAX,
        decreases n - i,
    {
        let c = s.get_char(i);
        assert(d[i - start] == c);
        if c < '0' || c > '9' {
            assert(!is_ascii_digit(d[i - start]));
            assert(!all_digits(d));
            assert(parsed_u16(s@) is None);
            return None;
        }
        let v = (c as u32) - ('0' as u32);
        assert(d.take(i - start + 1).drop_last() =~= d.take(i - start));
        let next = acc * 10 + v;
        if next > 65535 {
            proof {
                assert(d.take(i - start + 1).last() == c);
                assert(digits_value(d.take(i - start + 1)) == next);
                if all_digits(d) {
                    lemma_digits_value_grows(d, i - start + 1, d.len() as int);
                    assert(d.take(d.len() as int) =~= d);
                }
                assert(parsed_u16(s@) is None);
            }
            return None;
        }
        acc = next;
        i = i + 1;
    }
    assert(d.take(n - start) =~= d);
    Some(acc as u16)
}

/// A value that counts only when it is not empty.
pub open spec fn non_empty(v: Option<String>) -> Option<String> {
    match v {
        Some(s) => if s@.len() > 0 {
            Some(s)
        } else {
            None
        },
        None => None,
    }
}

/// A number that counts only when it parses.
pub open spec fn number_or(v: Option<String>, default: u16) -> u16 {
    match v {
        Some(s) => match parsed_u16(s@) {
            Some(n) => n,
            None => default,
        },
        None => default,
    }
}

/// A text that takes `default` when unset.
pub open spec fn text_or(v: Option<String>, default: Seq<char>) -> Seq<char> {
    match v {
        Some(s) => s@,
        None => default,
    }
}

fn filter_non_empty(v: Option<String>) -> (r: Option<String>)
    ensures
        r == non_empty(v),
{
    match v {
        Some(s) => if s.as_str().unicode_len() > 0 {
            Some(s)
        } else {
            None
        },
        None => None,
    }
}

fn parse_or(v: &Option<String>, default: u16) -> (r: u16)
    ensures
        r == number_or(*v, default),
{
    match v {
        Some(s) => match parse_u16(s.as_str()) {
            Some(n) => n,
            None => default,
        },
        None => default,
    }
}

fn text_or_default(v: Option<String>, default: &str) -> (r: String)
    ensures
        r@ == text_or(v, default@),
{
    match v {
        Some(s) => s,
        None => String::from_str(default),
    }
}

impl Config {
    /// The configuration the given environment values describe.
    pub fn from_values(vars: EnvValues) -> (r: Config)
        ensures
            r.port == number_or(vars.port, 8080),
            r.shared_url@ == text_or(vars.shared_url, "http://localhost:8081"@),
            r.game_systems_api_url@ == text_or(vars.game_systems_api_url, "http://localhost:8000"@),
            r.otlp_endpoint == vars.otlp_endpoint,
            r.log_level@ == text_or(vars.log_level, "info"@),
            r.shared_session_redis_host == non_empty(vars.shared_session_redis_host),
            r.shared_session_redis_port == number_or(vars.shared_session_redis_port, 6379),
            r.shared_session_redis_db == number_or(vars.shared_session_redis_db, 0),
            r.shared_session_redis_pass == non_empty(vars.shared_session_redis_pass),
            r.sentry_dsn == non_empty(vars.sentry_dsn),
            r.env@ == text_or(vars.env, "dev"@),
    {
        let port = parse_or(&vars.port, 8080);
        let redis_port = parse_or(&vars.shared_session_redis_port, 6379);
        let redis_db = parse_or(&vars.shared_session_redis_db, 0);
        Config {
            port,
            shared_url: text_or_default(vars.shared_url, "http://localhost:8081"),
            game_systems_api_url: text_or_default(vars.game_systems_api_url, "http://localhost:8000"),
            otlp_endpoint: vars.otlp_endpoint,
            log_level: text_or_default(vars.log_level, "info"),
            shared_session_redis_host: filter_non_empty(vars.shared_session_redis_host),
            shared_session_redis_port: redis_port,
            shared_session_redis_db: redis_db,
            shared_session_redis_pass: filter_non_empty(vars.shared_session_redis_pass),
            sentry_dsn: filter_non_empty(vars.sentry_dsn),
            env: text_or_default(vars.env, "dev"),
        }
    }
}

} // verus!
