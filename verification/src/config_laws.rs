//! What the environment makes of the configuration, and how numbers are read and
//! written: laws on settings, texts and paths.
use vstd::prelude::*;
use vstd::utf8::encode_utf8;

use crate::config::{config_of, digits_value, integer_value, is_digit, u16_error, u64_error};
use crate::config::{unsigned_part, url_scheme, usize_error, ConfigView, Environment, HostAddress};
use crate::path::under;
use crate::text::{bytes_before, decimal, digit_char, is_prefix, joined};

verus! {

/// A decimal is made of digits and has the value that it was made from.
pub proof fn lemma_decimals_are_read_back(n: nat)
    ensures
        integer_value(decimal(n)) == Some(n),
        integer_value(seq!['+'] + decimal(n)) == Some(n),
{
    lemma_digits_of(n);
    let text = decimal(n);
    assert(is_digit(text[0]));
    assert(unsigned_part(text) == text);
    assert((seq!['+'] + text).skip(1) =~= text);
    assert(unsigned_part(seq!['+'] + text) == text);
}

/// The digits of a decimal.
proof fn lemma_digits_of(n: nat)
    ensures
        decimal(n).len() > 0,
        forall|i: int| 0 <= i < decimal(n).len() ==> is_digit(#[trigger] decimal(n)[i]),
        digits_value(decimal(n)) == n,
        n >= 10 ==> decimal(n)[0] != '0',
        0 < n < 10 ==> decimal(n)[0] != '0',
    decreases n,
{
    let text = decimal(n);
    reveal_with_fuel(digits_value, 2);
    if n < 10 {
        assert(text =~= seq![digit_char(n)]);
        assert(text.drop_last() =~= Seq::empty());
        assert(is_digit(text[0]));
    } else {
        lemma_digits_of(n / 10);
        assert(text.drop_last() =~= decimal(n / 10));
        assert(text.last() == digit_char(n % 10));
        assert forall|i: int| 0 <= i < text.len() implies is_digit(#[trigger] text[i]) by {
            if i < text.len() - 1 {
                assert(text[i] == decimal(n / 10)[i]);
            }
        }
        assert(text[0] == decimal(n / 10)[0]);
    }
}

/// A decimal has no needless zero in front, so that each number has one only.
pub proof fn lemma_decimals_are_plain(n: nat, m: nat)
    ensures
        n > 0 ==> decimal(n)[0] != '0',
        decimal(0) == seq!['0'],
        decimal(n) == decimal(m) ==> n == m,
{
    lemma_digits_of(n);
    lemma_digits_of(m);
    assert(decimal(0) =~= seq!['0']);
}

/// Reading digits goes from the left: what stands in front counts ten times for every
/// digit behind it, and a digit counts as what it shows.
pub proof fn lemma_how_digits_count(front: Seq<char>, digit: char)
    requires
        is_digit(digit),
    ensures
        digits_value(Seq::empty()) == 0,
        digits_value(front.push(digit)) == digits_value(front) * 10 + (digit as nat - '0' as nat),
{
    assert(front.push(digit).drop_last() =~= front);
}

/// Whether a text is made of digits, at least one.
pub open spec fn only_digits(text: Seq<char>) -> bool {
    text.len() > 0 && forall|i: int| 0 <= i < text.len() ==> '0' <= #[trigger] text[i] <= '9'
}

/// A text is a number only if it is made of digits, at least one, behind a plus sign at
/// most.
pub proof fn lemma_what_is_a_number(text: Seq<char>)
    ensures
        text.len() > 0 && text[0] == '+' ==> (integer_value(text) is Some <==> only_digits(
            text.subrange(1, text.len() as int),
        )),
        !(text.len() > 0 && text[0] == '+') ==> (integer_value(text) is Some <==> only_digits(
            text,
        )),
        integer_value(Seq::empty()) is None,
        integer_value(seq!['+']) is None,
        integer_value(seq!['-'] + text) is None,
        text.len() > 0 && '0' <= text[0] <= '9' ==> integer_value(seq!['+'] + text)
            == integer_value(text),
{
    if text.len() > 0 && text[0] == '+' {
        assert(text.skip(1) =~= text.subrange(1, text.len() as int));
    }
    let digits = unsigned_part(text);
    if forall|i: int| 0 <= i < digits.len() ==> is_digit(#[trigger] digits[i]) {
        assert forall|i: int| 0 <= i < digits.len() implies '0' <= #[trigger] digits[i] <= '9' by {
            assert(is_digit(digits[i]));
        }
    } else {
        let i = choose|i: int| 0 <= i < digits.len() && !is_digit(#[trigger] digits[i]);
        assert(!('0' <= digits[i] <= '9'));
    }
    assert(seq!['+'].skip(1) =~= Seq::empty());
    let less = seq!['-'] + text;
    assert(less[0] == '-');
    assert(unsigned_part(less) == less);
    assert(!is_digit(less[0]));
    assert((seq!['+'] + text).skip(1) =~= text);
    assert((seq!['+'] + text)[0] == '+');
}

/// What a number in the environment comes to: a default where it is not set, and else
/// the number that its text shows, where it is one and within a limit.
pub open spec fn number_of(value: Option<String>, default: nat, limit: nat) -> Option<nat> {
    match value {
        None => Some(default),
        Some(text) => match integer_value(text@) {
            Some(number) => if number <= limit {
                Some(number)
            } else {
                None
            },
            None => None,
        },
    }
}

/// Where the session is kept: where the environment says, else below the home directory.
pub open spec fn auth_path_of(environment: Environment) -> Option<Seq<u8>> {
    match (environment.auth_path, environment.home) {
        (Some(path), _) => Some(path@),
        (None, Some(home)) => Some(under(home@, encode_utf8(".codex/auth.json"@))),
        (None, None) => None,
    }
}

/// Where Codex is: where the environment says, else at its usual address.
pub open spec fn url_of(environment: Environment) -> Seq<char> {
    match environment.upstream_url {
        Some(url) => url@,
        None => "https://chatgpt.com/backend-api/codex/responses"@,
    }
}

/// Each setting comes from its own variable, or has its default.
pub proof fn lemma_where_the_settings_come_from(
    environment: Environment,
    host: Result<HostAddress, Seq<char>>,
)
    ensures
        config_of(environment, host) matches Ok(config) ==> {
            &&& host == Ok::<HostAddress, Seq<char>>(config.host)
            &&& number_of(environment.port, 18474, 65535) == Some(config.port as nat)
            &&& number_of(environment.max_body_bytes, 4194304, usize::MAX as nat) == Some(
                config.max_body_bytes as nat,
            )
            &&& number_of(environment.max_streams, 16, usize::MAX as nat) == Some(
                config.max_streams as nat,
            )
            &&& number_of(environment.upstream_idle_timeout, 180, u64::MAX as nat) == Some(
                config.upstream_idle_timeout as nat,
            )
            &&& number_of(environment.drain_timeout, 30, u64::MAX as nat) == Some(
                config.drain_timeout as nat,
            )
            &&& config.upstream_url == url_of(environment)
            &&& auth_path_of(environment) == Some(config.auth_path)
        },
{
}

/// Which environments make a configuration: the address loops back, every number is one
/// and fits, the two limits are not zero, Codex is reached by HTTPS, and there is a place
/// for the session.
pub proof fn lemma_which_environments_are_accepted(
    environment: Environment,
    host: Result<HostAddress, Seq<char>>,
)
    ensures
        config_of(environment, host) is Ok <==> {
            &&& host matches Ok(address) && address.loops_back()
            &&& number_of(environment.port, 18474, 65535) is Some
            &&& number_of(environment.max_body_bytes, 4194304, usize::MAX as nat) matches Some(
                bytes,
            ) && bytes > 0
            &&& number_of(environment.max_streams, 16, usize::MAX as nat) matches Some(streams)
                && streams > 0
            &&& number_of(environment.upstream_idle_timeout, 180, u64::MAX as nat) is Some
            &&& number_of(environment.drain_timeout, 30, u64::MAX as nat) is Some
            &&& url_scheme(url_of(environment)) == Ok::<Seq<char>, Seq<char>>("https"@)
            &&& auth_path_of(environment) is Some
        },
{
}

/// What an environment that is not accepted is told: what is wrong with the first
/// variable that is wrong, in the order address, port, limits, times, Codex, session.
pub proof fn lemma_what_a_refused_environment_is_told(
    environment: Environment,
    host: Result<HostAddress, Seq<char>>,
)
    ensures
        ({
            let told = config_of(environment, host);
            let address = host matches Ok(address) && address.loops_back();
            let port = number_of(environment.port, 18474, 65535) is Some;
            let bytes = number_of(environment.max_body_bytes, 4194304, usize::MAX as nat);
            let streams = number_of(environment.max_streams, 16, usize::MAX as nat);
            let limits = address && port && bytes is Some && streams is Some;
            let sound = limits && bytes != Some(0nat) && streams != Some(0nat);
            let idle = number_of(environment.upstream_idle_timeout, 180, u64::MAX as nat) is Some;
            let drain = number_of(environment.drain_timeout, 30, u64::MAX as nat) is Some;
            let timed = sound && idle && drain;
            &&& host matches Err(error) ==> told == refusal(
                "CODEX_FOR_GROK_HOST must be an IP address: "@ + error,
            )
            &&& host matches Ok(other) ==> !other.loops_back() ==> told == refusal(
                "CODEX_FOR_GROK_HOST must be a loopback address"@,
            )
            &&& address && !port ==> told == refusal(
                "CODEX_FOR_GROK_PORT"@ + " must be a valid value: "@ + u16_error(
                    environment.port.unwrap()@,
                ),
            )
            &&& address && port && bytes is None ==> told == refusal(
                "CODEX_FOR_GROK_MAX_BODY_BYTES"@ + " must be a valid value: "@ + usize_error(
                    environment.max_body_bytes.unwrap()@,
                ),
            )
            &&& address && port && bytes is Some && streams is None ==> told == refusal(
                "CODEX_FOR_GROK_MAX_STREAMS"@ + " must be a valid value: "@ + usize_error(
                    environment.max_streams.unwrap()@,
                ),
            )
            &&& limits && !sound ==> told == refusal(
                "bridge request and stream limits must be greater than zero"@,
            )
            &&& sound && !idle ==> told == refusal(
                "CODEX_FOR_GROK_UPSTREAM_IDLE_TIMEOUT_SECS"@ + " must be a valid value: "@
                    + u64_error(environment.upstream_idle_timeout.unwrap()@),
            )
            &&& sound && idle && !drain ==> told == refusal(
                "CODEX_FOR_GROK_DRAIN_TIMEOUT_SECS"@ + " must be a valid value: "@ + u64_error(
                    environment.drain_timeout.unwrap()@,
                ),
            )
            &&& timed ==> match url_scheme(url_of(environment)) {
                Err(error) => told == refusal("invalid CODEX_FOR_GROK_UPSTREAM_URL: "@ + error),
                Ok(scheme) => {
                    &&& scheme != "https"@ ==> told == refusal(
                        "CODEX_FOR_GROK_UPSTREAM_URL must use HTTPS"@,
                    )
                    &&& scheme == "https"@ && auth_path_of(environment) is None ==> told == refusal(
                        "could not determine the Codex auth path"@,
                    )
                },
            }
        }),
{
}

/// What a refused environment is told.
pub open spec fn refusal(message: Seq<char>) -> Result<ConfigView, Seq<char>> {
    Err(message)
}

/// Texts are joined with the separator between each two of them, and nowhere else.
pub proof fn lemma_how_texts_are_joined(
    parts: Seq<Seq<char>>,
    last: Seq<char>,
    separator: Seq<char>,
)
    ensures
        joined(Seq::empty(), separator) == Seq::<char>::empty(),
        joined(seq![last], separator) == last,
        parts.len() > 0 ==> joined(parts.push(last), separator) == joined(parts, separator)
            + separator + last,
{
    assert(parts.push(last).drop_last() =~= parts);
}

/// A text begins with another if and only if the rest can be put behind that one.
pub proof fn lemma_what_begins_with<T>(prefix: Seq<T>, whole: Seq<T>)
    ensures
        is_prefix(prefix, whole) <==> exists|rest: Seq<T>| whole == #[trigger] (prefix + rest),
{
    if is_prefix(prefix, whole) {
        let rest = whole.skip(prefix.len() as int);
        assert(whole =~= prefix + rest);
    } else if exists|rest: Seq<T>| whole == #[trigger] (prefix + rest) {
        let rest = choose|rest: Seq<T>| whole == #[trigger] (prefix + rest);
        assert(whole.subrange(0, prefix.len() as int) =~= prefix);
    }
}

/// Bytes are ordered by the first one that differs, and a beginning comes before the
/// whole.
pub proof fn lemma_how_bytes_are_ordered(
    common: Seq<u8>,
    one: u8,
    left: Seq<u8>,
    other: u8,
    right: Seq<u8>,
)
    ensures
        one < other ==> bytes_before(common + seq![one] + left, common + seq![other] + right),
        one > other ==> !bytes_before(common + seq![one] + left, common + seq![other] + right),
        bytes_before(common, common + seq![other] + right),
        !bytes_before(common + seq![one] + left, common),
        !bytes_before(common, common),
    decreases common.len(),
{
    reveal_with_fuel(bytes_before, 2);
    let first = common + seq![one] + left;
    let second = common + seq![other] + right;
    if common.len() == 0 {
        assert(first[0] == one);
        assert(second[0] == other);
        assert(common =~= Seq::empty());
    } else {
        let rest = common.skip(1);
        lemma_how_bytes_are_ordered(rest, one, left, other, right);
        assert(first.skip(1) =~= rest + seq![one] + left);
        assert(second.skip(1) =~= rest + seq![other] + right);
        assert(first[0] == common[0]);
        assert(second[0] == common[0]);
    }
}

} // verus!
