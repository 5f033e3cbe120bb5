//! The configuration of the bridge, read from environment variables.
use vstd::prelude::*;
use vstd::utf8::encode_utf8;

use crate::path::{join_path, under};
use crate::setup::optional_path;
use crate::text::{concat, concat3, optional_text, same_text};

verus! {

/// The port that the bridge listens on where nothing else is set.
pub const DEFAULT_PORT: u16 = 18_474;

/// The largest request body, in bytes, where nothing else is set.
pub const DEFAULT_MAX_BODY_BYTES: usize = 4_194_304;

/// The number of streams at a time where nothing else is set.
pub const DEFAULT_MAX_STREAMS: usize = 16;

/// The seconds that a stream may be idle where nothing else is set.
pub const DEFAULT_IDLE_TIMEOUT_SECS: u64 = 180;

/// The seconds that a shutdown may take where nothing else is set.
pub const DEFAULT_DRAIN_TIMEOUT_SECS: u64 = 30;

/// Where requests are sent where nothing else is set.
pub const CODEX_URL: &'static str = "https://chatgpt.com/backend-api/codex/responses";

/// An address of a host.
#[derive(Clone, Copy, Debug, PartialEq, Eq)]
pub enum HostAddress {
    V4 { octets: [u8; 4] },
    V6 { segments: [u16; 8] },
}

impl HostAddress {
    /// Whether the address stands for the machine itself: it is one of
    /// `127.0.0.0/8`, or it is `::1`.
    pub open spec fn loops_back(self) -> bool {
        match self {
            HostAddress::V4 { octets } => octets[0] == 127,
            HostAddress::V6 { segments } => segments@ == seq![
                0u16,
                0u16,
                0u16,
                0u16,
                0u16,
                0u16,
                0u16,
                1u16,
            ],
        }
    }

    /// Whether the address stands for the machine itself.
    pub fn is_loopback(&self) -> (r: bool)
        ensures
            r == self.loops_back(),
    {
        match self {
            HostAddress::V4 { octets } => octets[0] == 127,
            HostAddress::V6 { segments } => {
                let r = segments[0] == 0 && segments[1] == 0 && segments[2] == 0 && segments[3] == 0
                    && segments[4] == 0 && segments[5] == 0 && segments[6] == 0 && segments[7] == 1;
                proof {
                    let one = seq![0u16, 0u16, 0u16, 0u16, 0u16, 0u16, 0u16, 1u16];
                    if r {
                        assert(segments@ =~= one);
                    } else if segments@ == one {
                        assert(segments@[0] == 0 && segments@[1] == 0 && segments@[2] == 0
                            && segments@[3] == 0 && segments@[4] == 0 && segments@[5] == 0
                            && segments@[6] == 0 && segments@[7] == 1);
                    }
                }
                r
            },
        }
    }
}

/// Whether a character is a decimal digit.
pub open spec fn is_digit(ch: char) -> bool {
    '0' <= ch <= '9'
}

/// The number that decimal digits stand for.
pub open spec fn digits_value(digits: Seq<char>) -> nat
    decreases digits.len(),
{
    if digits.len() == 0 {
        0
    } else {
        digits_value(digits.drop_last()) * 10 + (digits.last() as nat - '0' as nat) as nat
    }
}

/// The digits of a number that may have a plus sign before them.
pub open spec fn unsigned_part(text: Seq<char>) -> Seq<char> {
    if text.len() > 0 && text[0] == '+' {
        text.skip(1)
    } else {
        text
    }
}

/// The number that a text stands for: an optional plus sign and then decimal
/// digits alone, at least one.
pub open spec fn integer_value(text: Seq<char>) -> Option<nat> {
    let digits = unsigned_part(text);
    if digits.len() > 0 && forall|i: int| 0 <= i < digits.len() ==> is_digit(#[trigger] digits[i]) {
        Some(digits_value(digits))
    } else {
        None
    }
}

/// Whether a text stands for a number up to `limit`.
pub open spec fn fits(text: Seq<char>, limit: nat) -> bool {
    match integer_value(text) {
        Some(value) => value <= limit,
        None => false,
    }
}

/// The error text of `str::parse::<u16>`.
pub uninterp spec fn u16_error(text: Seq<char>) -> Seq<char>;

/// The error text of `str::parse::<u64>`.
pub uninterp spec fn u64_error(text: Seq<char>) -> Seq<char>;

/// The error text of `str::parse::<usize>`.
pub uninterp spec fn usize_error(text: Seq<char>) -> Seq<char>;

/// `str::parse::<u16>`: the number that the text stands for, where it is one
/// and fits.
#[verifier::external_body]
fn parse_u16(text: &str) -> (r: Result<u16, String>)
    ensures
        r is Ok <==> fits(text@, u16::MAX as nat),
        match r {
            Ok(value) => integer_value(text@) == Some(value as nat),
            Err(error) => error@ == u16_error(text@),
        },
{
    text.parse::<u16>().map_err(|error| error.to_string())
}

/// `str::parse::<u64>`: the number that the text stands for, where it is one
/// and fits.
#[verifier::external_body]
fn parse_u64(text: &str) -> (r: Result<u64, String>)
    ensures
        r is Ok <==> fits(text@, u64::MAX as nat),
        match r {
            Ok(value) => integer_value(text@) == Some(value as nat),
            Err(error) => error@ == u64_error(text@),
        },
{
    text.parse::<u64>().map_err(|error| error.to_string())
}

/// `str::parse::<usize>`: the number that the text stands for, where it is one
/// and fits.
#[verifier::external_body]
pub(crate) fn parse_usize(text: &str) -> (r: Result<usize, String>)
    ensures
        r is Ok <==> fits(text@, usize::MAX as nat),
        match r {
            Ok(value) => integer_value(text@) == Some(value as nat),
            Err(error) => error@ == usize_error(text@),
        },
{
    text.parse::<usize>().map_err(|error| error.to_string())
}

/// The scheme of the address that `reqwest::Url::parse` reads from a text; where
/// it fails, the text of its error.
pub uninterp spec fn url_scheme(text: Seq<char>) -> Result<Seq<char>, Seq<char>>;

/// `reqwest::Url::parse`: the scheme of the address, or the text of the error.
#[verifier::external_body]
fn scheme_of(text: &str) -> (r: Result<String, String>)
    ensures
        crate::text::text_result(r) == url_scheme(text@),
{
    match reqwest::Url::parse(text) {
        Ok(url) => Ok(url.scheme().to_owned()),
        Err(error) => Err(error.to_string()),
    }
}

/// The environment variables that the configuration is read from; none, where a
/// variable is not set.
#[derive(Debug)]
pub struct Environment {
    pub host: Option<String>,
    pub port: Option<String>,
    pub max_body_bytes: Option<String>,
    pub max_streams: Option<String>,
    pub upstream_idle_timeout: Option<String>,
    pub drain_timeout: Option<String>,
    pub upstream_url: Option<String>,
    pub auth_path: Option<Vec<u8>>,
    pub home: Option<Vec<u8>>,
}

/// The configuration of the bridge. Timeouts are in seconds.
#[derive(Debug, PartialEq, Eq)]
pub struct Config {
    pub host: HostAddress,
    pub port: u16,
    pub auth_path: Vec<u8>,
    pub upstream_url: String,
    pub max_body_bytes: usize,
    pub max_streams: usize,
    pub upstream_idle_timeout: u64,
    pub drain_timeout: u64,
}

/// What a configuration holds.
pub struct ConfigView {
    pub host: HostAddress,
    pub port: u16,
    pub auth_path: Seq<u8>,
    pub upstream_url: Seq<char>,
    pub max_body_bytes: usize,
    pub max_streams: usize,
    pub upstream_idle_timeout: u64,
    pub drain_timeout: u64,
}

impl View for Config {
    type V = ConfigView;

    open spec fn view(&self) -> ConfigView {
        ConfigView {
            host: self.host,
            port: self.port,
            auth_path: self.auth_path@,
            upstream_url: self.upstream_url@,
            max_body_bytes: self.max_body_bytes,
            max_streams: self.max_streams,
            upstream_idle_timeout: self.upstream_idle_timeout,
            drain_timeout: self.drain_timeout,
        }
    }
}

/// The text of a variable, or the default where it is not set.
pub open spec fn text_or(value: Option<Seq<char>>, default: Seq<char>) -> Seq<char> {
    match value {
        Some(text) => text,
        None => default,
    }
}

/// The text of a variable, or the default where it is not set.
pub fn env_value(value: &Option<String>, default: &str) -> (text: String)
    ensures
        text@ == text_or(optional_text(*value), default@),
{
    match value {
        Some(text) => text.clone(),
        None => default.to_owned(),
    }
}

/// The text of the address to listen on.
pub fn host_text(environment: &Environment) -> (text: String)
    ensures
        text@ == text_or(optional_text(environment.host), "127.0.0.1"@),
{
    env_value(&environment.host, "127.0.0.1")
}

/// What a variable that is no number is refused with.
pub open spec fn number_problem(name: Seq<char>, error: Seq<char>) -> Seq<char> {
    name + " must be a valid value: "@ + error
}

/// The number of a variable, or the default where it is not set.
pub open spec fn number_or(
    value: Option<Seq<char>>,
    default: nat,
    limit: nat,
    name: Seq<char>,
    error: Seq<char>,
) -> Result<nat, Seq<char>> {
    match value {
        None => Ok(default),
        Some(text) => if fits(text, limit) {
            Ok(integer_value(text)->Some_0)
        } else {
            Err(number_problem(name, error))
        },
    }
}

/// The error that `parse` gives for a variable that is set.
pub open spec fn text_error(value: Option<Seq<char>>, error: spec_fn(Seq<char>) -> Seq<char>) -> Seq<
    char,
> {
    match value {
        Some(text) => error(text),
        None => Seq::empty(),
    }
}

/// The number of a 16-bit variable.
pub open spec fn u16_or(value: Option<Seq<char>>, default: u16, name: Seq<char>) -> Result<
    nat,
    Seq<char>,
> {
    number_or(
        value,
        default as nat,
        u16::MAX as nat,
        name,
        text_error(value, |text: Seq<char>| u16_error(text)),
    )
}

/// The number of a 64-bit variable.
pub open spec fn u64_or(value: Option<Seq<char>>, default: u64, name: Seq<char>) -> Result<
    nat,
    Seq<char>,
> {
    number_or(
        value,
        default as nat,
        u64::MAX as nat,
        name,
        text_error(value, |text: Seq<char>| u64_error(text)),
    )
}

/// The number of a variable that counts what is in memory.
pub open spec fn usize_or(value: Option<Seq<char>>, default: usize, name: Seq<char>) -> Result<
    nat,
    Seq<char>,
> {
    number_or(
        value,
        default as nat,
        usize::MAX as nat,
        name,
        text_error(value, |text: Seq<char>| usize_error(text)),
    )
}

fn refuse_number(name: &str, error: &str) -> (message: String)
    ensures
        message@ == number_problem(name@, error@),
{
    concat3(name, " must be a valid value: ", error)
}

fn parse_env_u16(name: &str, value: &Option<String>, default: u16) -> (r: Result<u16, String>)
    ensures
        match (r, u16_or(optional_text(*value), default, name@)) {
            (Ok(value), Ok(number)) => value == number,
            (Err(error), Err(problem)) => error@ == problem,
            _ => false,
        },
{
    match value {
        None => Ok(default),
        Some(text) => match parse_u16(text.as_str()) {
            Ok(value) => Ok(value),
            Err(error) => Err(refuse_number(name, error.as_str())),
        },
    }
}

fn parse_env_u64(name: &str, value: &Option<String>, default: u64) -> (r: Result<u64, String>)
    ensures
        match (r, u64_or(optional_text(*value), default, name@)) {
            (Ok(value), Ok(number)) => value == number,
            (Err(error), Err(problem)) => error@ == problem,
            _ => false,
        },
{
    match value {
        None => Ok(default),
        Some(text) => match parse_u64(text.as_str()) {
            Ok(value) => Ok(value),
            Err(error) => Err(refuse_number(name, error.as_str())),
        },
    }
}

fn parse_env_usize(name: &str, value: &Option<String>, default: usize) -> (r: Result<
    usize,
    String,
>)
    ensures
        match (r, usize_or(optional_text(*value), default, name@)) {
            (Ok(value), Ok(number)) => value == number,
            (Err(error), Err(problem)) => error@ == problem,
            _ => false,
        },
{
    match value {
        None => Ok(default),
        Some(text) => match parse_usize(text.as_str()) {
            Ok(value) => Ok(value),
            Err(error) => Err(refuse_number(name, error.as_str())),
        },
    }
}

/// What a host address, or the error of reading it, holds.
pub open spec fn host_result(host: Result<HostAddress, String>) -> Result<HostAddress, Seq<char>> {
    match host {
        Ok(host) => Ok(host),
        Err(error) => Err(error@),
    }
}

/// The address to listen on, which has to be a loopback address.
pub open spec fn checked_host(host: Result<HostAddress, Seq<char>>) -> Result<
    HostAddress,
    Seq<char>,
> {
    match host {
        Err(error) => Err("CODEX_FOR_GROK_HOST must be an IP address: "@ + error),
        Ok(host) => if host.loops_back() {
            Ok(host)
        } else {
            Err("CODEX_FOR_GROK_HOST must be a loopback address"@)
        },
    }
}

/// Where requests are sent: an address with the `https` scheme.
pub open spec fn checked_url(value: Option<Seq<char>>) -> Result<Seq<char>, Seq<char>> {
    let text = text_or(value, "https://chatgpt.com/backend-api/codex/responses"@);
    match url_scheme(text) {
        Err(error) => Err("invalid CODEX_FOR_GROK_UPSTREAM_URL: "@ + error),
        Ok(scheme) => if scheme == "https"@ {
            Ok(text)
        } else {
            Err("CODEX_FOR_GROK_UPSTREAM_URL must use HTTPS"@)
        },
    }
}

/// Where the authentication file is.
pub open spec fn auth_place(given: Option<Seq<u8>>, home: Option<Seq<u8>>) -> Result<
    Seq<u8>,
    Seq<char>,
> {
    match given {
        Some(path) => Ok(path),
        None => match home {
            Some(home) => Ok(under(home, encode_utf8(".codex/auth.json"@))),
            None => Err("could not determine the Codex auth path"@),
        },
    }
}

/// The configuration that the environment gives, or the first thing in it that is
/// wrong.
pub open spec fn config_of(environment: Environment, host: Result<HostAddress, Seq<char>>) -> Result<
    ConfigView,
    Seq<char>,
> {
    match checked_host(host) {
        Err(error) => Err(error),
        Ok(host) => match u16_or(
            optional_text(environment.port),
            DEFAULT_PORT,
            "CODEX_FOR_GROK_PORT"@,
        ) {
            Err(error) => Err(error),
            Ok(port) => match usize_or(
                optional_text(environment.max_body_bytes),
                DEFAULT_MAX_BODY_BYTES,
                "CODEX_FOR_GROK_MAX_BODY_BYTES"@,
            ) {
                Err(error) => Err(error),
                Ok(max_body_bytes) => match usize_or(
                    optional_text(environment.max_streams),
                    DEFAULT_MAX_STREAMS,
                    "CODEX_FOR_GROK_MAX_STREAMS"@,
                ) {
                    Err(error) => Err(error),
                    Ok(max_streams) => if max_body_bytes == 0 || max_streams == 0 {
                        Err("bridge request and stream limits must be greater than zero"@)
                    } else {
                        config_with(environment, host, port, max_body_bytes, max_streams)
                    },
                },
            },
        },
    }
}

/// The configuration with these limits: the timeouts, the address and the file
/// come last.
pub open spec fn config_with(
    environment: Environment,
    host: HostAddress,
    port: nat,
    max_body_bytes: nat,
    max_streams: nat,
) -> Result<ConfigView, Seq<char>> {
    match u64_or(
        optional_text(environment.upstream_idle_timeout),
        DEFAULT_IDLE_TIMEOUT_SECS,
        "CODEX_FOR_GROK_UPSTREAM_IDLE_TIMEOUT_SECS"@,
    ) {
        Err(error) => Err(error),
        Ok(idle) => match u64_or(
            optional_text(environment.drain_timeout),
            DEFAULT_DRAIN_TIMEOUT_SECS,
            "CODEX_FOR_GROK_DRAIN_TIMEOUT_SECS"@,
        ) {
            Err(error) => Err(error),
            Ok(drain) => match checked_url(optional_text(environment.upstream_url)) {
                Err(error) => Err(error),
                Ok(upstream_url) => match auth_place(
                    optional_path(environment.auth_path),
                    optional_path(environment.home),
                ) {
                    Err(error) => Err(error),
                    Ok(auth_path) => Ok(
                        ConfigView {
                            host,
                            port: port as u16,
                            auth_path,
                            upstream_url,
                            max_body_bytes: max_body_bytes as usize,
                            max_streams: max_streams as usize,
                            upstream_idle_timeout: idle as u64,
                            drain_timeout: drain as u64,
                        },
                    ),
                },
            },
        },
    }
}

/// What a configuration, or the error in its place, holds.
pub open spec fn config_result(r: Result<Config, String>) -> Result<ConfigView, Seq<char>> {
    match r {
        Ok(config) => Ok(config@),
        Err(error) => Err(error@),
    }
}

fn check_host(host: Result<HostAddress, String>) -> (r: Result<HostAddress, String>)
    ensures
        host_result(r) == checked_host(host_result(host)),
{
    match host {
        Err(error) => Err(
            concat("CODEX_FOR_GROK_HOST must be an IP address: ", error.as_str()),
        ),
        Ok(host) => if host.is_loopback() {
            Ok(host)
        } else {
            Err("CODEX_FOR_GROK_HOST must be a loopback address".to_owned())
        },
    }
}

fn check_url(value: &Option<String>) -> (r: Result<String, String>)
    ensures
        crate::text::text_result(r) == checked_url(optional_text(*value)),
{
    let text = env_value(value, CODEX_URL);
    match scheme_of(text.as_str()) {
        Err(error) => Err(concat("invalid CODEX_FOR_GROK_UPSTREAM_URL: ", error.as_str())),
        Ok(scheme) => if same_text(scheme.as_str(), "https") {
            Ok(text)
        } else {
            Err("CODEX_FOR_GROK_UPSTREAM_URL must use HTTPS".to_owned())
        },
    }
}

fn find_auth(given: Option<Vec<u8>>, home: &Option<Vec<u8>>) -> (r: Result<Vec<u8>, String>)
    ensures
        crate::setup::path_result(r) == auth_place(optional_path(given), optional_path(*home)),
{
    match given {
        Some(path) => Ok(path),
        None => match home {
            Some(home) => Ok(join_path(home.as_slice(), ".codex/auth.json")),
            None => Err("could not determine the Codex auth path".to_owned()),
        },
    }
}

impl Config {
    /// Reads the configuration from the environment. `host` is the address that
    /// `host_text` stands for.
    pub fn from_env(environment: Environment, host: Result<HostAddress, String>) -> (r: Result<
        Config,
        String,
    >)
        ensures
            config_result(r) == config_of(environment, host_result(host)),
    {
        let host = check_host(host)?;
        let port = parse_env_u16("CODEX_FOR_GROK_PORT", &environment.port, DEFAULT_PORT)?;
        let max_body_bytes = parse_env_usize(
            "CODEX_FOR_GROK_MAX_BODY_BYTES",
            &environment.max_body_bytes,
            DEFAULT_MAX_BODY_BYTES,
        )?;
        let max_streams = parse_env_usize(
            "CODEX_FOR_GROK_MAX_STREAMS",
            &environment.max_streams,
            DEFAULT_MAX_STREAMS,
        )?;
        if max_body_bytes == 0 || max_streams == 0 {
            return Err("bridge request and stream limits must be greater than zero".to_owned());
        }
        let upstream_idle_timeout = parse_env_u64(
            "CODEX_FOR_GROK_UPSTREAM_IDLE_TIMEOUT_SECS",
            &environment.upstream_idle_timeout,
            DEFAULT_IDLE_TIMEOUT_SECS,
        )?;
        let drain_timeout = parse_env_u64(
            "CODEX_FOR_GROK_DRAIN_TIMEOUT_SECS",
            &environment.drain_timeout,
            DEFAULT_DRAIN_TIMEOUT_SECS,
        )?;
        let upstream_url = check_url(&environment.upstream_url)?;
        let auth_path = find_auth(environment.auth_path, &environment.home)?;
        Ok(
            Config {
                host,
                port,
                auth_path,
                upstream_url,
                max_body_bytes,
                max_streams,
                upstream_idle_timeout,
                drain_timeout,
            },
        )
    }

    /// A configuration for tests: the defaults, and an authentication file that
    /// is not the user's.
    pub fn for_test() -> (config: Config)
        ensures
            config@.port == DEFAULT_PORT,
            config@.host == (HostAddress::V4 { octets: [127, 0, 0, 1] }),
            config@.auth_path == encode_utf8("/tmp/auth.json"@),
            config@.upstream_url == "https://chatgpt.com/backend-api/codex/responses"@,
            config@.max_body_bytes == DEFAULT_MAX_BODY_BYTES,
            config@.max_streams == DEFAULT_MAX_STREAMS,
            config@.upstream_idle_timeout == DEFAULT_IDLE_TIMEOUT_SECS,
            config@.drain_timeout == DEFAULT_DRAIN_TIMEOUT_SECS,
    {
        Config {
            host: HostAddress::V4 { octets: [127, 0, 0, 1] },
            port: DEFAULT_PORT,
            auth_path: "/tmp/auth.json".as_bytes_vec(),
            upstream_url: CODEX_URL.to_owned(),
            max_body_bytes: DEFAULT_MAX_BODY_BYTES,
            max_streams: DEFAULT_MAX_STREAMS,
            upstream_idle_timeout: DEFAULT_IDLE_TIMEOUT_SECS,
            drain_timeout: DEFAULT_DRAIN_TIMEOUT_SECS,
        }
    }
}

/// A configuration listens on a loopback address alone, has limits above zero,
/// and sends requests over HTTPS.
pub proof fn lemma_config_is_guarded(environment: Environment, host: Result<HostAddress, Seq<char>>)
    ensures
        config_of(environment, host) matches Ok(config) ==> {
            &&& config.host.loops_back()
            &&& config.max_body_bytes > 0
            &&& config.max_streams > 0
            &&& url_scheme(config.upstream_url) == Ok::<Seq<char>, Seq<char>>("https"@)
        },
{
}

} // verus!
