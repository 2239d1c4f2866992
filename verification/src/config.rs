//! Runtime configuration for the L4 proxy.
//!
//! All configuration is sourced from environment variables through a lookup
//! function. Parsing fails fast on a missing or malformed required value
//! (currently only the upstream URL); there are no defaults that would
//! silently point the proxy at an unintended endpoint.
//!
//! The whole parse is stated as one spec function, [`config_from_env`], over
//! a model of the environment (`env_value`); [`Config::from_lookup`] is proved
//! to compute it for any lookup whose results agree with that model.

use vstd::prelude::*;

use crate::text::{
    ascii_lowercase, chars_eq_str, chars_of, int_parse_error_message, int_parse_error_text,
    is_ascii_digit, parse_unsigned, parse_unsigned_decimal,
    string_from_chars, to_ascii_lowercase, trim, trim_chars, IntParseError,
};

verus! {

/// Environment variable controlling the bind address of the proxy server.
pub const ENV_LISTEN: &'static str = "REPLAYABLE_LISTEN";

/// Environment variable holding the required upstream LLM API base URL.
pub const ENV_UPSTREAM_URL: &'static str = "REPLAYABLE_UPSTREAM_URL";

/// Environment variable holding the JSONL trace output path.
pub const ENV_LOG_PATH: &'static str = "REPLAYABLE_LOG_PATH";

/// Environment variable controlling the bounded trace channel capacity.
pub const ENV_LOG_CHANNEL_CAPACITY: &'static str = "REPLAYABLE_LOG_CHANNEL_CAPACITY";

/// Environment variable toggling capture of request/response content.
/// When unset or false (the secure default) trace records carry metadata
/// only.
pub const ENV_CAPTURE_CONTENT: &'static str = "REPLAYABLE_CAPTURE_CONTENT";

/// Environment variable for the maximum accepted request body size in bytes.
pub const ENV_MAX_REQUEST_BYTES: &'static str = "REPLAYABLE_MAX_REQUEST_BYTES";

/// Environment variable for the upstream TCP connect timeout, in seconds.
pub const ENV_CONNECT_TIMEOUT_SECS: &'static str = "REPLAYABLE_CONNECT_TIMEOUT_SECS";

/// Environment variable for the upstream socket read timeout, in seconds.
pub const ENV_READ_TIMEOUT_SECS: &'static str = "REPLAYABLE_READ_TIMEOUT_SECS";

/// Environment variable allowing plaintext `http://` upstream URLs that are
/// not loopback.
pub const ENV_UPSTREAM_ALLOW_PLAINTEXT: &'static str = "REPLAYABLE_UPSTREAM_ALLOW_PLAINTEXT";

/// Default bind address when [`ENV_LISTEN`] is unset (loopback only).
pub const DEFAULT_LISTEN: &'static str = "127.0.0.1:8080";

/// Default JSONL log path when [`ENV_LOG_PATH`] is unset.
pub const DEFAULT_LOG_PATH: &'static str = "./replayable-traces.jsonl";

/// Default bounded channel capacity for the trace writer.
pub const DEFAULT_LOG_CHANNEL_CAPACITY: usize = 1024;

/// Default value for [`Config::capture_content`].
pub const DEFAULT_CAPTURE_CONTENT: bool = false;

/// Default cap on accepted request body bytes (10 MiB).
pub const DEFAULT_MAX_REQUEST_BYTES: usize = 10 * 1024 * 1024;

/// Default upstream TCP connect timeout in seconds.
pub const DEFAULT_CONNECT_TIMEOUT_SECS: u64 = 10;

/// Default upstream read timeout in seconds.
pub const DEFAULT_READ_TIMEOUT_SECS: u64 = 600;

// ---------------------------------------------------------------------
// Socket addresses
// ---------------------------------------------------------------------

/// The IP part of a listen address.
#[derive(Clone, Copy, Debug, PartialEq, Eq)]
pub enum ListenIp {
    /// An IPv4 address, as its four octets.
    V4([u8; 4]),
    /// An IPv6 address, as its eight 16-bit segments.
    V6([u16; 8]),
}

/// `Ipv4Addr::is_loopback` / `Ipv6Addr::is_loopback`: `127.0.0.0/8` or `::1`.
pub open spec fn ip_is_loopback(ip: ListenIp) -> bool {
    match ip {
        ListenIp::V4(o) => o[0] == 127,
        ListenIp::V6(s) => s[0] == 0 && s[1] == 0 && s[2] == 0 && s[3] == 0 && s[4] == 0 && s[5]
            == 0 && s[6] == 0 && s[7] == 1,
    }
}

impl ListenIp {
    /// Whether this is a loopback address.
    pub fn is_loopback(&self) -> (r: bool)
        ensures
            r == ip_is_loopback(*self),
    {
        match self {
            ListenIp::V4(o) => o[0] == 127,
            ListenIp::V6(s) => s[0] == 0 && s[1] == 0 && s[2] == 0 && s[3] == 0 && s[4] == 0 && s[5]
                == 0 && s[6] == 0 && s[7] == 1,
        }
    }
}

/// A socket address the proxy binds to: an IP, a port and, for IPv6, the
/// flow information and scope id.
#[derive(Clone, Copy, Debug, PartialEq, Eq)]
pub struct ListenAddr {
    /// The IP address.
    pub ip: ListenIp,
    /// The TCP port.
    pub port: u16,
    /// IPv6 flow information (0 for IPv4).
    pub flowinfo: u32,
    /// IPv6 scope id (0 for IPv4).
    pub scope_id: u32,
}

impl ListenAddr {
    /// The address `a.b.c.d:port`.
    pub fn v4(a: u8, b: u8, c: u8, d: u8, port: u16) -> (r: ListenAddr)
        ensures
            r == (ListenAddr { ip: ListenIp::V4([a, b, c, d]), port, flowinfo: 0, scope_id: 0 }),
    {
        ListenAddr { ip: ListenIp::V4([a, b, c, d]), port, flowinfo: 0, scope_id: 0 }
    }

    /// The IP part.
    pub fn ip(&self) -> (r: ListenIp)
        ensures
            r == self.ip,
    {
        self.ip
    }

    /// The port.
    pub fn port(&self) -> (r: u16)
        ensures
            r == self.port,
    {
        self.port
    }

    /// The usual text form of the address (`SocketAddr`'s `Display`).
    pub fn to_string(&self) -> (r: String)
        ensures
            r@ == socket_addr_text(*self),
    {
        render_socket_addr(self)
    }
}

/// What `<core::net::SocketAddr as FromStr>::from_str` gives for a text:
/// the address, or the text of the parse error.
pub uninterp spec fn socket_addr_parse(text: Seq<char>) -> Result<ListenAddr, Seq<char>>;

/// What `<core::net::SocketAddr as Display>` renders for an address.
pub uninterp spec fn socket_addr_text(addr: ListenAddr) -> Seq<char>;

/// Calls `core::net::SocketAddr::from_str` and converts the address (or the
/// `Display` text of the `AddrParseError`) to plain values. Claims only that
/// the outcome is the named one for the input text.
#[verifier::external_body]
fn parse_socket_addr(text: &str) -> (r: Result<ListenAddr, String>)
    ensures
        match socket_addr_parse(text@) {
            Ok(a) => r == Ok::<ListenAddr, String>(a),
            Err(m) => r matches Err(e) && e@ == m,
        },
{
    match text.parse::<core::net::SocketAddr>() {
        Ok(core::net::SocketAddr::V4(a)) => Ok(
            ListenAddr { ip: ListenIp::V4(a.ip().octets()), port: a.port(), flowinfo: 0, scope_id: 0 },
        ),
        Ok(core::net::SocketAddr::V6(a)) => Ok(
            ListenAddr {
                ip: ListenIp::V6(a.ip().segments()),
                port: a.port(),
                flowinfo: a.flowinfo(),
                scope_id: a.scope_id(),
            },
        ),
        Err(e) => Err(e.to_string()),
    }
}

/// Converts the address to a `core::net::SocketAddr` and calls its
/// `Display` (through `to_string`). Claims only that the text is the named
/// one for the address.
#[verifier::external_body]
fn render_socket_addr(addr: &ListenAddr) -> (r: String)
    ensures
        r@ == socket_addr_text(*addr),
{
    match addr.ip {
        ListenIp::V4(o) => core::net::SocketAddrV4::new(o.into(), addr.port).to_string(),
        ListenIp::V6(s) => core::net::SocketAddrV6::new(
            s.into(),
            addr.port,
            addr.flowinfo,
            addr.scope_id,
        ).to_string(),
    }
}

// ---------------------------------------------------------------------
// Durations
// ---------------------------------------------------------------------

/// What `core::time::Duration::from_secs` returns for a number of seconds.
pub uninterp spec fn duration_of_secs(secs: u64) -> core::time::Duration;

/// Calls `core::time::Duration::from_secs`; claims only that the result is
/// the named one for the argument.
#[verifier::external_body]
fn duration_from_secs(secs: u64) -> (d: core::time::Duration)
    ensures
        d == duration_of_secs(secs),
{
    core::time::Duration::from_secs(secs)
}

/// `Duration` is `Copy`; its `clone` returns the same value.
pub assume_specification[ <core::time::Duration as Clone>::clone ](d: &core::time::Duration) -> (r:
    core::time::Duration)
    ensures
        r == *d,
;

// ---------------------------------------------------------------------
// Errors
// ---------------------------------------------------------------------

/// Errors produced while parsing configuration from the environment.
#[derive(Debug)]
pub enum ConfigError {
    /// A required environment variable was unset.
    Missing(&'static str),
    /// A value could not be parsed into the expected type.
    Invalid {
        /// The offending environment variable name.
        name: &'static str,
        /// Human-readable reason for the parse failure.
        reason: String,
    },
}

/// The text of a configuration error, as shown to the operator.
pub open spec fn config_error_text(e: ConfigErrorView) -> Seq<char> {
    match e {
        ConfigErrorView::Missing(n) => "required environment variable "@ + n + " is not set"@,
        ConfigErrorView::Invalid(n, reason) => "invalid value for "@ + n + ": "@ + reason,
    }
}

impl ConfigError {
    /// The error's text: `required environment variable NAME is not set`,
    /// or `invalid value for NAME: REASON`.
    pub fn message(&self) -> (m: String)
        ensures
            m@ == config_error_text(self@),
    {
        match self {
            ConfigError::Missing(n) => {
                let mut m = String::from_str("required environment variable ");
                m.append(n);
                m.append(" is not set");
                m
            },
            ConfigError::Invalid { name, reason } => {
                let mut m = String::from_str("invalid value for ");
                m.append(name);
                m.append(": ");
                m.append(reason.as_str());
                m
            },
        }
    }
}

/// A [`ConfigError`] as plain text values.
pub enum ConfigErrorView {
    /// The named variable is unset.
    Missing(Seq<char>),
    /// The named variable holds a bad value, for the given reason.
    Invalid(Seq<char>, Seq<char>),
}

impl View for ConfigError {
    type V = ConfigErrorView;

    open spec fn view(&self) -> ConfigErrorView {
        match self {
            ConfigError::Missing(n) => ConfigErrorView::Missing(n@),
            ConfigError::Invalid { name, reason } => ConfigErrorView::Invalid(name@, reason@),
        }
    }
}

/// An `Invalid` error for `name` with `reason`.
pub open spec fn invalid(name: &'static str, reason: Seq<char>) -> ConfigErrorView {
    ConfigErrorView::Invalid(name@, reason)
}

// ---------------------------------------------------------------------
// The configuration
// ---------------------------------------------------------------------

/// Fully validated proxy configuration.
#[derive(Debug, Clone)]
pub struct Config {
    /// Socket address the HTTP server binds to.
    pub listen: ListenAddr,
    /// Upstream LLM API base URL (trimmed, without one trailing slash).
    pub upstream_url: String,
    /// Filesystem path where JSONL trace records are written.
    pub log_path: String,
    /// Bounded channel capacity for the trace writer (never zero when parsed).
    pub log_channel_capacity: usize,
    /// When true, request/response bodies and scrubbed headers are captured.
    pub capture_content: bool,
    /// Upper bound on accepted request body size in bytes (never zero when
    /// parsed).
    pub max_request_bytes: usize,
    /// TCP connect timeout for the upstream client.
    pub connect_timeout: core::time::Duration,
    /// Per-read socket timeout for the upstream client.
    pub read_timeout: core::time::Duration,
}

/// A [`Config`] with its text fields as character sequences.
pub struct ConfigView {
    pub listen: ListenAddr,
    pub upstream_url: Seq<char>,
    pub log_path: Seq<char>,
    pub log_channel_capacity: usize,
    pub capture_content: bool,
    pub max_request_bytes: usize,
    pub connect_timeout: core::time::Duration,
    pub read_timeout: core::time::Duration,
}

impl View for Config {
    type V = ConfigView;

    open spec fn view(&self) -> ConfigView {
        ConfigView {
            listen: self.listen,
            upstream_url: self.upstream_url@,
            log_path: self.log_path@,
            log_channel_capacity: self.log_channel_capacity,
            capture_content: self.capture_content,
            max_request_bytes: self.max_request_bytes,
            connect_timeout: self.connect_timeout,
            read_timeout: self.read_timeout,
        }
    }
}

/// The default listen address, `127.0.0.1:8080`.
pub open spec fn default_listen_addr() -> ListenAddr {
    ListenAddr { ip: ListenIp::V4([127u8, 0u8, 0u8, 1u8]), port: 8080, flowinfo: 0, scope_id: 0 }
}

impl Default for Config {
    /// The proxy defaults. The upstream URL is empty here: the real entry
    /// point, [`Config::from_lookup`], requires the operator to supply one.
    fn default() -> (c: Self)
        ensures
            c.listen == default_listen_addr(),
            ip_is_loopback(c.listen.ip),
            c.upstream_url@ == Seq::<char>::empty(),
            c.log_path@ == DEFAULT_LOG_PATH@,
            c.log_channel_capacity == DEFAULT_LOG_CHANNEL_CAPACITY,
            c.capture_content == DEFAULT_CAPTURE_CONTENT,
            c.max_request_bytes == DEFAULT_MAX_REQUEST_BYTES,
            c.connect_timeout == duration_of_secs(DEFAULT_CONNECT_TIMEOUT_SECS),
            c.read_timeout == duration_of_secs(DEFAULT_READ_TIMEOUT_SECS),
    {
        Config {
            listen: ListenAddr::v4(127, 0, 0, 1, 8080),
            upstream_url: String::new(),
            log_path: String::from_str(DEFAULT_LOG_PATH),
            log_channel_capacity: DEFAULT_LOG_CHANNEL_CAPACITY,
            capture_content: DEFAULT_CAPTURE_CONTENT,
            max_request_bytes: DEFAULT_MAX_REQUEST_BYTES,
            connect_timeout: duration_from_secs(DEFAULT_CONNECT_TIMEOUT_SECS),
            read_timeout: duration_from_secs(DEFAULT_READ_TIMEOUT_SECS),
        }
    }
}

// ---------------------------------------------------------------------
// The environment model
// ---------------------------------------------------------------------

/// An optional `String` as an optional character sequence.
pub open spec fn opt_view(o: Option<String>) -> Option<Seq<char>> {
    match o {
        Some(s) => Some(s@),
        None => None,
    }
}

/// A model of the environment: the value of each variable, if set.
pub type EnvModel = spec_fn(Seq<char>) -> Option<Seq<char>>;

/// Every result the lookup can give agrees with the environment model.
pub open spec fn lookup_agrees<F: Fn(&str) -> Option<String>>(lookup: F, env: EnvModel) -> bool {
    forall|name: &str, out: Option<String>|
        #[trigger] call_ensures(lookup, (name,), out) ==> opt_view(out) == env(name@)
}

/// The lookup may be called with any variable name.
pub open spec fn lookup_callable<F: Fn(&str) -> Option<String>>(lookup: F) -> bool {
    forall|name: &str| #[trigger] call_requires(lookup, (name,))
}

// ---------------------------------------------------------------------
// Booleans and numbers
// ---------------------------------------------------------------------

/// The boolean a variable's text denotes: `1|true|yes|on` and
/// `0|false|no|off|""` after trimming and ASCII-lowercasing.
pub open spec fn bool_word(t: Seq<char>) -> Option<bool> {
    if t == "1"@ || t == "true"@ || t == "yes"@ || t == "on"@ {
        Some(true)
    } else if t == "0"@ || t == "false"@ || t == "no"@ || t == "off"@ || t == ""@ {
        Some(false)
    } else {
        None
    }
}

/// The reason given for a text that is not a boolean.
pub open spec fn bool_reason(other: Seq<char>) -> Seq<char> {
    "expected a boolean (true/false/1/0/yes/no), got `"@ + other + "`"@
}

/// How a boolean variable parses: the default when unset.
pub open spec fn spec_parse_bool(raw: Option<Seq<char>>, name: &'static str, default: bool) -> Result<
    bool,
    ConfigErrorView,
> {
    match raw {
        None => Ok(default),
        Some(r) => {
            let t = ascii_lowercase(trim(r));
            match bool_word(t) {
                Some(b) => Ok(b),
                None => Err(invalid(name, bool_reason(t))),
            }
        },
    }
}

/// Reads `name` through `lookup` and parses it as a boolean, falling back to
/// `default` when unset.
pub fn parse_bool_env<F: Fn(&str) -> Option<String>>(
    lookup: &F,
    name: &'static str,
    default: bool,
) -> (r: Result<bool, ConfigError>)
    requires
        lookup_callable(*lookup),
    ensures
        forall|env: EnvModel|
            #[trigger] lookup_agrees(*lookup, env) ==> view_bool_result(r) == spec_parse_bool(
                env(name@),
                name,
                default,
            ),
{
    let raw = lookup(name);
    let r = parse_bool_value(raw, name, default);
    r
}

/// A boolean result with its error as a view.
pub open spec fn view_bool_result(r: Result<bool, ConfigError>) -> Result<bool, ConfigErrorView> {
    match r {
        Ok(b) => Ok(b),
        Err(e) => Err(e@),
    }
}

/// Parses an optional variable value as a boolean.
fn parse_bool_value(raw: Option<String>, name: &'static str, default: bool) -> (r: Result<
    bool,
    ConfigError,
>)
    ensures
        view_bool_result(r) == spec_parse_bool(opt_view(raw), name, default),
{
    match raw {
        None => Ok(default),
        Some(s) => {
            let cs = chars_of(s.as_str());
            let trimmed = trim_chars(cs.as_slice());
            let t = to_ascii_lowercase(trimmed.as_slice());
            proof {
                reveal_strlit("1");
                reveal_strlit("true");
                reveal_strlit("yes");
                reveal_strlit("on");
                reveal_strlit("0");
                reveal_strlit("false");
                reveal_strlit("no");
                reveal_strlit("off");
                reveal_strlit("");
            }
            if chars_eq_str(t.as_slice(), "1") || chars_eq_str(t.as_slice(), "true")
                || chars_eq_str(t.as_slice(), "yes") || chars_eq_str(t.as_slice(), "on") {
                Ok(true)
            } else if chars_eq_str(t.as_slice(), "0") || chars_eq_str(t.as_slice(), "false")
                || chars_eq_str(t.as_slice(), "no") || chars_eq_str(t.as_slice(), "off")
                || chars_eq_str(t.as_slice(), "") {
                Ok(false)
            } else {
                let mut reason = String::from_str("expected a boolean (true/false/1/0/yes/no), got `");
                let other = string_from_chars(t.as_slice());
                reason.append(other.as_str());
                reason.append("`");
                Err(ConfigError::Invalid { name, reason })
            }
        },
    }
}

/// How a seconds variable parses: `u64::from_str` of the raw text (no
/// trimming), the default when unset.
pub open spec fn spec_parse_secs(raw: Option<Seq<char>>, name: &'static str, default_secs: u64) -> Result<
    core::time::Duration,
    ConfigErrorView,
> {
    match raw {
        None => Ok(duration_of_secs(default_secs)),
        Some(r) => match parse_unsigned(r, u64::MAX as nat) {
            Ok(v) => Ok(duration_of_secs(v as u64)),
            Err(e) => Err(invalid(name, int_parse_error_text(e))),
        },
    }
}

/// A duration result with its error as a view.
pub open spec fn view_duration_result(r: Result<core::time::Duration, ConfigError>) -> Result<
    core::time::Duration,
    ConfigErrorView,
> {
    match r {
        Ok(d) => Ok(d),
        Err(e) => Err(e@),
    }
}

/// Reads `name` through `lookup` and parses it as a whole number of seconds,
/// falling back to `default_secs` when unset.
pub fn parse_duration_secs<F: Fn(&str) -> Option<String>>(
    lookup: &F,
    name: &'static str,
    default_secs: u64,
) -> (r: Result<core::time::Duration, ConfigError>)
    requires
        lookup_callable(*lookup),
    ensures
        forall|env: EnvModel|
            #[trigger] lookup_agrees(*lookup, env) ==> view_duration_result(r) == spec_parse_secs(
                env(name@),
                name,
                default_secs,
            ),
{
    let raw = lookup(name);
    match raw {
        None => Ok(duration_from_secs(default_secs)),
        Some(s) => {
            let cs = chars_of(s.as_str());
            match parse_unsigned_decimal(cs.as_slice(), u64::MAX) {
                Ok(v) => Ok(duration_from_secs(v)),
                Err(e) => Err(
                    ConfigError::Invalid { name, reason: String::from_str(int_parse_error_message(e)) },
                ),
            }
        },
    }
}

/// How a positive size variable parses: `usize::from_str` of the raw text,
/// the default when unset, and zero refused.
pub open spec fn spec_parse_size(raw: Option<Seq<char>>, name: &'static str, default: usize) -> Result<
    usize,
    ConfigErrorView,
> {
    let parsed: Result<usize, ConfigErrorView> = match raw {
        None => Ok(default),
        Some(r) => match parse_unsigned(r, usize::MAX as nat) {
            Ok(v) => Ok(v as usize),
            Err(e) => Err(invalid(name, int_parse_error_text(e))),
        },
    };
    match parsed {
        Ok(v) => if v == 0 {
            Err(invalid(name, "must be greater than zero"@))
        } else {
            Ok(v)
        },
        Err(e) => Err(e),
    }
}

/// A size result with its error as a view.
pub open spec fn view_size_result(r: Result<usize, ConfigError>) -> Result<usize, ConfigErrorView> {
    match r {
        Ok(v) => Ok(v),
        Err(e) => Err(e@),
    }
}

/// Parses an optional variable value as a positive size.
fn parse_size_value(raw: Option<String>, name: &'static str, default: usize) -> (r: Result<
    usize,
    ConfigError,
>)
    ensures
        view_size_result(r) == spec_parse_size(opt_view(raw), name, default),
{
    let v: usize = match raw {
        None => default,
        Some(s) => {
            let cs = chars_of(s.as_str());
            match parse_unsigned_decimal(cs.as_slice(), usize::MAX as u64) {
                Ok(v) => v as usize,
                Err(e) => {
                    return Err(
                        ConfigError::Invalid {
                            name,
                            reason: String::from_str(int_parse_error_message(e)),
                        },
                    );
                },
            }
        },
    };
    if v == 0 {
        return Err(ConfigError::Invalid { name, reason: String::from_str("must be greater than zero") });
    }
    Ok(v)
}

// ---------------------------------------------------------------------
// Upstream URL validation
// ---------------------------------------------------------------------

/// What the URL parser yields for a text: its scheme and optional host, or
/// the text of the parse error.
pub uninterp spec fn url_parse(text: Seq<char>) -> Result<(Seq<char>, Option<Seq<char>>), Seq<char>>;

/// The parts of a parsed URL that validation reads.
pub struct UrlParts {
    /// The scheme, without the `:` delimiter.
    pub scheme: String,
    /// The host, when the URL has one.
    pub host: Option<String>,
}

/// Calls `url::Url::parse` and converts the result to plain values: the URL's
/// `scheme()` and `host_str()`, or the `Display` text of the `ParseError`.
/// Claims only that these are the named values for the input text.
#[verifier::external_body]
fn parse_url(text: &str) -> (r: Result<UrlParts, String>)
    ensures
        match url_parse(text@) {
            Ok((scheme, host)) => r matches Ok(p) && p.scheme@ == scheme && opt_view(p.host)
                == host,
            Err(m) => r matches Err(e) && e@ == m,
        },
{
    match url::Url::parse(text) {
        Ok(u) => Ok(
            UrlParts {
                scheme: u.scheme().to_string(),
                host: match u.host_str() {
                    Some(h) => Some(h.to_string()),
                    None => None,
                },
            },
        ),
        Err(e) => Err(e.to_string()),
    }
}

/// Hosts that must never be an upstream (cloud metadata services).
pub open spec fn is_banned_upstream_host(host: Seq<char>) -> bool {
    ||| host == "169.254.169.254"@
    ||| host == "metadata.google.internal"@
    ||| host == "metadata.azure.com"@
    ||| host == "metadata.azure.internal"@
}

/// The dot-separated parts of a text, as `str::split('.')` yields them
/// (a text without dots is one part; empty parts are kept).
pub open spec fn dot_parts(s: Seq<char>) -> Seq<Seq<char>>
    decreases s.len(),
{
    if s.len() == 0 {
        seq![Seq::<char>::empty()]
    } else {
        let p = dot_parts(s.drop_last());
        if s.last() == '.' {
            p.push(Seq::<char>::empty())
        } else {
            p.update(p.len() - 1, p.last().push(s.last()))
        }
    }
}

/// A decimal octet: ASCII digits without a leading zero (unless it is
/// `0` itself) whose value is at most 255.
pub open spec fn is_decimal_octet(t: Seq<char>) -> bool {
    &&& t.len() > 0
    &&& is_ascii_digit(t[0])
    &&& (t.len() == 1 || t[0] != '0')
    &&& parse_unsigned(t, 255) is Ok
}

/// An IPv4 literal in `127.0.0.0/8`: four decimal octets separated by
/// dots, the first `127`.
pub open spec fn is_ipv4_loopback_literal(host: Seq<char>) -> bool {
    let p = dot_parts(host);
    &&& p.len() == 4
    &&& p[0] == "127"@
    &&& is_decimal_octet(p[1])
    &&& is_decimal_octet(p[2])
    &&& is_decimal_octet(p[3])
}

/// Loopback host names and addresses: `localhost`, the IPv6 loopback
/// `::1` (bracketed or not), and IPv4 literals in `127.0.0.0/8`.
pub open spec fn is_loopback_host_spec(host: Seq<char>) -> bool {
    ||| host == "localhost"@
    ||| host == "[::1]"@
    ||| host == "::1"@
    ||| is_ipv4_loopback_literal(host)
}

/// The reason given for a disallowed scheme.
pub open spec fn scheme_reason(scheme: Seq<char>) -> Seq<char> {
    "scheme `"@ + scheme + "` is not allowed; use https:// or http:// (loopback only)"@
}

/// The reason given for a deny-listed host.
pub open spec fn banned_reason(host: Seq<char>) -> Seq<char> {
    "host `"@ + host + "` is on the cloud-metadata deny-list"@
}

/// The reason given for plaintext to a non-loopback host.
pub open spec fn plaintext_reason(host: Seq<char>) -> Seq<char> {
    "plaintext http:// upstream is only allowed for loopback hosts; set "@
        + ENV_UPSTREAM_ALLOW_PLAINTEXT@ + "=true to override (got host `"@ + host + "`)"@
}

/// The reason given for a URL that does not parse.
pub open spec fn unparsable_reason(err: Seq<char>) -> Seq<char> {
    "could not parse as URL: "@ + err
}

/// The verdict on an upstream URL: `Ok` or the reason it is refused.
pub open spec fn upstream_verdict(url: Seq<char>, allow_plaintext: bool) -> Result<(), Seq<char>> {
    match url_parse(url) {
        Err(e) => Err(unparsable_reason(e)),
        Ok((scheme, host_opt)) => if scheme != "http"@ && scheme != "https"@ {
            Err(scheme_reason(scheme))
        } else {
            let host = ascii_lowercase(
                match host_opt {
                    Some(h) => h,
                    None => Seq::<char>::empty(),
                },
            );
            if host.len() == 0 {
                Err("host is empty"@)
            } else if is_banned_upstream_host(host) {
                Err(banned_reason(host))
            } else if scheme == "http"@ && !is_loopback_host_spec(host) && !allow_plaintext {
                Err(plaintext_reason(host))
            } else {
                Ok(())
            }
        },
    }
}

/// Returns true when `host` is one of the loopback host names or IPs.
pub fn is_loopback_host(host: &str) -> (r: bool)
    ensures
        r == is_loopback_host_spec(host@),
{
    let h = chars_of(host);
    is_loopback_host_chars(h.as_slice())
}

fn is_loopback_host_chars(h: &[char]) -> (r: bool)
    ensures
        r == is_loopback_host_spec(h@),
{
    chars_eq_str(h, "localhost") || chars_eq_str(h, "[::1]") || chars_eq_str(h, "::1")
        || is_ipv4_loopback_chars(h)
}

/// Whether a text is a decimal octet.
fn is_decimal_octet_chars(t: &[char]) -> (r: bool)
    ensures
        r == is_decimal_octet(t@),
{
    if t.len() == 0 {
        return false;
    }
    let c = t[0];
    let u: u32 = c as u32;
    if u < 0x30 || u > 0x39 {
        return false;
    }
    if t.len() > 1 && c == '0' {
        return false;
    }
    match parse_unsigned_decimal(t, 255) {
        Ok(_) => true,
        Err(_) => false,
    }
}

/// Whether a text is an IPv4 literal in `127.0.0.0/8`.
fn is_ipv4_loopback_chars(h: &[char]) -> (r: bool)
    ensures
        r == is_ipv4_loopback_literal(h@),
{
    let mut done: Vec<Vec<char>> = Vec::new();
    let mut cur: Vec<char> = Vec::new();
    let mut i: usize = 0;
    assert(h@.take(0) == Seq::<char>::empty());
    while i < h.len()
        invariant
            i <= h.len(),
            dot_parts(h@.take(i as int)).len() == done.len() + 1,
            forall|k: int| 0 <= k < done.len() ==> #[trigger] done@[k]@ == dot_parts(h@.take(i as int))[k],
            dot_parts(h@.take(i as int)).last() == cur@,
        decreases h.len() - i,
    {
        let ghost before = dot_parts(h@.take(i as int));
        let c = h[i];
        assert(h@.take(i + 1).drop_last() == h@.take(i as int));
        assert(h@.take(i + 1).last() == c);
        if c == '.' {
            done.push(cur);
            cur = Vec::new();
        } else {
            cur.push(c);
        }
        i = i + 1;
        assert(dot_parts(h@.take(i as int)) == if c == '.' {
            before.push(Seq::<char>::empty())
        } else {
            before.update(before.len() - 1, before.last().push(c))
        });
    }
    assert(h@.take(h.len() as int) == h@);
    let ghost p = dot_parts(h@);
    if done.len() != 3 {
        return false;
    }
    proof {
        reveal_strlit("127");
    }
    let first = chars_eq_str(done[0].as_slice(), "127");
    assert(done@[0]@ == p[0]);
    assert(done@[1]@ == p[1]);
    assert(done@[2]@ == p[2]);
    first && is_decimal_octet_chars(done[1].as_slice()) && is_decimal_octet_chars(
        done[2].as_slice(),
    ) && is_decimal_octet_chars(cur.as_slice())
}

fn is_banned_upstream_host_chars(h: &[char]) -> (r: bool)
    ensures
        r == is_banned_upstream_host(h@),
{
    chars_eq_str(h, "169.254.169.254") || chars_eq_str(h, "metadata.google.internal")
        || chars_eq_str(h, "metadata.azure.com") || chars_eq_str(h, "metadata.azure.internal")
}

/// Validates the upstream URL against the SSRF deny-list and the
/// plaintext-only-for-loopback policy.
///
/// Fails with `Invalid` for [`ENV_UPSTREAM_URL`] exactly when the URL does
/// not parse, its scheme is not `http`/`https`, its host is empty, its host
/// is a cloud-metadata service, or it is plaintext `http://` to a
/// non-loopback host without `allow_plaintext`.
pub fn validate_upstream_url(url: &str, allow_plaintext: bool) -> (r: Result<(), ConfigError>)
    ensures
        match upstream_verdict(url@, allow_plaintext) {
            Ok(()) => r is Ok,
            Err(reason) => r matches Err(e) && e@ == invalid(ENV_UPSTREAM_URL, reason),
        },
{
    let parsed = match parse_url(url) {
        Ok(p) => p,
        Err(e) => {
            let mut reason = String::from_str("could not parse as URL: ");
            reason.append(e.as_str());
            return Err(ConfigError::Invalid { name: ENV_UPSTREAM_URL, reason });
        },
    };
    let scheme = chars_of(parsed.scheme.as_str());
    proof {
        reveal_strlit("http");
        reveal_strlit("https");
    }
    let is_http = chars_eq_str(scheme.as_slice(), "http");
    let is_https = chars_eq_str(scheme.as_slice(), "https");
    if !is_http && !is_https {
        let mut reason = String::from_str("scheme `");
        reason.append(parsed.scheme.as_str());
        reason.append("` is not allowed; use https:// or http:// (loopback only)");
        return Err(ConfigError::Invalid { name: ENV_UPSTREAM_URL, reason });
    }
    let raw_host: Vec<char> = match &parsed.host {
        Some(h) => chars_of(h.as_str()),
        None => Vec::new(),
    };
    let host = to_ascii_lowercase(raw_host.as_slice());
    let host_text = string_from_chars(host.as_slice());
    if host.len() == 0 {
        return Err(ConfigError::Invalid { name: ENV_UPSTREAM_URL, reason: String::from_str("host is empty") });
    }
    if is_banned_upstream_host_chars(host.as_slice()) {
        let mut reason = String::from_str("host `");
        reason.append(host_text.as_str());
        reason.append("` is on the cloud-metadata deny-list");
        return Err(ConfigError::Invalid { name: ENV_UPSTREAM_URL, reason });
    }
    if is_http {
        let is_loopback = is_loopback_host_chars(host.as_slice());
        if !is_loopback && !allow_plaintext {
            let mut reason = String::from_str(
                "plaintext http:// upstream is only allowed for loopback hosts; set ",
            );
            reason.append(ENV_UPSTREAM_ALLOW_PLAINTEXT);
            reason.append("=true to override (got host `");
            reason.append(host_text.as_str());
            reason.append("`)");
            return Err(ConfigError::Invalid { name: ENV_UPSTREAM_URL, reason });
        }
    }
    Ok(())
}

/// `s` without one trailing `/`, if it has one.
pub open spec fn strip_one_trailing_slash(s: Seq<char>) -> Seq<char> {
    if s.len() > 0 && s.last() == '/' {
        s.drop_last()
    } else {
        s
    }
}

/// The URL without one trailing slash.
pub fn trim_trailing_slash(url: &str) -> (r: String)
    ensures
        r@ == strip_one_trailing_slash(url@),
{
    let cs = chars_of(url);
    let n = cs.len();
    if n > 0 && cs[n - 1] == '/' {
        let mut v: Vec<char> = Vec::new();
        let mut i: usize = 0;
        while i + 1 < n
            invariant
                n == cs.len(),
                n > 0,
                i + 1 <= n,
                v@ == cs@.take(i as int),
            decreases n - i,
        {
            v.push(cs[i]);
            assert(cs@.take(i + 1) == cs@.take(i as int).push(cs@[i as int]));
            i = i + 1;
        }
        assert(cs@.drop_last() == cs@.take(i as int));
        string_from_chars(v.as_slice())
    } else {
        String::from_str(url)
    }
}

// ---------------------------------------------------------------------
// The whole parse
// ---------------------------------------------------------------------

/// The listen address a text denotes.
pub open spec fn spec_listen(env: EnvModel) -> Result<ListenAddr, ConfigErrorView> {
    let text = match env(ENV_LISTEN@) {
        Some(t) => t,
        None => DEFAULT_LISTEN@,
    };
    match socket_addr_parse(text) {
        Ok(a) => Ok(a),
        Err(m) => Err(invalid(ENV_LISTEN, m)),
    }
}

/// The upstream URL the environment gives, trimmed and validated (before
/// its trailing slash is removed).
pub open spec fn spec_upstream(env: EnvModel) -> Result<Seq<char>, ConfigErrorView> {
    match env(ENV_UPSTREAM_URL@) {
        None => Err(ConfigErrorView::Missing(ENV_UPSTREAM_URL@)),
        Some(raw) => {
            let t = trim(raw);
            if t.len() == 0 {
                Err(invalid(ENV_UPSTREAM_URL, "value is empty"@))
            } else {
                match spec_parse_bool(env(ENV_UPSTREAM_ALLOW_PLAINTEXT@), ENV_UPSTREAM_ALLOW_PLAINTEXT, false) {
                    Err(e) => Err(e),
                    Ok(allow) => match upstream_verdict(t, allow) {
                        Err(reason) => Err(invalid(ENV_UPSTREAM_URL, reason)),
                        Ok(()) => Ok(t),
                    },
                }
            }
        },
    }
}

/// The configuration an environment denotes, or the first error in the
/// order the variables are read: listen address, upstream URL (with the
/// plaintext override), log path, channel capacity, content capture, body
/// size cap, connect timeout, read timeout.
pub open spec fn config_from_env(env: EnvModel) -> Result<ConfigView, ConfigErrorView> {
    match spec_listen(env) {
        Err(e) => Err(e),
        Ok(listen) => match spec_upstream(env) {
            Err(e) => Err(e),
            Ok(upstream) => {
                let log_path = match env(ENV_LOG_PATH@) {
                    Some(p) => p,
                    None => DEFAULT_LOG_PATH@,
                };
                match spec_parse_size(env(ENV_LOG_CHANNEL_CAPACITY@), ENV_LOG_CHANNEL_CAPACITY, DEFAULT_LOG_CHANNEL_CAPACITY) {
                    Err(e) => Err(e),
                    Ok(capacity) => match spec_parse_bool(env(ENV_CAPTURE_CONTENT@), ENV_CAPTURE_CONTENT, DEFAULT_CAPTURE_CONTENT) {
                        Err(e) => Err(e),
                        Ok(capture) => match spec_parse_size(env(ENV_MAX_REQUEST_BYTES@), ENV_MAX_REQUEST_BYTES, DEFAULT_MAX_REQUEST_BYTES) {
                            Err(e) => Err(e),
                            Ok(max_bytes) => match spec_parse_secs(env(ENV_CONNECT_TIMEOUT_SECS@), ENV_CONNECT_TIMEOUT_SECS, DEFAULT_CONNECT_TIMEOUT_SECS) {
                                Err(e) => Err(e),
                                Ok(connect) => match spec_parse_secs(env(ENV_READ_TIMEOUT_SECS@), ENV_READ_TIMEOUT_SECS, DEFAULT_READ_TIMEOUT_SECS) {
                                    Err(e) => Err(e),
                                    Ok(read) => Ok(
                                        ConfigView {
                                            listen,
                                            upstream_url: strip_one_trailing_slash(upstream),
                                            log_path,
                                            log_channel_capacity: capacity,
                                            capture_content: capture,
                                            max_request_bytes: max_bytes,
                                            connect_timeout: connect,
                                            read_timeout: read,
                                        },
                                    ),
                                },
                            },
                        },
                    },
                }
            },
        },
    }
}

/// The proxy never starts on a configuration it should refuse: an accepted
/// configuration has an upstream URL, set in the environment, whose
/// trimmed text passed validation (scheme `http`/`https`, a host that is
/// not a cloud-metadata service, plaintext only to loopback unless
/// overridden), a non-empty upstream with at most its one trailing slash
/// removed, and positive channel capacity and body-size cap.
pub proof fn lemma_accepted_config(env: EnvModel)
    requires
        config_from_env(env) is Ok,
    ensures
        env(ENV_UPSTREAM_URL@) is Some,
        ({
            let raw = trim(env(ENV_UPSTREAM_URL@)->0);
            let allow = spec_parse_bool(
                env(ENV_UPSTREAM_ALLOW_PLAINTEXT@),
                ENV_UPSTREAM_ALLOW_PLAINTEXT,
                false,
            );
            let c = config_from_env(env)->Ok_0;
            &&& raw.len() > 0
            &&& allow is Ok
            &&& upstream_verdict(raw, allow->Ok_0) == Ok::<(), Seq<char>>(())
            &&& c.upstream_url == strip_one_trailing_slash(raw)
            &&& c.log_channel_capacity > 0
            &&& c.max_request_bytes > 0
        }),
{
}

/// Parsing succeeds exactly when every variable is acceptable: the listen
/// address (its default text when unset) parses; the upstream URL is set,
/// non-blank once trimmed, and passes validation under the plaintext
/// override, itself a valid boolean; the channel capacity and body-size cap
/// are unset or positive numbers; content capture is unset or a valid
/// boolean; and both timeouts are unset or whole numbers of seconds.
pub proof fn lemma_config_accepted_iff(env: EnvModel)
    ensures
        (config_from_env(env) is Ok) <==> {
            &&& spec_listen(env) is Ok
            &&& env(ENV_UPSTREAM_URL@) is Some
            &&& trim(env(ENV_UPSTREAM_URL@)->0).len() > 0
            &&& spec_parse_bool(
                env(ENV_UPSTREAM_ALLOW_PLAINTEXT@),
                ENV_UPSTREAM_ALLOW_PLAINTEXT,
                false,
            ) is Ok
            &&& upstream_verdict(
                trim(env(ENV_UPSTREAM_URL@)->0),
                spec_parse_bool(
                    env(ENV_UPSTREAM_ALLOW_PLAINTEXT@),
                    ENV_UPSTREAM_ALLOW_PLAINTEXT,
                    false,
                )->Ok_0,
            ) is Ok
            &&& spec_parse_size(
                env(ENV_LOG_CHANNEL_CAPACITY@),
                ENV_LOG_CHANNEL_CAPACITY,
                DEFAULT_LOG_CHANNEL_CAPACITY,
            ) is Ok
            &&& spec_parse_bool(env(ENV_CAPTURE_CONTENT@), ENV_CAPTURE_CONTENT, DEFAULT_CAPTURE_CONTENT)
                is Ok
            &&& spec_parse_size(
                env(ENV_MAX_REQUEST_BYTES@),
                ENV_MAX_REQUEST_BYTES,
                DEFAULT_MAX_REQUEST_BYTES,
            ) is Ok
            &&& spec_parse_secs(
                env(ENV_CONNECT_TIMEOUT_SECS@),
                ENV_CONNECT_TIMEOUT_SECS,
                DEFAULT_CONNECT_TIMEOUT_SECS,
            ) is Ok
            &&& spec_parse_secs(
                env(ENV_READ_TIMEOUT_SECS@),
                ENV_READ_TIMEOUT_SECS,
                DEFAULT_READ_TIMEOUT_SECS,
            ) is Ok
        },
{
}

/// A size variable holding a positive number is taken as given, whatever
/// the default (larger or smaller); only zero is refused, and an unset
/// variable gives the default. In a whole configuration, the channel
/// capacity and the body-size cap are the numbers their variables hold.
pub proof fn lemma_size_taken_as_given(r: Seq<char>, name: &'static str, d: usize, env: EnvModel)
    ensures
        parse_unsigned(r, usize::MAX as nat) is Ok && parse_unsigned(r, usize::MAX as nat)->Ok_0
            > 0 ==> spec_parse_size(Some(r), name, d) == Ok::<usize, ConfigErrorView>(
            parse_unsigned(r, usize::MAX as nat)->Ok_0 as usize,
        ),
        parse_unsigned(r, usize::MAX as nat) == Ok::<nat, IntParseError>(0) ==> spec_parse_size(
            Some(r),
            name,
            d,
        ) is Err,
        d > 0 ==> spec_parse_size(None, name, d) == Ok::<usize, ConfigErrorView>(d),
        config_from_env(env) is Ok && env(ENV_MAX_REQUEST_BYTES@) == Some(r) ==> parse_unsigned(
            r,
            usize::MAX as nat,
        ) is Ok && config_from_env(env)->Ok_0.max_request_bytes == parse_unsigned(
            r,
            usize::MAX as nat,
        )->Ok_0,
        config_from_env(env) is Ok && env(ENV_LOG_CHANNEL_CAPACITY@) == Some(r) ==> parse_unsigned(
            r,
            usize::MAX as nat,
        ) is Ok && config_from_env(env)->Ok_0.log_channel_capacity == parse_unsigned(
            r,
            usize::MAX as nat,
        )->Ok_0,
{
}

/// Without an upstream URL the proxy refuses to start (unless the listen
/// address is refused first).
pub proof fn lemma_upstream_required(env: EnvModel)
    requires
        env(ENV_UPSTREAM_URL@) is None,
        spec_listen(env) is Ok,
    ensures
        config_from_env(env) == Err::<ConfigView, ConfigErrorView>(
            ConfigErrorView::Missing(ENV_UPSTREAM_URL@),
        ),
{
}

/// A configuration result as views.
pub open spec fn view_config_result(r: Result<Config, ConfigError>) -> Result<ConfigView, ConfigErrorView> {
    match r {
        Ok(c) => Ok(c@),
        Err(e) => Err(e@),
    }
}

impl Config {
    /// Builds a [`Config`] from a lookup function (the process environment in
    /// production, a map in tests).
    ///
    /// For every environment model that all of the lookup's possible results
    /// agree with, the result is [`config_from_env`] of that model.
    pub fn from_lookup<F: Fn(&str) -> Option<String>>(lookup: F) -> (r: Result<Self, ConfigError>)
        requires
            lookup_callable(lookup),
        ensures
            forall|env: EnvModel|
                #[trigger] lookup_agrees(lookup, env) ==> view_config_result(r) == config_from_env(env),
    {
        let listen_raw = lookup(ENV_LISTEN);
        let listen_text = match listen_raw {
            Some(s) => s,
            None => String::from_str(DEFAULT_LISTEN),
        };
        let listen = match parse_socket_addr(listen_text.as_str()) {
            Ok(a) => a,
            Err(m) => {
                return Err(ConfigError::Invalid { name: ENV_LISTEN, reason: m });
            },
        };

        let upstream_raw = match lookup(ENV_UPSTREAM_URL) {
            Some(s) => s,
            None => {
                return Err(ConfigError::Missing(ENV_UPSTREAM_URL));
            },
        };
        let upstream_chars = chars_of(upstream_raw.as_str());
        let upstream = trim_chars(upstream_chars.as_slice());
        if upstream.len() == 0 {
            return Err(
                ConfigError::Invalid { name: ENV_UPSTREAM_URL, reason: String::from_str("value is empty") },
            );
        }
        let allow_plaintext = match parse_bool_env(&lookup, ENV_UPSTREAM_ALLOW_PLAINTEXT, false) {
            Ok(b) => b,
            Err(e) => {
                return Err(e);
            },
        };
        let upstream_text = string_from_chars(upstream.as_slice());
        match validate_upstream_url(upstream_text.as_str(), allow_plaintext) {
            Ok(()) => {},
            Err(e) => {
                return Err(e);
            },
        }

        let log_path = match lookup(ENV_LOG_PATH) {
            Some(p) => p,
            None => String::from_str(DEFAULT_LOG_PATH),
        };

        let log_channel_capacity = match parse_size_value(
            lookup(ENV_LOG_CHANNEL_CAPACITY),
            ENV_LOG_CHANNEL_CAPACITY,
            DEFAULT_LOG_CHANNEL_CAPACITY,
        ) {
            Ok(v) => v,
            Err(e) => {
                return Err(e);
            },
        };

        let capture_content = match parse_bool_env(&lookup, ENV_CAPTURE_CONTENT, DEFAULT_CAPTURE_CONTENT) {
            Ok(b) => b,
            Err(e) => {
                return Err(e);
            },
        };

        let max_request_bytes = match parse_size_value(
            lookup(ENV_MAX_REQUEST_BYTES),
            ENV_MAX_REQUEST_BYTES,
            DEFAULT_MAX_REQUEST_BYTES,
        ) {
            Ok(v) => v,
            Err(e) => {
                return Err(e);
            },
        };

        let connect_timeout = match parse_duration_secs(
            &lookup,
            ENV_CONNECT_TIMEOUT_SECS,
            DEFAULT_CONNECT_TIMEOUT_SECS,
        ) {
            Ok(d) => d,
            Err(e) => {
                return Err(e);
            },
        };
        let read_timeout = match parse_duration_secs(
            &lookup,
            ENV_READ_TIMEOUT_SECS,
            DEFAULT_READ_TIMEOUT_SECS,
        ) {
            Ok(d) => d,
            Err(e) => {
                return Err(e);
            },
        };

        Ok(
            Config {
                listen,
                upstream_url: trim_trailing_slash(upstream_text.as_str()),
                log_path,
                log_channel_capacity,
                capture_content,
                max_request_bytes,
                connect_timeout,
                read_timeout,
            },
        )
    }
}

} // verus!
