//! The upstream proxy descriptor and the parser of its configuration string,
//! `username:password@host:port` or `host:port`.

use vstd::prelude::*;
use vstd::slice::slice_subrange;
use vstd::string::*;

use crate::text::{chars_of, find_first, find_last};

verus! {

/// Why a proxy configuration string was rejected.
#[derive(Clone, Copy, Debug, PartialEq, Eq, Structural)]
pub enum ParseError {
    /// An authentication part is present and holds no `:`.
    InvalidAuthFormat,
    /// The host part holds no `:`.
    MissingPort,
    /// What follows the last `:` of the host part is no 16-bit port number.
    InvalidPort,
}

impl ParseError {
    /// The text that explains the error to whoever wrote the configuration.
    pub open spec fn message_spec(self) -> Seq<char> {
        match self {
            ParseError::InvalidAuthFormat => "Invalid auth format, expected username:password"@,
            ParseError::MissingPort => "Port is required, expected host:port"@,
            ParseError::InvalidPort => "Invalid port number"@,
        }
    }

    /// The text that explains the error to whoever wrote the configuration.
    pub fn message(&self) -> (text: String)
        ensures
            text@ == self.message_spec(),
    {
        match self {
            ParseError::InvalidAuthFormat => String::from_str(
                "Invalid auth format, expected username:password",
            ),
            ParseError::MissingPort => String::from_str("Port is required, expected host:port"),
            ParseError::InvalidPort => String::from_str("Invalid port number"),
        }
    }
}

/// An upstream proxy: where it listens and, optionally, how to log in.
#[derive(Debug, PartialEq, Eq)]
pub struct ProxyConfig {
    pub username: Option<String>,
    pub password: Option<String>,
    pub host: String,
    pub port: u16,
}

/// The mathematical content of a [`ProxyConfig`].
pub struct ProxyConfigView {
    pub username: Option<Seq<char>>,
    pub password: Option<Seq<char>>,
    pub host: Seq<char>,
    pub port: u16,
}

impl DeepView for ProxyConfig {
    type V = ProxyConfigView;

    open spec fn deep_view(&self) -> ProxyConfigView {
        ProxyConfigView {
            username: self.username.deep_view(),
            password: self.password.deep_view(),
            host: self.host@,
            port: self.port,
        }
    }
}

impl ProxyConfigView {
    /// Credentials are atomic: a user name and a password come together or not at all.
    pub open spec fn wf(self) -> bool {
        self.username is Some <==> self.password is Some
    }
}

impl ProxyConfig {
    /// Credentials are atomic: a user name and a password come together or not at all.
    pub open spec fn wf(&self) -> bool {
        self.deep_view().wf()
    }
}

/// `c` is one of the ten ASCII decimal digits.
pub open spec fn is_digit(c: char) -> bool {
    '0' <= c <= '9'
}

/// The number a decimal digit stands for; 0 for any other character.
pub open spec fn digit_value(c: char) -> nat {
    if is_digit(c) {
        (c as int - '0' as int) as nat
    } else {
        0
    }
}

/// The number that a run of decimal digits denotes, most significant digit first.
pub open spec fn decimal_value(s: Seq<char>) -> nat
    decreases s.len(),
{
    if s.len() == 0 {
        0
    } else {
        decimal_value(s.drop_last()) * 10 + digit_value(s.last())
    }
}

/// Every character of `s` is a decimal digit.
pub open spec fn all_digits(s: Seq<char>) -> bool {
    forall|i: int| 0 <= i < s.len() ==> is_digit(#[trigger] s[i])
}

/// `s` without one leading `+`, if it has one.
pub open spec fn without_plus(s: Seq<char>) -> Seq<char> {
    if s.len() > 0 && s[0] == '+' {
        s.skip(1)
    } else {
        s
    }
}

/// The port that a text denotes: an optional `+`, then one or more decimal
/// digits whose value fits 16 bits. Leading zeros are allowed; anything else,
/// the empty text and a lone `+` included, denotes no port.
pub open spec fn port_of(s: Seq<char>) -> Option<u16> {
    let digits = without_plus(s);
    if digits.len() > 0 && all_digits(digits) && decimal_value(digits) <= u16::MAX {
        Some(decimal_value(digits) as u16)
    } else {
        None
    }
}

/// The authentication part: what stands before the last `@`, if there is an `@`.
pub open spec fn auth_part(s: Seq<char>) -> Option<Seq<char>> {
    match s.index_of_last('@') {
        Some(at) => Some(s.take(at)),
        None => None,
    }
}

/// The host part: what stands after the last `@`, or everything without an `@`.
pub open spec fn host_part(s: Seq<char>) -> Seq<char> {
    match s.index_of_last('@') {
        Some(at) => s.skip(at + 1),
        None => s,
    }
}

/// What a configuration string denotes.
///
/// The authentication part is split at its first `:`, the host part at its
/// last `:`. A malformed authentication part is reported before anything is
/// asked of the host part. The host is taken as it stands, the empty host
/// included.
pub open spec fn parse_proxy_spec(s: Seq<char>) -> Result<ProxyConfigView, ParseError> {
    let auth = auth_part(s);
    let host_port = host_part(s);
    if auth is Some && auth->0.index_of_first(':') is None {
        Err(ParseError::InvalidAuthFormat)
    } else if host_port.index_of_last(':') is None {
        Err(ParseError::MissingPort)
    } else {
        let colon = host_port.index_of_last(':')->0;
        match port_of(host_port.skip(colon + 1)) {
            None => Err(ParseError::InvalidPort),
            Some(port) => Ok(
                ProxyConfigView {
                    username: match auth {
                        Some(a) => Some(a.take(a.index_of_first(':')->0)),
                        None => None,
                    },
                    password: match auth {
                        Some(a) => Some(a.skip(a.index_of_first(':')->0 + 1)),
                        None => None,
                    },
                    host: host_port.take(colon),
                    port,
                },
            ),
        }
    }
}

/// A prefix of a digit run never denotes more than the whole run.
proof fn lemma_decimal_value_grows(s: Seq<char>, k: int)
    requires
        0 <= k <= s.len(),
    ensures
        decimal_value(s.take(k)) <= decimal_value(s),
    decreases s.len() - k,
{
    if k == s.len() {
        assert(s.take(k) =~= s);
    } else {
        lemma_decimal_value_grows(s, k + 1);
        assert(s.take(k + 1).drop_last() =~= s.take(k));
    }
}

/// Reads a port number: see [`port_of`].
fn parse_port(text: &[char]) -> (port: Option<u16>)
    ensures
        port == port_of(text@),
{
    let n = text.len();
    let start: usize = if n > 0 && text[0] == '+' { 1 } else { 0 };
    let ghost digits = without_plus(text@);
    if start == n {
        return None;
    }
    let mut acc: u32 = 0;
    let mut i: usize = start;
    while i < n
        invariant
            n == text@.len(),
            digits == without_plus(text@),
            digits == text@.skip(start as int),
            start <= i <= n,
            all_digits(digits.take(i - start)),
            acc == decimal_value(digits.take(i - start)),
            acc <= u16::MAX,
        decreases n - i,
    {
        let c = text[i];
        if c < '0' || c > '9' {
            assert(!is_digit(digits[i - start]));
            return None;
        }
        let ghost before = digits.take(i - start);
        let ghost after = digits.take(i + 1 - start);
        assert(after.drop_last() =~= before);
        assert(after.last() == c);
        acc = acc * 10 + (c as u32 - '0' as u32);
        if acc > u16::MAX as u32 {
            proof {
                lemma_decimal_value_grows(digits, i + 1 - start);
            }
            return None;
        }
        i += 1;
    }
    assert(digits.take(n - start) =~= digits);
    Some(acc as u16)
}

/// Parses `username:password@host:port` or `host:port`.
///
/// The result is exactly what [`parse_proxy_spec`] says of the text: the
/// descriptor on success, and otherwise the one error that applies first.
pub fn parse_proxy(proxy_str: &str) -> (result: Result<ProxyConfig, ParseError>)
    ensures
        match result {
            Ok(config) => parse_proxy_spec(proxy_str@) == Ok::<ProxyConfigView, ParseError>(
                config.deep_view(),
            ),
            Err(error) => parse_proxy_spec(proxy_str@) == Err::<ProxyConfigView, ParseError>(
                error,
            ),
        },
        result matches Ok(config) ==> config.wf(),
{
    let chars = chars_of(proxy_str);
    let n = chars.len();
    let at = find_last(chars.as_slice(), '@');
    proof {
        proxy_str@.index_of_last_ensures('@');
    }
    // Where the host part begins, and where the authentication part ends.
    let host_start: usize = match at {
        Some(i) => i + 1,
        None => 0,
    };
    let ghost auth = auth_part(proxy_str@);
    let ghost host_port = host_part(proxy_str@);
    assert(host_port == proxy_str@.skip(host_start as int));

    let mut username: Option<String> = None;
    let mut password: Option<String> = None;
    if let Some(auth_end) = at {
        assert(auth == Some(proxy_str@.take(auth_end as int)));
        let auth_chars = slice_subrange(chars.as_slice(), 0, auth_end);
        match find_first(auth_chars, ':') {
            Some(colon) => {
                proof {
                    auth->0.index_of_first_ensures(':');
                    assert(proxy_str@.subrange(0, colon as int) =~= auth->0.take(colon as int));
                    assert(proxy_str@.subrange(colon + 1, auth_end as int) =~= auth->0.skip(
                        colon + 1,
                    ));
                }
                username = Some(proxy_str.substring_char(0, colon).to_owned());
                password = Some(proxy_str.substring_char(colon + 1, auth_end).to_owned());
            },
            None => {
                return Err(ParseError::InvalidAuthFormat);
            },
        }
    }
    let host_chars = slice_subrange(chars.as_slice(), host_start, n);
    let colon = match find_last(host_chars, ':') {
        Some(colon) => colon,
        None => {
            return Err(ParseError::MissingPort);
        },
    };
    proof {
        host_port.index_of_last_ensures(':');
        assert(proxy_str@.subrange(host_start as int, host_start + colon) =~= host_port.take(
            colon as int,
        ));
    }
    let port_chars = slice_subrange(host_chars, colon + 1, host_chars.len());
    assert(port_chars@ =~= host_port.skip(colon + 1));
    let port = match parse_port(port_chars) {
        Some(port) => port,
        None => {
            return Err(ParseError::InvalidPort);
        },
    };
    let host = proxy_str.substring_char(host_start, host_start + colon).to_owned();
    Ok(ProxyConfig { username, password, host, port })
}

/// A text that denotes a port holds neither `@` nor `:`.
proof fn lemma_port_text_has_no_separator(text: Seq<char>)
    requires
        port_of(text) is Some,
    ensures
        !text.contains('@'),
        !text.contains(':'),
{
    let digits = without_plus(text);
    assert forall|i: int| 0 <= i < text.len() implies text[i] != '@' && text[i] != ':' by {
        if digits.len() == text.len() {
            assert(is_digit(digits[i]));
        } else if i > 0 {
            assert(is_digit(digits[i - 1]));
        }
    }
}

/// Every configuration string put together as `user:pass@host:port` is read
/// back as those four parts, provided that the split points are where the
/// writer meant them: the user name holds no `:`, the host holds no `@`, and
/// the port text denotes a port. The password may hold any character.
pub proof fn lemma_parse_with_credentials(
    user: Seq<char>,
    pass: Seq<char>,
    host: Seq<char>,
    port_text: Seq<char>,
)
    requires
        !user.contains(':'),
        !host.contains('@'),
        port_of(port_text) is Some,
    ensures
        parse_proxy_spec(user + seq![':'] + pass + seq!['@'] + host + seq![':'] + port_text) == Ok::<
            ProxyConfigView,
            ParseError,
        >(
            ProxyConfigView {
                username: Some(user),
                password: Some(pass),
                host,
                port: port_of(port_text)->0,
            },
        ),
{
    let s = user + seq![':'] + pass + seq!['@'] + host + seq![':'] + port_text;
    let at: int = (user.len() + 1 + pass.len()) as int;
    lemma_port_text_has_no_separator(port_text);
    assert(s[at] == '@');
    assert forall|j: int| at < j < s.len() implies s[j] != '@' by {
        if j < at + 1 + host.len() {
            assert(s[j] == host[j - at - 1]);
        } else if j > at + 1 + host.len() {
            assert(s[j] == port_text[j - at - 2 - host.len()]);
        }
    }
    s.index_of_last_ensures('@');
    assert(s.index_of_last('@') == Some(at));

    let auth = s.take(at);
    assert(auth =~= user + seq![':'] + pass);
    assert(auth[user.len() as int] == ':');
    assert forall|j: int| 0 <= j < user.len() implies auth[j] != ':' by {
        assert(auth[j] == user[j]);
    }
    auth.index_of_first_ensures(':');
    assert(auth.index_of_first(':') == Some(user.len() as int));
    assert(auth.take(user.len() as int) =~= user);
    assert(auth.skip(user.len() as int + 1) =~= pass);

    let host_port = s.skip(at + 1);
    assert(host_port =~= host + seq![':'] + port_text);
    assert(host_port[host.len() as int] == ':');
    assert forall|j: int| host.len() < j < host_port.len() implies host_port[j] != ':' by {
        assert(host_port[j] == port_text[j - host.len() - 1]);
    }
    host_port.index_of_last_ensures(':');
    assert(host_port.index_of_last(':') == Some(host.len() as int));
    assert(host_port.take(host.len() as int) =~= host);
    assert(host_port.skip(host.len() as int + 1) =~= port_text);
}

/// Every configuration string put together as `host:port`, with no `@` in the
/// host, is read back as that host and port, without credentials.
pub proof fn lemma_parse_without_credentials(host: Seq<char>, port_text: Seq<char>)
    requires
        !host.contains('@'),
        port_of(port_text) is Some,
    ensures
        parse_proxy_spec(host + seq![':'] + port_text) == Ok::<ProxyConfigView, ParseError>(
            ProxyConfigView {
                username: None,
                password: None,
                host,
                port: port_of(port_text)->0,
            },
        ),
{
    let s = host + seq![':'] + port_text;
    lemma_port_text_has_no_separator(port_text);
    assert forall|j: int| 0 <= j < s.len() implies s[j] != '@' by {
        if j < host.len() {
            assert(s[j] == host[j]);
        } else if j > host.len() {
            assert(s[j] == port_text[j - host.len() - 1]);
        }
    }
    s.index_of_last_ensures('@');
    assert(s.index_of_last('@') is None);
    assert(s[host.len() as int] == ':');
    assert forall|j: int| host.len() < j < s.len() implies s[j] != ':' by {
        assert(s[j] == port_text[j - host.len() - 1]);
    }
    s.index_of_last_ensures(':');
    assert(s.index_of_last(':') == Some(host.len() as int));
    assert(s.take(host.len() as int) =~= host);
    assert(s.skip(host.len() as int + 1) =~= port_text);
}

/// A configuration string without any `@` never yields credentials, and one
/// with an `@` that is accepted always yields both a user name and a password.
pub proof fn lemma_credentials_follow_the_at_sign(s: Seq<char>)
    requires
        parse_proxy_spec(s) is Ok,
    ensures
        parse_proxy_spec(s)->Ok_0.wf(),
        parse_proxy_spec(s)->Ok_0.username is Some <==> s.contains('@'),
{
    s.index_of_last_ensures('@');
}

} // verus!
