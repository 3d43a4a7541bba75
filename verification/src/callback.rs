//! The local side of the browser login: the address the callback listener
//! binds, the query of a callback request, and the answer to each request.

use vstd::prelude::*;
use vstd::string::StringExecFns;
use vstd::utf8::encode_utf8;
use crate::text::{
    chars_of, decimal_digits, keep_nonempty, push_decimal, trim_bounds, trim_ws, separator_fn,
    split_by, split_pieces, str_eq, string_from_chars, views_of, words, Separator,
};

verus! {

/// An IP address: four octets, or eight 16-bit segments.
#[derive(Clone, Copy, Debug, PartialEq, Eq)]
pub enum IpAddress {
    V4([u8; 4]),
    V6([u16; 8]),
}

/// An IP address with a port.
#[derive(Clone, Copy, Debug, PartialEq, Eq)]
pub struct SocketAddress {
    pub ip: IpAddress,
    pub port: u16,
}

/// A loopback address: `127.0.0.0/8`, or `::1`.
pub open spec fn is_loopback(ip: IpAddress) -> bool {
    match ip {
        IpAddress::V4(o) => o[0] == 127,
        IpAddress::V6(s) => s[0] == 0 && s[1] == 0 && s[2] == 0 && s[3] == 0 && s[4] == 0 && s[5]
            == 0 && s[6] == 0 && s[7] == 1,
    }
}

/// The loopback addresses are exactly `127.0.0.0/8` and `::1`: an IPv4
/// address is one exactly when its first octet is 127, an IPv6 address
/// exactly when it is `0:0:0:0:0:0:0:1`.
pub proof fn law_loopback_addresses(ip: IpAddress)
    ensures
        ip matches IpAddress::V4(o) ==> (is_loopback(ip) <==> o[0] == 127),
        ip matches IpAddress::V6(s) ==> (is_loopback(ip) <==> s@ == seq![0u16, 0, 0, 0, 0, 0, 0, 1]),
{
    if let IpAddress::V6(s) = ip {
        if s@ == seq![0u16, 0, 0, 0, 0, 0, 0, 1] {
            assert(s@[7] == 1);
            assert(s@[0] == 0 && s@[1] == 0 && s@[2] == 0 && s@[3] == 0);
            assert(s@[4] == 0 && s@[5] == 0 && s@[6] == 0);
        }
        if is_loopback(ip) {
            assert(s@ =~= seq![0u16, 0, 0, 0, 0, 0, 0, 1]);
        }
    }
}

/// Whether `ip` is a loopback address (`IpAddr::is_loopback`).
pub fn ip_is_loopback(ip: &IpAddress) -> (r: bool)
    ensures
        r == is_loopback(*ip),
        ip matches IpAddress::V4(o) ==> (r <==> o[0] == 127),
        ip matches IpAddress::V6(s) ==> (r <==> s@ == seq![0u16, 0, 0, 0, 0, 0, 0, 1]),
{
    proof {
        law_loopback_addresses(*ip);
    }
    match ip {
        IpAddress::V4(o) => o[0] == 127,
        IpAddress::V6(s) => s[0] == 0 && s[1] == 0 && s[2] == 0 && s[3] == 0 && s[4] == 0 && s[5]
            == 0 && s[6] == 0 && s[7] == 1,
    }
}

/// The host of a URL.
#[derive(Clone, Debug)]
pub enum UrlHost {
    Domain(String),
    Ipv4([u8; 4]),
    Ipv6([u16; 8]),
}

/// The parts of a parsed URL that the listener reads.
#[derive(Clone, Debug)]
pub struct ParsedUrl {
    pub scheme: String,
    pub host: Option<UrlHost>,
    pub port: Option<u16>,
}

pub enum HostView {
    Domain(Seq<char>),
    Ipv4([u8; 4]),
    Ipv6([u16; 8]),
}

pub struct UrlView {
    pub scheme: Seq<char>,
    pub host: Option<HostView>,
    pub port: Option<u16>,
}

impl View for UrlHost {
    type V = HostView;

    open spec fn view(&self) -> HostView {
        match self {
            UrlHost::Domain(d) => HostView::Domain(d@),
            UrlHost::Ipv4(o) => HostView::Ipv4(*o),
            UrlHost::Ipv6(s) => HostView::Ipv6(*s),
        }
    }
}

impl View for ParsedUrl {
    type V = UrlView;

    open spec fn view(&self) -> UrlView {
        UrlView {
            scheme: self.scheme@,
            host: match self.host {
                Some(h) => Some(h@),
                None => None,
            },
            port: self.port,
        }
    }
}

/// What `url::Url::parse` makes of a string: its scheme, host and port (the
/// scheme's default port when none is written), or nothing when it is no
/// absolute URL.
pub uninterp spec fn url_parse(input: Seq<char>) -> Option<UrlView>;

/// Calls `url::Url::parse` and keeps the scheme (`Url::scheme`), the host
/// (`Url::host`) and the port (`Url::port_or_known_default`: the written port,
/// else the scheme's default, such as 80 for `http`). The contract names the
/// result and says nothing more of it.
#[verifier::external_body]
fn parse_url(input: &str) -> (r: Option<ParsedUrl>)
    ensures
        r matches Some(u) ==> url_parse(input@) == Some(u@),
        r is None ==> url_parse(input@) is None,
{
    let u = match url::Url::parse(input) {
        Ok(u) => u,
        Err(_) => return None,
    };
    let host = match u.host() {
        None => None,
        Some(url::Host::Domain(d)) => Some(UrlHost::Domain(d.to_string())),
        Some(url::Host::Ipv4(a)) => Some(UrlHost::Ipv4(a.octets())),
        Some(url::Host::Ipv6(a)) => Some(UrlHost::Ipv6(a.segments())),
    };
    Some(ParsedUrl { scheme: u.scheme().to_string(), host, port: u.port_or_known_default() })
}

/// The classes of characters that delimit the parts of a URI's authority.
#[derive(Clone, Copy, Debug, PartialEq, Eq)]
pub enum Delimiter {
    /// `:`.
    Colon,
    /// Anything but `/` and `\`.
    NotSlash,
    /// `/`, `\`, `?` or `#`: the end of the authority.
    AuthorityEnd,
    /// `]`: the end of a bracketed IPv6 host.
    CloseBracket,
}

pub open spec fn is_delimiter(d: Delimiter, c: char) -> bool {
    match d {
        Delimiter::Colon => c == ':',
        Delimiter::NotSlash => c != '/' && c != '\\',
        Delimiter::AuthorityEnd => c == '/' || c == '\\' || c == '?' || c == '#',
        Delimiter::CloseBracket => c == ']',
    }
}

/// The first index in `from..to` holding a `d` character, `to` when none does.
pub open spec fn first_in(s: Seq<char>, from: int, to: int, d: Delimiter) -> int
    decreases to - from,
{
    if from >= to {
        to
    } else if is_delimiter(d, s[from]) {
        from
    } else {
        first_in(s, from + 1, to, d)
    }
}

/// Just after the last `@` in `s[from..to]`, `from` when there is none.
pub open spec fn after_last_at(s: Seq<char>, from: int, to: int) -> int
    decreases to - from,
{
    if to <= from {
        from
    } else if s[to - 1] == '@' {
        to
    } else {
        after_last_at(s, from, to - 1)
    }
}

fn find_in(s: &Vec<char>, from: usize, to: usize, d: Delimiter) -> (r: usize)
    requires
        from <= to <= s@.len(),
    ensures
        r == first_in(s@, from as int, to as int, d),
        from <= r <= to,
{
    let mut i = from;
    while i < to
        invariant
            from <= i <= to <= s@.len(),
            first_in(s@, from as int, to as int, d) == first_in(s@, i as int, to as int, d),
        decreases to - i,
    {
        let c = s[i];
        let hit = match d {
            Delimiter::Colon => c == ':',
            Delimiter::NotSlash => c != '/' && c != '\\',
            Delimiter::AuthorityEnd => c == '/' || c == '\\' || c == '?' || c == '#',
            Delimiter::CloseBracket => c == ']',
        };
        if hit {
            return i;
        }
        i = i + 1;
    }
    i
}

/// The authority of a URI: after the scheme's `:` and the slashes that follow,
/// up to the first `/`, `\`, `?` or `#`. Its port is what follows the first `:`
/// after any user information (up to the last `@`) and, for a bracketed IPv6
/// host, after the `]`. The URI writes a port when that text is not empty.
pub open spec fn port_written(s: Seq<char>) -> bool {
    let n = s.len() as int;
    let scheme_end = first_in(s, 0, n, Delimiter::Colon);
    if scheme_end >= n {
        false
    } else {
        let b = first_in(s, scheme_end + 1, n, Delimiter::NotSlash);
        let e = first_in(s, b, n, Delimiter::AuthorityEnd);
        let h = after_last_at(s, b, e);
        let start = if h < e && s[h] == '[' {
            first_in(s, h, e, Delimiter::CloseBracket)
        } else {
            h
        };
        first_in(s, start, e, Delimiter::Colon) + 1 < e
    }
}

/// Whether the URI writes a port in its authority (`:80` counts, an empty
/// `:` does not).
pub fn uri_writes_port(uri: &str) -> (r: bool)
    ensures
        r == port_written(uri@),
{
    let s = chars_of(uri);
    let n = s.len();
    let scheme_end = find_in(&s, 0, n, Delimiter::Colon);
    if scheme_end >= n {
        return false;
    }
    let b = find_in(&s, scheme_end + 1, n, Delimiter::NotSlash);
    let e = find_in(&s, b, n, Delimiter::AuthorityEnd);
    let mut h = e;
    while h > b && s[h - 1] != '@'
        invariant
            b <= h <= e <= s@.len(),
            after_last_at(s@, b as int, e as int) == after_last_at(s@, b as int, h as int),
        decreases h - b,
    {
        h = h - 1;
    }
    if h == b {
        assert(after_last_at(s@, b as int, h as int) == b);
    }
    let start = if h < e && s[h] == '[' {
        find_in(&s, h, e, Delimiter::CloseBracket)
    } else {
        h
    };
    let colon = find_in(&s, start, e, Delimiter::Colon);
    colon < e && e - colon > 1
}

/// An `http` URL that writes its port.
pub open spec fn is_http_with_port(u: UrlView, written: bool) -> bool {
    u.scheme == "http"@ && written && u.port is Some
}

/// The addresses that a URL's host and port stand for: the address itself
/// for an IP host, what name resolution gave (`resolved`) for a domain,
/// none without a host.
pub open spec fn url_addresses(u: UrlView, resolved: Seq<SocketAddress>) -> Seq<SocketAddress> {
    let port = u.port->0;
    match u.host {
        None => Seq::empty(),
        Some(HostView::Domain(_)) => resolved,
        Some(HostView::Ipv4(o)) => seq![SocketAddress { ip: IpAddress::V4(o), port }],
        Some(HostView::Ipv6(s)) => seq![SocketAddress { ip: IpAddress::V6(s), port }],
    }
}

/// The listening address for a parsed redirect URI: the last address its host
/// stands for, when the URI is `http`, writes its port, and that address is
/// a loopback one.
pub open spec fn listen_address(u: UrlView, written: bool, resolved: Seq<SocketAddress>) -> Option<
    SocketAddress,
> {
    if is_http_with_port(u, written) {
        let addrs = url_addresses(u, resolved);
        if addrs.len() > 0 && is_loopback(addrs.last().ip) {
            Some(addrs.last())
        } else {
            None
        }
    } else {
        None
    }
}

/// The address to listen on for a redirect URI (see `listen_address`).
pub open spec fn socket_address_of(uri: Seq<char>, resolved: Seq<SocketAddress>) -> Option<
    SocketAddress,
> {
    match url_parse(uri) {
        Some(u) => listen_address(u, port_written(uri), resolved),
        None => None,
    }
}

/// The domain and port that must be resolved to find the listening address of
/// a redirect URI: `Some` for an `http` URI that writes its port and whose
/// host is a domain.
pub fn redirect_lookup(redirect_uri: &str) -> (r: Option<(String, u16)>)
    ensures
        r matches Some((d, p)) ==> (url_parse(redirect_uri@) matches Some(u) && is_http_with_port(
            u,
            port_written(redirect_uri@),
        ) && u.host == Some(HostView::Domain(d@)) && u.port == Some(p)),
        r is None ==> !(url_parse(redirect_uri@) matches Some(u) && is_http_with_port(
            u,
            port_written(redirect_uri@),
        ) && u.host matches Some(HostView::Domain(_))),
{
    let u = match parse_url(redirect_uri) {
        Some(u) => u,
        None => return None,
    };
    let port = match u.port {
        Some(p) => p,
        None => return None,
    };
    if !str_eq(u.scheme.as_str(), "http") || !uri_writes_port(redirect_uri) {
        return None;
    }
    match u.host {
        Some(UrlHost::Domain(d)) => Some((d, port)),
        _ => None,
    }
}

/// The listening address for a parsed URI (`listen_address`): `written` says
/// whether the URI writes its port, and `resolved` is what resolving a domain
/// host gave (not read for an IP host).
pub fn socket_address_for(u: &ParsedUrl, written: bool, resolved: &Vec<SocketAddress>) -> (r:
    Option<SocketAddress>)
    ensures
        r == listen_address(u@, written, resolved@),
        r matches Some(a) ==> match a.ip {
            IpAddress::V4(o) => o[0] == 127,
            IpAddress::V6(s) => s@ == seq![0u16, 0, 0, 0, 0, 0, 0, 1],
        },
{
    proof {
        if let Some(a) = listen_address(u@, written, resolved@) {
            law_loopback_addresses(a.ip);
        }
    }
    let port = match u.port {
        Some(p) => p,
        None => return None,
    };
    if !written || !str_eq(u.scheme.as_str(), "http") {
        return None;
    }
    let last = match &u.host {
        None => None,
        Some(UrlHost::Domain(_)) => {
            if resolved.len() > 0 {
                Some(resolved[resolved.len() - 1])
            } else {
                None
            }
        },
        Some(UrlHost::Ipv4(o)) => Some(SocketAddress { ip: IpAddress::V4(*o), port }),
        Some(UrlHost::Ipv6(s)) => Some(SocketAddress { ip: IpAddress::V6(*s), port }),
    };
    match last {
        Some(a) => {
            if ip_is_loopback(&a.ip) {
                Some(a)
            } else {
                None
            }
        },
        None => None,
    }
}

/// The socket address that the login callback listener binds for
/// `redirect_uri`: `Some` only for an `http` URI that writes its port (an
/// explicit default port counts) and whose host stands for a loopback
/// address. For a domain host the addresses come from `resolved`, what
/// resolving `redirect_lookup`'s domain and port gave (the last one counts);
/// for an IP host `resolved` is not read.
pub fn get_socket_address(redirect_uri: &str, resolved: &Vec<SocketAddress>) -> (r: Option<
    SocketAddress,
>)
    ensures
        r == socket_address_of(redirect_uri@, resolved@),
        r matches Some(a) ==> match a.ip {
            IpAddress::V4(o) => o[0] == 127,
            IpAddress::V6(s) => s@ == seq![0u16, 0, 0, 0, 0, 0, 0, 1],
        },
{
    match parse_url(redirect_uri) {
        Some(u) => socket_address_for(&u, uri_writes_port(redirect_uri), resolved),
        None => None,
    }
}

/// What `url::form_urlencoded::parse` makes of a query: its `name=value`
/// pairs in order, percent-decoded and with `+` read as a space.
pub uninterp spec fn form_urlencoded_parse(query: Seq<char>) -> Seq<(Seq<char>, Seq<char>)>;

pub open spec fn pair_views(pairs: Seq<(String, String)>) -> Seq<(Seq<char>, Seq<char>)> {
    pairs.map_values(|p: (String, String)| (p.0@, p.1@))
}

/// Calls `url::form_urlencoded::parse` on the query's bytes and collects the
/// pairs as owned strings. The contract names the result and says nothing
/// more of it.
#[verifier::external_body]
fn parse_form_urlencoded(query: &str) -> (r: Vec<(String, String)>)
    ensures
        pair_views(r@) == form_urlencoded_parse(query@),
{
    url::form_urlencoded::parse(query.as_bytes()).into_owned().collect()
}

/// The value of the last pair named `key`: collected into a map, later pairs
/// replace earlier ones of the same name.
pub open spec fn last_value(pairs: Seq<(Seq<char>, Seq<char>)>, key: Seq<char>) -> Option<
    Seq<char>,
>
    decreases pairs.len(),
{
    if pairs.len() == 0 {
        None
    } else if pairs.last().0 == key {
        Some(pairs.last().1)
    } else {
        last_value(pairs.drop_last(), key)
    }
}

/// Errors of the login flow.
#[derive(Debug, Clone)]
pub enum OAuthError {
    /// The callback carries no `code`.
    AuthCodeNotFound,
    /// The callback carries no `state`.
    CsrfTokenNotFound,
    /// The listener could not bind its address, for the reason given.
    AuthCodeListenerBind { addr: SocketAddress, e: String },
    /// The listener stopped before a callback came.
    AuthCodeListenerTerminated,
    /// The callback request line holds no query.
    AuthCodeListenerParse,
    /// The answer to the browser could not be written.
    AuthCodeListenerWrite,
    /// The code could not be exchanged for a token, for the reason given.
    ExchangeCode { e: String },
    /// No refresh token came, or refreshing failed.
    NoRefreshToken,
    /// No token is saved.
    LoggedOut,
    /// The callback's state does not match the one sent.
    InvalidState,
}

/// The request target: the second word of the request line.
pub open spec fn request_target(line: Seq<char>) -> Option<Seq<char>> {
    if words(line).len() >= 2 {
        Some(words(line)[1])
    } else {
        None
    }
}

/// The query of a request target: what stands between its first and second `?`.
pub open spec fn target_query(target: Seq<char>) -> Option<Seq<char>> {
    let pieces = split_by(target, separator_fn(Separator::Char('?')));
    if pieces.len() >= 2 {
        Some(pieces[1])
    } else {
        None
    }
}

/// The `state` and `code` of a callback request line, or why there are none.
pub open spec fn callback_query(line: Seq<char>) -> Result<(Seq<char>, Seq<char>), OAuthError> {
    match request_target(line) {
        None => Err(OAuthError::AuthCodeListenerParse),
        Some(target) => query_result(target),
    }
}

/// The `state` and `code` of a URL or request target, or why there are none:
/// the query is what stands after its first `?`.
pub open spec fn query_result(target: Seq<char>) -> Result<(Seq<char>, Seq<char>), OAuthError> {
    match target_query(target) {
        None => Err(OAuthError::AuthCodeListenerParse),
        Some(query) => pair_result(form_urlencoded_parse(query)),
    }
}

/// The last `state` and the last `code` among the query's pairs, or which of
/// them is missing (`state` is looked for first).
pub open spec fn pair_result(pairs: Seq<(Seq<char>, Seq<char>)>) -> Result<
    (Seq<char>, Seq<char>),
    OAuthError,
> {
    match last_value(pairs, "state"@) {
        None => Err(OAuthError::CsrfTokenNotFound),
        Some(state) => match last_value(pairs, "code"@) {
            None => Err(OAuthError::AuthCodeNotFound),
            Some(code) => Ok((state, code)),
        },
    }
}

/// The outcome `spec` given as strings.
pub open spec fn matches_result(
    r: Result<(String, String), OAuthError>,
    spec: Result<(Seq<char>, Seq<char>), OAuthError>,
) -> bool {
    match spec {
        Ok((state, code)) => r matches Ok((s, c)) && s@ == state && c@ == code,
        Err(e) => r matches Err(e2) && e2 == e,
    }
}

/// The value of the last pair named `key`.
fn find_last_value(pairs: &Vec<(String, String)>, key: &str) -> (r: Option<String>)
    ensures
        r matches Some(v) ==> last_value(pair_views(pairs@), key@) == Some(v@),
        r is None ==> last_value(pair_views(pairs@), key@) is None,
        r matches Some(v) ==> exists|i: int|
            0 <= i < pairs@.len() && (#[trigger] pairs@[i]).0@ == key@ && pairs@[i].1@ == v@,
        r is None ==> forall|i: int| 0 <= i < pairs@.len() ==> (#[trigger] pairs@[i]).0@ != key@,
{
    proof {
        law_last_value_is_a_pair(pair_views(pairs@), key@);
    }
    let ghost all = pair_views(pairs@);
    let mut i: usize = pairs.len();
    assert(all.take(i as int) =~= all);
    while i > 0
        invariant
            i <= pairs@.len(),
            all == pair_views(pairs@),
            last_value(all, key@) == last_value(all.take(i as int), key@),
        decreases i,
    {
        let ghost pre = all.take(i as int);
        assert(pre.last() == all[i - 1]);
        assert(pre.drop_last() =~= all.take(i - 1));
        if str_eq(pairs[i - 1].0.as_str(), key) {
            let v = pairs[i - 1].1.clone();
            proof {
                assert(all[i - 1] == (pairs@[i - 1].0@, pairs@[i - 1].1@));
            }
            return Some(v);
        }
        i = i - 1;
    }
    assert forall|j: int| 0 <= j < pairs@.len() implies (#[trigger] pairs@[j]).0@ != key@ by {
        assert(all[j] == (pairs@[j].0@, pairs@[j].1@));
    }
    None
}

/// The value found for a name is the value of a pair with that name, and a
/// value is found exactly when some pair has that name.
pub proof fn law_last_value_is_a_pair(pairs: Seq<(Seq<char>, Seq<char>)>, key: Seq<char>)
    ensures
        last_value(pairs, key) matches Some(v) ==> exists|i: int|
            0 <= i < pairs.len() && (#[trigger] pairs[i]).0 == key && pairs[i].1 == v,
        last_value(pairs, key) is None <==> forall|i: int|
            0 <= i < pairs.len() ==> (#[trigger] pairs[i]).0 != key,
    decreases pairs.len(),
{
    if pairs.len() > 0 {
        let init = pairs.drop_last();
        law_last_value_is_a_pair(init, key);
        if pairs.last().0 == key {
            assert(pairs[pairs.len() - 1] == pairs.last());
        } else {
            assert forall|i: int| 0 <= i < init.len() implies #[trigger] init[i] == pairs[i] by {}
            if last_value(init, key) is None {
                assert forall|i: int| 0 <= i < pairs.len() implies (#[trigger] pairs[i]).0 != key by {
                    if i < init.len() {
                        assert(init[i] == pairs[i]);
                    }
                }
            } else {
                let v = last_value(init, key)->0;
                let i = choose|i: int| 0 <= i < init.len() && (#[trigger] init[i]).0 == key && init[i].1 == v;
                assert(pairs[i] == init[i]);
            }
        }
    }
}

/// A callback's code is always the value of a pair named `code`, and its state
/// that of a pair named `state`: a query without a `code` pair (such as the
/// `error=access_denied` of a refused login) never gives a code, and one
/// without a `state` pair fails with `CsrfTokenNotFound`.
pub proof fn law_code_comes_from_a_code_pair(pairs: Seq<(Seq<char>, Seq<char>)>)
    ensures
        pair_result(pairs) matches Ok((s, c)) ==> (exists|i: int|
            0 <= i < pairs.len() && (#[trigger] pairs[i]).0 == "state"@ && pairs[i].1 == s) && (
        exists|j: int| 0 <= j < pairs.len() && (#[trigger] pairs[j]).0 == "code"@ && pairs[j].1 == c),
        (forall|i: int| 0 <= i < pairs.len() ==> (#[trigger] pairs[i]).0 != "code"@) ==> pair_result(
            pairs,
        ) is Err,
        (forall|i: int| 0 <= i < pairs.len() ==> (#[trigger] pairs[i]).0 != "state"@) ==> pair_result(
            pairs,
        ) == Err::<(Seq<char>, Seq<char>), OAuthError>(OAuthError::CsrfTokenNotFound),
{
    law_last_value_is_a_pair(pairs, "state"@);
    law_last_value_is_a_pair(pairs, "code"@);
}

/// The last `state` and the last `code` of a query's pairs, as collecting
/// them into a map keeps them: `CsrfTokenNotFound` without a `state`, else
/// `AuthCodeNotFound` without a `code`.
pub fn callback_pair(pairs: &Vec<(String, String)>) -> (r: Result<(String, String), OAuthError>)
    ensures
        matches_result(r, pair_result(pair_views(pairs@))),
        r matches Ok((s, c)) ==> (exists|i: int|
            0 <= i < pairs@.len() && (#[trigger] pairs@[i]).0@ == "state"@ && pairs@[i].1@ == s@)
            && (exists|j: int|
            0 <= j < pairs@.len() && (#[trigger] pairs@[j]).0@ == "code"@ && pairs@[j].1@ == c@),
        (forall|i: int| 0 <= i < pairs@.len() ==> (#[trigger] pairs@[i]).0@ != "code"@) ==> r is Err,
        (forall|i: int| 0 <= i < pairs@.len() ==> (#[trigger] pairs@[i]).0@ != "state"@) ==> r
            matches Err(OAuthError::CsrfTokenNotFound),
{
    proof {
        law_code_comes_from_a_code_pair(pair_views(pairs@));
    }
    let state = match find_last_value(pairs, "state") {
        Some(s) => s,
        None => return Err(OAuthError::CsrfTokenNotFound),
    };
    let code = match find_last_value(pairs, "code") {
        Some(c) => c,
        None => return Err(OAuthError::AuthCodeNotFound),
    };
    Ok((state, code))
}

/// The `state` and `code` of a URL or request target (`query_result`).
fn target_pair(target: &Vec<char>) -> (r: Result<(String, String), OAuthError>)
    ensures
        matches_result(r, query_result(target@)),
{
    let parts = split_pieces(target, Separator::Char('?'));
    if parts.len() < 2 {
        return Err(OAuthError::AuthCodeListenerParse);
    }
    assert(views_of(parts@)[1] == parts@[1]@);
    let query = string_from_chars(&parts[1]);
    let pairs = parse_form_urlencoded(query.as_str());
    callback_pair(&pairs)
}

proof fn lemma_callback_code_pair(line: Seq<char>)
    ensures
        callback_query(line) matches Ok((_, c)) ==> (request_target(line) matches Some(t)
            && target_query(t) matches Some(q) && exists|j: int|
            0 <= j < form_urlencoded_parse(q).len() && (#[trigger] form_urlencoded_parse(q)[j]).0
                == "code"@ && form_urlencoded_parse(q)[j].1 == c),
{
    if let Some(t) = request_target(line) {
        if let Some(q) = target_query(t) {
            law_code_comes_from_a_code_pair(form_urlencoded_parse(q));
        }
    }
}

/// The `state` and `code` of a login callback's request line (such as
/// `GET /login?code=...&state=... HTTP/1.1`): the second word is the target,
/// the part after its first `?` the query, and the last `state` and `code`
/// parameters of the query are taken.
pub fn parse_query(request_line: &str) -> (r: Result<(String, String), OAuthError>)
    ensures
        matches_result(r, callback_query(request_line@)),
        r matches Ok((_, c)) ==> (request_target(request_line@) matches Some(t) && target_query(t)
            matches Some(q) && exists|j: int|
            0 <= j < form_urlencoded_parse(q).len() && (#[trigger] form_urlencoded_parse(q)[j]).0
                == "code"@ && form_urlencoded_parse(q)[j].1 == c@),
{
    proof {
        lemma_callback_code_pair(request_line@);
    }
    let line = chars_of(request_line);
    let words = keep_nonempty(split_pieces(&line, Separator::Whitespace));
    if words.len() < 2 {
        return Err(OAuthError::AuthCodeListenerParse);
    }
    assert(views_of(words@)[1] == words@[1]@);
    target_pair(&words[1])
}

/// The `state` and `code` of a redirect URL that the user copied from the
/// browser and entered by hand (such as
/// `http://127.0.0.1:8898/login?code=...&state=...`): the surrounding
/// whitespace is dropped, and the query is read as a callback's.
pub fn parse_redirect_url(pasted: &str) -> (r: Result<(String, String), OAuthError>)
    ensures
        matches_result(r, query_result(trim_ws(pasted@))),
{
    let s = chars_of(pasted);
    let (lo, hi) = trim_bounds(&s);
    let mut t: Vec<char> = Vec::new();
    let mut i = lo;
    while i < hi
        invariant
            lo <= i <= hi <= s@.len(),
            t@ == s@.subrange(lo as int, i as int),
        decreases hi - i,
    {
        t.push(s[i]);
        assert(s@.subrange(lo as int, i + 1) =~= s@.subrange(lo as int, i as int).push(s@[i as int]));
        i = i + 1;
    }
    target_pair(&t)
}

/// The login code of a redirect URL entered by hand: `InvalidState` when its
/// `state` is not `expected_state`, the errors of `parse_redirect_url` when it
/// holds no `state` and `code`.
pub fn pasted_code(pasted: &str, expected_state: &str) -> (r: Result<String, OAuthError>)
    ensures
        match query_result(trim_ws(pasted@)) {
            Err(e) => r matches Err(e2) && e2 == e,
            Ok((state, code)) => if state == expected_state@ {
                r matches Ok(c) && c@ == code
            } else {
                r matches Err(OAuthError::InvalidState)
            },
        },
{
    let (state, code) = match parse_redirect_url(pasted) {
        Ok(p) => p,
        Err(e) => return Err(e),
    };
    if str_eq(state.as_str(), expected_state) {
        Ok(code)
    } else {
        Err(OAuthError::InvalidState)
    }
}

/// The answer to a callback whose request line holds no `state` and `code`.
pub const NOT_FOUND_RESPONSE: &'static str =
    "HTTP/1.1 404 Not Found\r\nContent-Length: 0\r\nConnection: close\r\n\r\n";

/// The answer to a callback whose `state` is not the expected one.
pub const BAD_REQUEST_RESPONSE: &'static str =
    "HTTP/1.1 400 Bad Request\r\nContent-Length: 0\r\nConnection: close\r\n\r\n";

/// The head of a successful answer, up to its content length.
pub const OK_RESPONSE_HEAD: &'static str =
    "HTTP/1.1 200 OK\r\nContent-Type: text/html; charset=utf-8\r\nContent-Length: ";

/// What follows the content length of a successful answer, before the page.
pub const OK_RESPONSE_TAIL: &'static str = "\r\nConnection: close\r\n\r\n";

/// The page that sends the browser on to the next login: up to the address.
pub const REDIRECT_PAGE_HEAD: &'static str =
    "<!DOCTYPE html><html><head><meta http-equiv=\"refresh\" content=\"0;url=";

/// The page that sends the browser on to the next login: after the address.
pub const REDIRECT_PAGE_TAIL: &'static str =
    "\"></head><body style=\"background:#121212;color:#ffffff;font-family:sans-serif;text-align:center;padding-top:60px;\"><p>Connecting audio streaming engine...</p></body></html>";

/// The length of a text in UTF-8 bytes.
pub open spec fn byte_len(s: Seq<char>) -> nat {
    encode_utf8(s).len()
}

/// The page that redirects the browser to `url` at once.
pub open spec fn redirect_page(url: Seq<char>) -> Seq<char> {
    REDIRECT_PAGE_HEAD@ + url + REDIRECT_PAGE_TAIL@
}

/// The length of a page as `str::len` reports it: its UTF-8 bytes, as a `usize`.
pub open spec fn reported_len(page: Seq<char>) -> nat {
    (byte_len(page) as usize) as nat
}

/// A `200 OK` answer carrying an HTML page, with its length in bytes.
pub open spec fn ok_response(page: Seq<char>) -> Seq<char> {
    OK_RESPONSE_HEAD@ + decimal_digits(reported_len(page)) + OK_RESPONSE_TAIL@ + page
}

/// The page that a successful callback answers: the redirect to the next
/// login when there is one, else the final login page.
pub open spec fn callback_page(next_url: Option<Seq<char>>, login_page: Seq<char>) -> Seq<char> {
    match next_url {
        Some(u) => redirect_page(u),
        None => login_page,
    }
}

pub open spec fn opt_view(s: Option<&str>) -> Option<Seq<char>> {
    match s {
        Some(t) => Some(t@),
        None => None,
    }
}

/// What the listener does with one callback request.
#[derive(Debug, Clone)]
pub enum CallbackOutcome {
    /// Answer with `response` and wait for another request.
    Reject { response: &'static str },
    /// Answer with `response`; the login code is `code`.
    Accept { response: String, code: String },
}

/// A `200 OK` answer carrying `page`.
pub fn ok_response_for(page: &str) -> (r: String)
    ensures
        r@ == ok_response(page@),
{
    let n = page.len();
    let mut r = OK_RESPONSE_HEAD.to_owned();
    push_decimal(&mut r, n as u64);
    r.append(OK_RESPONSE_TAIL);
    r.append(page);
    r
}

/// What the listener answers to a callback request line: `404` when it holds
/// no `state` and `code`, `400` when the state is not `expected_state`, and
/// otherwise `200` with the redirect to `next_url` (or the final
/// `login_page`), accepting the code.
pub fn handle_callback(
    request_line: &str,
    expected_state: &str,
    next_url: Option<&str>,
    login_page: &str,
) -> (r: CallbackOutcome)
    ensures
        match callback_query(request_line@) {
            Err(_) => r == CallbackOutcome::Reject { response: NOT_FOUND_RESPONSE },
            Ok((state, code)) => if state != expected_state@ {
                r == CallbackOutcome::Reject { response: BAD_REQUEST_RESPONSE }
            } else {
                r matches CallbackOutcome::Accept { response, code: c } && c@ == code
                    && response@ == ok_response(callback_page(opt_view(next_url), login_page@))
            },
        },
        r matches CallbackOutcome::Accept { code: c, .. } ==> (request_target(request_line@) matches Some(
            t,
        ) && target_query(t) matches Some(q) && exists|j: int|
            0 <= j < form_urlencoded_parse(q).len() && (#[trigger] form_urlencoded_parse(q)[j]).0
                == "code"@ && form_urlencoded_parse(q)[j].1 == c@),
{
    let (state, code) = match parse_query(request_line) {
        Ok(p) => p,
        Err(_) => return CallbackOutcome::Reject { response: NOT_FOUND_RESPONSE },
    };
    if !str_eq(state.as_str(), expected_state) {
        return CallbackOutcome::Reject { response: BAD_REQUEST_RESPONSE };
    }
    let response = match next_url {
        Some(url) => {
            let mut page = REDIRECT_PAGE_HEAD.to_owned();
            page.append(url);
            page.append(REDIRECT_PAGE_TAIL);
            ok_response_for(page.as_str())
        },
        None => ok_response_for(login_page),
    };
    CallbackOutcome::Accept { response, code }
}

} // verus!
