//! SIP URIs (RFC 3261 §19.1.1) and the dial targets made of them.

use vstd::prelude::*;
use vstd::string::{StrSliceExecFns, StringExecFns};

use crate::text::{
    after, before, chars_of, decimal, digits_value, eq_ignore_ascii_case, find_char, is_digit,
    law_trim_takes_white_space_off_both_ends, lemma_decimal, lemma_position, lemma_position_is,
    parse_digits, position, same_ignoring_case, slice, split, split_at_char, to_decimal, trim,
    trim_of,
};

verus! {

/// The parts of a SIP or SIPS URI.
#[derive(Clone, Debug, PartialEq, Eq)]
pub struct SipUri {
    pub scheme: String,
    pub user: Option<String>,
    pub host: String,
    pub port: Option<u16>,
    pub params: Vec<String>,
    pub headers: Vec<String>,
}

/// The contents of a [`SipUri`].
#[verifier::ext_equal]
pub struct UriView {
    pub scheme: Seq<char>,
    pub user: Option<Seq<char>>,
    pub host: Seq<char>,
    pub port: Option<u16>,
    pub params: Seq<Seq<char>>,
    pub headers: Seq<Seq<char>>,
}

impl View for SipUri {
    type V = UriView;

    open spec fn view(&self) -> UriView {
        UriView {
            scheme: self.scheme@,
            user: match self.user {
                Some(u) => Some(u@),
                None => None,
            },
            host: self.host@,
            port: self.port,
            params: self.params@.map_values(|p: String| p@),
            headers: self.headers@.map_values(|p: String| p@),
        }
    }
}

/// Why a text is no SIP URI.
#[derive(Clone, Copy, Debug, PartialEq, Eq, Structural)]
pub enum UriError {
    /// It does not begin with `sip:` or `sips:`.
    Scheme,
    /// There is an `@` with no user before it.
    EmptyUser,
    /// There is no host, or a bracketed one without its closing bracket.
    Host,
    /// What follows the host is no port number.
    Port,
}

/// What follows the first `c` in `s`, cut up at each `sep`; nothing where `s` has
/// no `c`.
pub open spec fn pieces_after(s: Seq<char>, c: char, sep: char) -> Seq<Seq<char>> {
    if s.contains(c) {
        split(after(s, c), sep)
    } else {
        Seq::empty()
    }
}

/// The port that `s` writes, where `s` is a port number.
pub open spec fn port_number(s: Seq<char>) -> Option<u16> {
    if s.len() > 0 && (forall|i: int| 0 <= i < s.len() ==> is_digit(#[trigger] s[i]))
        && digits_value(s) <= u16::MAX {
        Some(digits_value(s) as u16)
    } else {
        None
    }
}

/// How many characters at the front of a host and port are the host.
pub open spec fn host_len(s: Seq<char>) -> int {
    if s.len() > 0 && s.first() == '[' {
        if s.contains(']') {
            position(s, ']') + 1
        } else {
            0
        }
    } else {
        position(s, ':')
    }
}

/// The host and the port of `s`.
pub open spec fn host_and_port(s: Seq<char>) -> Result<(Seq<char>, Option<u16>), UriError> {
    let n = host_len(s);
    if n == 0 {
        Err(UriError::Host)
    } else if n == s.len() {
        Ok((s, None))
    } else if s[n] != ':' || port_number(s.skip(n + 1)) is None {
        Err(UriError::Port)
    } else {
        Ok((s.take(n), port_number(s.skip(n + 1))))
    }
}

/// The parts of what follows the scheme in a SIP URI.
pub open spec fn parts_after_scheme(scheme: Seq<char>, rest: Seq<char>) -> Result<
    UriView,
    UriError,
> {
    let host_part = if rest.contains('@') {
        after(rest, '@')
    } else {
        rest
    };
    let user = if rest.contains('@') {
        Some(before(before(rest, '@'), ':'))
    } else {
        None
    };
    if user == Some(Seq::<char>::empty()) {
        Err(UriError::EmptyUser)
    } else {
        let address = before(host_part, '?');
        match host_and_port(before(address, ';')) {
            Err(e) => Err(e),
            Ok((host, port)) => Ok(
                UriView {
                    scheme,
                    user,
                    host,
                    port,
                    params: pieces_after(address, ';', ';'),
                    headers: pieces_after(host_part, '?', '&'),
                },
            ),
        }
    }
}

/// The parts of a SIP or SIPS URI: scheme, user (a password behind it is no part
/// of it), host, port, parameters and headers.
pub open spec fn uri_parts(s: Seq<char>) -> Result<UriView, UriError> {
    if s.contains(':') && (same_ignoring_case(before(s, ':'), "sip"@) || same_ignoring_case(
        before(s, ':'),
        "sips"@,
    )) {
        parts_after_scheme(before(s, ':'), after(s, ':'))
    } else {
        Err(UriError::Scheme)
    }
}

/// The part of `s` before the first `c`, and the part behind it where `s` has a
/// `c`.
fn cut<'a>(s: &'a str, c: char) -> (r: (&'a str, Option<&'a str>))
    ensures
        r.0@ == before(s@, c),
        r.1 is Some <==> s@.contains(c),
        r.1 is Some ==> r.1->0@ == after(s@, c),
        !s@.contains(c) ==> r.0@ == s@,
{
    let n: usize = s.unicode_len();
    let p: usize = find_char(s, c);
    let front: &str = s.substring_char(0, p);
    assert(front@ =~= before(s@, c));
    if p < n {
        let back: &str = s.substring_char(p + 1, n);
        assert(back@ =~= after(s@, c));
        (front, Some(back))
    } else {
        assert(front@ =~= s@);
        (front, None)
    }
}

fn all_digits(s: &str) -> (r: bool)
    ensures
        r == (forall|i: int| 0 <= i < s@.len() ==> is_digit(#[trigger] s@[i])),
{
    let x: Vec<char> = chars_of(s);
    let mut i: usize = 0;
    while i < x.len()
        invariant
            i <= x.len(),
            x@ == s@,
            forall|k: int| 0 <= k < i ==> is_digit(#[trigger] x@[k]),
        decreases x.len() - i,
    {
        if !('0' <= x[i] && x[i] <= '9') {
            assert(!is_digit(s@[i as int]));
            return false;
        }
        i = i + 1;
    }
    true
}

fn parse_port(s: &str) -> (r: Option<u16>)
    ensures
        r == port_number(s@),
{
    if s.is_empty() || !all_digits(s) {
        return None;
    }
    match parse_digits(s) {
        Some(n) => if n <= u16::MAX as u32 {
            Some(n as u16)
        } else {
            None
        },
        None => None,
    }
}

fn parse_host_and_port(s: &str) -> (r: Result<(String, Option<u16>), UriError>)
    ensures
        match (r, host_and_port(s@)) {
            (Ok((h, p)), Ok((host, port))) => h@ == host && p == port,
            (Err(e), Err(error)) => e == error,
            _ => false,
        },
{
    let n: usize = s.unicode_len();
    let k: usize = if n > 0 && s.get_char(0) == '[' {
        let p: usize = find_char(s, ']');
        if p < n {
            p + 1
        } else {
            0
        }
    } else {
        find_char(s, ':')
    };
    if k == 0 {
        return Err(UriError::Host);
    }
    if k == n {
        return Ok((s.to_owned(), None));
    }
    if s.get_char(k) != ':' {
        return Err(UriError::Port);
    }
    let tail: &str = s.substring_char(k + 1, n);
    assert(tail@ =~= s@.skip(k + 1));
    match parse_port(tail) {
        None => Err(UriError::Port),
        Some(port) => {
            let host: String = slice(s, 0, k);
            assert(host@ =~= s@.take(k as int));
            Ok((host, Some(port)))
        },
    }
}

fn split_tail(tail: Option<&str>, sep: char) -> (r: Vec<String>)
    ensures
        r@.map_values(|p: String| p@) == (match tail {
            Some(t) => split(t@, sep),
            None => Seq::empty(),
        }),
{
    match tail {
        Some(t) => split_at_char(t, sep),
        None => {
            let r: Vec<String> = Vec::new();
            assert(r@.map_values(|p: String| p@) =~= Seq::empty());
            r
        },
    }
}

/// Takes a SIP or SIPS URI apart.
pub fn parse_sip_uri(uri: &str) -> (r: Result<SipUri, UriError>)
    ensures
        match (r, uri_parts(uri@)) {
            (Ok(u), Ok(parts)) => u@ == parts,
            (Err(e), Err(error)) => e == error,
            _ => false,
        },
{
    let (scheme, rest): (&str, Option<&str>) = cut(uri, ':');
    let rest: &str = match rest {
        Some(rest) => rest,
        None => {
            return Err(UriError::Scheme);
        },
    };
    if !eq_ignore_ascii_case(scheme, "sip") && !eq_ignore_ascii_case(scheme, "sips") {
        return Err(UriError::Scheme);
    }
    let (front, back): (&str, Option<&str>) = cut(rest, '@');
    let mut user: Option<String> = None;
    let mut host_part: &str = rest;
    if let Some(back) = back {
        let (name, _password): (&str, Option<&str>) = cut(front, ':');
        if name.is_empty() {
            assert(name@ =~= Seq::<char>::empty());
            return Err(UriError::EmptyUser);
        }
        user = Some(name.to_owned());
        host_part = back;
    }
    let (address, headers): (&str, Option<&str>) = cut(host_part, '?');
    let (host_port, params): (&str, Option<&str>) = cut(address, ';');
    match parse_host_and_port(host_port) {
        Err(e) => Err(e),
        Ok((host, port)) => {
            let u = SipUri {
                scheme: scheme.to_owned(),
                user,
                host,
                port,
                params: split_tail(params, ';'),
                headers: split_tail(headers, '&'),
            };
            assert(u@ =~= parts_after_scheme(scheme@, rest@)->Ok_0);
            Ok(u)
        },
    }
}

/// Whether `u` already names the server at `host` and `port` and nothing else.
pub open spec fn names_server(u: UriView, host: Seq<char>, port: u16) -> bool {
    &&& same_ignoring_case(u.host, host)
    &&& u.port == Some(port)
    &&& u.params.len() == 0
    &&& u.headers.len() == 0
}

/// `<scheme>:<user>@<host>:<port>`, without `<user>@` where there is no user.
pub open spec fn server_uri(
    scheme: Seq<char>,
    user: Option<Seq<char>>,
    host: Seq<char>,
    port: u16,
) -> Seq<char> {
    let s = if scheme.len() == 0 {
        "sip"@
    } else {
        scheme
    };
    match user {
        Some(u) => s + ":"@ + u + "@"@ + host + ":"@ + decimal(port as nat),
        None => s + ":"@ + host + ":"@ + decimal(port as nat),
    }
}

/// `uri`, whose parts are `u`, with the server at `host` and `port` as its
/// address and without parameters and headers.
pub open spec fn redirected(
    uri: Seq<char>,
    u: UriView,
    host: Seq<char>,
    port: u16,
) -> Seq<char> {
    if names_server(u, host, port) {
        uri
    } else {
        server_uri(u.scheme, u.user, host, port)
    }
}

/// The Request-URI under which the server at `host` and `port` takes a call to
/// `uri`.
pub open spec fn request_uri_for_ngn(uri: Seq<char>, host: Seq<char>, port: u16) -> Seq<char> {
    match uri_parts(uri) {
        Ok(u) => redirected(uri, u, host, port),
        Err(_) => uri,
    }
}

/// `req_uri`, whose parts are `parsed`, with the server at the given host and
/// port as its address and without parameters and headers.
pub fn redirect_uri(
    req_uri: &str,
    parsed: &SipUri,
    ngn_server_host: &str,
    ngn_server_port: u16,
) -> (r: String)
    ensures
        r@ == redirected(req_uri@, parsed@, ngn_server_host@, ngn_server_port),
{
    if eq_ignore_ascii_case(parsed.host.as_str(), ngn_server_host) && parsed.port == Some(
        ngn_server_port,
    ) && parsed.params.len() == 0 && parsed.headers.len() == 0 {
        return req_uri.to_owned();
    }
    let mut out: String = if parsed.scheme.as_str().is_empty() {
        "sip".to_owned()
    } else {
        parsed.scheme.clone()
    };
    out.append(":");
    if let Some(user) = &parsed.user {
        out.append(user.as_str());
        out.append("@");
    }
    out.append(ngn_server_host);
    out.append(":");
    out.append(to_decimal(ngn_server_port as u64).as_str());
    out
}

/// The Request-URI under which the carrier takes a call to `req_uri`: the host
/// and the port are those of its server, and parameters and headers are left out,
/// for the server refuses a request with any of them. A text that is no SIP URI
/// is left as it is.
pub fn normalize_request_uri_for_ngn(
    req_uri: &str,
    ngn_server_host: &str,
    ngn_server_port: u16,
) -> (r: String)
    ensures
        r@ == request_uri_for_ngn(req_uri@, ngn_server_host@, ngn_server_port),
{
    match parse_sip_uri(req_uri) {
        Ok(parsed) => redirect_uri(req_uri, &parsed, ngn_server_host, ngn_server_port),
        Err(_) => req_uri.to_owned(),
    }
}

/// The user of `sip:user@host`, taken as it is written.
pub open spec fn user_of_uri(uri: Seq<char>) -> Option<Seq<char>> {
    let rest = if uri.contains(':') {
        after(uri, ':')
    } else {
        uri
    };
    if rest.contains('@') && before(rest, '@').len() > 0 {
        Some(before(rest, '@'))
    } else {
        None
    }
}

/// The user of `sip:user@host[;params]`: what stands between the first `:` and
/// the first `@` behind it. `None` where there is no `@` or nothing before it.
pub fn extract_user_from_sip_uri(uri: &str) -> (r: Option<String>)
    ensures
        r is Some <==> user_of_uri(uri@) is Some,
        r is Some ==> r->0@ == user_of_uri(uri@)->0,
{
    let (_scheme, rest): (&str, Option<&str>) = cut(uri, ':');
    let rest: &str = match rest {
        Some(rest) => rest,
        None => uri,
    };
    let (user, host): (&str, Option<&str>) = cut(rest, '@');
    if host.is_none() || user.is_empty() {
        return None;
    }
    Some(user.to_owned())
}

/// The key under which calls of the account `local_uri` are counted.
pub open spec fn account_key(local_uri: Seq<char>) -> Seq<char> {
    match user_of_uri(local_uri) {
        Some(user) => user,
        None => local_uri,
    }
}

/// The key under which outgoing calls of the account with the address of record
/// `local_uri` are counted: its user, or all of it where it has none.
pub fn ngn_aor_from_uac(local_uri: &str) -> (r: String)
    ensures
        r@ == account_key(local_uri@),
{
    match extract_user_from_sip_uri(local_uri) {
        Some(user) => user,
        None => local_uri.to_owned(),
    }
}

/// The URI in a name-addr or addr-spec.
pub open spec fn uri_in_addr(value: Seq<char>) -> Seq<char> {
    let s = trim(value);
    if s.contains('<') && after(s, '<').contains('>') {
        before(after(s, '<'), '>')
    } else {
        trim(before(s, ';'))
    }
}

/// The URI in a name-addr such as `<sip:user@host>;tag=x` or an addr-spec such as
/// `sip:user@host;tag=x`.
pub fn extract_uri_from_addr(value: &str) -> (r: String)
    ensures
        r@ == uri_in_addr(value@),
{
    let s: &str = trim_of(value);
    let (_name, inside): (&str, Option<&str>) = cut(s, '<');
    if let Some(inside) = inside {
        let (uri, behind): (&str, Option<&str>) = cut(inside, '>');
        if behind.is_some() {
            return uri.to_owned();
        }
    }
    let (uri, _params): (&str, Option<&str>) = cut(s, ';');
    trim_of(uri).to_owned()
}

/// Whether `c` may stand in a dial target.
pub open spec fn is_dial_char(c: char) -> bool {
    is_digit(c) || c == '*' || c == '#' || c == '+'
}

/// Whether `target` is made of 1 to 32 dial characters.
pub open spec fn is_dial_target(target: Seq<char>) -> bool {
    &&& 1 <= target.len() <= 32
    &&& forall|i: int| 0 <= i < target.len() ==> is_dial_char(#[trigger] target[i])
}

/// Whether a browser may dial `target`: 1 to 32 of the characters `0` to `9`,
/// `*`, `#` and `+`.
pub fn is_valid_pwa_dial_target(target: &str) -> (r: bool)
    ensures
        r == is_dial_target(target@),
{
    let x: Vec<char> = chars_of(target);
    if x.len() == 0 || x.len() > 32 {
        return false;
    }
    let mut i: usize = 0;
    while i < x.len()
        invariant
            i <= x.len(),
            x@ == target@,
            1 <= x.len() <= 32,
            forall|k: int| 0 <= k < i ==> is_dial_char(#[trigger] x@[k]),
        decreases x.len() - i,
    {
        let c: char = x[i];
        if !(('0' <= c && c <= '9') || c == '*' || c == '#' || c == '+') {
            assert(!is_dial_char(target@[i as int]));
            return false;
        }
        i = i + 1;
    }
    true
}

proof fn lemma_cut(front: Seq<char>, c: char, back: Seq<char>)
    requires
        !front.contains(c),
    ensures
        (front + seq![c] + back).contains(c),
        before(front + seq![c] + back, c) == front,
        after(front + seq![c] + back, c) == back,
{
    let s = front + seq![c] + back;
    let p = front.len() as int;
    assert(s[p] == c);
    assert forall|i: int| 0 <= i < p implies s[i] != c by {
        assert(front.contains(front[i]));
        assert(s[i] == front[i]);
    }
    lemma_position_is(s, c, p);
    assert(s.take(p) =~= front);
    assert(s.skip(p + 1) =~= back);
}

proof fn lemma_before_lacks(s: Seq<char>, c: char)
    ensures
        !before(s, c).contains(c),
{
    lemma_position(s, c);
}

proof fn lemma_before_keeps_out(s: Seq<char>, c: char, d: char)
    requires
        !s.contains(d),
    ensures
        !before(s, c).contains(d),
{
    lemma_position(s, c);
    let f = before(s, c);
    if f.contains(d) {
        let i = choose|i: int| 0 <= i < f.len() && f[i] == d;
        assert(s[i] == d);
    }
}

proof fn lemma_concat_lacks(a: Seq<char>, b: Seq<char>, c: char)
    requires
        !a.contains(c),
        !b.contains(c),
    ensures
        !(a + b).contains(c),
{
    let s = a + b;
    if s.contains(c) {
        let i = choose|i: int| 0 <= i < s.len() && s[i] == c;
        if i < a.len() {
            assert(a[i] == c);
        } else {
            assert(b[i - a.len()] == c);
        }
    }
}

proof fn lemma_decimal_lacks(n: nat, c: char)
    requires
        !is_digit(c),
    ensures
        !decimal(n).contains(c),
{
    lemma_decimal(n);
    let s = decimal(n);
    if s.contains(c) {
        let i = choose|i: int| 0 <= i < s.len() && s[i] == c;
        assert(is_digit(s[i]));
    }
}

/// `host:port`
spec fn address(host: Seq<char>, port: u16) -> Seq<char> {
    host + seq![':'] + decimal(port as nat)
}

proof fn lemma_server_uri_shape(uri: Seq<char>, host: Seq<char>, port: u16)
    requires
        uri_parts(uri) is Ok,
        !host.contains('@'),
    ensures
        ({
            let u = uri_parts(uri)->Ok_0;
            let out = server_uri(u.scheme, u.user, host, port);
            let rest = after(out, ':');
            &&& out.contains(':')
            &&& before(out, ':') == u.scheme
            &&& same_ignoring_case(u.scheme, "sip"@) || same_ignoring_case(u.scheme, "sips"@)
            &&& rest.contains('@') <==> u.user is Some
            &&& u.user is Some ==> {
                &&& before(before(rest, '@'), ':') == u.user->0
                &&& after(rest, '@') == address(host, port)
                &&& u.user->0.len() > 0
            }
            &&& u.user is None ==> rest == address(host, port)
        }),
{
    reveal_strlit(":");
    reveal_strlit("@");
    reveal_strlit("sip");
    reveal_strlit("sips");
    let u = uri_parts(uri)->Ok_0;
    let out = server_uri(u.scheme, u.user, host, port);
    let rest0 = after(uri, ':');
    let addr = address(host, port);
    lemma_before_lacks(uri, ':');
    assert(crate::text::folded(u.scheme).len() > 0);
    lemma_decimal_lacks(port as nat, '@');
    assert(!seq![':'].contains('@'));
    lemma_concat_lacks(host, seq![':'], '@');
    lemma_concat_lacks(host + seq![':'], decimal(port as nat), '@');
    match u.user {
        Some(user) => {
            lemma_before_lacks(rest0, '@');
            lemma_before_lacks(before(rest0, '@'), ':');
            lemma_before_keeps_out(before(rest0, '@'), ':', '@');
            lemma_cut(u.scheme, ':', user + seq!['@'] + addr);
            assert(out =~= u.scheme + seq![':'] + (user + seq!['@'] + addr));
            lemma_cut(user, '@', addr);
            lemma_position_is(user, ':', user.len() as int);
            assert(user.take(user.len() as int) =~= user);
            if user.len() == 0 {
                assert(user =~= Seq::<char>::empty());
            }
        },
        None => {
            lemma_cut(u.scheme, ':', addr);
            assert(out =~= u.scheme + seq![':'] + addr);
        },
    }
}

/// The URI of a dial target at a host and a port is normalized for that host and
/// port.
pub proof fn lemma_plain_uri(target: Seq<char>, host: Seq<char>, port: u16)
    requires
        is_dial_target(target),
        !host.contains('@'),
    ensures
        ({
            let uri = "sip:"@ + target + "@"@ + host + ":"@ + decimal(port as nat);
            request_uri_for_ngn(uri, host, port) == uri
        }),
{
    reveal_strlit(":");
    reveal_strlit("@");
    reveal_strlit("sip:");
    reveal_strlit("sip");
    let uri = "sip:"@ + target + "@"@ + host + ":"@ + decimal(port as nat);
    let addr = address(host, port);
    assert(uri =~= "sip"@ + seq![':'] + (target + seq!['@'] + addr));
    lemma_cut("sip"@, ':', target + seq!['@'] + addr);
    assert(!target.contains('@')) by {
        if target.contains('@') {
            let i = choose|i: int| 0 <= i < target.len() && target[i] == '@';
            assert(is_dial_char(target[i]));
        }
    }
    assert(!target.contains(':')) by {
        if target.contains(':') {
            let i = choose|i: int| 0 <= i < target.len() && target[i] == ':';
            assert(is_dial_char(target[i]));
        }
    }
    lemma_cut(target, '@', addr);
    lemma_position_is(target, ':', target.len() as int);
    assert(target.take(target.len() as int) =~= target);
    if uri_parts(uri) is Ok {
        assert(server_uri("sip"@, Some(target), host, port) =~= uri);
    }
}

/// Normalizing a Request-URI twice gives what normalizing it once gives.
pub proof fn law_normalizing_is_idempotent(uri: Seq<char>, host: Seq<char>, port: u16)
    requires
        !host.contains('@'),
    ensures
        request_uri_for_ngn(request_uri_for_ngn(uri, host, port), host, port)
            == request_uri_for_ngn(uri, host, port),
{
    if uri_parts(uri) is Ok && !names_server(uri_parts(uri)->Ok_0, host, port) {
        lemma_server_uri_shape(uri, host, port);
    }
}

/// A host that can stand before a port: not empty, not bracketed, and without the
/// characters that end it.
pub open spec fn is_plain_host(host: Seq<char>) -> bool {
    &&& host.len() > 0
    &&& host[0] != '['
    &&& !host.contains(':')
    &&& !host.contains('@')
    &&& !host.contains(';')
    &&& !host.contains('?')
}

/// A normalized Request-URI has the scheme and the user of the given one, the
/// server's host and port, no parameters and no headers.
pub proof fn law_normalized_uri_names_the_server(uri: Seq<char>, host: Seq<char>, port: u16)
    requires
        uri_parts(uri) is Ok,
        is_plain_host(host),
    ensures
        ({
            let out = uri_parts(request_uri_for_ngn(uri, host, port));
            &&& out is Ok
            &&& out->Ok_0.scheme == uri_parts(uri)->Ok_0.scheme
            &&& out->Ok_0.user == uri_parts(uri)->Ok_0.user
            &&& names_server(out->Ok_0, host, port)
        }),
{
    let u = uri_parts(uri)->Ok_0;
    if !names_server(u, host, port) {
        lemma_server_uri_shape(uri, host, port);
        let addr = address(host, port);
        let numeral = decimal(port as nat);
        lemma_decimal(port as nat);
        lemma_decimal_lacks(port as nat, '?');
        lemma_decimal_lacks(port as nat, ';');
        assert(!seq![':'].contains('?'));
        assert(!seq![':'].contains(';'));
        lemma_concat_lacks(host, seq![':'], '?');
        lemma_concat_lacks(host + seq![':'], numeral, '?');
        lemma_concat_lacks(host, seq![':'], ';');
        lemma_concat_lacks(host + seq![':'], numeral, ';');
        lemma_position(addr, '?');
        lemma_position(addr, ';');
        assert(before(addr, '?') =~= addr);
        assert(before(addr, ';') =~= addr);
        lemma_cut(host, ':', numeral);
        assert(addr.first() == host[0]);
        lemma_position(addr, ':');
        assert(addr.take(position(addr, ':')) == host);
        assert(host_len(addr) == host.len());
        assert(addr.skip(host.len() as int + 1) =~= numeral);
    }
}

/// A host in brackets, as an IPv6 address is written: the closing bracket is its last
/// character and nowhere else.
pub open spec fn is_bracketed_host(host: Seq<char>) -> bool {
    &&& host.len() >= 2
    &&& host[0] == '['
    &&& host.last() == ']'
    &&& !host.drop_last().contains(']')
    &&& !host.contains('@')
    &&& !host.contains(';')
    &&& !host.contains('?')
}

/// What stands before the address in a URI: the user, with a password behind it where
/// there is one.
pub open spec fn written_user(user: Option<Seq<char>>, password: Option<Seq<char>>) -> Seq<char> {
    match (user, password) {
        (Some(u), Some(p)) => u + seq![':'] + p + seq!['@'],
        (Some(u), None) => u + seq!['@'],
        (None, _) => Seq::empty(),
    }
}

/// A host, with a port behind it where there is one.
pub open spec fn written_address(host: Seq<char>, port: Option<u16>) -> Seq<char> {
    match port {
        Some(port) => host + seq![':'] + decimal(port as nat),
        None => host,
    }
}

/// `text`, with `mark` before it, where there is any.
pub open spec fn marked(mark: char, text: Option<Seq<char>>) -> Seq<char> {
    match text {
        Some(t) => seq![mark] + t,
        None => Seq::empty(),
    }
}

proof fn lemma_address_is_read(host: Seq<char>, port: Option<u16>)
    requires
        is_plain_host(host) || is_bracketed_host(host),
    ensures
        host_and_port(written_address(host, port)) == Ok::<_, UriError>((host, port)),
        !written_address(host, port).contains('@'),
        !written_address(host, port).contains(';'),
        !written_address(host, port).contains('?'),
{
    let s = written_address(host, port);
    let n = host.len() as int;
    let tail = match port {
        Some(port) => seq![':'] + decimal(port as nat),
        None => Seq::<char>::empty(),
    };
    assert(s =~= host + tail);
    if let Some(port) = port {
        let numeral = decimal(port as nat);
        lemma_decimal(port as nat);
        lemma_decimal_lacks(port as nat, '@');
        lemma_decimal_lacks(port as nat, ';');
        lemma_decimal_lacks(port as nat, '?');
        assert(!seq![':'].contains('@'));
        assert(!seq![':'].contains(';'));
        assert(!seq![':'].contains('?'));
        lemma_concat_lacks(seq![':'], numeral, '@');
        lemma_concat_lacks(seq![':'], numeral, ';');
        lemma_concat_lacks(seq![':'], numeral, '?');
        assert(s.skip(n + 1) =~= numeral);
        assert(s.take(n) =~= host);
        assert(s[n] == ':');
        assert(s.len() > n);
    } else {
        assert(s =~= host);
    }
    lemma_concat_lacks(host, tail, '@');
    lemma_concat_lacks(host, tail, ';');
    lemma_concat_lacks(host, tail, '?');
    assert(s.first() == host[0]);
    if is_plain_host(host) {
        assert forall|i: int| 0 <= i < n implies s[i] != ':' by {
            assert(host.contains(host[i]));
        }
        lemma_position_is(s, ':', n);
    } else {
        let inner = host.drop_last();
        assert forall|i: int| 0 <= i < n - 1 implies s[i] != ']' by {
            assert(inner[i] == s[i]);
            assert(inner.contains(inner[i]));
        }
        assert(s[n - 1] == ']');
        lemma_position_is(s, ']', n - 1);
        assert(s.contains(']'));
    }
    assert(host_len(s) == n);
}

/// A URI is read as it is written: scheme, user, host, port, parameters and headers are
/// what was put there, and a password is no part of any of them.
pub proof fn law_uri_is_read_as_it_is_written(
    scheme: Seq<char>,
    user: Option<Seq<char>>,
    password: Option<Seq<char>>,
    host: Seq<char>,
    port: Option<u16>,
    params: Option<Seq<char>>,
    headers: Option<Seq<char>>,
)
    requires
        same_ignoring_case(scheme, "sip"@) || same_ignoring_case(scheme, "sips"@),
        user is Some ==> user->0.len() > 0 && !user->0.contains('@') && !user->0.contains(':'),
        password is Some ==> user is Some && !password->0.contains('@'),
        is_plain_host(host) || is_bracketed_host(host),
        params is Some ==> !params->0.contains('?'),
        params is Some && user is None ==> !params->0.contains('@'),
        headers is Some && user is None ==> !headers->0.contains('@'),
    ensures
        ({
            let uri = scheme + seq![':'] + (written_user(user, password) + (written_address(
                host,
                port,
            ) + marked(';', params) + marked('?', headers)));
            &&& uri_parts(uri) is Ok
            &&& uri_parts(uri)->Ok_0.scheme == scheme
            &&& uri_parts(uri)->Ok_0.user == user
            &&& uri_parts(uri)->Ok_0.host == host
            &&& uri_parts(uri)->Ok_0.port == port
            &&& params is None ==> uri_parts(uri)->Ok_0.params.len() == 0
            &&& params is Some ==> uri_parts(uri)->Ok_0.params == split(params->0, ';')
            &&& headers is None ==> uri_parts(uri)->Ok_0.headers.len() == 0
            &&& headers is Some ==> uri_parts(uri)->Ok_0.headers == split(headers->0, '&')
        }),
{
    let addr = written_address(host, port);
    let front = addr + marked(';', params);
    let host_part = front + marked('?', headers);
    let rest = written_user(user, password) + host_part;
    let uri = scheme + seq![':'] + rest;
    lemma_address_is_read(host, port);
    assert(!scheme.contains(':')) by {
        reveal_strlit("sip");
        reveal_strlit("sips");
        if scheme.contains(':') {
            let i = choose|i: int| 0 <= i < scheme.len() && scheme[i] == ':';
            assert(crate::text::folded(scheme)[i] == crate::text::fold(':'));
            let short = crate::text::folded("sip"@);
            let long = crate::text::folded("sips"@);
            assert(short.len() == 3 && long.len() == 4);
            if same_ignoring_case(scheme, "sip"@) {
                assert(short[i] == crate::text::fold("sip"@[i]));
            } else {
                assert(long[i] == crate::text::fold("sips"@[i]));
            }
        }
    }
    lemma_cut(scheme, ':', rest);
    // The part behind the user.
    match user {
        Some(u) => match password {
            Some(p) => {
                let before_at = u + seq![':'] + p;
                assert(!seq![':'].contains('@'));
                lemma_concat_lacks(u, seq![':'], '@');
                lemma_concat_lacks(u + seq![':'], p, '@');
                assert(rest =~= before_at + seq!['@'] + host_part);
                lemma_cut(before_at, '@', host_part);
                lemma_cut(u, ':', p);
            },
            None => {
                assert(rest =~= u + seq!['@'] + host_part);
                lemma_cut(u, '@', host_part);
                lemma_position_is(u, ':', u.len() as int);
                assert(u.take(u.len() as int) =~= u);
            },
        },
        None => {
            assert(rest =~= host_part);
            assert(!marked(';', params).contains('@')) by {
                if let Some(p) = params {
                    assert(!seq![';'].contains('@'));
                    lemma_concat_lacks(seq![';'], p, '@');
                }
            }
            assert(!marked('?', headers).contains('@')) by {
                if let Some(h) = headers {
                    assert(!seq!['?'].contains('@'));
                    lemma_concat_lacks(seq!['?'], h, '@');
                }
            }
            lemma_concat_lacks(addr, marked(';', params), '@');
            lemma_concat_lacks(front, marked('?', headers), '@');
        },
    }
    // The headers.
    assert(!front.contains('?')) by {
        if let Some(p) = params {
            assert(!seq![';'].contains('?'));
            lemma_concat_lacks(seq![';'], p, '?');
        }
        lemma_concat_lacks(addr, marked(';', params), '?');
    }
    if let Some(h) = headers {
        assert(host_part =~= front + seq!['?'] + h);
        lemma_cut(front, '?', h);
    } else {
        assert(host_part =~= front);
        lemma_position(front, '?');
        assert(before(front, '?') =~= front);
    }
    // The parameters.
    if let Some(p) = params {
        assert(front =~= addr + seq![';'] + p);
        lemma_cut(addr, ';', p);
    } else {
        assert(front =~= addr);
        lemma_position(addr, ';');
        assert(before(addr, ';') =~= addr);
    }
    assert(user != Some(Seq::<char>::empty()));
}

/// What is no URI: a text with another scheme or with none, an address with an `@` and
/// nothing before it, an address that is empty or begins with a port, one with an open
/// bracket, and one with a port that is no number of 16 bits.
pub proof fn law_unreadable_uris_are_refused(
    s: Seq<char>,
    scheme: Seq<char>,
    rest: Seq<char>,
    host: Seq<char>,
    numeral: Seq<char>,
)
    requires
        same_ignoring_case(scheme, "sip"@) || same_ignoring_case(scheme, "sips"@),
        is_plain_host(host),
    ensures
        !s.contains(':') ==> uri_parts(s) == Err::<UriView, _>(UriError::Scheme),
        s.contains(':') && !same_ignoring_case(before(s, ':'), "sip"@) && !same_ignoring_case(
            before(s, ':'),
            "sips"@,
        ) ==> uri_parts(s) == Err::<UriView, _>(UriError::Scheme),
        parts_after_scheme(scheme, seq!['@'] + rest) == Err::<UriView, _>(UriError::EmptyUser),
        host_and_port(Seq::empty()) is Err,
        host_and_port(Seq::empty())->Err_0 is Host,
        host_and_port(seq![':'] + numeral) is Err,
        host_and_port(seq![':'] + numeral)->Err_0 is Host,
        !rest.contains(']') ==> host_and_port(seq!['['] + rest) is Err && host_and_port(
            seq!['['] + rest,
        )->Err_0 is Host,
        host_and_port(host + seq![':'] + numeral) is Ok <==> port_number(numeral) is Some,
        port_number(numeral) is None ==> host_and_port(host + seq![':'] + numeral)->Err_0 is Port,
{
    let none = Seq::<char>::empty();
    lemma_position(none, ':');
    let at = seq!['@'] + rest;
    assert(!none.contains('@'));
    assert(at =~= none + seq!['@'] + rest);
    lemma_cut(none, '@', rest);
    lemma_position_is(none, ':', 0);
    assert(none.take(0) =~= none);
    let colon = seq![':'] + numeral;
    assert(colon[0] == ':');
    lemma_position_is(colon, ':', 0);
    let open = seq!['['] + rest;
    assert(open.first() == '[');
    if !rest.contains(']') {
        assert(!seq!['['].contains(']'));
        lemma_concat_lacks(seq!['['], rest, ']');
    }
    let full = host + seq![':'] + numeral;
    lemma_cut(host, ':', numeral);
    lemma_position(full, ':');
    let n = host.len() as int;
    assert(full[n] == ':');
    assert forall|i: int| 0 <= i < n implies full[i] != ':' by {
        assert(host.contains(host[i]));
    }
    lemma_position_is(full, ':', n);
    assert(full.first() == host[0]);
    assert(full.skip(n + 1) =~= numeral);
}

/// Which texts are port numbers: a decimal number that fits 16 bits is the port that it
/// writes; the empty text and a text with anything but digits in it are none.
pub proof fn law_port_is_a_number_of_16_bits(n: nat, s: Seq<char>, i: int)
    ensures
        n <= 65535 ==> port_number(decimal(n)) == Some(n as u16),
        n > 65535 ==> port_number(decimal(n)) is None,
        port_number(Seq::empty()) is None,
        0 <= i < s.len() && !('0' <= s[i] <= '9') ==> port_number(s) is None,
{
    lemma_decimal(n);
}

/// The URI under which the carrier takes a call is the given one where that is no URI, or
/// names the carrier's server already and nothing else. Any other is made of its own
/// scheme and user and of the server's host and port.
pub proof fn law_request_goes_to_the_server(uri: Seq<char>, host: Seq<char>, port: u16)
    ensures
        ({
            let out = request_uri_for_ngn(uri, host, port);
            match uri_parts(uri) {
                Err(_) => out == uri,
                Ok(u) => if same_ignoring_case(u.host, host) && u.port == Some(port)
                    && u.params.len() == 0 && u.headers.len() == 0 {
                    out == uri
                } else {
                    &&& u.user is Some ==> out == u.scheme + ":"@ + u.user->0 + "@"@ + host + ":"@
                        + decimal(port as nat)
                    &&& u.user is None ==> out == u.scheme + ":"@ + host + ":"@ + decimal(
                        port as nat,
                    )
                },
            }
        }),
{
    if uri_parts(uri) is Ok {
        reveal_strlit("sip");
        reveal_strlit("sips");
        let scheme = uri_parts(uri)->Ok_0.scheme;
        assert(crate::text::folded("sip"@).len() == 3);
        assert(crate::text::folded("sips"@).len() == 4);
        assert(crate::text::folded(scheme).len() == scheme.len());
    }
}

/// A request for a call names the carrier's server, whatever it named before: a URI that
/// can be read comes out with its own scheme and user, the server's host and port, and
/// without parameters and headers.
pub proof fn law_request_names_the_server_alone(uri: Seq<char>, host: Seq<char>, port: u16)
    requires
        uri_parts(uri) is Ok,
        is_plain_host(host),
    ensures
        ({
            let out = uri_parts(request_uri_for_ngn(uri, host, port));
            &&& out is Ok
            &&& out->Ok_0.scheme == uri_parts(uri)->Ok_0.scheme
            &&& out->Ok_0.user == uri_parts(uri)->Ok_0.user
            &&& same_ignoring_case(out->Ok_0.host, host)
            &&& out->Ok_0.port == Some(port)
            &&& out->Ok_0.params.len() == 0
            &&& out->Ok_0.headers.len() == 0
        }),
{
    law_normalized_uri_names_the_server(uri, host, port);
}

/// The user of an address of record is what stands between its scheme and its `@`, as it
/// is written; where there is none the account is counted under the whole of it.
pub proof fn law_account_is_the_user(scheme: Seq<char>, user: Seq<char>, host: Seq<char>)
    requires
        !scheme.contains(':'),
        !user.contains('@'),
        user.len() > 0,
    ensures
        ({
            let full = scheme + seq![':'] + (user + seq!['@'] + host);
            &&& user_of_uri(full) == Some(user)
            &&& account_key(full) == user
        }),
        !host.contains('@') ==> ({
            let bare = scheme + seq![':'] + host;
            &&& user_of_uri(bare) is None
            &&& account_key(bare) == bare
        }),
        user_of_uri(scheme + seq![':'] + (seq!['@'] + host)) is None,
{
    lemma_cut(scheme, ':', user + seq!['@'] + host);
    lemma_cut(user, '@', host);
    lemma_cut(scheme, ':', host);
    let none = Seq::<char>::empty();
    assert(!none.contains('@'));
    assert(seq!['@'] + host =~= none + seq!['@'] + host);
    lemma_cut(none, '@', host);
    lemma_cut(scheme, ':', seq!['@'] + host);
}

/// The URI of a name-addr is what stands in its brackets, whatever the name before them
/// and the parameters behind them; that of an addr-spec ends where its parameters begin.
/// White space around them is no part of it.
pub proof fn law_uri_of_an_address_is_found(
    left: Seq<char>,
    name: Seq<char>,
    uri: Seq<char>,
    params: Seq<char>,
    right: Seq<char>,
)
    requires
        forall|i: int|
            0 <= i < left.len() ==> crate::text::is_white_space(#[trigger] left[i]),
        forall|i: int|
            0 <= i < right.len() ==> crate::text::is_white_space(#[trigger] right[i]),
        !name.contains('<'),
        name.len() > 0 ==> !crate::text::is_white_space(name.first()),
        params.len() > 0 ==> !crate::text::is_white_space(params.last()),
        !uri.contains('>'),
    ensures
        uri_in_addr(left + (name + seq!['<'] + (uri + seq!['>'] + params)) + right) == uri,
        uri.len() > 0 && !uri.contains('<') && !uri.contains(';') && !params.contains('<')
            && params.len() > 0 && !crate::text::is_white_space(uri.first())
            && !crate::text::is_white_space(uri.last()) ==> uri_in_addr(
            left + (uri + seq![';'] + params) + right,
        ) == uri,
        uri.len() > 0 && !uri.contains('<') && !uri.contains(';')
            && !crate::text::is_white_space(uri.first()) && !crate::text::is_white_space(
            uri.last(),
        ) ==> uri_in_addr(left + uri + right) == uri,
{
    let none = Seq::<char>::empty();
    let inside = uri + seq!['>'] + params;
    let middle = name + seq!['<'] + inside;
    assert(middle.first() == (if name.len() > 0 {
        name.first()
    } else {
        '<'
    }));
    assert(middle.last() == (if params.len() > 0 {
        params.last()
    } else {
        '>'
    }));
    law_trim_takes_white_space_off_both_ends(left, middle, right);
    lemma_cut(name, '<', inside);
    lemma_cut(uri, '>', params);
    if uri.len() > 0 && !uri.contains('<') && !uri.contains(';')
        && !crate::text::is_white_space(uri.first()) && !crate::text::is_white_space(uri.last()) {
        law_trim_takes_white_space_off_both_ends(none, uri, none);
        assert(none + uri + none =~= uri);
        law_trim_takes_white_space_off_both_ends(left, uri, right);
        lemma_position(uri, ';');
        assert(before(uri, ';') =~= uri);
        if params.len() > 0 && !params.contains('<') {
            let plain = uri + seq![';'] + params;
            assert(plain.first() == uri.first());
            assert(plain.last() == params.last());
            law_trim_takes_white_space_off_both_ends(left, plain, right);
            assert(!seq![';'].contains('<'));
            lemma_concat_lacks(uri, seq![';'], '<');
            lemma_concat_lacks(uri + seq![';'], params, '<');
            lemma_cut(uri, ';', params);
        }
    }
}

/// What can be dialled: one to 32 characters, each a digit, `*`, `#` or `+`. So whatever
/// is made of two dial targets is one as far as the length goes, and no other text is.
pub proof fn law_dial_targets_are_made_of_dial_characters(
    a: Seq<char>,
    b: Seq<char>,
    c: char,
)
    ensures
        !is_dial_target(Seq::empty()),
        is_dial_target(seq![c]) <==> '0' <= c <= '9' || c == '*' || c == '#' || c == '+',
        a.len() > 0 && b.len() > 0 ==> (is_dial_target(a + b) <==> is_dial_target(a)
            && is_dial_target(b) && a.len() + b.len() <= 32),
        a.len() > 32 ==> !is_dial_target(a),
{
    let one = seq![c];
    assert(one[0] == c);
    assert(is_dial_target(one) ==> is_dial_char(one[0]));
    if a.len() > 0 && b.len() > 0 {
        let all = a + b;
        if is_dial_target(all) {
            assert forall|i: int| 0 <= i < a.len() implies is_dial_char(#[trigger] a[i]) by {
                assert(all[i] == a[i]);
            }
            assert forall|i: int| 0 <= i < b.len() implies is_dial_char(#[trigger] b[i]) by {
                assert(all[a.len() + i] == b[i]);
            }
        }
    }
}

/// A URI that is made for a server has that server's host and port, behind the scheme and
/// the user that it is given; a scheme that is missing is `sip`.
pub proof fn law_server_uri_is_made_of_its_parts(
    uri: Seq<char>,
    u: UriView,
    host: Seq<char>,
    port: u16,
)
    requires
        !(same_ignoring_case(u.host, host) && u.port == Some(port) && u.params.len() == 0
            && u.headers.len() == 0),
    ensures
        ({
            let scheme = if u.scheme.len() > 0 {
                u.scheme
            } else {
                "sip"@
            };
            let user = match u.user {
                Some(user) => user + "@"@,
                None => Seq::empty(),
            };
            redirected(uri, u, host, port) == scheme + ":"@ + user + host + ":"@ + decimal(
                port as nat,
            )
        }),
{
    let scheme = if u.scheme.len() > 0 {
        u.scheme
    } else {
        "sip"@
    };
    let tail = host + ":"@ + decimal(port as nat);
    match u.user {
        Some(user) => {
            assert(redirected(uri, u, host, port) =~= scheme + ":"@ + (user + "@"@) + host + ":"@
                + decimal(port as nat));
        },
        None => {
            assert(redirected(uri, u, host, port) =~= scheme + ":"@ + Seq::<char>::empty() + host
                + ":"@ + decimal(port as nat));
        },
    }
}

/// A run of digits is a port exactly where the number that it writes, leading zeros or
/// not, fits 16 bits, and that number is the port.
pub proof fn law_any_run_of_digits_can_be_a_port(digits: Seq<char>)
    requires
        digits.len() > 0,
        forall|i: int| 0 <= i < digits.len() ==> is_digit(#[trigger] digits[i]),
    ensures
        digits_value(digits) <= 65535 ==> port_number(digits) == Some(
            digits_value(digits) as u16,
        ),
        digits_value(digits) > 65535 ==> port_number(digits) is None,
{
}

/// The user of an address without a scheme is what stands before its `@`; one with neither
/// scheme nor user is counted under the whole of it.
pub proof fn law_user_needs_no_scheme(user: Seq<char>, host: Seq<char>)
    requires
        !user.contains('@'),
        user.len() > 0,
        !user.contains(':'),
        !host.contains(':'),
    ensures
        user_of_uri(user + seq!['@'] + host) == Some(user),
        account_key(user + seq!['@'] + host) == user,
        user_of_uri(user) is None,
        account_key(user) == user,
        user_of_uri(seq!['@'] + host) is None,
        account_key(seq!['@'] + host) == seq!['@'] + host,
{
    let full = user + seq!['@'] + host;
    assert(!seq!['@'].contains(':'));
    lemma_concat_lacks(user, seq!['@'], ':');
    lemma_concat_lacks(user + seq!['@'], host, ':');
    lemma_cut(user, '@', host);
    lemma_concat_lacks(seq!['@'], host, ':');
    let none = Seq::<char>::empty();
    assert(!none.contains('@'));
    assert(seq!['@'] + host =~= none + seq!['@'] + host);
    lemma_cut(none, '@', host);
}

} // verus!
