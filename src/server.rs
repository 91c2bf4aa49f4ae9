//! The decisions of starting and stopping the HTTP server: the port check,
//! the bind address read as four decimal octets, and the address the server
//! is reachable at.
use vstd::prelude::*;
use crate::text::{char_vec, concat, push_text, str_equal};
use crate::types::ServerInfo;

verus! {

pub const INVALID_PORT_MESSAGE: &'static str = "Invalid port number";

pub const INVALID_ADDRESS_PREFIX: &'static str = "Invalid IP address format: ";

/// The address that listens on every interface; it is reached as `localhost`.
pub const ANY_ADDRESS: &'static str = "0.0.0.0";

pub const LOCALHOST: &'static str = "localhost";

pub open spec fn is_digit_spec(c: char) -> bool {
    '0' <= c && c <= '9'
}

pub open spec fn digit_value(c: char) -> int {
    c as int - '0' as int
}

/// The number written by the decimal digits `d`.
pub open spec fn digits_value(d: Seq<char>) -> int
    decreases d.len(),
{
    if d.len() == 0 {
        0
    } else {
        digits_value(d.drop_last()) * 10 + digit_value(d.last())
    }
}

pub open spec fn all_digits(d: Seq<char>) -> bool {
    forall|i: int| 0 <= i < d.len() ==> is_digit_spec(#[trigger] d[i])
}

/// What `u8::from_str` reads from `s`: an optional `+`, then one or more
/// decimal digits whose value is at most 255.
pub open spec fn octet_spec(s: Seq<char>) -> Option<u8> {
    let d = if s.len() > 0 && s[0] == '+' {
        s.drop_first()
    } else {
        s
    };
    if d.len() > 0 && all_digits(d) && digits_value(d) <= 255 {
        Some(digits_value(d) as u8)
    } else {
        None
    }
}

proof fn lemma_digits_value_grows(d: Seq<char>, k: int)
    requires
        all_digits(d),
        0 <= k <= d.len(),
    ensures
        0 <= digits_value(d.take(k)) <= digits_value(d),
    decreases d.len() - k,
{
    if k < d.len() {
        lemma_digits_value_grows(d, k + 1);
        assert(d.take(k + 1).drop_last() == d.take(k));
        assert(d.take(k + 1).last() == d[k]);
        assert(all_digits(d.take(k)));
        lemma_digits_value_nonneg(d.take(k));
        assert(is_digit_spec(d[k]));
    } else {
        assert(d.take(k) == d);
        lemma_digits_value_nonneg(d);
    }
}

proof fn lemma_digits_value_nonneg(d: Seq<char>)
    requires
        all_digits(d),
    ensures
        digits_value(d) >= 0,
    decreases d.len(),
{
    if d.len() > 0 {
        assert(all_digits(d.drop_last()));
        lemma_digits_value_nonneg(d.drop_last());
    }
}

/// Reads the octet written in `s[from..to]`.
pub fn parse_octet(s: &Vec<char>, from: usize, to: usize) -> (r: Option<u8>)
    requires
        from <= to <= s@.len(),
    ensures
        r == octet_spec(s@.subrange(from as int, to as int)),
{
    let ghost t = s@.subrange(from as int, to as int);
    let mut i = from;
    if i < to && s[i] == '+' {
        i = i + 1;
    }
    let ghost d = s@.subrange(i as int, to as int);
    if i > from {
        assert(t[0] == '+');
        assert(t.drop_first() == d);
    } else {
        assert(t == d);
        assert(!(t.len() > 0 && t[0] == '+'));
    }
    assert(octet_spec(t) == (if d.len() > 0 && all_digits(d) && digits_value(d) <= 255 {
        Some(digits_value(d) as u8)
    } else {
        None
    }));
    if i == to {
        return None;
    }
    let start = i;
    let mut value: u32 = 0;
    while i < to
        invariant
            start <= i <= to <= s@.len(),
            start < to,
            d == s@.subrange(start as int, to as int),
            octet_spec(s@.subrange(from as int, to as int)) == (if d.len() > 0 && all_digits(d)
                && digits_value(d) <= 255 {
                Some(digits_value(d) as u8)
            } else {
                None
            }),
            all_digits(d.take(i - start)),
            value == digits_value(d.take(i - start)),
            value <= 255,
        decreases to - i,
    {
        let c = s[i];
        assert(d[i - start] == c);
        if !('0' <= c && c <= '9') {
            assert(!is_digit_spec(d[i - start]));
            assert(!all_digits(d));
            return None;
        }
        assert(d.take(i + 1 - start).drop_last() == d.take(i - start));
        assert(d.take(i + 1 - start).last() == c);
        let next = value * 10 + (c as u32 - '0' as u32);
        assert(all_digits(d.take(i + 1 - start)));
        if next > 255 {
            proof {
                if all_digits(d) {
                    lemma_digits_value_grows(d, i + 1 - start);
                }
            }
            return None;
        }
        value = next;
        i = i + 1;
    }
    assert(d.take(to - start) == d);
    Some(value as u8)
}

/// Index of the first `.` in `s`, or -1.
pub open spec fn dot_index(s: Seq<char>) -> int
    decreases s.len(),
{
    if s.len() == 0 {
        -1
    } else if s[0] == '.' {
        0
    } else if dot_index(s.drop_first()) < 0 {
        -1
    } else {
        dot_index(s.drop_first()) + 1
    }
}

proof fn lemma_dot_index_bounds(s: Seq<char>)
    ensures
        -1 <= dot_index(s) < s.len(),
        dot_index(s) >= 0 ==> s[dot_index(s)] == '.',
    decreases s.len(),
{
    if s.len() > 0 {
        lemma_dot_index_bounds(s.drop_first());
    }
}

/// `s` cut at every `.`, empty pieces included.
pub open spec fn split_dots(s: Seq<char>) -> Seq<Seq<char>>
    decreases s.len(),
{
    let k = dot_index(s);
    if k < 0 || k >= s.len() {
        seq![s]
    } else {
        seq![s.take(k)] + split_dots(s.skip(k + 1))
    }
}

/// The four octets of a dotted address, if `s` is one.
pub open spec fn address_spec(s: Seq<char>) -> Option<Seq<u8>> {
    let p = split_dots(s);
    if p.len() == 4 && (forall|i: int| 0 <= i < 4 ==> (#[trigger] octet_spec(p[i])) is Some) {
        Some(seq![octet_spec(p[0])->0, octet_spec(p[1])->0, octet_spec(p[2])->0, octet_spec(p[3])->0])
    } else {
        None
    }
}

/// Position of the first `.` in `s[from..]`, or the length of `s`.
fn next_dot(s: &Vec<char>, from: usize) -> (r: usize)
    requires
        from <= s@.len(),
    ensures
        from <= r <= s@.len(),
        r == s@.len() ==> dot_index(s@.skip(from as int)) < 0,
        r < s@.len() ==> dot_index(s@.skip(from as int)) == r - from,
{
    let mut j = from;
    while j < s.len() && s[j] != '.'
        invariant
            from <= j <= s@.len(),
            dot_index(s@.skip(from as int)) == (if dot_index(s@.skip(j as int)) < 0 {
                -1
            } else {
                dot_index(s@.skip(j as int)) + (j - from)
            }),
        decreases s@.len() - j,
    {
        assert(s@.skip(j as int)[0] == s@[j as int]);
        assert(s@.skip(j as int).drop_first() == s@.skip(j + 1));
        j = j + 1;
    }
    if j < s.len() {
        assert(s@.skip(j as int)[0] == '.');
    } else {
        assert(s@.skip(j as int).len() == 0);
    }
    j
}

/// Reads a dotted address of four decimal octets.
pub fn parse_bind_address(bind_address: &str) -> (r: Result<[u8; 4], String>)
    ensures
        address_spec(bind_address@) is Some ==> r is Ok && r->Ok_0@ == address_spec(bind_address@)->0,
        address_spec(bind_address@) is None ==> r is Err && r->Err_0@ == INVALID_ADDRESS_PREFIX@
            + bind_address@,
{
    let s = char_vec(bind_address);
    let n = s.len();
    let error = concat(INVALID_ADDRESS_PREFIX, bind_address);
    let mut ip: [u8; 4] = [0u8; 4];
    let mut pos: usize = 0;
    let mut k: usize = 0;
    let ghost all = split_dots(s@);
    assert(s@.skip(0) == s@);
    // The pieces before `pos` are `all[..k]`; `ip[..k]` holds their octets.
    loop
        invariant_except_break
            n == s@.len(),
            s@ == bind_address@,
            pos <= n,
            k < 4,
            all == split_dots(s@),
            all.len() >= k,
            all.skip(k as int) == split_dots(s@.skip(pos as int)),
            forall|j: int| 0 <= j < k ==> (#[trigger] octet_spec(all[j])) == Some(ip@[j]),
            error@ == INVALID_ADDRESS_PREFIX@ + bind_address@,
        ensures
            all == split_dots(bind_address@),
            all.len() == 4,
            forall|j: int| 0 <= j < 4 ==> (#[trigger] octet_spec(all[j])) == Some(ip@[j]),
        decreases n - pos,
    {
        let end = next_dot(&s, pos);
        let ghost rest = s@.skip(pos as int);
        proof {
            lemma_dot_index_bounds(rest);
            if end < n {
                assert(rest.take(end - pos) == s@.subrange(pos as int, end as int));
                assert(rest.skip(end - pos + 1) == s@.skip(end + 1));
                assert(split_dots(rest) == seq![rest.take(end - pos)] + split_dots(s@.skip(end + 1)));
            } else {
                assert(rest == s@.subrange(pos as int, end as int));
                assert(split_dots(rest) == seq![rest]);
            }
            assert(all[k as int] == all.skip(k as int)[0]);
            assert(all[k as int] == s@.subrange(pos as int, end as int));
        }
        match parse_octet(&s, pos, end) {
            Some(v) => {
                ip[k] = v;
            },
            None => {
                assert(octet_spec(all[k as int]) is None);
                return Err(error);
            },
        }
        if end == n {
            if k != 3 {
                assert(all.skip(k as int).len() == 1);
                assert(all.len() == k + 1);
                return Err(error);
            }
            assert(all.skip(3).len() == 1);
            break;
        }
        if k == 3 {
            assert(all.skip(3).len() >= 2) by {
                assert(split_dots(rest).len() == 1 + split_dots(s@.skip(end + 1)).len());
            }
            assert(all.len() >= 5);
            return Err(error);
        }
        proof {
            assert(all.skip(k + 1) == all.skip(k as int).skip(1));
        }
        pos = end + 1;
        k = k + 1;
    }
    assert(ip@ == seq![octet_spec(all[0])->0, octet_spec(all[1])->0, octet_spec(all[2])->0, octet_spec(all[3])->0]);
    Ok(ip)
}

/// The decimal digits of `n`.
pub open spec fn decimal_spec(n: nat) -> Seq<char>
    decreases n,
{
    if n < 10 {
        seq![((n + 48) as u8) as char]
    } else {
        decimal_spec(n / 10).push((((n % 10) + 48) as u8) as char)
    }
}

/// `n` written in decimal.
pub fn decimal(n: u16) -> (r: String)
    ensures
        r@ == decimal_spec(n as nat),
    decreases n,
{
    let digit = ((n % 10) as u8 + 48u8) as char;
    if n < 10 {
        let mut r = String::new();
        crate::text::push_char(&mut r, digit);
        r
    } else {
        let mut r = decimal(n / 10);
        crate::text::push_char(&mut r, digit);
        r
    }
}

/// The host part of the server's URL: `localhost` for the any-interface address.
pub open spec fn url_host_spec(bind_address: Seq<char>) -> Seq<char> {
    if bind_address == ANY_ADDRESS@ {
        LOCALHOST@
    } else {
        bind_address
    }
}

pub open spec fn server_url_spec(bind_address: Seq<char>, port: u16) -> Seq<char> {
    "http://"@ + url_host_spec(bind_address) + ":"@ + decimal_spec(port as nat)
}

/// The URL at which a server bound to `bind_address` and `port` is reached.
pub fn server_url(bind_address: &str, port: u16) -> (r: String)
    ensures
        r@ == server_url_spec(bind_address@, port),
{
    let host = if str_equal(bind_address, ANY_ADDRESS) {
        LOCALHOST
    } else {
        bind_address
    };
    let mut u = concat("http://", host);
    push_text(&mut u, ":");
    let p = decimal(port);
    push_text(&mut u, p.as_str());
    u
}

pub open spec fn info_matches(info: ServerInfo, running: bool, port: Option<u16>, url: Option<Seq<char>>) -> bool {
    info.running == running && info.port == port && info.url.deep_view() == url
}

impl ServerInfo {
    /// The state of a server that is not running.
    pub fn stopped() -> (r: ServerInfo)
        ensures
            info_matches(r, false, None, None),
    {
        ServerInfo { running: false, port: None, url: None }
    }

    /// The state of a server bound to `bind_address` and `port`.
    pub fn running_at(bind_address: &str, port: u16) -> (r: ServerInfo)
        ensures
            info_matches(r, true, Some(port), Some(server_url_spec(bind_address@, port))),
    {
        ServerInfo { running: true, port: Some(port), url: Some(server_url(bind_address, port)) }
    }

    /// A copy holding the same values.
    pub fn duplicate(&self) -> (r: ServerInfo)
        ensures
            info_matches(r, self.running, self.port, self.url.deep_view()),
    {
        ServerInfo {
            running: self.running,
            port: self.port,
            url: match &self.url {
                Some(u) => Some(u.clone()),
                None => None,
            },
        }
    }
}

/// What a request to start the server leads to.
#[derive(Debug)]
pub enum StartDecision {
    /// The server already runs: report its state and change nothing.
    AlreadyRunning(ServerInfo),
    /// Bind to this address and report this state.
    Launch([u8; 4], ServerInfo),
}

/// Decides a request to start the server on `port` and `bind_address` when it
/// is in state `current`: port 0 is refused; a running server is left as it
/// is; otherwise the address must be four decimal octets.
pub fn decide_start(current: &ServerInfo, port: u16, bind_address: &str) -> (r: Result<
    StartDecision,
    String,
>)
    ensures
        port == 0 ==> r is Err && r->Err_0@ == INVALID_PORT_MESSAGE@,
        port != 0 && current.running ==> (r matches Ok(StartDecision::AlreadyRunning(i))
            && info_matches(i, current.running, current.port, current.url.deep_view())),
        port != 0 && !current.running && address_spec(bind_address@) is None ==> r is Err
            && r->Err_0@ == INVALID_ADDRESS_PREFIX@ + bind_address@,
        port != 0 && !current.running && address_spec(bind_address@) is Some ==> (r matches Ok(
            StartDecision::Launch(ip, i),
        ) && ip@ == address_spec(bind_address@)->0 && info_matches(
            i,
            true,
            Some(port),
            Some(server_url_spec(bind_address@, port)),
        )),
{
    if port == 0 {
        return Err(INVALID_PORT_MESSAGE.to_owned());
    }
    if current.running {
        return Ok(StartDecision::AlreadyRunning(current.duplicate()));
    }
    match parse_bind_address(bind_address) {
        Ok(ip) => Ok(StartDecision::Launch(ip, ServerInfo::running_at(bind_address, port))),
        Err(e) => Err(e),
    }
}

/// What a request to stop the server leads to.
#[derive(Debug)]
pub enum StopDecision {
    /// The server does not run: report its state and change nothing.
    AlreadyStopped(ServerInfo),
    /// Stop the server and report this state.
    Stop(ServerInfo),
}

/// Decides a request to stop the server when it is in state `current`: a
/// server that does not run is left as it is; a running one becomes stopped,
/// with no port and no URL.
pub fn decide_stop(current: &ServerInfo) -> (r: StopDecision)
    ensures
        !current.running ==> (r matches StopDecision::AlreadyStopped(i) && info_matches(
            i,
            current.running,
            current.port,
            current.url.deep_view(),
        )),
        current.running ==> (r matches StopDecision::Stop(i) && info_matches(i, false, None, None)),
{
    if !current.running {
        StopDecision::AlreadyStopped(current.duplicate())
    } else {
        StopDecision::Stop(ServerInfo::stopped())
    }
}

} // verus!
