use vstd::prelude::*;

verus! {

/// An IP address held as plain values.
#[derive(Clone, Copy, Debug, PartialEq, Eq, Structural)]
pub enum IpAddr {
    V4(u8, u8, u8, u8),
    V6(u16, u16, u16, u16, u16, u16, u16, u16),
}

/// A network address: host and port.
#[derive(Clone, Copy, Debug, PartialEq, Eq, Structural)]
pub struct NetAddr {
    pub ip: IpAddr,
    pub port: u16,
}

/// Where a source listens: a network address to bind, or a slot of the
/// descriptor table inherited from the supervising process.
#[derive(Clone, Copy, Debug, PartialEq, Eq, Structural)]
pub enum SocketListenAddr {
    SocketAddr(NetAddr),
    SystemdFd(usize),
}

/// Why a listen address token was rejected.
#[derive(Clone, Copy, Debug, PartialEq, Eq, Structural)]
pub enum ListenAddrError {
    /// The token is neither a network address nor starts with `systemd`.
    NotSystemd,
    /// The text after `systemd#` is not a slot number from 1 up.
    InvalidSlot,
}

impl From<NetAddr> for SocketListenAddr {
    fn from(addr: NetAddr) -> (r: SocketListenAddr)
        ensures
            r == SocketListenAddr::SocketAddr(addr),
    {
        SocketListenAddr::SocketAddr(addr)
    }
}

impl vstd::std_specs::convert::FromSpecImpl<NetAddr> for SocketListenAddr {
    open spec fn obeys_from_spec() -> bool {
        true
    }

    open spec fn from_spec(addr: NetAddr) -> SocketListenAddr {
        SocketListenAddr::SocketAddr(addr)
    }
}

pub open spec fn systemd_word() -> Seq<char> {
    seq!['s', 'y', 's', 't', 'e', 'm', 'd']
}

pub open spec fn systemd_prefix() -> Seq<char> {
    systemd_word().push('#')
}

pub open spec fn is_digit(c: char) -> bool {
    '0' <= c && c <= '9'
}

pub open spec fn all_digits(s: Seq<char>) -> bool {
    forall|i: int| 0 <= i < s.len() ==> is_digit(#[trigger] s[i])
}

/// The value of a string of decimal digits.
pub open spec fn digits_value(s: Seq<char>) -> nat
    decreases s.len(),
{
    if s.len() == 0 {
        0
    } else {
        digits_value(s.drop_last()) * 10 + (s.last() as nat - '0' as nat) as nat
    }
}

/// The digits of an unsigned decimal number: an optional `+` sign is dropped.
pub open spec fn unsigned_digits(s: Seq<char>) -> Seq<char> {
    if s.len() > 0 && s[0] == '+' {
        s.skip(1)
    } else {
        s
    }
}

/// The number that `s` denotes as a `usize` in decimal, if any.
pub open spec fn usize_of(s: Seq<char>) -> Option<nat> {
    let d = unsigned_digits(s);
    if d.len() > 0 && all_digits(d) && digits_value(d) <= usize::MAX {
        Some(digits_value(d))
    } else {
        None
    }
}

/// The descriptor slot named by a socket-activation token: `systemd` is slot 0,
/// `systemd#N` is slot N - 1 for N from 1 up.
pub open spec fn systemd_slot(s: Seq<char>) -> Result<nat, ListenAddrError> {
    if s == systemd_word() {
        Ok(0)
    } else if s.len() >= 8 && s.take(8) == systemd_prefix() {
        match usize_of(s.skip(8)) {
            Some(n) if n >= 1 => Ok((n - 1) as nat),
            _ => Err(ListenAddrError::InvalidSlot),
        }
    } else {
        Err(ListenAddrError::NotSystemd)
    }
}

proof fn lemma_digits_value_step(s: Seq<char>, i: int)
    requires
        0 <= i < s.len(),
    ensures
        digits_value(s.take(i + 1)) == digits_value(s.take(i)) * 10 + (s[i] as nat
            - '0' as nat) as nat,
{
    assert(s.take(i + 1).drop_last() =~= s.take(i));
}

/// Does `s` hold, from char index `start`, exactly the chars of `word`?
fn has_at(s: &str, start: usize, word: &str) -> (r: bool)
    requires
        start <= s@.len(),
    ensures
        r == (start + word@.len() <= s@.len() && s@.subrange(start as int, start + word@.len())
            == word@),
{
    let n = s.unicode_len();
    let m = word.unicode_len();
    if m > n - start {
        return false;
    }
    let mut i: usize = 0;
    while i < m
        invariant
            n == s@.len(),
            m == word@.len(),
            start + m <= n,
            i <= m,
            forall|j: int| 0 <= j < i ==> s@[start + j] == word@[j],
        decreases m - i,
    {
        if s.get_char(start + i) != word.get_char(i) {
            assert(s@.subrange(start as int, start + m)[i as int] != word@[i as int]);
            return false;
        }
        i = i + 1;
    }
    assert(s@.subrange(start as int, start + m) =~= word@);
    true
}

/// Parses the decimal `usize` written in `s` from char index `start` to the end.
fn parse_usize_from(s: &str, start: usize) -> (r: Option<usize>)
    requires
        start <= s@.len(),
    ensures
        r == match usize_of(s@.skip(start as int)) {
            Some(n) => Some(n as usize),
            None => None::<usize>,
        },
{
    let n = s.unicode_len();
    let ghost t = s@.skip(start as int);
    let mut i: usize = start;
    if i < n && s.get_char(i) == '+' {
        i = i + 1;
    }
    let ghost d = s@.skip(i as int);
    assert(d =~= unsigned_digits(t));
    if i == n {
        return None;
    }
    let mut value: usize = 0;
    let mut k: usize = i;
    while k < n
        invariant
            n == s@.len(),
            i <= k <= n,
            i < n,
            d == s@.skip(i as int),
            t == s@.skip(start as int),
            d == unsigned_digits(t),
            value <= usize::MAX,
            value == digits_value(d.take(k - i)),
            all_digits(d.take(k - i)),
        decreases n - k,
    {
        let c = s.get_char(k);
        if !('0' <= c && c <= '9') {
            assert(d[k - i] == c);
            assert(!is_digit(d[k - i]));
            assert(!all_digits(d));
            return None;
        }
        let digit = (c as u32 - '0' as u32) as usize;
        proof {
            lemma_digits_value_step(d, (k - i) as int);
            assert(d.take(k - i + 1) =~= d.take(k - i).push(c));
        }
        if value > (usize::MAX - digit) / 10 {
            proof {
                assert(value * 10 + digit > usize::MAX) by (nonlinear_arith)
                    requires
                        value > (usize::MAX - digit) / 10,
                        digit <= 9,
                ;
                assert(all_digits(d.take(k - i + 1)));
                lemma_digits_value_prefix_bound(d, (k - i + 1) as int);
            }
            return None;
        }
        value = value * 10 + digit;
        k = k + 1;
    }
    assert(d.take(k - i) =~= d);
    Some(value)
}

/// A longer prefix of digits never has a smaller value.
proof fn lemma_digits_value_prefix_bound(s: Seq<char>, i: int)
    requires
        0 <= i <= s.len(),
        all_digits(s.take(i)),
    ensures
        all_digits(s) ==> digits_value(s) >= digits_value(s.take(i)),
    decreases s.len() - i,
{
    if i < s.len() && all_digits(s) {
        assert(all_digits(s.take(i + 1)));
        lemma_digits_value_prefix_bound(s, i + 1);
        lemma_digits_value_step(s, i);
    }
    if i == s.len() {
        assert(s.take(i) =~= s);
    }
}

/// Reads a socket-activation token: `"systemd"` names slot 0 and
/// `"systemd#N"` names slot N - 1.
pub fn parse_systemd_fd(s: &str) -> (r: Result<usize, ListenAddrError>)
    ensures
        r matches Ok(slot) ==> systemd_slot(s@) == Ok::<nat, ListenAddrError>(slot as nat),
        r matches Err(e) ==> systemd_slot(s@) == Err::<nat, ListenAddrError>(e),
{
    let n = s.unicode_len();
    let is_word = has_at(s, 0, "systemd");
    proof {
        reveal_strlit("systemd");
        reveal_strlit("systemd#");
        assert("systemd"@ =~= systemd_word());
        assert("systemd#"@ =~= systemd_prefix());
        assert(s@.subrange(0, s@.len() as int) =~= s@);
        assert(s@.take(8) =~= s@.subrange(0, 8));
    }
    if is_word && n == 7 {
        assert(s@ =~= systemd_word());
        return Ok(0);
    }
    if !has_at(s, 0, "systemd#") {
        return Err(ListenAddrError::NotSystemd);
    }
    match parse_usize_from(s, 8) {
        Some(v) if v >= 1 => Ok(v - 1),
        _ => Err(ListenAddrError::InvalidSlot),
    }
}

/// The listen address that a configuration token names. `net` is the token
/// read as a network address, where it is one; otherwise the token must
/// name a socket-activation slot.
pub fn listen_addr_from_token(s: &str, net: Option<NetAddr>) -> (r: Result<
    SocketListenAddr,
    ListenAddrError,
>)
    ensures
        net matches Some(a) ==> r == Ok::<SocketListenAddr, ListenAddrError>(
            SocketListenAddr::SocketAddr(a),
        ),
        net is None ==> match systemd_slot(s@) {
            Ok(slot) => r == Ok::<SocketListenAddr, ListenAddrError>(
                SocketListenAddr::SystemdFd(slot as usize),
            ),
            Err(e) => r == Err::<SocketListenAddr, ListenAddrError>(e),
        },
{
    match net {
        Some(a) => Ok(SocketListenAddr::SocketAddr(a)),
        None => match parse_systemd_fd(s) {
            Ok(slot) => Ok(SocketListenAddr::SystemdFd(slot)),
            Err(e) => Err(e),
        },
    }
}

/// Socket-activation tokens: `"systemd"` names slot 0, `"systemd#3"` names
/// slot 2, and `"systemd#abc"` is rejected.
pub proof fn lemma_systemd_tokens()
    ensures
        systemd_slot(systemd_word()) == Ok::<nat, ListenAddrError>(0),
        systemd_slot(systemd_prefix().push('3')) == Ok::<nat, ListenAddrError>(2),
        systemd_slot(systemd_prefix() + seq!['a', 'b', 'c']) == Err::<nat, ListenAddrError>(
            ListenAddrError::InvalidSlot,
        ),
{
    let three = systemd_prefix().push('3');
    assert(three.take(8) =~= systemd_prefix());
    assert(three.skip(8) =~= seq!['3']);
    assert(unsigned_digits(seq!['3']) =~= seq!['3']);
    assert(seq!['3'].drop_last() =~= Seq::<char>::empty());
    assert(digits_value(Seq::<char>::empty()) == 0);
    assert(seq!['3'].last() == '3');
    assert(('3' as nat - '0' as nat) == 3);
    assert(digits_value(seq!['3']) == 3);
    assert(three != systemd_word()) by {
        assert(three.len() != systemd_word().len());
    }
    let abc = systemd_prefix() + seq!['a', 'b', 'c'];
    assert(abc.take(8) =~= systemd_prefix());
    assert(abc.skip(8) =~= seq!['a', 'b', 'c']);
    assert(unsigned_digits(seq!['a', 'b', 'c']) =~= seq!['a', 'b', 'c']);
    assert(!is_digit(seq!['a', 'b', 'c'][0]));
    assert(abc != systemd_word()) by {
        assert(abc.len() != systemd_word().len());
    }
}

} // verus!
