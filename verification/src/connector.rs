//! The targets that can be connected to, and how connecting to them is decided.

use vstd::prelude::*;
use vstd::string::*;

use crate::decimal;
use crate::decimal::{parse_port, to_decimal};
use crate::time::Duration;

verus! {

/// An IPv4 address.
#[derive(Debug, Clone, Copy, PartialEq, Eq, Hash, Structural)]
pub struct Ipv4Addr {
    /// The address as a number, first octet highest.
    pub bits: u32,
}

/// An IPv6 address.
#[derive(Debug, Clone, Copy, PartialEq, Eq, Hash, Structural)]
pub struct Ipv6Addr {
    /// The address as a number, first segment highest.
    pub bits: u128,
}

/// An IPv4 address and a port.
#[derive(Debug, Clone, Copy, PartialEq, Eq, Hash, Structural)]
pub struct SocketAddrV4 {
    /// The address.
    pub ip: Ipv4Addr,
    /// The port.
    pub port: u16,
}

/// An IPv6 address and a port.
#[derive(Debug, Clone, Copy, PartialEq, Eq, Hash, Structural)]
pub struct SocketAddrV6 {
    /// The address.
    pub ip: Ipv6Addr,
    /// The port.
    pub port: u16,
    /// The flow information.
    pub flowinfo: u32,
    /// The scope id.
    pub scope_id: u32,
}

/// An address that a socket can be bound or connected to.
#[derive(Debug, Clone, Copy, PartialEq, Eq, Hash, Structural)]
pub enum SocketAddr {
    /// An IPv4 socket address.
    V4(SocketAddrV4),
    /// An IPv6 socket address.
    V6(SocketAddrV6),
}

/// A connect target that can be either a socket address or a resolvable domain name.
#[derive(Debug)]
pub enum Target {
    /// The target is a socket.
    Socket(SocketAddr),
    /// The target is a fully qualified domain, along with a port.
    Domain(String, u16),
}

/// Why a text is not a target.
#[derive(Debug, Clone, Copy, PartialEq, Eq, Structural)]
pub enum TargetError {
    /// The text is neither a socket address nor a domain and a port with a colon in between.
    NotATarget,
    /// The text behind the colon is not a port number.
    NotAPort,
}

/// Why a connect attempt failed.
#[derive(Debug)]
pub enum ConnectError {
    /// An IO error occurred.
    Io(std::io::Error),
    /// The target is a domain that does not resolve to any address.
    Unresolved,
    /// The connect attempt timed out.
    TimedOut,
}

impl Clone for Target {
    fn clone(&self) -> (target: Self)
        ensures
            target == *self,
    {
        match self {
            Target::Socket(addr) => Target::Socket(*addr),
            Target::Domain(domain, port) => Target::Domain(domain.clone(), *port),
        }
    }
}

impl PartialEq for Target {
    fn eq(&self, other: &Self) -> (equal: bool) {
        match (self, other) {
            (Target::Socket(a), Target::Socket(b)) => *a == *b,
            (Target::Domain(a, p), Target::Domain(b, q)) => *a == *b && *p == *q,
            _ => false,
        }
    }
}

impl Eq for Target {

}

impl vstd::std_specs::cmp::PartialEqSpecImpl for Target {
    open spec fn obeys_eq_spec() -> bool {
        true
    }

    open spec fn eq_spec(&self, other: &Self) -> bool {
        match (self, other) {
            (Target::Socket(a), Target::Socket(b)) => a == b,
            (Target::Domain(a, p), Target::Domain(b, q)) => a@ == b@ && p == q,
            _ => false,
        }
    }
}

impl From<SocketAddr> for Target {
    fn from(value: SocketAddr) -> (target: Self) {
        Target::Socket(value)
    }
}

impl vstd::std_specs::convert::FromSpecImpl<SocketAddr> for Target {
    open spec fn obeys_from_spec() -> bool {
        true
    }

    open spec fn from_spec(value: SocketAddr) -> Self {
        Target::Socket(value)
    }
}

impl From<SocketAddrV4> for Target {
    fn from(value: SocketAddrV4) -> (target: Self) {
        Target::Socket(SocketAddr::V4(value))
    }
}

impl vstd::std_specs::convert::FromSpecImpl<SocketAddrV4> for Target {
    open spec fn obeys_from_spec() -> bool {
        true
    }

    open spec fn from_spec(value: SocketAddrV4) -> Self {
        Target::Socket(SocketAddr::V4(value))
    }
}

impl From<SocketAddrV6> for Target {
    fn from(value: SocketAddrV6) -> (target: Self) {
        Target::Socket(SocketAddr::V6(value))
    }
}

impl vstd::std_specs::convert::FromSpecImpl<SocketAddrV6> for Target {
    open spec fn obeys_from_spec() -> bool {
        true
    }

    open spec fn from_spec(value: SocketAddrV6) -> Self {
        Target::Socket(SocketAddr::V6(value))
    }
}

impl From<(Ipv4Addr, u16)> for Target {
    fn from(value: (Ipv4Addr, u16)) -> (target: Self) {
        Target::Socket(SocketAddr::V4(SocketAddrV4 { ip: value.0, port: value.1 }))
    }
}

impl vstd::std_specs::convert::FromSpecImpl<(Ipv4Addr, u16)> for Target {
    open spec fn obeys_from_spec() -> bool {
        true
    }

    open spec fn from_spec(value: (Ipv4Addr, u16)) -> Self {
        Target::Socket(SocketAddr::V4(SocketAddrV4 { ip: value.0, port: value.1 }))
    }
}

impl From<(Ipv6Addr, u16)> for Target {
    fn from(value: (Ipv6Addr, u16)) -> (target: Self) {
        Target::Socket(
            SocketAddr::V6(
                SocketAddrV6 { ip: value.0, port: value.1, flowinfo: 0, scope_id: 0 },
            ),
        )
    }
}

impl vstd::std_specs::convert::FromSpecImpl<(Ipv6Addr, u16)> for Target {
    open spec fn obeys_from_spec() -> bool {
        true
    }

    open spec fn from_spec(value: (Ipv6Addr, u16)) -> Self {
        Target::Socket(
            SocketAddr::V6(
                SocketAddrV6 { ip: value.0, port: value.1, flowinfo: 0, scope_id: 0 },
            ),
        )
    }
}

impl From<(String, u16)> for Target {
    fn from(value: (String, u16)) -> (target: Self) {
        Target::Domain(value.0, value.1)
    }
}

impl vstd::std_specs::convert::FromSpecImpl<(String, u16)> for Target {
    open spec fn obeys_from_spec() -> bool {
        true
    }

    open spec fn from_spec(value: (String, u16)) -> Self {
        Target::Domain(value.0, value.1)
    }
}

impl<'a> From<(&'a str, u16)> for Target {
    fn from(value: (&'a str, u16)) -> (target: Self)
        ensures
            target.is_domain(value.0@, value.1),
    {
        Target::Domain(value.0.to_owned(), value.1)
    }
}

impl<'a> vstd::std_specs::convert::FromSpecImpl<(&'a str, u16)> for Target {
    open spec fn obeys_from_spec() -> bool {
        false
    }

    open spec fn from_spec(value: (&'a str, u16)) -> Self {
        arbitrary()
    }
}

/// The text in front of the first colon, if there is a colon.
pub open spec fn before_colon(text: Seq<char>) -> Option<Seq<char>>
    decreases text.len(),
{
    if text.len() == 0 {
        None
    } else if text[0] == ':' {
        Some(Seq::empty())
    } else {
        match before_colon(text.skip(1)) {
            Some(head) => Some(seq![text[0]] + head),
            None => None,
        }
    }
}

/// The first colon of a text is the one with no other colon in front of it.
proof fn lemma_before_colon(text: Seq<char>, colon: int)
    requires
        0 <= colon <= text.len(),
        forall|i: int| 0 <= i < colon ==> text[i] != ':',
        colon < text.len() ==> text[colon] == ':',
    ensures
        before_colon(text) == (if colon < text.len() {
            Some(text.take(colon))
        } else {
            None
        }),
    decreases text.len(),
{
    if text.len() > 0 && colon > 0 {
        lemma_before_colon(text.skip(1), colon - 1);
        if colon < text.len() {
            assert(seq![text[0]] + text.skip(1).take(colon - 1) =~= text.take(colon));
        }
    } else if text.len() > 0 {
        assert(text.take(0) =~= Seq::empty());
    }
}

/// The characters of a text.
fn characters(text: &str) -> (chars: Vec<char>)
    ensures
        chars@ == text@,
{
    let mut chars: Vec<char> = Vec::new();
    let n: usize = text.unicode_len();
    let mut i: usize = 0;
    while i < n
        invariant
            n == text@.len(),
            i <= n,
            chars@ == text@.take(i as int),
        decreases n - i,
    {
        chars.push(text.get_char(i));
        i = i + 1;
        assert(chars@ =~= text@.take(i as int));
    }
    assert(text@.take(n as int) =~= text@);
    chars
}

impl Target {
    /// Whether the target is a certain domain and port.
    pub open spec fn is_domain(self, domain: Seq<char>, port: u16) -> bool {
        self matches Target::Domain(d, p) && d@ == domain && p == port
    }

    /// Reads a target off a text. A text that is a socket address, which is then given as
    /// `socket`, stands for that address. Any other text is a domain and a port with a colon in
    /// between.
    pub fn from_str(value: &str, socket: Option<SocketAddr>) -> (result: Result<
        Self,
        TargetError,
    >)
        ensures
            match socket {
                Some(addr) => result == Ok::<Target, TargetError>(Target::Socket(addr)),
                None => match before_colon(value@) {
                    None => result == Err::<Target, TargetError>(TargetError::NotATarget),
                    Some(domain) => match decimal::port_number(
                        value@.skip(domain.len() as int + 1),
                    ) {
                        None => result == Err::<Target, TargetError>(TargetError::NotAPort),
                        Some(port) => result matches Ok(target) && target.is_domain(domain, port),
                    },
                },
            },
    {
        match socket {
            Some(addr) => Ok(Target::Socket(addr)),
            None => {
                let chars: Vec<char> = characters(value);
                let mut colon: usize = 0;
                while colon < chars.len() && chars[colon] != ':'
                    invariant
                        colon <= chars@.len(),
                        forall|i: int| 0 <= i < colon ==> chars@[i] != ':',
                    decreases chars@.len() - colon,
                {
                    colon = colon + 1;
                }
                proof {
                    lemma_before_colon(value@, colon as int);
                }
                if colon == chars.len() {
                    Err(TargetError::NotATarget)
                } else {
                    match parse_port(&chars, colon + 1) {
                        None => Err(TargetError::NotAPort),
                        Some(port) => {
                            let domain: &str = value.substring_char(0, colon);
                            assert(domain@ =~= value@.take(colon as int));
                            Ok(Target::Domain(domain.to_owned(), port))
                        },
                    }
                }
            },
        }
    }

    /// The text of a target. A socket address has the text given as `socket`.
    pub open spec fn text(self, socket: Seq<char>) -> Seq<char> {
        match self {
            Target::Socket(_) => socket,
            Target::Domain(domain, port) => domain@ + seq![':'] + decimal::decimal(port as nat),
        }
    }

    /// Writes a target as a text: a domain along with its port, or the text of the socket address,
    /// which is given as `socket`.
    pub fn to_text(&self, socket: &str) -> (text: String)
        ensures
            text@ == self.text(socket@),
    {
        match self {
            Target::Socket(_) => socket.to_owned(),
            Target::Domain(domain, port) => {
                proof {
                    reveal_strlit(":");
                }
                let mut text: String = domain.clone();
                text.append(":");
                text.append(to_decimal(*port as u64).as_str());
                assert(":"@ =~= seq![':']);
                text
            },
        }
    }
}

/// The text of a domain target can be read back, unless there is a colon in the domain. (The text
/// must not be that of a socket address either: such a text stands for the address.)
pub proof fn law_domain_text_reads_back(target: Target, domain: Seq<char>, port: u16)
    requires
        target.is_domain(domain, port),
        !domain.contains(':'),
    ensures
        ({
            let text = target.text(Seq::empty());
            &&& before_colon(text) == Some(domain)
            &&& decimal::port_number(text.skip(domain.len() as int + 1)) == Some(port)
        }),
{
    let text = target.text(Seq::empty());
    assert(forall|i: int| 0 <= i < domain.len() ==> domain[i] != ':');
    lemma_before_colon(text, domain.len() as int);
    assert(text.take(domain.len() as int) =~= domain);
    assert(text.skip(domain.len() as int + 1) =~= decimal::decimal(port as nat));
    decimal::law_decimal_reads_back(port as nat);
}

/// Default connector that just connects to a target address.
#[derive(Debug, Clone, Copy)]
pub struct DefaultConnector;

impl DefaultConnector {
    /// Decides which address to connect to for a target. A domain stands for the first address
    /// that it resolves to, which is given as `resolved`.
    pub fn connect(&self, target: &Target, resolved: Option<SocketAddr>) -> (address: Result<
        SocketAddr,
        ConnectError,
    >)
        ensures
            address == (match *target {
                Target::Socket(addr) => Ok(addr),
                Target::Domain(..) => match resolved {
                    Some(addr) => Ok(addr),
                    None => Err(ConnectError::Unresolved),
                },
            }),
    {
        match target {
            Target::Socket(addr) => Ok(*addr),
            Target::Domain(..) => match resolved {
                Some(addr) => Ok(addr),
                None => Err(ConnectError::Unresolved),
            },
        }
    }
}

/// After this time no further attempt is made to put a proxied socket into nonblocking mode.
pub const TRY_DEADLINE_MILLIS: u64 = 5000;

/// The longest pause between two such attempts.
pub const MAX_TRY_CYCLE_MILLIS: u64 = 1000;

/// What an attempt to put a socket into nonblocking mode came to.
#[derive(Debug)]
pub enum NonblockingEvent {
    /// The socket is in nonblocking mode.
    Done,
    /// The attempt would block.
    WouldBlock(std::io::Error),
    /// The attempt failed.
    Failed(std::io::Error),
}

/// How to go on after such an attempt.
#[derive(Debug)]
pub enum NonblockingStep {
    /// Pause for some time, then try again.
    Pause(Duration),
    /// Give the socket to the reactor, or give up.
    Stop(Result<(), std::io::Error>),
}

/// The attempts to put a socket that was connected through a socks5 proxy into nonblocking mode.
/// The pauses between them double until they have reached their maximum.
#[derive(Debug, Clone, Copy)]
pub struct NonblockingRetry {
    /// The sum of all pauses so far, in milliseconds.
    pub elapsed_millis: u64,
    /// The last pause, in milliseconds.
    pub cycle_millis: u64,
}

impl NonblockingRetry {
    /// The last pause was within its bounds, and no pause starts past the deadline.
    pub open spec fn wf(self) -> bool {
        &&& 1 <= self.cycle_millis <= MAX_TRY_CYCLE_MILLIS
        &&& self.elapsed_millis < TRY_DEADLINE_MILLIS + MAX_TRY_CYCLE_MILLIS
    }

    /// The length of the next pause in milliseconds.
    pub open spec fn next_cycle(self) -> u64 {
        if 2 * self.cycle_millis <= MAX_TRY_CYCLE_MILLIS {
            (2 * self.cycle_millis) as u64
        } else {
            MAX_TRY_CYCLE_MILLIS
        }
    }

    /// Starts with the first attempt.
    pub fn new() -> (retry: Self)
        ensures
            retry.wf(),
            retry.elapsed_millis == 0,
            retry.cycle_millis == 1,
    {
        NonblockingRetry { elapsed_millis: 0, cycle_millis: 1 }
    }

    /// Takes in what an attempt came to. Attempts that would block are repeated until the deadline
    /// has passed.
    pub fn step(&mut self, event: NonblockingEvent) -> (step: NonblockingStep)
        requires
            old(self).wf(),
        ensures
            final(self).wf(),
            match event {
                NonblockingEvent::Done => step == NonblockingStep::Stop(Ok(())) && *final(self)
                    == *old(self),
                NonblockingEvent::WouldBlock(error) => if old(self).elapsed_millis
                    < TRY_DEADLINE_MILLIS {
                    let cycle = old(self).next_cycle();
                    &&& step matches NonblockingStep::Pause(pause)
                    &&& pause.nanos == cycle * 1_000_000
                    &&& final(self).cycle_millis == cycle
                    &&& final(self).elapsed_millis == old(self).elapsed_millis + cycle
                } else {
                    step == NonblockingStep::Stop(Err(error)) && *final(self) == *old(self)
                },
                NonblockingEvent::Failed(error) => step == NonblockingStep::Stop(Err(error))
                    && *final(self) == *old(self),
            },
            step is Pause <==> event is WouldBlock && old(self).elapsed_millis < 5000,
    {
        match event {
            NonblockingEvent::Done => NonblockingStep::Stop(Ok(())),
            NonblockingEvent::WouldBlock(error) => {
                if self.elapsed_millis < TRY_DEADLINE_MILLIS {
                    let doubled: u64 = self.cycle_millis * 2;
                    self.cycle_millis = if doubled <= MAX_TRY_CYCLE_MILLIS {
                        doubled
                    } else {
                        MAX_TRY_CYCLE_MILLIS
                    };
                    self.elapsed_millis = self.elapsed_millis + self.cycle_millis;
                    NonblockingStep::Pause(Duration::from_millis(self.cycle_millis))
                } else {
                    NonblockingStep::Stop(Err(error))
                }
            },
            NonblockingEvent::Failed(error) => NonblockingStep::Stop(Err(error)),
        }
    }
}

/// The text in front of the first colon ends right there, and there is no other colon in it. There
/// is none exactly if the whole text has no colon.
pub proof fn law_text_is_split_at_first_colon(text: Seq<char>)
    ensures
        match before_colon(text) {
            None => forall|i: int| 0 <= i < text.len() ==> #[trigger] text[i] != ':',
            Some(head) => {
                &&& head.len() < text.len()
                &&& text[head.len() as int] == ':'
                &&& forall|i: int|
                    0 <= i < head.len() ==> #[trigger] head[i] == text[i] && head[i] != ':'
            },
        },
    decreases text.len(),
{
    if text.len() > 0 && text[0] != ':' {
        let tail = text.skip(1);
        law_text_is_split_at_first_colon(tail);
        match before_colon(tail) {
            None => {
                assert forall|i: int| 0 <= i < text.len() implies #[trigger] text[i] != ':' by {
                    if i > 0 {
                        assert(tail[i - 1] == text[i]);
                    }
                }
            },
            Some(rest) => {
                let head = seq![text[0]] + rest;
                assert(tail[rest.len() as int] == text[head.len() as int]);
                assert forall|i: int| 0 <= i < head.len() implies #[trigger] head[i] == text[i]
                    && head[i] != ':' by {
                    if i > 0 {
                        assert(rest[i - 1] == tail[i - 1]);
                    }
                }
            },
        }
    }
}

/// A target that is made from an address, or from an address and a port, is exactly that address
/// and that port, with nothing added to it. A target that is made from a domain and a port is that
/// domain and that port.
pub proof fn law_targets_are_what_they_are_made_from(
    addr: SocketAddr,
    v4: SocketAddrV4,
    v6: SocketAddrV6,
    ip4: Ipv4Addr,
    ip6: Ipv6Addr,
    domain: String,
    port: u16,
)
    ensures
        <Target as vstd::std_specs::convert::FromSpec<SocketAddr>>::obeys_from_spec(),
        <Target as vstd::std_specs::convert::FromSpec<SocketAddr>>::from_spec(addr)
            == Target::Socket(addr),
        <Target as vstd::std_specs::convert::FromSpec<SocketAddrV4>>::obeys_from_spec(),
        <Target as vstd::std_specs::convert::FromSpec<SocketAddrV4>>::from_spec(v4)
            == Target::Socket(SocketAddr::V4(v4)),
        <Target as vstd::std_specs::convert::FromSpec<SocketAddrV6>>::obeys_from_spec(),
        <Target as vstd::std_specs::convert::FromSpec<SocketAddrV6>>::from_spec(v6)
            == Target::Socket(SocketAddr::V6(v6)),
        <Target as vstd::std_specs::convert::FromSpec<(Ipv4Addr, u16)>>::obeys_from_spec(),
        <Target as vstd::std_specs::convert::FromSpec<(Ipv4Addr, u16)>>::from_spec((ip4, port))
            matches Target::Socket(SocketAddr::V4(made)) && made.ip == ip4 && made.port == port,
        <Target as vstd::std_specs::convert::FromSpec<(Ipv6Addr, u16)>>::obeys_from_spec(),
        <Target as vstd::std_specs::convert::FromSpec<(Ipv6Addr, u16)>>::from_spec((ip6, port))
            matches Target::Socket(SocketAddr::V6(made)) && made.ip == ip6 && made.port == port
            && made.flowinfo == 0 && made.scope_id == 0,
        <Target as vstd::std_specs::convert::FromSpec<(String, u16)>>::obeys_from_spec(),
        <Target as vstd::std_specs::convert::FromSpec<(String, u16)>>::from_spec((domain, port))
            == Target::Domain(domain, port),
{
}

/// Two targets are equal exactly if they are the same address, or the same domain letter for letter
/// and the same port.
pub proof fn law_equal_targets_are_the_same(left: Target, right: Target)
    ensures
        vstd::std_specs::cmp::PartialEqSpec::eq_spec(&left, &right) <==> match left {
            Target::Socket(addr) => right == Target::Socket(addr),
            Target::Domain(domain, port) => right.is_domain(domain@, port),
        },
        forall|domain: Seq<char>, port: u16| #[trigger]
            left.is_domain(domain, port) <==> match left {
                Target::Domain(named, at) => named@ == domain && at == port,
                Target::Socket(_) => false,
            },
{
}

/// The text of a domain target is the domain, a colon and the port in decimal notation. The text of
/// an address is its own.
pub proof fn law_target_text_is_complete(target: Target, socket: Seq<char>)
    ensures
        match target {
            Target::Socket(_) => target.text(socket) == socket,
            Target::Domain(domain, port) => {
                let text = target.text(socket);
                let n = domain@.len() as int;
                &&& n < text.len()
                &&& text.take(n) == domain@
                &&& text[n] == ':'
                &&& text.skip(n + 1) == decimal::decimal(port as nat)
            },
        },
{
    if let Target::Domain(domain, port) = target {
        let n = domain@.len() as int;
        assert(target.text(socket).take(n) =~= domain@);
        assert(target.text(socket).skip(n + 1) =~= decimal::decimal(port as nat));
    }
}

/// Every pause is twice as long as the one before, but never longer than a second.
pub proof fn law_pauses_double(retry: NonblockingRetry)
    ensures
        retry.next_cycle() <= 1000,
        retry.cycle_millis <= 500 ==> retry.next_cycle() == 2 * retry.cycle_millis,
        retry.cycle_millis > 500 ==> retry.next_cycle() == 1000,
{
}

} // verus!
