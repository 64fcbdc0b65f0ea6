//! The per-upstream cache of resolved socket addresses.
//!
//! Resolving an upstream alternates between decisions taken here and a name
//! lookup that only the caller can perform. The cache is therefore a state
//! machine: [`UpstreamAddress::resolve`] takes an event (a call arrives, the
//! lookup failed, the lookup answered) and returns what to do next. Time is
//! an argument: every event carries the reading of a monotonic clock in
//! nanoseconds, so that the behaviour of the cache is a function of its
//! inputs alone.

use vstd::prelude::*;

verus! {

/// How long a failed lookup is remembered: 3 seconds, in nanoseconds.
pub const NEGATIVE_TTL: u64 = 3_000_000_000;

/// How long a lookup that answered is remembered: 60 seconds, in nanoseconds.
pub const POSITIVE_TTL: u64 = 60_000_000_000;

/// A socket address as plain values: the address bits in host order, the
/// port and, for IPv6, flow information and scope.
#[derive(Clone, Copy, Debug, PartialEq, Eq, Structural, Hash)]
#[allow(inconsistent_fields)]
pub enum SocketAddress {
    V4 { ip: u32, port: u16 },
    V6 { ip: u128, port: u16, flowinfo: u32, scope_id: u32 },
}

impl SocketAddress {
    /// Whether this is an IPv4 address.
    pub fn is_ipv4(&self) -> (b: bool)
        ensures
            b == (*self is V4),
    {
        match self {
            SocketAddress::V4 { .. } => true,
            SocketAddress::V6 { .. } => false,
        }
    }

    /// Whether this is an IPv6 address.
    pub fn is_ipv6(&self) -> (b: bool)
        ensures
            b == (*self is V6),
    {
        match self {
            SocketAddress::V4 { .. } => false,
            SocketAddress::V6 { .. } => true,
        }
    }
}

/// Which address families a resolution keeps.
#[derive(Clone, Copy, Debug, Default, PartialEq, Eq, Structural)]
pub enum ResolutionMode {
    #[default]
    Ipv4AndIpv6,
    Ipv4,
    Ipv6,
}

impl ResolutionMode {
    /// Whether `tag` is one of the protocol tags `tcp`, `tcp4` and `tcp6`.
    pub open spec fn recognizes(tag: Seq<char>) -> bool {
        tag == "tcp"@ || tag == "tcp4"@ || tag == "tcp6"@
    }

    /// The mode that a protocol tag stands for: `tcp4` is IPv4 only, `tcp6`
    /// IPv6 only, `tcp` both.
    pub open spec fn of_tag(tag: Seq<char>) -> ResolutionMode {
        if tag == "tcp4"@ {
            ResolutionMode::Ipv4
        } else if tag == "tcp6"@ {
            ResolutionMode::Ipv6
        } else {
            ResolutionMode::Ipv4AndIpv6
        }
    }

    /// Whether an address of this family is kept.
    pub open spec fn admits(self, a: SocketAddress) -> bool {
        match self {
            ResolutionMode::Ipv4 => a is V4,
            ResolutionMode::Ipv6 => a is V6,
            ResolutionMode::Ipv4AndIpv6 => true,
        }
    }

    /// `admits` as a predicate on addresses.
    pub open spec fn keeps(self) -> spec_fn(SocketAddress) -> bool {
        |a: SocketAddress| self.admits(a)
    }

    /// What is left of a lookup's answer in this mode: the admitted
    /// addresses, in the order of the answer.
    pub open spec fn filtered(self, found: Seq<SocketAddress>) -> Seq<SocketAddress> {
        found.filter(self.keeps())
    }

    /// Whether `tag` is a protocol tag that `from` accepts.
    pub fn recognizes_tag(tag: &str) -> (b: bool)
        ensures
            b == Self::recognizes(tag@),
    {
        let tag = String::from_str(tag);
        tag == String::from_str("tcp") || tag == String::from_str("tcp4") || tag
            == String::from_str("tcp6")
    }

    /// The mode of a protocol tag. The tag must be one of the three that the
    /// configuration loader lets through.
    pub fn from(value: &str) -> (mode: ResolutionMode)
        requires
            Self::recognizes(value@),
        ensures
            mode == Self::of_tag(value@),
    {
        let value = String::from_str(value);
        if value == String::from_str("tcp4") {
            ResolutionMode::Ipv4
        } else if value == String::from_str("tcp6") {
            ResolutionMode::Ipv6
        } else {
            ResolutionMode::Ipv4AndIpv6
        }
    }

    /// The name of the mode for messages.
    pub fn to_string(&self) -> (s: String)
        ensures
            s@ == match *self {
                ResolutionMode::Ipv4 => "IPv4Only"@,
                ResolutionMode::Ipv6 => "IPv6Only"@,
                ResolutionMode::Ipv4AndIpv6 => "IPv4 and IPv6"@,
            },
    {
        match self {
            ResolutionMode::Ipv4 => String::from_str("IPv4Only"),
            ResolutionMode::Ipv6 => String::from_str("IPv6Only"),
            ResolutionMode::Ipv4AndIpv6 => String::from_str("IPv4 and IPv6"),
        }
    }

    /// Keeps the addresses of a lookup's answer that this mode admits.
    pub fn filter(&self, found: &Vec<SocketAddress>) -> (kept: Vec<SocketAddress>)
        ensures
            kept@ == self.filtered(found@),
            forall|i: int| 0 <= i < kept.len() ==> self.admits(#[trigger] kept[i]),
            *self == ResolutionMode::Ipv4AndIpv6 ==> kept@ == found@,
    {
        let mut kept: Vec<SocketAddress> = Vec::new();
        let mut i: usize = 0;
        proof {
            reveal(Seq::filter);
        }
        while i < found.len()
            invariant
                i <= found.len(),
                kept@ == found@.take(i as int).filter(self.keeps()),
                forall|j: int| 0 <= j < kept.len() ==> self.admits(#[trigger] kept[j]),
                *self == ResolutionMode::Ipv4AndIpv6 ==> kept@ == found@.take(i as int),
            decreases found.len() - i,
        {
            let a = found[i];
            let keep = match self {
                ResolutionMode::Ipv4 => a.is_ipv4(),
                ResolutionMode::Ipv6 => a.is_ipv6(),
                ResolutionMode::Ipv4AndIpv6 => true,
            };
            proof {
                reveal(Seq::filter);
                assert(found@.take(i + 1).drop_last() =~= found@.take(i as int));
            }
            if keep {
                kept.push(a);
            }
            i = i + 1;
        }
        proof {
            assert(found@.take(found.len() as int) =~= found@);
        }
        kept
    }
}

/// The cache of one upstream as a mathematical value.
pub struct AddressCache {
    /// The symbolic `host:port` that lookups are made for.
    pub address: Seq<char>,
    /// What the last lookup that answered left after filtering.
    pub resolved: Seq<SocketAddress>,
    /// The clock reading at the last lookup, whatever its outcome.
    pub resolved_time: Option<u64>,
    /// How long after `resolved_time` the cache counts as valid.
    pub ttl: Option<u64>,
}

/// What can happen to a cache.
pub enum Event {
    /// A caller asks for the addresses at clock reading `now`.
    Start { now: u64 },
    /// The lookup that the cache asked for failed; it ended at `now`.
    LookupFailed { now: u64 },
    /// The lookup that the cache asked for answered `found`; it ended at `now`.
    LookupSucceeded { now: u64, found: Seq<SocketAddress> },
}

/// What the caller is to do after an event.
pub enum Action {
    /// Hand these addresses to whoever asked. The list may be empty.
    Answer(Seq<SocketAddress>),
    /// Look this `host:port` up and report the outcome as the next event.
    Lookup(Seq<char>),
    /// Hand the error of the failed lookup to whoever asked.
    Fail,
}

impl AddressCache {
    /// The cache of an upstream that was never resolved.
    pub open spec fn fresh(address: Seq<char>) -> AddressCache {
        AddressCache { address, resolved: Seq::empty(), resolved_time: None, ttl: None }
    }

    /// The time between a recorded reading and `now`. A reading that is not
    /// later than the recorded one counts as no time at all.
    pub open spec fn elapsed(recorded: u64, now: u64) -> nat {
        if now > recorded {
            (now - recorded) as nat
        } else {
            0
        }
    }

    /// A cache is valid at `now` if and only if it has a resolution time and
    /// a time to live, and less than the time to live has passed since.
    pub open spec fn is_valid(self, now: u64) -> bool {
        &&& self.resolved_time is Some
        &&& self.ttl is Some
        &&& Self::elapsed(self.resolved_time->0, now) < self.ttl->0
    }

    /// Whether the cache holds at least one address.
    pub open spec fn is_resolved(self) -> bool {
        self.resolved.len() > 0
    }

    /// How much longer the cache stays valid: nothing for one that is not
    /// valid, else what is left of the time to live.
    pub open spec fn time_remaining(self, now: u64) -> nat {
        if self.is_valid(now) {
            (self.ttl->0 - Self::elapsed(self.resolved_time->0, now)) as nat
        } else {
            0
        }
    }

    /// The cache after a failed lookup that ended at `now`: the addresses stay
    /// as they were, and the failure is remembered for `NEGATIVE_TTL`.
    pub open spec fn after_failure(self, now: u64) -> AddressCache {
        AddressCache { resolved_time: Some(now), ttl: Some(NEGATIVE_TTL), ..self }
    }

    /// The cache after a lookup that answered `found` at `now`: it holds what
    /// `mode` keeps of the answer, for `POSITIVE_TTL`.
    pub open spec fn after_success(
        self,
        mode: ResolutionMode,
        now: u64,
        found: Seq<SocketAddress>,
    ) -> AddressCache {
        AddressCache {
            resolved: mode.filtered(found),
            resolved_time: Some(now),
            ttl: Some(POSITIVE_TTL),
            ..self
        }
    }

    /// The transition function: the cache after `event`, and what the caller
    /// is to do.
    ///
    /// A call is answered from the cache if it holds an address and is valid,
    /// and otherwise asks for a lookup of the symbolic address. A failed
    /// lookup is recorded and reported. An answer is filtered by `mode`,
    /// stored and handed out, even where nothing is left of it.
    pub open spec fn step(self, mode: ResolutionMode, event: Event) -> (AddressCache, Action) {
        match event {
            Event::Start { now } => if self.is_resolved() && self.is_valid(now) {
                (self, Action::Answer(self.resolved))
            } else {
                (self, Action::Lookup(self.address))
            },
            Event::LookupFailed { now } => (self.after_failure(now), Action::Fail),
            Event::LookupSucceeded { now, found } => (
                self.after_success(mode, now, found),
                Action::Answer(mode.filtered(found)),
            ),
        }
    }
}

/// An event as the caller reports it.
#[derive(Clone, Debug, PartialEq, Eq)]
pub enum ResolveEvent {
    /// A caller asks for the addresses at clock reading `now`.
    Start { now: u64 },
    /// The requested lookup failed; it ended at `now`.
    LookupFailed { now: u64 },
    /// The requested lookup answered `found`; it ended at `now`.
    LookupSucceeded { now: u64, found: Vec<SocketAddress> },
}

impl View for ResolveEvent {
    type V = Event;

    open spec fn view(&self) -> Event {
        match *self {
            ResolveEvent::Start { now } => Event::Start { now },
            ResolveEvent::LookupFailed { now } => Event::LookupFailed { now },
            ResolveEvent::LookupSucceeded { now, found } => Event::LookupSucceeded {
                now,
                found: found@,
            },
        }
    }
}

/// What the caller is to do next.
#[derive(Clone, Debug, PartialEq, Eq)]
pub enum ResolveAction {
    /// Hand these addresses to whoever asked. The list may be empty.
    Answer(Vec<SocketAddress>),
    /// Look this `host:port` up and report the outcome as the next event.
    Lookup(String),
    /// Hand the error of the failed lookup to whoever asked.
    Fail,
}

impl View for ResolveAction {
    type V = Action;

    open spec fn view(&self) -> Action {
        match *self {
            ResolveAction::Answer(list) => Action::Answer(list@),
            ResolveAction::Lookup(address) => Action::Lookup(address@),
            ResolveAction::Fail => Action::Fail,
        }
    }
}

/// The resolution state of one upstream: its symbolic address, the addresses
/// that the last successful lookup left, and until when to trust them.
#[derive(Clone, Debug, Default)]
pub struct UpstreamAddress {
    address: String,
    resolved_addresses: Vec<SocketAddress>,
    resolved_time: Option<u64>,
    ttl: Option<u64>,
}

impl View for UpstreamAddress {
    type V = AddressCache;

    closed spec fn view(&self) -> AddressCache {
        AddressCache {
            address: self.address@,
            resolved: self.resolved_addresses@,
            resolved_time: self.resolved_time,
            ttl: self.ttl,
        }
    }
}

/// A copy of a list of addresses.
fn copy_addresses(list: &Vec<SocketAddress>) -> (copy: Vec<SocketAddress>)
    ensures
        copy@ == list@,
{
    let mut copy: Vec<SocketAddress> = Vec::new();
    let mut i: usize = 0;
    while i < list.len()
        invariant
            i <= list.len(),
            copy@ == list@.take(i as int),
        decreases list.len() - i,
    {
        copy.push(list[i]);
        i = i + 1;
    }
    copy
}

impl UpstreamAddress {
    /// The cache of an upstream that was never resolved.
    pub fn new(address: String) -> (cache: UpstreamAddress)
        ensures
            cache@ == AddressCache::fresh(address@),
    {
        UpstreamAddress {
            address,
            resolved_addresses: Vec::new(),
            resolved_time: None,
            ttl: None,
        }
    }

    /// The symbolic address.
    pub fn to_string(&self) -> (s: String)
        ensures
            s@ == self@.address,
    {
        self.address.clone()
    }

    /// Whether the cache is valid at clock reading `now`.
    pub fn is_valid(&self, now: u64) -> (valid: bool)
        ensures
            valid == self@.is_valid(now),
    {
        match (self.resolved_time, self.ttl) {
            (Some(resolved), Some(ttl)) => if now > resolved {
                now - resolved < ttl
            } else {
                0 < ttl
            },
            _ => false,
        }
    }

    /// Whether the cache holds at least one address.
    pub fn is_resolved(&self) -> (resolved: bool)
        ensures
            resolved == self@.is_resolved(),
    {
        self.resolved_addresses.len() > 0
    }

    /// How many nanoseconds the cache stays valid after `now`.
    pub fn time_remaining(&self, now: u64) -> (left: u64)
        ensures
            left == self@.time_remaining(now),
    {
        if !self.is_valid(now) {
            return 0;
        }
        match (self.resolved_time, self.ttl) {
            (Some(resolved), Some(ttl)) => if now > resolved {
                ttl - (now - resolved)
            } else {
                ttl
            },
            _ => 0,
        }
    }

    /// Takes one step of a resolution: records `event` and says what the
    /// caller is to do next.
    pub fn resolve(&mut self, mode: ResolutionMode, event: ResolveEvent) -> (action: ResolveAction)
        ensures
            (final(self)@, action@) == old(self)@.step(mode, event@),
    {
        match event {
            ResolveEvent::Start { now } => {
                if self.is_resolved() && self.is_valid(now) {
                    ResolveAction::Answer(copy_addresses(&self.resolved_addresses))
                } else {
                    ResolveAction::Lookup(self.address.clone())
                }
            },
            ResolveEvent::LookupFailed { now } => {
                self.resolved_time = Some(now);
                self.ttl = Some(NEGATIVE_TTL);
                ResolveAction::Fail
            },
            ResolveEvent::LookupSucceeded { now, found } => {
                let addresses = mode.filter(&found);
                let answer = copy_addresses(&addresses);
                self.resolved_addresses = addresses;
                self.resolved_time = Some(now);
                self.ttl = Some(POSITIVE_TTL);
                ResolveAction::Answer(answer)
            },
        }
    }
}

/// What a mode keeps of an answer: every address that is kept is admitted and
/// was in the answer, every admitted address of the answer is kept, the mode
/// for both families keeps the answer as it is, and an answer without an
/// admitted address leaves the empty list.
pub proof fn lemma_filtered(mode: ResolutionMode, found: Seq<SocketAddress>)
    ensures
        forall|i: int|
            0 <= i < mode.filtered(found).len() ==> mode.admits(#[trigger] mode.filtered(found)[i])
                && found.contains(mode.filtered(found)[i]),
        forall|i: int|
            0 <= i < found.len() && mode.admits(found[i]) ==> mode.filtered(found).contains(
                #[trigger] found[i],
            ),
        mode == ResolutionMode::Ipv4AndIpv6 ==> mode.filtered(found) == found,
        (forall|i: int| 0 <= i < found.len() ==> !mode.admits(#[trigger] found[i]))
            ==> mode.filtered(found).len() == 0,
    decreases found.len(),
{
    let pred = mode.keeps();
    let kept = mode.filtered(found);
    assert forall|i: int| 0 <= i < kept.len() implies mode.admits(#[trigger] kept[i])
        && found.contains(kept[i]) by {
        found.lemma_filter_pred(pred, i);
        assert(kept.contains(kept[i]));
        found.lemma_filter_contains_rev(pred, kept[i]);
    }
    assert forall|i: int| 0 <= i < found.len() && mode.admits(found[i]) implies kept.contains(
        #[trigger] found[i],
    ) by {
        found.lemma_filter_contains(pred, i);
    }
    if mode == ResolutionMode::Ipv4AndIpv6 {
        reveal(Seq::filter);
        if found.len() > 0 {
            lemma_filtered(mode, found.drop_last());
            assert(found.drop_last().push(found.last()) =~= found);
        }
    }
    if forall|i: int| 0 <= i < found.len() ==> !mode.admits(#[trigger] found[i]) {
        if kept.len() > 0 {
            assert(mode.admits(kept[0]) && found.contains(kept[0]));
        }
    }
}

/// A cache that was never resolved asks for a lookup of its address,
/// whatever the time.
pub proof fn lemma_fresh_cache_looks_up(address: Seq<char>, mode: ResolutionMode, now: u64)
    ensures
        AddressCache::fresh(address).step(mode, Event::Start { now }) == (
            AddressCache::fresh(address),
            Action::Lookup(address),
        ),
{
}

/// A lookup that answered is remembered for sixty seconds: where `mode` kept
/// at least one address of the answer, a call that arrives less than
/// `POSITIVE_TTL` after the lookup is handed the same list without a new
/// lookup, and leaves the cache as it was.
pub proof fn lemma_answer_is_cached(
    cache: AddressCache,
    mode: ResolutionMode,
    found: Seq<SocketAddress>,
    resolved_at: u64,
    later_mode: ResolutionMode,
    later: u64,
)
    requires
        mode.filtered(found).len() > 0,
        AddressCache::elapsed(resolved_at, later) < POSITIVE_TTL,
    ensures
        ({
            let cached = cache.step(mode, Event::LookupSucceeded { now: resolved_at, found }).0;
            cached.step(later_mode, Event::Start { now: later }) == (
                cached,
                Action::Answer(mode.filtered(found)),
            )
        }),
{
}

/// What was cached expires: a call that arrives `POSITIVE_TTL` or more after
/// the lookup that answered asks for a new lookup.
pub proof fn lemma_answer_expires(
    cache: AddressCache,
    mode: ResolutionMode,
    found: Seq<SocketAddress>,
    resolved_at: u64,
    later_mode: ResolutionMode,
    later: u64,
)
    requires
        AddressCache::elapsed(resolved_at, later) >= POSITIVE_TTL,
    ensures
        ({
            let cached = cache.step(mode, Event::LookupSucceeded { now: resolved_at, found }).0;
            cached.step(later_mode, Event::Start { now: later }) == (
                cached,
                Action::Lookup(cache.address),
            )
        }),
{
}

/// A failed lookup is reported, keeps the addresses that the cache held, and
/// makes the cache valid for the next `NEGATIVE_TTL`, no longer.
pub proof fn lemma_failure_is_remembered(
    cache: AddressCache,
    mode: ResolutionMode,
    failed_at: u64,
    later: u64,
)
    ensures
        cache.step(mode, Event::LookupFailed { now: failed_at }).1 == Action::Fail,
        ({
            let failed = cache.step(mode, Event::LookupFailed { now: failed_at }).0;
            &&& failed.address == cache.address
            &&& failed.resolved == cache.resolved
            &&& failed.is_valid(later) <==> AddressCache::elapsed(failed_at, later) < NEGATIVE_TTL
        }),
{
}

/// Once `NEGATIVE_TTL` has passed since a failed lookup, the next call asks
/// for a fresh lookup.
pub proof fn lemma_failure_expires(
    cache: AddressCache,
    mode: ResolutionMode,
    failed_at: u64,
    later_mode: ResolutionMode,
    later: u64,
)
    requires
        AddressCache::elapsed(failed_at, later) >= NEGATIVE_TTL,
    ensures
        ({
            let failed = cache.step(mode, Event::LookupFailed { now: failed_at }).0;
            failed.step(later_mode, Event::Start { now: later }) == (
                failed,
                Action::Lookup(cache.address),
            )
        }),
{
}

/// While a failure is remembered, a cache that still holds addresses answers
/// with them and asks for no lookup.
pub proof fn lemma_failure_serves_held_addresses(
    cache: AddressCache,
    mode: ResolutionMode,
    failed_at: u64,
    later_mode: ResolutionMode,
    later: u64,
)
    requires
        cache.resolved.len() > 0,
        AddressCache::elapsed(failed_at, later) < NEGATIVE_TTL,
    ensures
        ({
            let failed = cache.step(mode, Event::LookupFailed { now: failed_at }).0;
            failed.step(later_mode, Event::Start { now: later }) == (
                failed,
                Action::Answer(cache.resolved),
            )
        }),
{
}

/// A call never changes the cache, and a cache that holds no address asks
/// for a lookup on every call.
pub proof fn lemma_call_leaves_cache(cache: AddressCache, mode: ResolutionMode, now: u64)
    ensures
        cache.step(mode, Event::Start { now }).0 == cache,
        cache.resolved.len() == 0 ==> cache.step(mode, Event::Start { now }).1 == Action::Lookup(
            cache.address,
        ),
{
}

} // verus!
