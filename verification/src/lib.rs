//! A generic address-resolution pool.
//!
//! Given a pluggable resolution strategy (a [`Resolver`]), a [`ResolverPool`]
//! keeps a cache of resolved addresses and serves fast, non-blocking lookups
//! that rotate through the cache. The cache is replaced wholesale on each
//! successful refresh; an empty or failed refresh retains the previous cache.
//!
//! The pool here is the sequential core: its lifecycle, cache-replacement and
//! rotation rules, stated and verified. Driving a periodic refresh on a
//! background task, and the wire-level DNS strategies, live with the caller;
//! the decision logic they need is in the [`dns`] and [`parallel`] modules.

pub mod dns;
pub mod parallel;

use vstd::prelude::*;
use vstd::arithmetic::div_mod::{
    lemma_add_mod_noop, lemma_fundamental_div_mod_converse, lemma_mod_bound, lemma_mod_twice,
    lemma_small_mod,
};

verus! {

/// A resolved network endpoint: an IPv4 address and a port, equal by value.
#[derive(Clone, Copy, PartialEq, Eq, Structural, Debug, Hash)]
pub struct Address {
    /// The IPv4 address, as its customary 32-bit big-endian value.
    pub ip: u32,
    /// The port.
    pub port: u16,
}

impl Address {
    /// Builds an address from the four octets of an IPv4 address and a port.
    pub fn from_octets(a: u8, b: u8, c: u8, d: u8, port: u16) -> (r: Address)
        ensures
            r.ip == a * 0x100_0000 + b * 0x1_0000 + c * 0x100 + d,
            r.port == port,
    {
        let ip: u32 = (a as u32) * 0x100_0000 + (b as u32) * 0x1_0000 + (c as u32) * 0x100
            + (d as u32);
        Address { ip, port }
    }
}

/// The kinds of failure the library reports.
#[derive(Clone, Copy, PartialEq, Eq, Structural, Debug)]
pub enum ErrorKind {
    /// `run()` was called on a pool that is already running.
    AlreadyRunning,
    /// The authoritative query failed: the SRV lookup itself, or, for the
    /// fan-out resolver, every nameserver's lookup.
    QueryFailed,
}

/// What the library reports when an operation cannot proceed.
#[derive(Clone, Copy, PartialEq, Eq, Structural, Debug)]
pub struct Error(pub ErrorKind);

/// A resolution strategy: one operation, returning an ordered list of
/// addresses or an error. A pure strategy that holds no cache; the pool calls
/// it for its initial population and on every refresh tick. Implementations
/// (DNS strategies, test doubles) are supplied by the caller and must
/// tolerate concurrent invocation.
pub trait Resolver {
    fn resolve(&self) -> Result<Vec<Address>, Error>;
}

/// The pool's lifecycle: it starts `Initialized` and moves to `Running`
/// exactly once, with no path back.
#[derive(Clone, Copy, PartialEq, Eq, Structural, Debug)]
pub enum State {
    Initialized,
    Running,
}

/// The mathematical model of a pool: lifecycle state, the cached addresses,
/// the rotation cursor, and the refresh interval.
#[verifier::ext_equal]
pub ghost struct PoolView {
    pub state: State,
    pub cache: Seq<Address>,
    pub cursor: nat,
    pub interval: u64,
}

/// An address pool over a resolution strategy `R`.
///
/// Lookups rotate through the cache by a shared cursor; the cache is only
/// ever replaced as a whole, so a reader sees either the prior complete
/// result or the new complete result, never a mix.
pub struct ResolverPool<R> {
    resolver: R,
    /// Refresh interval in milliseconds.
    refresh_interval: u64,
    state: State,
    cache: Vec<Address>,
    cursor: usize,
}

impl<R> View for ResolverPool<R> {
    type V = PoolView;

    closed spec fn view(&self) -> PoolView {
        PoolView {
            state: self.state,
            cache: self.cache@,
            cursor: self.cursor as nat,
            interval: self.refresh_interval,
        }
    }
}

impl<R: Resolver> ResolverPool<R> {
    /// Pure construction: the pool starts `Initialized` with an empty cache
    /// and no background activity. A zero interval is rejected at
    /// construction: the interval must be positive.
    pub fn new(resolver: R, refresh_interval: u64) -> (pool: Self)
        requires
            refresh_interval > 0,
        ensures
            pool@.state is Initialized,
            pool@.cache.len() == 0,
            pool@.cursor == 0,
            pool@.interval == refresh_interval,
    {
        ResolverPool {
            resolver,
            refresh_interval,
            state: State::Initialized,
            cache: Vec::new(),
            cursor: 0,
        }
    }

    /// The configured refresh interval in milliseconds.
    pub fn refresh_interval(&self) -> (r: u64)
        ensures
            r == self@.interval,
    {
        self.refresh_interval
    }

    /// Starts the pool. Fails with [`ErrorKind::AlreadyRunning`], mutating
    /// nothing, if the pool is already running. Otherwise the pool calls its
    /// resolver once and becomes `Running` whatever that call returned: a
    /// successful result is installed as the cache even if empty, while a
    /// failure leaves the cache empty and is propagated to the caller.
    ///
    /// The caller that drives a background refresh starts it after this call
    /// returns `Ok`; each tick's outcome is applied with [`Self::refresh`]
    /// or [`Self::apply_refresh`].
    pub fn run(&mut self) -> (r: Result<(), Error>)
        ensures
            old(self)@.state is Running ==> r == Err::<(), Error>(Error(ErrorKind::AlreadyRunning))
                && final(self)@ == old(self)@,
            old(self)@.state is Initialized ==> {
                &&& final(self)@.state is Running
                &&& final(self)@.cursor == old(self)@.cursor
                &&& final(self)@.interval == old(self)@.interval
                &&& (r is Err ==> final(self)@.cache.len() == 0)
            },
    {
        match self.state {
            State::Running => {
                return Err(Error(ErrorKind::AlreadyRunning));
            },
            State::Initialized => {},
        }
        let result = self.resolver.resolve();
        self.apply_initial(result)
    }

    /// Installs the outcome of the initial population and marks the pool
    /// running: a successful result becomes the cache, even if empty; a
    /// failed one leaves the cache empty and is returned unchanged.
    pub fn apply_initial(&mut self, result: Result<Vec<Address>, Error>) -> (r: Result<(), Error>)
        ensures
            final(self)@.state is Running,
            final(self)@.cursor == old(self)@.cursor,
            final(self)@.interval == old(self)@.interval,
            result matches Ok(addrs) ==> final(self)@.cache == addrs@ && r is Ok,
            result matches Err(e) ==> final(self)@.cache.len() == 0 && r == Err::<(), Error>(e),
    {
        self.state = State::Running;
        match result {
            Ok(addrs) => {
                self.cache = addrs;
                Ok(())
            },
            Err(e) => {
                self.cache = Vec::new();
                Err(e)
            },
        }
    }

    /// A non-blocking lookup. Advances the rotation cursor by one (wrapping
    /// at the machine limit) and, if the cache is non-empty, returns the
    /// address at `cursor mod length`; with an empty cache no address is
    /// available and `None` is returned. Never invokes the resolver.
    pub fn get(&mut self) -> (r: Option<Address>)
        ensures
            final(self)@.state == old(self)@.state,
            final(self)@.cache == old(self)@.cache,
            final(self)@.interval == old(self)@.interval,
            final(self)@.cursor == if old(self)@.cursor == usize::MAX as nat {
                0nat
            } else {
                old(self)@.cursor + 1
            },
            old(self)@.cache.len() == 0 ==> r is None,
            old(self)@.cache.len() > 0 ==> r == Some(
                old(self)@.cache[old(self)@.cursor as int % old(self)@.cache.len() as int],
            ),
    {
        let offset = self.cursor;
        self.cursor = if offset == usize::MAX {
            0
        } else {
            offset + 1
        };
        let len = self.cache.len();
        if len == 0 {
            return None;
        }
        Some(self.cache[offset % len])
    }

    /// One background refresh tick: calls the resolver and applies
    /// [`Self::apply_refresh`] to whatever came back. A tick never changes
    /// the lifecycle state or the cursor, and never empties a previously
    /// populated cache: the cache either stays as it was or is replaced by a
    /// complete non-empty result.
    pub fn refresh(&mut self)
        ensures
            final(self)@.state == old(self)@.state,
            final(self)@.cursor == old(self)@.cursor,
            final(self)@.interval == old(self)@.interval,
            final(self)@.cache == old(self)@.cache || final(self)@.cache.len() > 0,
            old(self)@.cache.len() > 0 ==> final(self)@.cache.len() > 0,
    {
        let result = self.resolver.resolve();
        self.apply_refresh(result);
    }

    /// Applies one refresh outcome to the cache. A successful non-empty
    /// result replaces the cache wholesale (never merged); a successful
    /// empty result is discarded and the previous cache retained, so one
    /// transient empty answer cannot leave the pool serving nothing; a
    /// failure is contained: the previous cache is retained and the pool
    /// keeps running.
    pub fn apply_refresh(&mut self, result: Result<Vec<Address>, Error>)
        ensures
            final(self)@.state == old(self)@.state,
            final(self)@.cursor == old(self)@.cursor,
            final(self)@.interval == old(self)@.interval,
            result matches Ok(addrs) ==> (addrs@.len() > 0 ==> final(self)@.cache == addrs@),
            result matches Ok(addrs) ==> (addrs@.len() == 0 ==> final(self)@.cache == old(
                self,
            )@.cache),
            result is Err ==> final(self)@.cache == old(self)@.cache,
    {
        match result {
            Ok(addrs) => {
                if addrs.len() > 0 {
                    self.cache = addrs;
                }
            },
            Err(_) => {},
        }
    }

    /// Consumes the pool so it cannot be restarted; a new pool must be
    /// constructed to resume. The caller that owns the background task
    /// signals it to exit when dropping the pool.
    pub fn stop(self) {
    }
}

/// Any address a lookup serves is drawn from the cache: with a non-empty
/// cache `c` and any cursor `k`, the served element `c[k mod len]` is an
/// element of `c`. Together with the contracts of `apply_initial` and
/// `apply_refresh`, which make the cache exactly a result the resolver
/// returned, a lookup returns only values drawn from that result.
pub proof fn lemma_served_from_cache(c: Seq<Address>, k: nat)
    requires
        c.len() > 0,
    ensures
        c.contains(c[k as int % c.len() as int]),
{
    let len = c.len() as int;
    lemma_mod_bound(k as int, len);
}

/// Rotation reaches every index: for a cache of length `len` and a starting
/// cursor `start`, among the `len` consecutive lookups — which read the
/// indices `(start + i) mod len` for `i` in `0 .. len` — some lookup reads
/// any given index `j`.
pub proof fn lemma_rotation_covers(len: int, start: int, j: int)
    requires
        len > 0,
        start >= 0,
        0 <= j < len,
    ensures
        exists|i: int| 0 <= i < len && #[trigger] ((start + i) % len) == j,
{
    let i = (j - start) % len;
    lemma_mod_bound(j - start, len);
    lemma_add_mod_noop(start, (j - start) % len, len);
    lemma_mod_twice(j - start, len);
    lemma_add_mod_noop(start, j - start, len);
    lemma_small_mod(j as nat, len as nat);
    assert((start + i) % len == j);
}

/// Rotation never repeats within one round: two of the `len` consecutive
/// lookups starting at cursor `start` read the same index only if they are
/// the same lookup. With [`lemma_rotation_covers`], the `len` consecutive
/// lookups visit each cached address exactly once, then repeat cyclically.
pub proof fn lemma_rotation_distinct(len: int, start: int, i1: int, i2: int)
    requires
        len > 0,
        start >= 0,
        0 <= i1 < len,
        0 <= i2 < len,
        (start + i1) % len == (start + i2) % len,
    ensures
        i1 == i2,
{
    lemma_add_mod_noop(start, i1, len);
    lemma_add_mod_noop(start, i2, len);
    lemma_mod_bound(start, len);
    lemma_small_mod(i1 as nat, len as nat);
    lemma_small_mod(i2 as nat, len as nat);
    let s = start % len;
    assert((s + i1) % len == (s + i2) % len);
    if s + i1 < len {
        lemma_fundamental_div_mod_converse(s + i1, len, 0, s + i1);
    } else {
        lemma_fundamental_div_mod_converse(s + i1, len, 1, s + i1 - len);
    }
    if s + i2 < len {
        lemma_fundamental_div_mod_converse(s + i2, len, 0, s + i2);
    } else {
        lemma_fundamental_div_mod_converse(s + i2, len, 1, s + i2 - len);
    }
}

} // verus!
