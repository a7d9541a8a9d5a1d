//! The multi-nameserver fan-out strategy's decision core.
//!
//! The fan-out strategy holds one single-nameserver resolver per configured
//! nameserver — the list deduplicated and order-normalized for determinism —
//! and races all of them concurrently: the first successful result wins, by
//! completion order; if every nameserver's resolution fails, the whole
//! resolution fails with one aggregate error. The racing itself is the
//! caller's concurrency; the decisions are here, verified: [`Race`] folds
//! the sub-resolutions' outcomes in completion order, and
//! [`normalize_nameservers`] produces the canonical nameserver list.

use vstd::prelude::*;
use crate::{Address, Error, ErrorKind};

verus! {

/// The key an address is ordered by: the IPv4 value, then the port.
pub open spec fn addr_key(a: Address) -> int {
    a.ip * 0x1_0000 + a.port
}

/// The ordering key is injective: distinct addresses have distinct keys.
pub proof fn lemma_addr_key_injective(a: Address, b: Address)
    requires
        addr_key(a) == addr_key(b),
    ensures
        a == b,
{
    assert(a.ip == b.ip && a.port == b.port) by (nonlinear_arith)
        requires
            a.ip * 0x1_0000 + a.port == b.ip * 0x1_0000 + b.port,
            a.port < 0x1_0000,
            b.port < 0x1_0000,
            a.ip >= 0,
            b.ip >= 0,
    ;
}

fn key_of(a: &Address) -> (k: u64)
    ensures
        k as int == addr_key(*a),
{
    (a.ip as u64) * 0x1_0000 + (a.port as u64)
}

fn lower_bound(out: &Vec<Address>, kx: u64) -> (p: usize)
    requires
        forall|i: int, j: int|
            0 <= i < j < out@.len() ==> addr_key(#[trigger] out@[i]) < addr_key(
                #[trigger] out@[j],
            ),
    ensures
        p <= out@.len(),
        forall|q: int| 0 <= q < p ==> addr_key(#[trigger] out@[q]) < kx as int,
        p < out@.len() ==> addr_key(out@[p as int]) >= kx as int,
{
    let n = out.len();
    let mut p: usize = 0;
    while p < n
        invariant
            p <= n,
            n == out@.len(),
            forall|q: int| 0 <= q < p ==> addr_key(#[trigger] out@[q]) < kx as int,
        decreases n - p,
    {
        if key_of(&out[p]) >= kx {
            return p;
        }
        p += 1;
    }
    p
}

/// The canonical form of a nameserver list: sorted by [`addr_key`] with
/// duplicates dropped. The result holds exactly the addresses of the input
/// — each once — in strictly increasing key order, so any two inputs that
/// name the same set of nameservers normalize to the same list.
pub fn normalize_nameservers(input: &Vec<Address>) -> (r: Vec<Address>)
    ensures
        forall|i: int, j: int|
            0 <= i < j < r@.len() ==> addr_key(#[trigger] r@[i]) < addr_key(#[trigger] r@[j]),
        forall|a: Address| r@.contains(a) <==> input@.contains(a),
{
    let ghost all = input@;
    let mut out: Vec<Address> = Vec::new();
    let mut k: usize = 0;
    while k < input.len()
        invariant
            k <= input@.len(),
            all == input@,
            forall|i: int, j: int|
                0 <= i < j < out@.len() ==> addr_key(#[trigger] out@[i]) < addr_key(
                    #[trigger] out@[j],
                ),
            forall|a: Address| out@.contains(a) <==> all.take(k as int).contains(a),
        decreases input@.len() - k,
    {
        let x = input[k];
        let kx = key_of(&x);
        let p = lower_bound(&out, kx);
        let ghost out_before = out@;
        if p < out.len() && key_of(&out[p]) == kx {
            proof {
                lemma_addr_key_injective(out@[p as int], x);
                assert(out@.contains(x));
                assert forall|a: Address| out@.contains(a) <==> (out_before.contains(a) || a
                    == x) by {}
            }
        } else {
            out.insert(p, x);
            proof {
                out_before.insert_ensures(p as int, x);
                assert(p < out_before.len() ==> addr_key(out_before[p as int]) > kx as int);
                assert(forall|m: int|
                    p <= m < out_before.len() ==> addr_key(#[trigger] out_before[m]) > kx
                        as int);
                assert forall|i: int, j: int| 0 <= i < j < out@.len() implies addr_key(
                    #[trigger] out@[i],
                ) < addr_key(#[trigger] out@[j]) by {
                    if j < p {
                        assert(out@[i] == out_before[i] && out@[j] == out_before[j]);
                    } else if i < p && j == p {
                        assert(out@[i] == out_before[i] && out@[j] == x);
                    } else if i < p && j > p {
                        assert(out@[i] == out_before[i] && out@[j] == out_before[j - 1]);
                    } else if i == p && j > p {
                        assert(out@[i] == x && out@[j] == out_before[j - 1]);
                    } else {
                        assert(out@[i] == out_before[i - 1] && out@[j] == out_before[j - 1]);
                    }
                }
                assert forall|a: Address| out@.contains(a) implies (out_before.contains(a) || a
                    == x) by {
                    let w = choose|w: int| 0 <= w < out@.len() && out@[w] == a;
                    if w < p {
                        assert(out_before[w] == a);
                    } else if w == p {
                        assert(a == x);
                    } else {
                        assert(out_before[w - 1] == a);
                    }
                }
                assert forall|a: Address| (out_before.contains(a) || a == x) implies
                    out@.contains(a) by {
                    if a == x {
                        assert(out@[p as int] == a);
                    } else {
                        let w = choose|w: int|
                            0 <= w < out_before.len() && out_before[w] == a;
                        if w < p {
                            assert(out@[w] == a);
                        } else {
                            assert(out@[w + 1] == a);
                        }
                    }
                }
            }
        }
        proof {
            assert(all.take(k + 1).drop_last() =~= all.take(k as int));
            assert(all.take(k + 1).last() == all[k as int]);
            assert forall|a: Address| all.take(k + 1).contains(a) implies (all.take(
                k as int,
            ).contains(a) || a == x) by {
                let w = choose|w: int|
                    0 <= w < all.take(k + 1).len() && #[trigger] all.take(k + 1)[w] == a;
                if w < k {
                    assert(all.take(k as int)[w] == a);
                }
            }
            assert forall|a: Address| (all.take(k as int).contains(a) || a == x) implies
                all.take(k + 1).contains(a) by {
                if a == x {
                    assert(all.take(k + 1)[k as int] == a);
                } else {
                    let w = choose|w: int|
                        0 <= w < all.take(k as int).len() && all.take(k as int)[w] == a;
                    assert(all.take(k + 1)[w] == a);
                }
            }
            assert forall|a: Address| out@.contains(a) <==> all.take(k + 1).contains(a) by {
                assert(out@.contains(a) <==> (out_before.contains(a) || a == x));
                assert(out_before.contains(a) <==> all.take(k as int).contains(a));
                assert(all.take(k + 1).contains(a) <==> (all.take(k as int).contains(a) || a
                    == x));
            }
        }
        k += 1;
    }
    proof {
        assert(all.take(input@.len() as int) =~= all);
    }
    out
}

/// Tracks a race across `remaining` outstanding sub-resolutions. The caller
/// runs the sub-resolutions concurrently and feeds each outcome, in
/// completion order, to [`Race::step`]; the first success wins at once, and
/// only when every sub-resolution has failed does the race fail, with the
/// aggregate [`Error(ErrorKind::QueryFailed)`].
pub struct Race {
    /// How many sub-resolutions have not completed yet.
    pub remaining: usize,
}

impl Race {
    /// A race across `n` sub-resolutions.
    pub fn new(n: usize) -> (r: Race)
        ensures
            r.remaining == n,
    {
        Race { remaining: n }
    }

    /// Feeds the next completed sub-resolution's outcome. A success is
    /// returned as the race's result at once — the remaining
    /// sub-resolutions are not waited for; a failure is swallowed while any
    /// sub-resolution is still outstanding, and only the last failure ends
    /// the race, with the aggregate error.
    pub fn step(&mut self, outcome: Result<Vec<Address>, Error>) -> (r: Option<
        Result<Vec<Address>, Error>,
    >)
        requires
            old(self).remaining > 0,
        ensures
            final(self).remaining == old(self).remaining - 1,
            outcome is Ok ==> r == Some(outcome),
            outcome is Err && old(self).remaining > 1 ==> r is None,
            outcome is Err && old(self).remaining == 1 ==> r == Some(
                Err::<Vec<Address>, Error>(Error(ErrorKind::QueryFailed)),
            ),
    {
        self.remaining = self.remaining - 1;
        match outcome {
            Ok(addrs) => Some(Ok(addrs)),
            Err(_) => {
                if self.remaining == 0 {
                    Some(Err(Error(ErrorKind::QueryFailed)))
                } else {
                    None
                }
            },
        }
    }
}

/// The result of a race over sub-resolution outcomes in completion order:
/// the first success, or — when every outcome is a failure — the aggregate
/// [`Error(ErrorKind::QueryFailed)`]. This is what folding [`Race::step`] over the
/// outcomes yields.
pub open spec fn first_success(outcomes: Seq<Result<Seq<Address>, Error>>) -> Result<
    Seq<Address>,
    Error,
>
    decreases outcomes.len(),
{
    if outcomes.len() == 0 {
        Err(Error(ErrorKind::QueryFailed))
    } else {
        match outcomes.first() {
            Ok(addrs) => Ok(addrs),
            Err(_) => first_success(outcomes.drop_first()),
        }
    }
}

/// If every sub-resolution fails, the race fails, with the aggregate error.
pub proof fn lemma_race_all_fail(outcomes: Seq<Result<Seq<Address>, Error>>)
    requires
        forall|i: int| 0 <= i < outcomes.len() ==> (#[trigger] outcomes[i]) is Err,
    ensures
        first_success(outcomes) == Err::<Seq<Address>, Error>(Error(ErrorKind::QueryFailed)),
    decreases outcomes.len(),
{
    if outcomes.len() > 0 {
        lemma_race_all_fail(outcomes.drop_first());
    }
}

/// The first sub-resolution to succeed — in completion order — wins the
/// race: its result is returned exactly, and the outcomes that would have
/// completed later play no part.
pub proof fn lemma_race_first_winner(outcomes: Seq<Result<Seq<Address>, Error>>, k: int)
    requires
        0 <= k < outcomes.len(),
        outcomes[k] is Ok,
        forall|j: int| 0 <= j < k ==> (#[trigger] outcomes[j]) is Err,
    ensures
        first_success(outcomes) == outcomes[k],
    decreases outcomes.len(),
{
    if k > 0 {
        lemma_race_first_winner(outcomes.drop_first(), k - 1);
    }
}

} // verus!
