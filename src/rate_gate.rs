//! Spacing of request starts: each request starts at least one cooldown after
//! the previous one, whoever sent it.
//!
//! Instants are nanoseconds on a monotonic clock, from an origin the caller picks.

use vstd::prelude::*;

verus! {

/// Tracks when the last request was allowed to start.
#[derive(Clone, Copy, Debug)]
pub struct RateGate {
    last: Option<u64>,
    cooldown: u64,
}

/// When a request that arrives at `now` may start, given the start of the one
/// before (if any).
pub open spec fn slot_after(last: Option<int>, cooldown: int, now: int) -> int {
    match last {
        None => now,
        Some(l) => if now >= l + cooldown {
            now
        } else {
            l + cooldown
        },
    }
}

/// The start times a gate gives to requests arriving at `arrivals`, one after
/// another, when its previous start was `last`.
pub open spec fn schedule(last: Option<int>, cooldown: int, arrivals: Seq<int>) -> Seq<int>
    decreases arrivals.len(),
{
    if arrivals.len() == 0 {
        Seq::empty()
    } else {
        let before = schedule(last, cooldown, arrivals.drop_last());
        let prev = if before.len() == 0 {
            last
        } else {
            Some(before.last())
        };
        before.push(slot_after(prev, cooldown, arrivals.last()))
    }
}

impl RateGate {
    pub closed spec fn last_start(&self) -> Option<int> {
        match self.last {
            Some(l) => Some(l as int),
            None => None,
        }
    }

    pub closed spec fn spec_cooldown(&self) -> int {
        self.cooldown as int
    }

    /// A gate that lets its first request start at once.
    pub fn new(cooldown: u64) -> (r: RateGate)
        ensures
            r.last_start() is None,
            r.spec_cooldown() == cooldown,
    {
        RateGate { last: None, cooldown }
    }

    pub fn cooldown(&self) -> (r: u64)
        ensures
            r == self.spec_cooldown(),
    {
        self.cooldown
    }

    /// The next start fits in `u64`: the last start plus one cooldown does.
    pub open spec fn has_room(&self) -> bool {
        self.last_start() matches Some(l) ==> l + self.spec_cooldown() <= u64::MAX
    }

    pub fn can_reserve(&self) -> (r: bool)
        ensures
            r == self.has_room(),
    {
        match self.last {
            None => true,
            Some(l) => l <= u64::MAX - self.cooldown,
        }
    }

    /// Decides when a request arriving at `now` may start, and records that
    /// start before returning it, so that the next caller is spaced after it.
    pub fn reserve(&mut self, now: u64) -> (start: u64)
        requires
            old(self).has_room(),
        ensures
            reserve_post(*old(self), now as int, *final(self), start as int),
    {
        let start = match self.last {
            None => now,
            Some(l) => {
                let earliest = l + self.cooldown;
                if now >= earliest {
                    now
                } else {
                    earliest
                }
            },
        };
        self.last = Some(start);
        start
    }
}

/// What one call of [`RateGate::reserve`] does: the request arriving at `now`
/// starts at `slot_after` of the previous start, which is then kept as the last start.
pub open spec fn reserve_post(before: RateGate, now: int, after: RateGate, start: int) -> bool {
    &&& after.spec_cooldown() == before.spec_cooldown()
    &&& after.last_start() == Some(start)
    &&& start == slot_after(before.last_start(), before.spec_cooldown(), now)
}

/// Any run of calls of [`RateGate::reserve`] on one gate, `gates[i]` before the
/// call for the request arriving at `arrivals[i]` and `gates[i + 1]` after it,
/// yields exactly the starts of `schedule`. So each request starts no
/// earlier than it arrives, and starts `j - i` calls apart lie at least
/// `j - i` cooldowns apart: `K` requests span at least `K - 1` cooldowns.
pub proof fn lemma_reserve_spacing(gates: Seq<RateGate>, arrivals: Seq<int>, starts: Seq<int>)
    requires
        gates.len() == arrivals.len() + 1,
        starts.len() == arrivals.len(),
        forall|i: int|
            0 <= i < arrivals.len() ==> reserve_post(
                #[trigger] gates[i],
                arrivals[i],
                gates[i + 1],
                starts[i],
            ),
    ensures
        starts == schedule(gates[0].last_start(), gates[0].spec_cooldown(), arrivals),
        forall|i: int| 0 <= i < arrivals.len() ==> #[trigger] starts[i] >= arrivals[i],
        forall|i: int, j: int|
            0 <= i <= j < arrivals.len() ==> #[trigger] starts[j] >= #[trigger] starts[i] + (j - i)
                * gates[0].spec_cooldown(),
{
    let last = gates[0].last_start();
    let c = gates[0].spec_cooldown();
    assert forall|k: int| 0 <= k <= arrivals.len() implies {
        &&& #[trigger] starts.take(k) == schedule(last, c, arrivals.take(k))
        &&& gates[k].spec_cooldown() == c
        &&& gates[k].last_start() == if k == 0 {
            last
        } else {
            Some(starts[k - 1])
        }
    } by {
        lemma_reserve_prefix(gates, arrivals, starts, k);
    }
    assert(starts.take(arrivals.len() as int) =~= starts);
    assert(arrivals.take(arrivals.len() as int) =~= arrivals);
    lemma_schedule_spacing(last, c, arrivals);
}

proof fn lemma_reserve_prefix(gates: Seq<RateGate>, arrivals: Seq<int>, starts: Seq<int>, k: int)
    requires
        gates.len() == arrivals.len() + 1,
        starts.len() == arrivals.len(),
        forall|i: int|
            0 <= i < arrivals.len() ==> reserve_post(
                #[trigger] gates[i],
                arrivals[i],
                gates[i + 1],
                starts[i],
            ),
        0 <= k <= arrivals.len(),
    ensures
        starts.take(k) == schedule(gates[0].last_start(), gates[0].spec_cooldown(), arrivals.take(k)),
        gates[k].spec_cooldown() == gates[0].spec_cooldown(),
        gates[k].last_start() == if k == 0 {
            gates[0].last_start()
        } else {
            Some(starts[k - 1])
        },
    decreases k,
{
    let last = gates[0].last_start();
    let c = gates[0].spec_cooldown();
    if k == 0 {
        assert(starts.take(0) =~= Seq::<int>::empty());
        assert(arrivals.take(0) =~= Seq::<int>::empty());
    } else {
        lemma_reserve_prefix(gates, arrivals, starts, k - 1);
        assert(reserve_post(gates[k - 1], arrivals[k - 1], gates[k], starts[k - 1]));
        let a = arrivals.take(k);
        assert(a.drop_last() =~= arrivals.take(k - 1));
        assert(a.last() == arrivals[k - 1]);
        let before = schedule(last, c, arrivals.take(k - 1));
        assert(before.len() == k - 1) by {
            lemma_schedule_spacing(last, c, arrivals.take(k - 1));
        }
        if k - 1 > 0 {
            assert(before.last() == starts.take(k - 1)[k - 2]);
        }
        assert(starts.take(k) =~= starts.take(k - 1).push(starts[k - 1]));
    }
}

/// Requests through one gate start no earlier than they arrive, and any two
/// starts `j - i` requests apart lie at least `j - i` cooldowns apart; so `K`
/// requests span at least `K - 1` cooldowns.
pub proof fn lemma_schedule_spacing(last: Option<int>, cooldown: int, arrivals: Seq<int>)
    requires
        cooldown >= 0,
    ensures
        schedule(last, cooldown, arrivals).len() == arrivals.len(),
        forall|i: int|
            0 <= i < arrivals.len() ==> #[trigger] schedule(last, cooldown, arrivals)[i]
                >= arrivals[i],
        forall|i: int, j: int|
            0 <= i <= j < arrivals.len() ==> #[trigger] schedule(last, cooldown, arrivals)[j]
                >= #[trigger] schedule(last, cooldown, arrivals)[i] + (j - i) * cooldown,
        last is Some && arrivals.len() > 0 ==> schedule(last, cooldown, arrivals)[0] >= last->0
            + cooldown,
    decreases arrivals.len(),
{
    if arrivals.len() > 0 {
        let front = arrivals.drop_last();
        lemma_schedule_spacing(last, cooldown, front);
        let s = schedule(last, cooldown, arrivals);
        let b = schedule(last, cooldown, front);
        assert(s == b.push(s.last()));
        assert forall|i: int| 0 <= i < arrivals.len() implies #[trigger] s[i] >= arrivals[i] by {
            if i < front.len() {
                assert(s[i] == b[i]);
                assert(front[i] == arrivals[i]);
            }
        }
        assert forall|i: int, j: int| 0 <= i <= j < arrivals.len() implies #[trigger] s[j]
            >= #[trigger] s[i] + (j - i) * cooldown by {
            if j < front.len() {
                assert(s[j] == b[j] && s[i] == b[i]);
            } else if i < j {
                let k = front.len() - 1;
                assert(s[j] >= b[k] + cooldown);
                assert(b[k] >= b[i] + (k - i) * cooldown);
                assert(s[i] == b[i]);
                assert((j - i) * cooldown == (k - i) * cooldown + cooldown) by (nonlinear_arith)
                    requires
                        j == k + 1,
                ;
            }
        }
    }
}

} // verus!
