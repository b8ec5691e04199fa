//! Splitting a replay into the note and hit times that tap scoring uses.

use vstd::prelude::*;
use crate::kinds::NoteType;
use crate::replay::{Hit, NoteAndHitSeconds, Replay, ReplayNote};

verus! {

/// Taps and hold heads count for tap scoring; mines, lifts, tails and fakes do not.
pub open spec fn is_tapped(n: ReplayNote) -> bool {
    n.note_type == Some(NoteType::Tap) || n.note_type == Some(NoteType::HoldHead)
}

/// The note lies on `lane` of a 4-key chart and counts for tap scoring.
pub open spec fn scored_on(n: ReplayNote, lane: int) -> bool {
    &&& n.lane matches Some(l)
    &&& l == lane
    &&& l < 4
    &&& is_tapped(n)
}

/// The note carries what splitting by lane needs: a lane and a type.
pub open spec fn has_lane_schema(n: ReplayNote) -> bool {
    &&& n.lane is Some
    &&& n.note_type is Some
}

/// `v` held within the range of `i64`.
pub open spec fn clamp_i64(v: int) -> i64 {
    if v > i64::MAX {
        i64::MAX
    } else if v < i64::MIN {
        i64::MIN
    } else {
        v as i64
    }
}

/// When the note was hit: its time plus its deviation, held within `i64`.
pub open spec fn hit_time(n: ReplayNote) -> i64 {
    match n.hit {
        Hit::Hit { deviation } => clamp_i64(n.time + deviation),
        Hit::Miss => n.time,
    }
}

fn add_clamped(a: i64, b: i64) -> (r: i64)
    ensures
        r == clamp_i64(a + b),
{
    if b > 0 && a > i64::MAX - b {
        i64::MAX
    } else if b < 0 && a < i64::MIN - b {
        i64::MIN
    } else {
        a + b
    }
}

/// Times of the notes of `notes` that satisfy `keep`, in order.
pub open spec fn note_times(notes: Seq<ReplayNote>, keep: spec_fn(ReplayNote) -> bool) -> Seq<i64>
    decreases notes.len(),
{
    if notes.len() == 0 {
        Seq::empty()
    } else {
        let rest = note_times(notes.drop_last(), keep);
        if keep(notes.last()) {
            rest.push(notes.last().time)
        } else {
            rest
        }
    }
}

/// Hit times (note time plus deviation) of the hit notes of `notes` that
/// satisfy `keep`, in order; misses have none.
pub open spec fn hit_times(notes: Seq<ReplayNote>, keep: spec_fn(ReplayNote) -> bool) -> Seq<i64>
    decreases notes.len(),
{
    if notes.len() == 0 {
        Seq::empty()
    } else {
        let rest = hit_times(notes.drop_last(), keep);
        if keep(notes.last()) && notes.last().hit is Hit {
            rest.push(hit_time(notes.last()))
        } else {
            rest
        }
    }
}

pub open spec fn on_lane(lane: int) -> spec_fn(ReplayNote) -> bool {
    |n: ReplayNote| scored_on(n, lane)
}

pub open spec fn tapped() -> spec_fn(ReplayNote) -> bool {
    |n: ReplayNote| is_tapped(n)
}

/// `s` holds the times of the notes of `notes` that satisfy `keep`.
pub open spec fn series_of(
    s: NoteAndHitSeconds,
    notes: Seq<ReplayNote>,
    keep: spec_fn(ReplayNote) -> bool,
) -> bool {
    &&& s.note_seconds@ == note_times(notes, keep)
    &&& s.hit_seconds@ == hit_times(notes, keep)
}

fn is_tapped_note(n: &ReplayNote) -> (r: bool)
    ensures
        r == is_tapped(*n),
{
    match n.note_type {
        Some(NoteType::Tap) => true,
        Some(NoteType::HoldHead) => true,
        _ => false,
    }
}

fn scored_on_lane(n: &ReplayNote, lane: u8) -> (r: bool)
    ensures
        r == scored_on(*n, lane as int),
{
    match n.lane {
        Some(l) => l == lane && l < 4 && is_tapped_note(n),
        None => false,
    }
}

/// Collects the note and hit times of the notes that `keep` selects; `lane` is
/// the lane kept, or `None` for all lanes.
fn collect_series(notes: &Vec<ReplayNote>, lane: Option<u8>) -> (r: NoteAndHitSeconds)
    ensures
        series_of(
            r,
            notes@,
            match lane {
                Some(l) => on_lane(l as int),
                None => tapped(),
            },
        ),
{
    let ghost keep = match lane {
        Some(l) => on_lane(l as int),
        None => tapped(),
    };
    let mut r = NoteAndHitSeconds { note_seconds: Vec::new(), hit_seconds: Vec::new() };
    let mut i: usize = 0;
    while i < notes.len()
        invariant
            0 <= i <= notes.len(),
            keep == (match lane {
                Some(l) => on_lane(l as int),
                None => tapped(),
            }),
            series_of(r, notes@.take(i as int), keep),
        decreases notes.len() - i,
    {
        let n = &notes[i];
        assert(notes@.take(i + 1).drop_last() =~= notes@.take(i as int));
        assert(notes@.take(i + 1).last() == notes@[i as int]);
        let kept = match lane {
            Some(l) => scored_on_lane(n, l),
            None => is_tapped_note(n),
        };
        assert(kept == keep(*n));
        if kept {
            r.note_seconds.push(n.time);
            match n.hit {
                Hit::Hit { deviation } => {
                    r.hit_seconds.push(add_clamped(n.time, deviation));
                },
                Hit::Miss => {},
            }
        }
        i = i + 1;
    }
    assert(notes@.take(i as int) =~= notes@);
    r
}

fn lane_schema_ok(notes: &Vec<ReplayNote>) -> (r: bool)
    ensures
        r == forall|i: int| 0 <= i < notes@.len() ==> has_lane_schema(#[trigger] notes@[i]),
{
    let mut i: usize = 0;
    while i < notes.len()
        invariant
            0 <= i <= notes.len(),
            forall|k: int| 0 <= k < i ==> has_lane_schema(#[trigger] notes@[k]),
        decreases notes.len() - i,
    {
        let ok = notes[i].lane.is_some() && notes[i].note_type.is_some();
        if !ok {
            return false;
        }
        i = i + 1;
    }
    true
}

fn type_schema_ok(notes: &Vec<ReplayNote>) -> (r: bool)
    ensures
        r == forall|i: int| 0 <= i < notes@.len() ==> (#[trigger] notes@[i]).note_type is Some,
{
    let mut i: usize = 0;
    while i < notes.len()
        invariant
            0 <= i <= notes.len(),
            forall|k: int| 0 <= k < i ==> (#[trigger] notes@[k]).note_type is Some,
        decreases notes.len() - i,
    {
        if notes[i].note_type.is_none() {
            return false;
        }
        i = i + 1;
    }
    true
}

impl Replay {
    /// Every note has a lane and a type.
    pub open spec fn lane_schema(&self) -> bool {
        forall|i: int| 0 <= i < self.notes@.len() ==> has_lane_schema(#[trigger] self.notes@[i])
    }

    /// Every note has a type.
    pub open spec fn type_schema(&self) -> bool {
        forall|i: int| 0 <= i < self.notes@.len() ==> (#[trigger] self.notes@[i]).note_type is Some
    }

    /// Splits the replay into the note and hit times of each of the four lanes
    /// of a 4-key chart, keeping taps and hold heads only. A missed note has no
    /// hit time. Notes beyond lane 3 are dropped. `None` when a note has no lane
    /// or no type.
    pub fn split_into_lanes(&self) -> (r: Option<[NoteAndHitSeconds; 4]>)
        ensures
            r is Some <==> self.lane_schema(),
            r matches Some(lanes) ==> forall|l: int|
                0 <= l < 4 ==> series_of(#[trigger] lanes[l], self.notes@, on_lane(l)),
    {
        if !lane_schema_ok(&self.notes) {
            return None;
        }
        let l0 = collect_series(&self.notes, Some(0));
        let l1 = collect_series(&self.notes, Some(1));
        let l2 = collect_series(&self.notes, Some(2));
        let l3 = collect_series(&self.notes, Some(3));
        let lanes = [l0, l1, l2, l3];
        assert(series_of(lanes[0], self.notes@, on_lane(0)));
        assert(series_of(lanes[1], self.notes@, on_lane(1)));
        assert(series_of(lanes[2], self.notes@, on_lane(2)));
        assert(series_of(lanes[3], self.notes@, on_lane(3)));
        Some(lanes)
    }

    /// Like [`Replay::split_into_lanes`], but all lanes together, beyond lane 3
    /// too. `None` when a note has no type.
    pub fn split_into_notes_and_hits(&self) -> (r: Option<NoteAndHitSeconds>)
        ensures
            r is Some <==> self.type_schema(),
            r matches Some(s) ==> series_of(s, self.notes@, tapped()),
    {
        if !type_schema_ok(&self.notes) {
            return None;
        }
        Some(collect_series(&self.notes, None))
    }
}

/// A replay with notes, none of which has a lane, cannot be split by lane.
pub proof fn lemma_no_lanes_no_split(replay: Replay)
    requires
        replay.notes@.len() > 0,
        forall|i: int| 0 <= i < replay.notes@.len() ==> (#[trigger] replay.notes@[i]).lane is None,
    ensures
        !replay.lane_schema(),
{
    assert(!has_lane_schema(replay.notes@[0]));
}

pub open spec fn is_sorted(s: Seq<i64>) -> bool {
    forall|i: int, j: int| 0 <= i <= j < s.len() ==> s[i] <= s[j]
}

/// The times of `v` in ascending order.
pub fn sort_times(v: &Vec<i64>) -> (r: Vec<i64>)
    ensures
        is_sorted(r@),
        r@.to_multiset() == v@.to_multiset(),
{
    broadcast use vstd::seq_lib::group_to_multiset_ensures;

    let mut r: Vec<i64> = Vec::new();
    let mut i: usize = 0;
    while i < v.len()
        invariant
            0 <= i <= v.len(),
            is_sorted(r@),
            r@.to_multiset() == v@.take(i as int).to_multiset(),
        decreases v.len() - i,
    {
        let x = v[i];
        let mut p: usize = 0;
        while p < r.len() && r[p] <= x
            invariant
                0 <= p <= r.len(),
                forall|k: int| 0 <= k < p ==> r@[k] <= x,
            decreases r.len() - p,
        {
            p = p + 1;
        }
        proof {
            vstd::seq_lib::to_multiset_insert(r@, p as int, x);
            assert(v@.take(i + 1) =~= v@.take(i as int).push(x));
            vstd::seq_lib::to_multiset_build(v@.take(i as int), x);
        }
        let ghost old_r = r@;
        r.insert(p, x);
        assert(r@ == old_r.insert(p as int, x));
        assert forall|a: int, b: int| 0 <= a <= b < r@.len() implies r@[a] <= r@[b] by {
            if a < p && b < p {
                assert(r@[a] == old_r[a] && r@[b] == old_r[b]);
            } else if a < p && b == p {
                assert(r@[a] == old_r[a]);
            } else if a < p {
                assert(r@[a] == old_r[a] && r@[b] == old_r[b - 1]);
            } else if a == p && b > p {
                assert(r@[b] == old_r[b - 1]);
                assert(b - 1 >= p);
                assert(old_r[p as int] > x);
                assert(old_r[p as int] <= old_r[b - 1]);
            } else if a > p {
                assert(r@[a] == old_r[a - 1] && r@[b] == old_r[b - 1]);
            }
        }
        i = i + 1;
    }
    assert(v@.take(i as int) =~= v@);
    r
}

impl Replay {
    /// Like [`Replay::split_into_lanes`], with each lane's note times and hit
    /// times sorted ascending, each on its own: the scorers match hits to notes
    /// by time, not by position.
    pub fn sorted_lanes(&self) -> (r: Option<[NoteAndHitSeconds; 4]>)
        ensures
            r is Some <==> self.lane_schema(),
            r matches Some(lanes) ==> forall|l: int|
                0 <= l < 4 ==> {
                    &&& is_sorted(#[trigger] lanes[l].note_seconds@)
                    &&& is_sorted(lanes[l].hit_seconds@)
                    &&& lanes[l].note_seconds@.to_multiset() == note_times(
                        self.notes@,
                        on_lane(l),
                    ).to_multiset()
                    &&& lanes[l].hit_seconds@.to_multiset() == hit_times(
                        self.notes@,
                        on_lane(l),
                    ).to_multiset()
                },
    {
        let lanes = match self.split_into_lanes() {
            Some(lanes) => lanes,
            None => {
                return None;
            },
        };
        let s0 = NoteAndHitSeconds {
            note_seconds: sort_times(&lanes[0].note_seconds),
            hit_seconds: sort_times(&lanes[0].hit_seconds),
        };
        let s1 = NoteAndHitSeconds {
            note_seconds: sort_times(&lanes[1].note_seconds),
            hit_seconds: sort_times(&lanes[1].hit_seconds),
        };
        let s2 = NoteAndHitSeconds {
            note_seconds: sort_times(&lanes[2].note_seconds),
            hit_seconds: sort_times(&lanes[2].hit_seconds),
        };
        let s3 = NoteAndHitSeconds {
            note_seconds: sort_times(&lanes[3].note_seconds),
            hit_seconds: sort_times(&lanes[3].hit_seconds),
        };
        let sorted = [s0, s1, s2, s3];
        assert(series_of(lanes[0], self.notes@, on_lane(0)));
        assert(series_of(lanes[1], self.notes@, on_lane(1)));
        assert(series_of(lanes[2], self.notes@, on_lane(2)));
        assert(series_of(lanes[3], self.notes@, on_lane(3)));
        Some(sorted)
    }

    /// How each note was hit, in order.
    pub fn hits(&self) -> (r: Vec<Hit>)
        ensures
            r@ == self.notes@.map_values(|n: ReplayNote| n.hit),
    {
        let mut r: Vec<Hit> = Vec::new();
        let mut i: usize = 0;
        while i < self.notes.len()
            invariant
                0 <= i <= self.notes.len(),
                r@ == self.notes@.take(i as int).map_values(|n: ReplayNote| n.hit),
            decreases self.notes.len() - i,
        {
            r.push(self.notes[i].hit);
            i = i + 1;
            assert(r@ =~= self.notes@.take(i as int).map_values(|n: ReplayNote| n.hit));
        }
        assert(self.notes@.take(i as int) =~= self.notes@);
        r
    }
}

} // verus!
