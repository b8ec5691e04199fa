use etternaonline_api::lanes::sort_times;
use etternaonline_api::{Hit, NoteAndHitSeconds, NoteType, Replay, ReplayNote};

fn note(time: i64, hit: Hit, lane: Option<u8>, note_type: Option<NoteType>) -> ReplayNote {
    ReplayNote { time, hit, lane, note_type, tick: None }
}

fn series(s: &NoteAndHitSeconds) -> (Vec<i64>, Vec<i64>) {
    (s.note_seconds.clone(), s.hit_seconds.clone())
}

const S: i64 = 1_000_000_000;

#[test]
fn test_split_replay() {
    let replay = Replay {
        notes: vec![
            note(0, Hit::Hit { deviation: 150_000_000 }, Some(0), Some(NoteType::Tap)),
            note(S, Hit::Hit { deviation: -30_000_000 }, Some(1), Some(NoteType::Tap)),
            note(2 * S, Hit::Miss, Some(2), Some(NoteType::Tap)),
            note(3 * S, Hit::Hit { deviation: 500_000_000 }, Some(3), Some(NoteType::Tap)),
            note(4 * S, Hit::Hit { deviation: 150_000_000 }, Some(0), Some(NoteType::Tap)),
        ],
    };

    let all = replay.split_into_notes_and_hits().unwrap();
    assert_eq!(
        series(&all),
        (vec![0, S, 2 * S, 3 * S, 4 * S], vec![150_000_000, 970_000_000, 3_500_000_000, 4_150_000_000])
    );

    let lanes = replay.split_into_lanes().unwrap();
    assert_eq!(series(&lanes[0]), (vec![0, 4 * S], vec![150_000_000, 4_150_000_000]));
    assert_eq!(series(&lanes[1]), (vec![S], vec![970_000_000]));
    assert_eq!(series(&lanes[2]), (vec![2 * S], vec![]));
    assert_eq!(series(&lanes[3]), (vec![3 * S], vec![3_500_000_000]));

    let empty = Replay { notes: vec![] };
    assert_eq!(series(&empty.split_into_notes_and_hits().unwrap()), (vec![], vec![]));
    let lanes = empty.split_into_lanes().unwrap();
    for lane in lanes.iter() {
        assert_eq!(series(lane), (vec![], vec![]));
    }
}

#[test]
fn split_scenario_hit_and_miss() {
    let replay = Replay {
        notes: vec![
            note(0, Hit::Hit { deviation: 150_000_000 }, Some(0), Some(NoteType::Tap)),
            note(S, Hit::Miss, Some(1), Some(NoteType::Tap)),
        ],
    };
    let lanes = replay.split_into_lanes().unwrap();
    assert_eq!(series(&lanes[0]), (vec![0], vec![150_000_000]));
    assert_eq!(series(&lanes[1]), (vec![S], vec![]));
    assert_eq!(series(&lanes[2]), (vec![], vec![]));
    assert_eq!(series(&lanes[3]), (vec![], vec![]));
}

#[test]
fn split_without_lanes_is_none() {
    let replay = Replay {
        notes: vec![
            note(0, Hit::Miss, None, None),
            note(S, Hit::Hit { deviation: 1 }, None, None),
        ],
    };
    assert!(replay.split_into_lanes().is_none());
    assert!(replay.split_into_notes_and_hits().is_none());
}

#[test]
fn split_without_types_on_low_lanes_is_none() {
    let replay = Replay { notes: vec![note(0, Hit::Miss, Some(2), None)] };
    assert!(replay.split_into_lanes().is_none());
}

#[test]
fn split_drops_high_lanes_and_untapped_notes() {
    let replay = Replay {
        notes: vec![
            note(0, Hit::Miss, Some(5), Some(NoteType::Tap)),
            note(S, Hit::Hit { deviation: 2 }, Some(4), Some(NoteType::Tap)),
            note(2 * S, Hit::Hit { deviation: 3 }, Some(1), Some(NoteType::Mine)),
            note(3 * S, Hit::Hit { deviation: 4 }, Some(1), Some(NoteType::HoldHead)),
            note(4 * S, Hit::Hit { deviation: 5 }, Some(1), Some(NoteType::HoldTail)),
        ],
    };
    let lanes = replay.split_into_lanes().unwrap();
    assert_eq!(series(&lanes[1]), (vec![3 * S], vec![3 * S + 4]));
    assert_eq!(series(&lanes[0]), (vec![], vec![]));
    let all = replay.split_into_notes_and_hits().unwrap();
    assert_eq!(all.note_seconds, vec![0, S, 3 * S]);
    assert_eq!(all.hit_seconds, vec![S + 2, 3 * S + 4]);
}

#[test]
fn split_with_untyped_high_lane_is_none() {
    let replay = Replay { notes: vec![note(0, Hit::Miss, Some(4), None)] };
    assert!(replay.split_into_lanes().is_none());
}

#[test]
fn hit_times_stay_within_range() {
    let replay = Replay {
        notes: vec![note(i64::MAX - 1, Hit::Hit { deviation: 10 }, Some(0), Some(NoteType::Tap))],
    };
    let lanes = replay.split_into_lanes().unwrap();
    assert_eq!(series(&lanes[0]), (vec![i64::MAX - 1], vec![i64::MAX]));
}

#[test]
fn sorted_lanes_sort_each_list() {
    let replay = Replay {
        notes: vec![
            note(2 * S, Hit::Hit { deviation: -1 }, Some(0), Some(NoteType::Tap)),
            note(S, Hit::Hit { deviation: 5 * S }, Some(0), Some(NoteType::Tap)),
            note(3 * S, Hit::Miss, Some(0), Some(NoteType::HoldHead)),
        ],
    };
    let lanes = replay.sorted_lanes().unwrap();
    assert_eq!(series(&lanes[0]), (vec![S, 2 * S, 3 * S], vec![2 * S - 1, 6 * S]));
    assert_eq!(replay.hits(), vec![Hit::Hit { deviation: -1 }, Hit::Hit { deviation: 5 * S }, Hit::Miss]);
    assert!(Replay { notes: vec![note(0, Hit::Miss, Some(1), None)] }.sorted_lanes().is_none());
}

#[test]
fn sort_times_orders_values() {
    let v = vec![5, -2, 9, 5, 0];
    assert_eq!(sort_times(&v), vec![-2, 0, 5, 5, 9]);
}
