use etternaonline_api::replay::{decode_replay_rows, decode_row, parse_replay, parse_replay_inner, row_shape, RowShape};
use etternaonline_api::{Error, Hit, NoteType, ReplayNote, ReplayPayload};

fn cells(items: &[&str]) -> Vec<String> {
    items.iter().map(|s| s.to_string()).collect()
}

#[test]
fn canonical_row_round_trip() {
    let r = parse_replay_inner(&ReplayPayload::Text("[[1.5, 0, 2, 1, 96]]".to_string())).unwrap().unwrap();
    assert_eq!(
        r.notes,
        vec![ReplayNote {
            time: 1_500_000_000,
            hit: Hit::Hit { deviation: 0 },
            lane: Some(2),
            note_type: Some(NoteType::Tap),
            tick: Some(96),
        }]
    );
}

#[test]
fn miss_sentinel_decodes_to_miss() {
    let n = decode_row(&cells(&["0.25", "180", "1", "1", "4"])).unwrap();
    assert_eq!(n.hit, Hit::Miss);
    let n = decode_row(&cells(&["0.25", "180.0", "1", "1"])).unwrap();
    assert_eq!(n.hit, Hit::Miss);
    let n = decode_row(&cells(&["0.25", "179.5", "1", "1"])).unwrap();
    assert_eq!(n.hit, Hit::Hit { deviation: 179_500_000 });
}

#[test]
fn empty_replay_is_none() {
    assert!(parse_replay_inner(&ReplayPayload::Text("[]".to_string())).unwrap().is_none());
    assert!(parse_replay(&ReplayPayload::Text("[]".to_string())).unwrap().is_none());
    assert!(decode_replay_rows(&vec![]).unwrap().is_none());
}

#[test]
fn legacy_three_wide_row_has_tick() {
    let n = decode_row(&cells(&["2", "-12.5", "48"])).unwrap();
    assert_eq!(
        n,
        ReplayNote { time: 2_000_000_000, hit: Hit::Hit { deviation: -12_500_000 }, lane: None, note_type: None, tick: Some(48) }
    );
    assert_eq!(row_shape(3), RowShape::Legacy3);
    assert_eq!(row_shape(5), RowShape::Canonical5);
}

#[test]
fn short_rows_leave_fields_out() {
    let n = decode_row(&cells(&["1", "3"])).unwrap();
    assert_eq!(n.lane, None);
    assert_eq!(n.note_type, None);
    assert_eq!(n.tick, None);
    let n = decode_row(&cells(&["1", "3", "-1", "2"])).unwrap();
    assert_eq!(n.lane, None);
    assert_eq!(n.note_type, Some(NoteType::HoldHead));
    assert_eq!(n.tick, None);
}

#[test]
fn bad_rows_are_refused() {
    assert!(decode_row(&cells(&["1"])).is_none());
    assert!(decode_row(&cells(&["x", "3"])).is_none());
    assert!(decode_row(&cells(&["1", "3", "256", "1"])).is_none());
    assert!(decode_row(&cells(&["1", "3", "1", "9"])).is_none());
    assert!(decode_row(&cells(&["1", "3", "1", "1", "-4"])).is_none());
    assert!(matches!(
        parse_replay_inner(&ReplayPayload::Text("[[1]]".to_string())),
        Err(Error::InvalidDataStructure(_))
    ));
}

#[test]
fn exponent_numbers_are_read() {
    let n = decode_row(&cells(&["1.5e-7", "2E+1"])).unwrap();
    assert_eq!(n.time, 150);
    assert_eq!(n.hit, Hit::Hit { deviation: 20_000_000 });
}

#[test]
fn payload_shapes() {
    assert!(parse_replay_inner(&ReplayPayload::Missing).unwrap().is_none());
    assert!(parse_replay_inner(&ReplayPayload::Unrecognized).unwrap().is_none());
    assert!(parse_replay_inner(&ReplayPayload::Wrapped(None)).unwrap().is_none());
    let r = parse_replay_inner(&ReplayPayload::Wrapped(Some("[[0.5, 10, 3, 2, 12], [1, 180, 0, 1, 24]]".to_string())))
        .unwrap()
        .unwrap();
    assert_eq!(r.notes.len(), 2);
    assert_eq!(r.notes[0].time, 500_000_000);
    assert_eq!(r.notes[0].hit, Hit::Hit { deviation: 10_000_000 });
    assert_eq!(r.notes[1].hit, Hit::Miss);
    assert_eq!(r.notes[1].tick, Some(24));
}

#[test]
fn malformed_json_is_an_error() {
    assert!(matches!(
        parse_replay_inner(&ReplayPayload::Text("[[1, 2".to_string())),
        Err(Error::InvalidJson(_))
    ));
    assert!(matches!(parse_replay(&ReplayPayload::Text("{}".to_string())), Err(Error::InvalidJson(_))));
    assert!(matches!(parse_replay(&ReplayPayload::Text("[[1]]".to_string())), Err(Error::InvalidDataStructure(_))));
    assert!(parse_replay(&ReplayPayload::Missing).unwrap().is_none());
}
