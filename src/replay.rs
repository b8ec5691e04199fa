//! Replays: decoding the service's embedded note log, and splitting it into
//! per-lane note and hit times.
//!
//! All times are integers in nanoseconds.

use vstd::prelude::*;
use crate::error::Error;
use crate::kinds::{NoteType, note_type_of_code};
use crate::number::{LIMIT, decimal_scaled, integer_value, parse_integer, parse_scaled};
use crate::text::chars_of;

verus! {

/// How a note was hit
#[derive(Copy, Clone, Debug, PartialEq, Eq, Structural)]
pub enum Hit {
    /// Hit `deviation` nanoseconds late (early when negative)
    Hit { deviation: i64 },
    Miss,
}

/// A singular note, used inside [`Replay`]
#[derive(Clone, Debug, PartialEq, Eq, Structural)]
pub struct ReplayNote {
    /// The position of the note inside the chart, in nanoseconds
    pub time: i64,
    /// How the note was hit
    pub hit: Hit,
    /// The lane/column that this note appears on. None if not provided or unknown
    pub lane: Option<u8>,
    /// Type of the note (tap, hold, mine etc.). None if not provided
    pub note_type: Option<NoteType>,
    /// The position of the note inside the chart, in ticks (192nds). None if not provided
    pub tick: Option<u32>,
}

/// Replay data, an ordered sequence of [`ReplayNote`]
#[derive(Clone, Debug)]
pub struct Replay {
    pub notes: Vec<ReplayNote>,
}

/// Note times and hit times of a group of notes, in nanoseconds. A missed note
/// has no hit time, so the two may differ in length.
#[derive(Clone, Debug)]
pub struct NoteAndHitSeconds {
    pub note_seconds: Vec<i64>,
    pub hit_seconds: Vec<i64>,
}

/// The field that carries a replay, as the service sends it.
#[derive(Clone, Debug)]
pub enum ReplayPayload {
    /// `null`
    Missing,
    /// A bare string
    Text(String),
    /// An array: its first element when that is a string
    Wrapped(Option<String>),
    /// Any other value
    Unrecognized,
}

/// Row widths that the service has used over time.
#[derive(Copy, Clone, Debug, PartialEq, Eq, Structural)]
pub enum RowShape {
    /// `[time, deviation_ms, lane, note_type, tick]`, possibly cut short after the deviation
    Canonical5,
    /// `[time, deviation_ms, tick]`
    Legacy3,
}

/// Deviation, in nanoseconds, that the service writes for a miss.
pub const MISS_DEVIATION: i64 = 180000000;

/// How far from `MISS_DEVIATION` a deviation may lie and still mean a miss.
pub const MISS_TOLERANCE: i64 = 100;

pub open spec fn shape_of_len(len: int) -> RowShape {
    if len == 3 {
        RowShape::Legacy3
    } else {
        RowShape::Canonical5
    }
}

pub fn row_shape(len: usize) -> (r: RowShape)
    ensures
        r == shape_of_len(len as int),
{
    if len == 3 {
        RowShape::Legacy3
    } else {
        RowShape::Canonical5
    }
}

pub open spec fn hit_of_deviation(dev: i64) -> Hit {
    if MISS_DEVIATION - MISS_TOLERANCE < dev < MISS_DEVIATION + MISS_TOLERANCE {
        Hit::Miss
    } else {
        Hit::Hit { deviation: dev }
    }
}

/// Lane cell: `-1` is an unknown lane, 0 to 255 a lane; the outer `None` is a bad cell.
pub open spec fn lane_of_cell(c: Seq<char>) -> Option<Option<u8>> {
    match integer_value(c) {
        Some(v) => if v == -1 {
            Some(None)
        } else if 0 <= v <= 255 {
            Some(Some(v as u8))
        } else {
            None
        },
        None => None,
    }
}

pub open spec fn note_type_of_cell(c: Seq<char>) -> Option<NoteType> {
    match integer_value(c) {
        Some(v) => note_type_of_code(v),
        None => None,
    }
}

pub open spec fn tick_of_cell(c: Seq<char>) -> Option<u32> {
    match integer_value(c) {
        Some(v) => if 0 <= v <= u32::MAX {
            Some(v as u32)
        } else {
            None
        },
        None => None,
    }
}

/// Index of the lane cell in a row of `len` cells, if it has one.
pub open spec fn lane_slot(len: int) -> Option<int> {
    if shape_of_len(len) == RowShape::Canonical5 && len > 2 {
        Some(2)
    } else {
        None
    }
}

/// Index of the tick cell in a row of `len` cells, if it has one.
pub open spec fn tick_slot(len: int) -> Option<int> {
    if shape_of_len(len) == RowShape::Legacy3 {
        Some(2)
    } else if len > 4 {
        Some(4)
    } else {
        None
    }
}

/// The note that a row of cells stands for; `None` when the row is malformed.
pub open spec fn decode_row_spec(cells: Seq<Seq<char>>) -> Option<ReplayNote> {
    if cells.len() < 2 {
        None
    } else {
        let time = decimal_scaled(cells[0], 9);
        let dev = decimal_scaled(cells[1], 6);
        let lane: Option<Option<u8>> = match lane_slot(cells.len() as int) {
            Some(i) => lane_of_cell(cells[i]),
            None => Some(None),
        };
        let note_type: Option<Option<NoteType>> = if cells.len() > 3 {
            match note_type_of_cell(cells[3]) {
                Some(t) => Some(Some(t)),
                None => None,
            }
        } else {
            Some(None)
        };
        let tick: Option<Option<u32>> = match tick_slot(cells.len() as int) {
            Some(i) => match tick_of_cell(cells[i]) {
                Some(t) => Some(Some(t)),
                None => None,
            },
            None => Some(None),
        };
        if time is None || dev is None || lane is None || note_type is None || tick is None {
            None
        } else {
            Some(
                ReplayNote {
                    time: time->0 as i64,
                    hit: hit_of_deviation(dev->0 as i64),
                    lane: lane->0,
                    note_type: note_type->0,
                    tick: tick->0,
                },
            )
        }
    }
}

pub open spec fn cell_texts(cells: Seq<String>) -> Seq<Seq<char>> {
    cells.map_values(|c: String| c@)
}

pub open spec fn row_texts(rows: Seq<Vec<String>>) -> Seq<Seq<Seq<char>>> {
    rows.map_values(|r: Vec<String>| cell_texts(r@))
}

/// The notes of all rows, when every row decodes.
pub open spec fn decode_rows_spec(rows: Seq<Seq<Seq<char>>>) -> Option<Seq<ReplayNote>>
    decreases rows.len(),
{
    if rows.len() == 0 {
        Some(Seq::empty())
    } else {
        match (decode_rows_spec(rows.drop_last()), decode_row_spec(rows.last())) {
            (Some(notes), Some(n)) => Some(notes.push(n)),
            _ => None,
        }
    }
}

/// Times and deviations small enough that a hit time never overflows.
pub open spec fn note_in_range(n: ReplayNote) -> bool {
    &&& -LIMIT <= n.time <= LIMIT
    &&& n.hit matches Hit::Hit { deviation } ==> -LIMIT <= deviation <= LIMIT
}

fn decode_lane(c: &Vec<char>) -> (r: Option<Option<u8>>)
    ensures
        r == lane_of_cell(c@),
{
    match parse_integer(c) {
        Some(v) => if v == -1 {
            Some(None)
        } else if 0 <= v && v <= 255 {
            Some(Some(v as u8))
        } else {
            None
        },
        None => None,
    }
}

fn decode_tick(c: &Vec<char>) -> (r: Option<u32>)
    ensures
        r == tick_of_cell(c@),
{
    match parse_integer(c) {
        Some(v) => if 0 <= v && v <= u32::MAX as i64 {
            Some(v as u32)
        } else {
            None
        },
        None => None,
    }
}

fn decode_note_type(c: &Vec<char>) -> (r: Option<NoteType>)
    ensures
        r == note_type_of_cell(c@),
{
    match parse_integer(c) {
        Some(v) => NoteType::from_code(v),
        None => None,
    }
}

fn cell_chars(cells: &Vec<String>, i: usize) -> (r: Vec<char>)
    requires
        i < cells.len(),
    ensures
        r@ == cell_texts(cells@)[i as int],
{
    chars_of(cells[i].as_str())
}

/// Decodes one row of the note log.
pub fn decode_row(cells: &Vec<String>) -> (r: Option<ReplayNote>)
    ensures
        r == decode_row_spec(cell_texts(cells@)),
        r matches Some(n) ==> note_in_range(n),
{
    let ghost t = cell_texts(cells@);
    let len = cells.len();
    if len < 2 {
        return None;
    }
    let time = match parse_scaled(&cell_chars(cells, 0), 9) {
        Some(v) => v,
        None => {
            return None;
        },
    };
    let dev = match parse_scaled(&cell_chars(cells, 1), 6) {
        Some(v) => v,
        None => {
            return None;
        },
    };
    let shape = row_shape(len);
    let lane: Option<u8> = if shape == RowShape::Canonical5 && len > 2 {
        match decode_lane(&cell_chars(cells, 2)) {
            Some(l) => l,
            None => {
                return None;
            },
        }
    } else {
        None
    };
    let note_type: Option<NoteType> = if len > 3 {
        match decode_note_type(&cell_chars(cells, 3)) {
            Some(n) => Some(n),
            None => {
                return None;
            },
        }
    } else {
        None
    };
    let tick_slot: Option<usize> = if shape == RowShape::Legacy3 {
        Some(2)
    } else if len > 4 {
        Some(4)
    } else {
        None
    };
    let tick: Option<u32> = match tick_slot {
        Some(i) => match decode_tick(&cell_chars(cells, i)) {
            Some(v) => Some(v),
            None => {
                return None;
            },
        },
        None => None,
    };
    let hit = if MISS_DEVIATION - MISS_TOLERANCE < dev && dev < MISS_DEVIATION + MISS_TOLERANCE {
        Hit::Miss
    } else {
        Hit::Hit { deviation: dev }
    };
    Some(ReplayNote { time, hit, lane, note_type, tick })
}

/// What serde_json reads from `text` when it is a JSON array of arrays: each
/// element written out again as JSON text. `None` when it is not such an array.
pub uninterp spec fn json_rows_of(text: Seq<char>) -> Option<Seq<Seq<Seq<char>>>>;

/// Relies on serde_json::from_str, to read `text` as an array of arrays, and on
/// serde_json::Value's Display, to write each element out again as JSON text.
#[verifier::external_body]
fn json_rows(text: &str) -> (r: Result<Vec<Vec<String>>, String>)
    ensures
        r is Ok <==> json_rows_of(text@) is Some,
        r matches Ok(rows) ==> json_rows_of(text@) == Some(row_texts(rows@)),
{
    match serde_json::from_str::<Vec<Vec<serde_json::Value>>>(text) {
        Ok(rows) => Ok(
            rows.into_iter().map(|row| row.into_iter().map(|c| c.to_string()).collect()).collect(),
        ),
        Err(e) => Err(e.to_string()),
    }
}

/// The text of the replay inside `payload`, if it holds one.
pub open spec fn payload_text(payload: ReplayPayload) -> Option<Seq<char>> {
    match payload {
        ReplayPayload::Text(s) => Some(s@),
        ReplayPayload::Wrapped(Some(s)) => Some(s@),
        _ => None,
    }
}

/// What decoding `rows` gives: `Err` when a row is malformed, `Ok(None)` when
/// there are no rows, else the notes of the rows in order.
pub open spec fn rows_outcome(rows: Seq<Seq<Seq<char>>>, r: Result<Option<Replay>, Error>) -> bool {
    match decode_rows_spec(rows) {
        None => r matches Err(Error::InvalidDataStructure(_)),
        Some(notes) => if notes.len() == 0 {
            r matches Ok(None)
        } else {
            r matches Ok(Some(replay)) && replay.notes@ == notes
        },
    }
}

pub open spec fn replay_in_range(replay: Replay) -> bool {
    forall|i: int| 0 <= i < replay.notes@.len() ==> note_in_range(#[trigger] replay.notes@[i])
}

/// Decodes the rows of a note log, each given as the JSON text of its cells.
/// An empty log is no replay.
pub fn decode_replay_rows(rows: &Vec<Vec<String>>) -> (r: Result<Option<Replay>, Error>)
    ensures
        rows_outcome(row_texts(rows@), r),
        r matches Ok(Some(replay)) ==> replay_in_range(replay),
{
    let ghost texts = row_texts(rows@);
    let mut notes: Vec<ReplayNote> = Vec::new();
    let mut i: usize = 0;
    while i < rows.len()
        invariant
            0 <= i <= rows.len(),
            texts == row_texts(rows@),
            decode_rows_spec(texts.take(i as int)) == Some(notes@),
            forall|k: int| 0 <= k < notes@.len() ==> note_in_range(#[trigger] notes@[k]),
        decreases rows.len() - i,
    {
        assert(texts.take(i + 1).drop_last() =~= texts.take(i as int));
        match decode_row(&rows[i]) {
            Some(n) => {
                notes.push(n);
            },
            None => {
                proof {
                    lemma_decode_rows_prefix_fails(texts, i as int + 1);
                }
                return Err(Error::InvalidDataStructure(String::from_str("malformed note row")));
            },
        }
        i = i + 1;
    }
    assert(texts.take(i as int) =~= texts);
    if notes.len() == 0 {
        Ok(None)
    } else {
        Ok(Some(Replay { notes }))
    }
}

proof fn lemma_decode_rows_prefix_fails(rows: Seq<Seq<Seq<char>>>, n: int)
    requires
        0 < n <= rows.len(),
        decode_rows_spec(rows.take(n)) is None,
    ensures
        decode_rows_spec(rows) is None,
    decreases rows.len() - n,
{
    if n < rows.len() {
        assert(rows.take(n + 1).drop_last() =~= rows.take(n));
        lemma_decode_rows_prefix_fails(rows, n + 1);
    } else {
        assert(rows.take(n) =~= rows);
    }
}

/// What reading the replay carried by `payload` gives: no replay when it holds
/// none or its note log is empty, `InvalidJson` when its text is no array of
/// rows, `InvalidDataStructure` when a row is malformed, else the notes.
pub open spec fn replay_outcome(payload: ReplayPayload, r: Result<Option<Replay>, Error>) -> bool {
    match payload_text(payload) {
        None => r matches Ok(None),
        Some(t) => match json_rows_of(t) {
            None => r matches Err(Error::InvalidJson(_)),
            Some(rows) => rows_outcome(rows, r),
        },
    }
}

/// Reads the replay carried by `payload`. A missing or unrecognised payload, or
/// an empty note log, is no replay; text that is no array of rows, or a
/// malformed row, is an error.
pub fn parse_replay_inner(payload: &ReplayPayload) -> (r: Result<Option<Replay>, Error>)
    ensures
        replay_outcome(*payload, r),
        r matches Ok(Some(replay)) ==> replay_in_range(replay),
{
    let text: &String = match payload {
        ReplayPayload::Text(s) => s,
        ReplayPayload::Wrapped(Some(s)) => s,
        _ => {
            return Ok(None);
        },
    };
    match json_rows(text.as_str()) {
        Ok(rows) => decode_replay_rows(&rows),
        Err(msg) => Err(Error::InvalidJson(msg)),
    }
}

/// The replay of a score: `Ok(None)` when there is none, an error when the
/// replay is malformed, so that callers can tell the two apart.
pub fn parse_replay(payload: &ReplayPayload) -> (r: Result<Option<Replay>, Error>)
    ensures
        replay_outcome(*payload, r),
        r matches Ok(Some(replay)) ==> replay_in_range(replay),
{
    parse_replay_inner(payload)
}

/// A row whose deviation reads as the miss sentinel (180 ms) decodes to a miss,
/// and no row decodes to a hit with that deviation.
pub proof fn lemma_miss_sentinel(cells: Seq<Seq<char>>)
    ensures
        decode_row_spec(cells) is Some && decimal_scaled(cells[1], 6) == Some(
            MISS_DEVIATION as int,
        ) ==> decode_row_spec(cells)->0.hit == Hit::Miss,
        decode_row_spec(cells) matches Some(n) ==> n.hit != (Hit::Hit { deviation: MISS_DEVIATION }),
{
}

/// A note log without rows is no replay, not a replay without notes.
pub proof fn lemma_empty_log_is_no_replay(rows: Seq<Seq<Seq<char>>>, r: Result<Option<Replay>, Error>)
    requires
        rows.len() == 0,
        rows_outcome(rows, r),
    ensures
        r matches Ok(None),
{
}

} // verus!
