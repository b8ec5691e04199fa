//! Client-side core of the EtternaOnline API: replay decoding, lane splitting,
//! request spacing, single-flight re-authorization and response classification.

pub mod auth;
pub mod error;
pub mod kinds;
pub mod lanes;
pub mod number;
pub mod pipeline;
pub mod rate_gate;
pub mod replay;
pub mod skillsets;
pub mod text;

pub use error::Error;
pub use kinds::{Difficulty, FileSize, FileSizeParseError, Judgements, NoteType, Rate, UserRank};
pub use replay::{Hit, NoteAndHitSeconds, Replay, ReplayNote, ReplayPayload};
pub use skillsets::{Skillset, Skillset7, Skillset8};
