use etternaonline_api::kinds::{FileSize, FileSizeParseError};
use etternaonline_api::{Difficulty, NoteType, Rate, Skillset, Skillset7, Skillset8};

#[test]
fn difficulty_names() {
    assert_eq!(Difficulty::from_short_string("IN"), Some(Difficulty::Challenge));
    assert_eq!(Difficulty::from_short_string("in"), None);
    assert_eq!(Difficulty::Medium.to_short_string(), "NM");
    assert_eq!(Difficulty::from_long_string("Insane"), Some(Difficulty::Challenge));
    assert_eq!(Difficulty::from_long_string("Novice"), Some(Difficulty::Beginner));
    assert_eq!(Difficulty::from_long_string("Medium2"), None);
}

#[test]
fn note_type_codes() {
    assert_eq!(NoteType::from_code(1), Some(NoteType::Tap));
    assert_eq!(NoteType::from_code(7), Some(NoteType::Fake));
    assert_eq!(NoteType::from_code(0), None);
}

#[test]
fn rates() {
    assert_eq!(Rate::from_string("1.15").map(|r| r.x20()), Some(23));
    assert_eq!(Rate::from_string("1.0").map(|r| r.x20()), Some(20));
    assert_eq!(Rate::from_string("0.925").map(|r| r.x20()), Some(19));
    assert_eq!(Rate::from_string("-1.0"), None);
    assert_eq!(Rate::from_string("fast"), None);
    assert_eq!(Rate::from_x20(30).x20(), 30);
    assert_eq!(Rate::default().x20(), 20);
}

#[test]
fn skillset_user_input() {
    assert_eq!(Skillset8::from_user_input("js"), Some(Skillset8::Jumpstream));
    assert_eq!(Skillset8::from_user_input("Jacks"), Some(Skillset8::Jackspeed));
    assert_eq!(Skillset8::from_user_input("JACKSPEED"), Some(Skillset8::Jackspeed));
    assert_eq!(Skillset8::from_user_input("handstreams"), None);
    assert_eq!(Skillset8::from_user_input("Overall"), Some(Skillset8::Overall));
    assert_eq!(Skillset7::from_user_input("Overall"), None);
    assert_eq!(Skillset7::from_user_input("TECH"), Some(Skillset7::Technical));
    assert_eq!(Skillset::from_user_input("CJ"), Some(Skillset::Chordjack));
    assert_eq!(Skillset8::from_lowercase("stam"), Some(Skillset8::Stamina));
    assert_eq!(Skillset8::from_lowercase("STAM"), None);
}

#[test]
fn skillset_lists_and_conversions() {
    assert_eq!(Skillset7::iter().len(), 7);
    assert_eq!(Skillset8::iter()[0], Skillset8::Overall);
    for s in Skillset7::iter() {
        assert_eq!(s.into_skillset8().into_skillset7(), Some(s));
    }
    assert_eq!(Skillset8::Overall.into_skillset7(), None);
}

#[test]
fn file_sizes() {
    let f = FileSize::from_bytes(1_234_567_890_123);
    assert_eq!(f.bytes(), 1_234_567_890_123);
    assert_eq!(f.kb(), 1_234_567_890);
    assert_eq!(f.mb(), 1_234_567);
    assert_eq!(f.gb(), 1_234);
    assert_eq!(f.tb(), 1);
    assert_eq!(FileSize::parse("1.5 MiB").map(|f| f.bytes()), Ok(1_572_864));
    assert_eq!(FileSize::parse("  12 kB  extra").map(|f| f.bytes()), Ok(12_000));
    assert_eq!(FileSize::parse("   "), Err(FileSizeParseError::EmptyString));
    assert_eq!(FileSize::parse("abc KB"), Err(FileSizeParseError::InvalidNumber));
    assert_eq!(FileSize::parse("12"), Err(FileSizeParseError::NoEnding));
    assert_eq!(FileSize::parse("12 XB"), Err(FileSizeParseError::UnexpectedEnding("xb".to_string())));
}

#[test]
fn file_size_from_str() {
    let f: FileSize = "2 GB".parse().unwrap();
    assert_eq!(f.gb(), 2);
    assert_eq!(FileSize::parse("0.5 b").map(|f| f.bytes()), Ok(0));
    assert_eq!(FileSize::parse("1 TiB").map(|f| f.bytes()), Ok(1_099_511_627_776));
}

#[test]
fn api_names() {
    assert_eq!(Skillset7::Jackspeed.api_name(), "JackSpeed");
    assert_eq!(Skillset7::Stream.api_name(), "Stream");
    assert_eq!(Difficulty::from_api_name("Hard").ok(), Some(Difficulty::Hard));
    assert!(matches!(Difficulty::from_api_name("Insane"), Err(etternaonline_api::Error::InvalidDataStructure(_))));
}

#[test]
fn skillset7_into_skillset8() {
    assert_eq!(Skillset8::from(Skillset7::Chordjack), Skillset8::Chordjack);
}

#[test]
fn rates_in_float_forms() {
    assert_eq!(Rate::from_string(".5").map(|r| r.x20()), Some(10));
    assert_eq!(Rate::from_string("+1").map(|r| r.x20()), Some(20));
    assert_eq!(Rate::from_string("2.").map(|r| r.x20()), Some(40));
    assert_eq!(Rate::from_string("1.5e0").map(|r| r.x20()), Some(30));
    assert_eq!(Rate::from_string("inf"), None);
    assert_eq!(Rate::from_string("-Infinity"), None);
    assert_eq!(Rate::from_string("NaN").map(|r| r.x20()), Some(0));
    assert_eq!(Rate::from_string("4294967296").map(|r| r.x20()), Some(u32::MAX));
    assert_eq!(Rate::from_string("4294967297"), None);
    assert_eq!(Rate::from_string("5e9"), None);
    assert_eq!(Rate::from_string("."), None);
    assert_eq!(Rate::from_string("1e"), None);
}

#[test]
fn file_sizes_in_float_forms() {
    assert_eq!(FileSize::parse("1.5 KB").map(|f| f.bytes()), Ok(1500));
    assert_eq!(FileSize::parse("2 KiB").map(|f| f.bytes()), Ok(2048));
    assert_eq!(FileSize::parse(".5 kb").map(|f| f.bytes()), Ok(500));
    assert_eq!(FileSize::parse("+1 b").map(|f| f.bytes()), Ok(1));
    assert_eq!(FileSize::parse("5. b").map(|f| f.bytes()), Ok(5));
    assert_eq!(FileSize::parse("5000000000 b").map(|f| f.bytes()), Ok(5_000_000_000));
    assert_eq!(FileSize::parse("1e30 b").map(|f| f.bytes()), Ok(u64::MAX));
    assert_eq!(FileSize::parse("20000000 TiB").map(|f| f.bytes()), Ok(u64::MAX));
    assert_eq!(FileSize::parse("-3 kb").map(|f| f.bytes()), Ok(0));
    assert_eq!(FileSize::parse("inf mb").map(|f| f.bytes()), Ok(u64::MAX));
    assert_eq!(FileSize::parse("NaN mb").map(|f| f.bytes()), Ok(0));
    assert_eq!(FileSize::parse_lowercase("3 mib").map(|f| f.bytes()), Ok(3_145_728));
    assert_eq!(FileSize::parse_lowercase("3 MiB"), Err(FileSizeParseError::UnexpectedEnding("MiB".to_string())));
    assert_eq!(FileSize::parse("1..5 kb"), Err(FileSizeParseError::InvalidNumber));
}
