use run_record::calendar::CalendarDate;
use run_record::duration::Duration;
use run_record::error::{Anchor, DateField, ParseError, TimeField};
use run_record::record::{parse, RunRecord};
use run_record::vocab::{Character, Difficulty, Glitching, Seeding};

const TICKLER: &str = "
Ascension-20 Unseeded - 4-Character in 28m 22s by Tickler - 2nd place

Version: 2.3 03/07/2022
Notes:

defect 1HAU17U5B4NQW
silent I39G06NHKNIY
watcher 9NI379ZS8JPV
ironclad 2D9L3DCZMK2FZ
Submitted by:
Tickler on 2023-01-08, 11:44
Played on:
PC on 2023-01-08 ";

const MAYBERRY: &str = "
Any% Seeded - Ironclad in 1m 54s 440ms by Mayberry - Claims to be 1st place

In-game time: 1m 52s
Version: 2.3.4 12/18/2022
Seed: UPG42
Notes:

wow
Awaiting verification: A moderator needs to verify this run before it appears on the leaderboard.
 
Submitted by:
Mayberry on 2023-04-03, 14:59
Played on:
PC on 2023-04-03
";

const SHORT: &str = "Ascension-20 Unseeded - 4-Character in 28m 22s by Tickler - 2nd place\n\nVersion: 2.3 03/07/2022\nNotes:\n\ndefect text\nSubmitted by:\nTickler on 2023-01-08, 11:44\nPlayed on:\nPC on 2023-01-08";

fn date(year: u16, month: u8, day: u8) -> CalendarDate {
    CalendarDate { year, month, day }
}

fn err(text: &str) -> ParseError {
    match parse(text) {
        Ok(_) => panic!("expected a failure"),
        Err(e) => e,
    }
}

fn ok(text: &str) -> RunRecord {
    match parse(text) {
        Ok(r) => r,
        Err(e) => panic!("expected a record, got {:?}", e),
    }
}

fn chars(s: &str) -> Vec<char> {
    s.chars().collect()
}

#[test]
fn tickler_a20_wr() {
    let data = ok(TICKLER);
    assert_eq!(data.category.difficulty, Difficulty::A20)
}

#[test]
fn mayberry_seeded_wr() {
    let data = ok(MAYBERRY);
    assert_eq!(data.category.difficulty, Difficulty::Any)
}

#[test]
fn short_report_fields() {
    let r = ok(SHORT);
    assert_eq!(r.category.difficulty, Difficulty::A20);
    assert_eq!(r.category.character, Character::Four);
    assert_eq!(r.category.seeding, Seeding::Unseeded);
    assert_eq!(r.category.glitching, Glitching::Glitchless);
    assert_eq!(r.placing, 2);
    assert_eq!(r.times.rta, Duration { hour: 0, minute: 28, second: 22, millisecond: 0 });
    assert_eq!(r.times.igt, None);
    assert_eq!(r.seed, None);
    assert_eq!(r.runner, "Tickler".to_string());
    assert_eq!(r.version.major, 2);
    assert_eq!(r.version.minor, 3);
    assert_eq!(r.version.patch, 0);
    assert_eq!(r.version.release, date(2022, 3, 7));
    assert_eq!(r.dates.submission, date(2023, 1, 8));
    assert_eq!(r.dates.run, date(2023, 1, 8));
    assert_eq!(r.unlocks, None);
}

#[test]
fn seeded_report_fields() {
    let r = ok(MAYBERRY);
    assert_eq!(r.category.seeding, Seeding::Seeded);
    assert_eq!(r.category.character, Character::Ironclad);
    assert_eq!(r.seed, Some("UPG42".to_string()));
    assert_eq!(r.placing, 1);
    assert_eq!(r.runner, "Mayberry".to_string());
    assert_eq!(r.times.rta, Duration { hour: 0, minute: 1, second: 54, millisecond: 440 });
    assert_eq!(r.times.igt, Some(Duration { hour: 0, minute: 1, second: 52, millisecond: 0 }));
    assert_eq!((r.version.major, r.version.minor, r.version.patch), (2, 3, 4));
    assert_eq!(r.version.release, date(2022, 12, 18));
    assert_eq!(r.dates.run, date(2023, 4, 3));
}

#[test]
fn same_text_same_record() {
    assert_eq!(parse(MAYBERRY), parse(MAYBERRY));
    assert_eq!(parse(SHORT), parse(SHORT));
}

#[test]
fn seeded_without_seed_is_missing_seed() {
    let text = SHORT.replace("Unseeded", "Seeded");
    assert_eq!(err(&text), ParseError::MissingSeed);
}

#[test]
fn unseeded_ignores_seed_line() {
    let text = SHORT.replace("Notes:", "Seed: ABC Notes:");
    assert_eq!(ok(&text).seed, None);
}

#[test]
fn unknown_difficulty() {
    let text = SHORT.replace("Ascension-20", "Ascension-19");
    assert_eq!(err(&text), ParseError::InvalidDifficulty);
}

#[test]
fn duration_without_minute_unit() {
    let text = SHORT.replace("28m 22s", "28 22s");
    assert_eq!(err(&text), ParseError::InvalidDuration(TimeField::Rta));
}

#[test]
fn duration_without_second_unit() {
    let text = SHORT.replace("28m 22s", "28m 22");
    assert_eq!(err(&text), ParseError::InvalidDuration(TimeField::Rta));
}

#[test]
fn impossible_run_date() {
    let text = SHORT.replace("PC on 2023-01-08", "PC on 2023-02-30");
    assert_eq!(err(&text), ParseError::InvalidDate(DateField::Run));
}

#[test]
fn impossible_submission_date() {
    let text = SHORT.replace("Tickler on 2023-01-08", "Tickler on 2023-13-08");
    assert_eq!(err(&text), ParseError::InvalidDate(DateField::Submission));
}

#[test]
fn impossible_release_date() {
    let text = SHORT.replace("03/07/2022", "02/29/2023");
    assert_eq!(err(&text), ParseError::InvalidDate(DateField::Release));
}

#[test]
fn leap_day_release_date() {
    let text = SHORT.replace("03/07/2022", "02/29/2024");
    assert_eq!(ok(&text).version.release, date(2024, 2, 29));
}

#[test]
fn minutes_and_seconds_not_normalized() {
    let text = SHORT.replace("28m 22s", "75m 99s");
    assert_eq!(ok(&text).times.rta, Duration { hour: 0, minute: 75, second: 99, millisecond: 0 });
}

#[test]
fn hours_minutes_seconds() {
    let text = SHORT.replace("28m 22s", "1h 2m 3s 4ms");
    assert_eq!(ok(&text).times.rta, Duration { hour: 1, minute: 2, second: 3, millisecond: 4 });
}

#[test]
fn bare_seconds() {
    let text = SHORT.replace("28m 22s", "42s");
    assert_eq!(ok(&text).times.rta, Duration { hour: 0, minute: 0, second: 42, millisecond: 0 });
}

#[test]
fn bad_igt() {
    let text = SHORT.replace("2nd place", "2nd place In-game time: 5x");
    assert_eq!(err(&text), ParseError::InvalidDuration(TimeField::Igt));
}

#[test]
fn stray_text_before_version() {
    let text = SHORT.replace("2nd place", "2nd place hello");
    assert_eq!(err(&text), ParseError::MissingAnchor(Anchor::InGameTime));
}

#[test]
fn notes_with_anchor_like_text() {
    let text = SHORT.replace(
        "defect text",
        "Submitted by: Someone on 1999-01-01, 00:00 Played on: PC on 1999-01-01 Version: 9.9",
    );
    let r = ok(&text);
    assert_eq!(r.dates.submission, date(2023, 1, 8));
    assert_eq!(r.dates.run, date(2023, 1, 8));
    assert_eq!(Some(r.clone()), parse(SHORT).ok());
}

#[test]
fn unknown_seeding() {
    let text = SHORT.replace("Unseeded", "Sorta");
    assert_eq!(err(&text), ParseError::InvalidSeeding);
}

#[test]
fn unknown_character() {
    let text = SHORT.replace("4-Character", "Necromancer");
    assert_eq!(err(&text), ParseError::InvalidCharacter);
}

#[test]
fn glitch_mode_in_header() {
    let text = SHORT.replace("Unseeded -", "Unseeded Glitched -");
    assert_eq!(ok(&text).category.glitching, Glitching::Glitched);
    let text = SHORT.replace("Unseeded -", "Unseeded Seeded -");
    assert_eq!(err(&text), ParseError::InvalidGlitching);
}

#[test]
fn bad_version() {
    let text = SHORT.replace("2.3 03", "2.x 03");
    assert_eq!(err(&text), ParseError::InvalidVersion);
}

#[test]
fn bad_placing() {
    let text = SHORT.replace("2nd place", "second place");
    assert_eq!(err(&text), ParseError::InvalidPlacing);
    let text = SHORT.replace("2nd place", "0th place");
    assert_eq!(err(&text), ParseError::InvalidPlacing);
}

#[test]
fn missing_anchors() {
    assert_eq!(err("hello"), ParseError::MissingAnchor(Anchor::Dash));
    assert_eq!(err(&SHORT.replace("Version:", "Release:")), ParseError::MissingAnchor(Anchor::Version));
    assert_eq!(
        err(&SHORT.replace("Submitted by:", "Sent by:")),
        ParseError::MissingAnchor(Anchor::SubmittedBy)
    );
    assert_eq!(err(&SHORT.replace("Played on:", "Run on:")), ParseError::MissingAnchor(Anchor::PlayedOn));
}

#[test]
fn vocabularies_are_exact() {
    assert_eq!(Character::from_chars(&chars("ironclad")), Err(ParseError::InvalidCharacter));
    assert_eq!(Character::from_chars(&chars("Watcher")), Ok(Character::Watcher));
    assert_eq!(Difficulty::from_chars(&chars("any%")), Err(ParseError::InvalidDifficulty));
    assert_eq!(Seeding::from_chars(&chars("Seeded ")), Err(ParseError::InvalidSeeding));
    assert_eq!(Glitching::from_chars(&chars("Seeded")), Err(ParseError::InvalidGlitching));
    assert_eq!(Glitching::from_chars(&chars("Glitched")), Ok(Glitching::Glitched));
}

#[test]
fn calendar_dates() {
    assert_eq!(CalendarDate::parse_iso(&chars("2024-02-29")), Some(date(2024, 2, 29)));
    assert_eq!(CalendarDate::parse_iso(&chars("1900-02-29")), None);
    assert_eq!(CalendarDate::parse_iso(&chars("2000-02-29")), Some(date(2000, 2, 29)));
    assert_eq!(CalendarDate::parse_us(&chars("04/31/2022")), None);
    assert_eq!(CalendarDate::parse_us(&chars("12/31/2022")), Some(date(2022, 12, 31)));
}
