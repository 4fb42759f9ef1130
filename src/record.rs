//! The record extractor: anchors located in order over the whitespace-collapsed report.
use vstd::prelude::*;
use crate::calendar::{iso_date, us_date, CalendarDate};
use crate::duration::{duration_of, Duration};
use crate::error::{Anchor, DateField, ParseError, TimeField};
use crate::text::{
    chars_of, collapse, decimal, find, find_from, lemma_split_nonempty, normalize, parse_decimal,
    rfind, rfind_last, span, split, split_at_char, string_of,
};
use crate::vocab::{
    character_of, difficulty_of, glitching_of, is_word, seeding_of, Character, Difficulty, Glitching,
    Seeding,
};

verus! {

#[derive(Clone, Copy, Debug, PartialEq, Eq, Structural)]
pub struct Category {
    pub character: Character,
    pub difficulty: Difficulty,
    pub seeding: Seeding,
    pub glitching: Glitching,
}

#[derive(Clone, Copy, Debug, PartialEq, Eq, Structural)]
pub struct Times {
    /// Real-time-attack duration.
    pub rta: Duration,
    /// In-game time, where the report gives it.
    pub igt: Option<Duration>,
}

#[derive(Clone, Copy, Debug, PartialEq, Eq, Structural)]
pub struct Version {
    pub major: u64,
    pub minor: u64,
    /// Zero where the report writes only `major.minor`.
    pub patch: u64,
    pub release: CalendarDate,
}

#[derive(Clone, Copy, Debug, PartialEq, Eq, Structural)]
pub struct Dates {
    pub submission: CalendarDate,
    pub run: CalendarDate,
}

/// Unlock progress: levels in four slots, bosses in three.
#[derive(Clone, Copy, Debug, PartialEq, Eq)]
pub struct Unlocks {
    pub levels: [u64; 4],
    pub bosses: [u64; 3],
}

/// One run, as a report describes it.
#[derive(Clone, Debug, PartialEq, Eq)]
pub struct RunRecord {
    pub category: Category,
    pub times: Times,
    pub version: Version,
    /// Rank on the leaderboard, from 1.
    pub placing: u64,
    pub runner: String,
    pub dates: Dates,
    /// Present exactly when the category is seeded.
    pub seed: Option<String>,
    /// The report layout carries no unlock progress, so a parsed record has none.
    pub unlocks: Option<Unlocks>,
}

/// A `RunRecord` with its strings as character sequences.
pub struct RunModel {
    pub category: Category,
    pub times: Times,
    pub version: Version,
    pub placing: u64,
    pub runner: Seq<char>,
    pub dates: Dates,
    pub seed: Option<Seq<char>>,
    pub unlocks: Option<Unlocks>,
}

impl RunModel {
    /// A positive placing, real calendar dates, and a seed exactly when the run is seeded.
    pub open spec fn wf(self) -> bool {
        &&& self.placing >= 1
        &&& self.version.release.wf()
        &&& self.dates.submission.wf()
        &&& self.dates.run.wf()
        &&& (self.seed is Some <==> self.category.seeding == Seeding::Seeded)
    }
}

impl View for RunRecord {
    type V = RunModel;

    open spec fn view(&self) -> RunModel {
        RunModel {
            category: self.category,
            times: self.times,
            version: self.version,
            placing: self.placing,
            runner: self.runner@,
            dates: self.dates,
            seed: match self.seed {
                Some(s) => Some(s@),
                None => None,
            },
            unlocks: self.unlocks,
        }
    }
}

/// The text with one leading and one trailing space removed, where present.
pub open spec fn strip(s: Seq<char>) -> Seq<char> {
    let a: int = if s.len() > 0 && s[0] == ' ' {
        1
    } else {
        0
    };
    let b: int = if s.len() > a && s.last() == ' ' {
        s.len() - 1
    } else {
        s.len() as int
    };
    s.subrange(a, b)
}

/// Difficulty, seeding and glitch mode from the header words; glitchless where the third is absent.
pub open spec fn header_of(ws: Seq<Seq<char>>) -> Result<(Difficulty, Seeding, Glitching), ParseError> {
    match difficulty_of(ws[0]) {
        Err(e) => Err(e),
        Ok(d) => if ws.len() < 2 {
            Err(ParseError::InvalidSeeding)
        } else {
            match seeding_of(ws[1]) {
                Err(e) => Err(e),
                Ok(s) => if ws.len() == 2 {
                    Ok((d, s, Glitching::Glitchless))
                } else if ws.len() == 3 {
                    match glitching_of(ws[2]) {
                        Err(e) => Err(e),
                        Ok(g) => Ok((d, s, g)),
                    }
                } else {
                    Err(ParseError::InvalidGlitching)
                },
            }
        },
    }
}

/// A placing such as `2nd`: digits, an ordinal suffix, and a value of at least 1.
pub open spec fn ordinal_of(w: Seq<char>) -> Option<u64> {
    if w.len() >= 2 && (w.skip(w.len() - 2) == "st"@ || w.skip(w.len() - 2) == "nd"@ || w.skip(
        w.len() - 2,
    ) == "rd"@ || w.skip(w.len() - 2) == "th"@) && decimal(w.take(w.len() - 2)) is Some && decimal(
        w.take(w.len() - 2),
    )->0 >= 1 {
        decimal(w.take(w.len() - 2))
    } else {
        None
    }
}

/// A version number of two or three dotted components.
pub open spec fn version_of(s: Seq<char>) -> Option<(u64, u64, u64)> {
    let p = split(s, '.');
    if (p.len() == 2 || p.len() == 3) && decimal(p[0]) is Some && decimal(p[1]) is Some {
        if p.len() == 2 {
            Some((decimal(p[0])->0, decimal(p[1])->0, 0))
        } else if decimal(p[2]) is Some {
            Some((decimal(p[0])->0, decimal(p[1])->0, decimal(p[2])->0))
        } else {
            None
        }
    } else {
        None
    }
}

/// What stands between the placing and `"Version: "`: nothing, or an in-game time.
pub open spec fn igt_of(seg: Seq<char>) -> Result<Option<Duration>, ParseError> {
    let x = strip(seg);
    if x.len() == 0 {
        Ok(None)
    } else if x.len() >= 13 && x.take(13) == "In-game time:"@ {
        match duration_of(strip(x.skip(13))) {
            Some(d) => Ok(Some(d)),
            None => Err(ParseError::InvalidDuration(TimeField::Igt)),
        }
    } else {
        Err(ParseError::MissingAnchor(Anchor::InGameTime))
    }
}

/// The seed word after `"Seed: "` at the start of the segment, read only for seeded runs.
pub open spec fn seed_of(seg: Seq<char>, seeding: Seeding) -> Result<Option<Seq<char>>, ParseError> {
    let x = strip(seg);
    if seeding == Seeding::Unseeded {
        Ok(None)
    } else if x.len() >= 6 && x.take(6) == "Seed: "@ && split(x.skip(6), ' ')[0].len() > 0 {
        Ok(Some(split(x.skip(6), ' ')[0]))
    } else {
        Err(ParseError::MissingSeed)
    }
}

/// What the text up to the placing gives; positions index the collapsed text.
#[derive(Clone, Copy, Debug, PartialEq, Eq, Structural)]
pub struct Head {
    pub difficulty: Difficulty,
    pub seeding: Seeding,
    pub glitching: Glitching,
    pub character: Character,
    pub rta: Duration,
    pub runner_start: usize,
    pub runner_end: usize,
    pub placing: u64,
    /// Just past `" place"`.
    pub end: usize,
}

/// What the text from the placing through the release date gives.
#[derive(Clone, Copy, Debug, PartialEq, Eq, Structural)]
pub struct Middle {
    pub igt: Option<Duration>,
    pub major: u64,
    pub minor: u64,
    pub patch: u64,
    pub release: CalendarDate,
    /// Just past the release date.
    pub end: usize,
}

/// Header, character, real-time duration, runner and placing, in that order.
pub open spec fn head_of(t: Seq<char>) -> Result<Head, ParseError> {
    match find(t, " - "@, 0) {
        None => Err(ParseError::MissingAnchor(Anchor::Dash)),
        Some(p1) => match header_of(split(t.take(p1), ' ')) {
            Err(e) => Err(e),
            Ok((d, s, g)) => match find(t, " in "@, p1 + 3) {
                None => Err(ParseError::MissingAnchor(Anchor::In)),
                Some(p2) => match character_of(t.subrange(p1 + 3, p2)) {
                    Err(e) => Err(e),
                    Ok(c) => match find(t, " by "@, p2 + 4) {
                        None => Err(ParseError::MissingAnchor(Anchor::By)),
                        Some(p3) => match duration_of(t.subrange(p2 + 4, p3)) {
                            None => Err(ParseError::InvalidDuration(TimeField::Rta)),
                            Some(rta) => match find(t, " - "@, p3 + 4) {
                                None => Err(ParseError::MissingAnchor(Anchor::Dash)),
                                Some(p4) => match find(t, " place"@, p4 + 3) {
                                    None => Err(ParseError::MissingAnchor(Anchor::Place)),
                                    Some(p5) => match ordinal_of(
                                        split(t.subrange(p4 + 3, p5), ' ').last(),
                                    ) {
                                        None => Err(ParseError::InvalidPlacing),
                                        Some(placing) => Ok(
                                            Head {
                                                difficulty: d,
                                                seeding: s,
                                                glitching: g,
                                                character: c,
                                                rta,
                                                runner_start: (p3 + 4) as usize,
                                                runner_end: p4 as usize,
                                                placing,
                                                end: (p5 + 6) as usize,
                                            },
                                        ),
                                    },
                                },
                            },
                        },
                    },
                },
            },
        },
    }
}

/// Optional in-game time, version number and release date, from index `from` on.
pub open spec fn middle_of(t: Seq<char>, from: int) -> Result<Middle, ParseError> {
    match find(t, "Version: "@, from) {
        None => Err(ParseError::MissingAnchor(Anchor::Version)),
        Some(p6) => match igt_of(t.subrange(from, p6)) {
            Err(e) => Err(e),
            Ok(igt) => match find(t, " "@, p6 + 9) {
                None => Err(ParseError::MissingAnchor(Anchor::ReleaseDate)),
                Some(p7) => match version_of(t.subrange(p6 + 9, p7)) {
                    None => Err(ParseError::InvalidVersion),
                    Some((major, minor, patch)) => if p7 + 11 > t.len() {
                        Err(ParseError::InvalidDate(DateField::Release))
                    } else {
                        match us_date(t.subrange(p7 + 1, p7 + 11)) {
                            None => Err(ParseError::InvalidDate(DateField::Release)),
                            Some(release) => Ok(
                                Middle { igt, major, minor, patch, release, end: (p7 + 11) as usize },
                            ),
                        }
                    },
                },
            },
        },
    }
}

/// Submission date and run date, from index `from` (past `"Submitted by:"`) on.
pub open spec fn dates_of(t: Seq<char>, from: int) -> Result<Dates, ParseError> {
    match find(t, " on "@, from) {
        None => Err(ParseError::MissingAnchor(Anchor::On)),
        Some(q1) => if q1 + 14 > t.len() {
            Err(ParseError::InvalidDate(DateField::Submission))
        } else {
            match iso_date(t.subrange(q1 + 4, q1 + 14)) {
                None => Err(ParseError::InvalidDate(DateField::Submission)),
                Some(submission) => match find(t, "Played on:"@, q1 + 14) {
                    None => Err(ParseError::MissingAnchor(Anchor::PlayedOn)),
                    Some(q2) => match find(t, " on "@, q2 + 10) {
                        None => Err(ParseError::MissingAnchor(Anchor::On)),
                        Some(q3) => if q3 + 14 > t.len() {
                            Err(ParseError::InvalidDate(DateField::Run))
                        } else {
                            match iso_date(t.subrange(q3 + 4, q3 + 14)) {
                                None => Err(ParseError::InvalidDate(DateField::Run)),
                                Some(run) => Ok(Dates { submission, run }),
                            }
                        },
                    },
                },
            }
        },
    }
}

/// Where the notes block starts: the first `"Notes:"` from `from` that ends by `ps`, else `ps`.
pub open spec fn notes_at(t: Seq<char>, from: int, ps: int) -> int {
    match find(t, "Notes:"@, from) {
        Some(k) => if k + 6 <= ps {
            k
        } else {
            ps
        },
        None => ps,
    }
}

/// The record that the collapsed report `t` describes, or its first failure.
///
/// The notes run from `"Notes:"` to the *last* `"Submitted by:"` of the text and are never
/// searched, so anchor-like text inside them cannot move a field boundary. A seed is read only
/// between the release date and the notes.
pub open spec fn record_of(t: Seq<char>) -> Result<RunModel, ParseError> {
    match head_of(t) {
        Err(e) => Err(e),
        Ok(h) => match middle_of(t, h.end as int) {
            Err(e) => Err(e),
            Ok(m) => match rfind(t, "Submitted by:"@, t.len() as int) {
                None => Err(ParseError::MissingAnchor(Anchor::SubmittedBy)),
                Some(ps) => if ps < m.end {
                    Err(ParseError::MissingAnchor(Anchor::SubmittedBy))
                } else {
                    match seed_of(t.subrange(m.end as int, notes_at(t, m.end as int, ps)), h.seeding) {
                        Err(e) => Err(e),
                        Ok(seed) => match dates_of(t, ps + 13) {
                            Err(e) => Err(e),
                            Ok(dates) => Ok(
                                RunModel {
                                    category: Category {
                                        character: h.character,
                                        difficulty: h.difficulty,
                                        seeding: h.seeding,
                                        glitching: h.glitching,
                                    },
                                    times: Times { rta: h.rta, igt: m.igt },
                                    version: Version {
                                        major: m.major,
                                        minor: m.minor,
                                        patch: m.patch,
                                        release: m.release,
                                    },
                                    placing: h.placing,
                                    runner: t.subrange(h.runner_start as int, h.runner_end as int),
                                    dates,
                                    seed,
                                    unlocks: None,
                                },
                            ),
                        },
                    }
                },
            },
        },
    }
}

/// The span of the notes' content in a collapsed report: from just past `"Notes:"` to the
/// `"Submitted by:"` that ends the notes.
pub open spec fn notes_content(t: Seq<char>) -> Option<(int, int)> {
    match head_of(t) {
        Ok(h) => match middle_of(t, h.end as int) {
            Ok(m) => match rfind(t, "Submitted by:"@, t.len() as int) {
                Some(ps) => match find(t, "Notes:"@, m.end as int) {
                    Some(k) => if m.end <= ps && k + 6 <= ps {
                        Some((k + 6, ps))
                    } else {
                        None
                    },
                    None => None,
                },
                None => None,
            },
            Err(_) => None,
        },
        Err(_) => None,
    }
}

/// The record that a raw report describes: its whitespace collapsed, then read by `record_of`.
pub open spec fn report_of(text: Seq<char>) -> Result<RunModel, ParseError> {
    record_of(collapse(text))
}

fn strip_spaces(s: &Vec<char>) -> (r: Vec<char>)
    ensures
        r@ == strip(s@),
{
    let a: usize = if s.len() > 0 && s[0] == ' ' {
        1
    } else {
        0
    };
    let b: usize = if s.len() > a && s[s.len() - 1] == ' ' {
        s.len() - 1
    } else {
        s.len()
    };
    span(s, a, b)
}

fn parse_header(ws: &Vec<Vec<char>>) -> (r: Result<(Difficulty, Seeding, Glitching), ParseError>)
    requires
        ws@.len() >= 1,
    ensures
        r == header_of(ws@.map_values(|v: Vec<char>| v@)),
{
    let ghost wv = ws@.map_values(|v: Vec<char>| v@);
    assert(wv.len() == ws@.len());
    assert(wv[0] == ws@[0]@);
    let d = match Difficulty::from_chars(&ws[0]) {
        Ok(d) => d,
        Err(e) => return Err(e),
    };
    if ws.len() < 2 {
        return Err(ParseError::InvalidSeeding);
    }
    assert(wv[1] == ws@[1]@);
    let s = match Seeding::from_chars(&ws[1]) {
        Ok(s) => s,
        Err(e) => return Err(e),
    };
    if ws.len() == 2 {
        Ok((d, s, Glitching::Glitchless))
    } else if ws.len() == 3 {
        assert(wv[2] == ws@[2]@);
        match Glitching::from_chars(&ws[2]) {
            Ok(g) => Ok((d, s, g)),
            Err(e) => Err(e),
        }
    } else {
        Err(ParseError::InvalidGlitching)
    }
}

fn parse_ordinal(w: &Vec<char>) -> (r: Option<u64>)
    ensures
        r == ordinal_of(w@),
{
    let n = w.len();
    if n < 2 {
        return None;
    }
    let suffix = span(w, n - 2, n);
    assert(suffix@ =~= w@.skip(n - 2));
    if !(is_word(&suffix, "st") || is_word(&suffix, "nd") || is_word(&suffix, "rd") || is_word(
        &suffix,
        "th",
    )) {
        return None;
    }
    let digits = span(w, 0, n - 2);
    assert(digits@ =~= w@.take(n - 2));
    match parse_decimal(&digits) {
        Some(v) => if v >= 1 {
            Some(v)
        } else {
            None
        },
        None => None,
    }
}

fn parse_version(s: &Vec<char>) -> (r: Option<(u64, u64, u64)>)
    ensures
        r == version_of(s@),
{
    let p = split_at_char(s, '.');
    let ghost pv = p@.map_values(|v: Vec<char>| v@);
    assert(pv.len() == p@.len());
    if p.len() != 2 && p.len() != 3 {
        return None;
    }
    assert(pv[0] == p@[0]@ && pv[1] == p@[1]@);
    let major = match parse_decimal(&p[0]) {
        Some(v) => v,
        None => return None,
    };
    let minor = match parse_decimal(&p[1]) {
        Some(v) => v,
        None => return None,
    };
    if p.len() == 2 {
        return Some((major, minor, 0));
    }
    assert(pv[2] == p@[2]@);
    match parse_decimal(&p[2]) {
        Some(patch) => Some((major, minor, patch)),
        None => None,
    }
}

fn parse_igt(seg: &Vec<char>) -> (r: Result<Option<Duration>, ParseError>)
    ensures
        r == igt_of(seg@),
{
    let x = strip_spaces(seg);
    if x.len() == 0 {
        return Ok(None);
    }
    if x.len() < 13 {
        return Err(ParseError::MissingAnchor(Anchor::InGameTime));
    }
    let label = span(&x, 0, 13);
    assert(label@ =~= x@.take(13));
    if !is_word(&label, "In-game time:") {
        return Err(ParseError::MissingAnchor(Anchor::InGameTime));
    }
    let rest = span(&x, 13, x.len());
    assert(rest@ =~= x@.skip(13));
    let body = strip_spaces(&rest);
    match Duration::parse(&body) {
        Some(d) => Ok(Some(d)),
        None => Err(ParseError::InvalidDuration(TimeField::Igt)),
    }
}

fn parse_seed(seg: &Vec<char>, seeding: Seeding) -> (r: Result<Option<Vec<char>>, ParseError>)
    ensures
        match r {
            Ok(Some(v)) => seed_of(seg@, seeding) == Ok::<_, ParseError>(Some(v@)),
            Ok(None) => seed_of(seg@, seeding) == Ok::<_, ParseError>(None::<Seq<char>>),
            Err(e) => seed_of(seg@, seeding) == Err::<Option<Seq<char>>, _>(e),
        },
{
    if seeding == Seeding::Unseeded {
        return Ok(None);
    }
    let x = strip_spaces(seg);
    if x.len() < 6 {
        return Err(ParseError::MissingSeed);
    }
    let label = span(&x, 0, 6);
    assert(label@ =~= x@.take(6));
    if !is_word(&label, "Seed: ") {
        return Err(ParseError::MissingSeed);
    }
    let rest = span(&x, 6, x.len());
    assert(rest@ =~= x@.skip(6));
    let mut words = split_at_char(&rest, ' ');
    proof {
        lemma_split_nonempty(rest@, ' ');
    }
    let ghost wv = words@.map_values(|v: Vec<char>| v@);
    assert(wv[0] == words@[0]@);
    let first = words.swap_remove(0);
    if first.len() == 0 {
        return Err(ParseError::MissingSeed);
    }
    Ok(Some(first))
}

fn parse_head(t: &Vec<char>) -> (r: Result<Head, ParseError>)
    ensures
        r == head_of(t@),
        r matches Ok(h) ==> h.runner_start <= h.runner_end <= h.end <= t@.len(),
{
    let dash = chars_of(" - ");
    let in_ = chars_of(" in ");
    let by = chars_of(" by ");
    let place = chars_of(" place");
    proof {
        reveal_strlit(" - ");
        reveal_strlit(" in ");
        reveal_strlit(" by ");
        reveal_strlit(" place");
        assert(dash@.len() == 3 && in_@.len() == 4 && by@.len() == 4 && place@.len() == 6);
    }
    let p1 = match find_from(t, &dash, 0) {
        Some(k) => k,
        None => return Err(ParseError::MissingAnchor(Anchor::Dash)),
    };
    let header = span(t, 0, p1);
    assert(header@ =~= t@.take(p1 as int));
    let words = split_at_char(&header, ' ');
    proof {
        lemma_split_nonempty(header@, ' ');
    }
    let (d, s, g) = match parse_header(&words) {
        Ok(x) => x,
        Err(e) => return Err(e),
    };
    let p2 = match find_from(t, &in_, p1 + 3) {
        Some(k) => k,
        None => return Err(ParseError::MissingAnchor(Anchor::In)),
    };
    let c = match Character::from_chars(&span(t, p1 + 3, p2)) {
        Ok(c) => c,
        Err(e) => return Err(e),
    };
    let p3 = match find_from(t, &by, p2 + 4) {
        Some(k) => k,
        None => return Err(ParseError::MissingAnchor(Anchor::By)),
    };
    let rta = match Duration::parse(&span(t, p2 + 4, p3)) {
        Some(x) => x,
        None => return Err(ParseError::InvalidDuration(TimeField::Rta)),
    };
    let p4 = match find_from(t, &dash, p3 + 4) {
        Some(k) => k,
        None => return Err(ParseError::MissingAnchor(Anchor::Dash)),
    };
    let p5 = match find_from(t, &place, p4 + 3) {
        Some(k) => k,
        None => return Err(ParseError::MissingAnchor(Anchor::Place)),
    };
    let mut placing_words = split_at_char(&span(t, p4 + 3, p5), ' ');
    proof {
        lemma_split_nonempty(t@.subrange(p4 + 3, p5 as int), ' ');
    }
    let ghost pv = placing_words@.map_values(|v: Vec<char>| v@);
    assert(pv.last() == placing_words@.last()@);
    let last = placing_words.pop().unwrap();
    let placing = match parse_ordinal(&last) {
        Some(v) => v,
        None => return Err(ParseError::InvalidPlacing),
    };
    Ok(
        Head {
            difficulty: d,
            seeding: s,
            glitching: g,
            character: c,
            rta,
            runner_start: p3 + 4,
            runner_end: p4,
            placing,
            end: p5 + 6,
        },
    )
}

fn parse_middle(t: &Vec<char>, from: usize) -> (r: Result<Middle, ParseError>)
    requires
        from <= t@.len(),
    ensures
        r == middle_of(t@, from as int),
        r matches Ok(m) ==> from <= m.end <= t@.len(),
{
    let version = chars_of("Version: ");
    let space = chars_of(" ");
    proof {
        reveal_strlit("Version: ");
        reveal_strlit(" ");
        assert(version@.len() == 9 && space@.len() == 1);
    }
    let p6 = match find_from(t, &version, from) {
        Some(k) => k,
        None => return Err(ParseError::MissingAnchor(Anchor::Version)),
    };
    let igt = match parse_igt(&span(t, from, p6)) {
        Ok(x) => x,
        Err(e) => return Err(e),
    };
    let p7 = match find_from(t, &space, p6 + 9) {
        Some(k) => k,
        None => return Err(ParseError::MissingAnchor(Anchor::ReleaseDate)),
    };
    let (major, minor, patch) = match parse_version(&span(t, p6 + 9, p7)) {
        Some(x) => x,
        None => return Err(ParseError::InvalidVersion),
    };
    if t.len() - p7 < 11 {
        return Err(ParseError::InvalidDate(DateField::Release));
    }
    let release = match CalendarDate::parse_us(&span(t, p7 + 1, p7 + 11)) {
        Some(x) => x,
        None => return Err(ParseError::InvalidDate(DateField::Release)),
    };
    Ok(Middle { igt, major, minor, patch, release, end: p7 + 11 })
}

fn parse_dates(t: &Vec<char>, from: usize) -> (r: Result<Dates, ParseError>)
    ensures
        r == dates_of(t@, from as int),
{
    let on = chars_of(" on ");
    let played = chars_of("Played on:");
    proof {
        reveal_strlit(" on ");
        reveal_strlit("Played on:");
        assert(on@.len() == 4 && played@.len() == 10);
    }
    let q1 = match find_from(t, &on, from) {
        Some(k) => k,
        None => return Err(ParseError::MissingAnchor(Anchor::On)),
    };
    if t.len() - q1 < 14 {
        return Err(ParseError::InvalidDate(DateField::Submission));
    }
    let submission = match CalendarDate::parse_iso(&span(t, q1 + 4, q1 + 14)) {
        Some(x) => x,
        None => return Err(ParseError::InvalidDate(DateField::Submission)),
    };
    let q2 = match find_from(t, &played, q1 + 14) {
        Some(k) => k,
        None => return Err(ParseError::MissingAnchor(Anchor::PlayedOn)),
    };
    let q3 = match find_from(t, &on, q2 + 10) {
        Some(k) => k,
        None => return Err(ParseError::MissingAnchor(Anchor::On)),
    };
    if t.len() - q3 < 14 {
        return Err(ParseError::InvalidDate(DateField::Run));
    }
    let run = match CalendarDate::parse_iso(&span(t, q3 + 4, q3 + 14)) {
        Some(x) => x,
        None => return Err(ParseError::InvalidDate(DateField::Run)),
    };
    Ok(Dates { submission, run })
}

/// Reads a report whose whitespace is already collapsed.
pub fn parse_collapsed(t: &Vec<char>) -> (r: Result<RunRecord, ParseError>)
    ensures
        match r {
            Ok(rec) => record_of(t@) == Ok::<_, ParseError>(rec@),
            Err(e) => record_of(t@) == Err::<RunModel, _>(e),
        },
{
    let submitted = chars_of("Submitted by:");
    let notes = chars_of("Notes:");
    proof {
        reveal_strlit("Submitted by:");
        reveal_strlit("Notes:");
        assert(submitted@.len() == 13 && notes@.len() == 6);
    }
    let h = match parse_head(t) {
        Ok(h) => h,
        Err(e) => return Err(e),
    };
    let m = match parse_middle(t, h.end) {
        Ok(m) => m,
        Err(e) => return Err(e),
    };
    let ps = match rfind_last(t, &submitted) {
        Some(k) => k,
        None => return Err(ParseError::MissingAnchor(Anchor::SubmittedBy)),
    };
    if ps < m.end {
        return Err(ParseError::MissingAnchor(Anchor::SubmittedBy));
    }
    let n = match find_from(t, &notes, m.end) {
        Some(k) => if k + 6 <= ps {
            k
        } else {
            ps
        },
        None => ps,
    };
    let seed = match parse_seed(&span(t, m.end, n), h.seeding) {
        Ok(Some(v)) => Some(string_of(&v)),
        Ok(None) => None,
        Err(e) => return Err(e),
    };
    let dates = match parse_dates(t, ps + 13) {
        Ok(d) => d,
        Err(e) => return Err(e),
    };
    let runner = string_of(&span(t, h.runner_start, h.runner_end));
    let rec = RunRecord {
        category: Category {
            character: h.character,
            difficulty: h.difficulty,
            seeding: h.seeding,
            glitching: h.glitching,
        },
        times: Times { rta: h.rta, igt: m.igt },
        version: Version { major: m.major, minor: m.minor, patch: m.patch, release: m.release },
        placing: h.placing,
        runner,
        dates,
        seed,
        unlocks: None,
    };
    Ok(rec)
}

/// Reads one report: collapses its whitespace, then locates each anchor in order.
pub fn parse(text: &str) -> (r: Result<RunRecord, ParseError>)
    ensures
        match r {
            Ok(rec) => report_of(text@) == Ok::<_, ParseError>(rec@),
            Err(e) => report_of(text@) == Err::<RunModel, _>(e),
        },
        r matches Ok(rec) ==> rec@.wf(),
{
    let raw = chars_of(text);
    let t = normalize(&raw);
    parse_collapsed(&t)
}

} // verus!
