//! Properties of the extractor as a whole.
use vstd::prelude::*;
use crate::error::ParseError;
use crate::record::{dates_of, head_of, middle_of, notes_content, record_of, report_of, RunRecord};
use crate::duration::{duration_of, unit_value, Duration};
use crate::text::{
    all_digits, decimal, is_digit, lemma_split_join, lemma_split_single, split, find, lemma_find_prefix, lemma_find_shift, lemma_find_some, lemma_occurs_shift,
    lemma_rfind_is, lemma_rfind_some, occurs_at, rfind,
};
use crate::vocab::{
    character_of, difficulty_of, glitching_of, seeding_of, Character, Difficulty, Glitching,
    Seeding,
};

verus! {

/// Reading one text twice gives equal records: the result depends on the text alone.
pub proof fn parse_is_deterministic(text: Seq<char>, a: RunRecord, b: RunRecord)
    requires
        report_of(text) == Ok::<_, ParseError>(a@),
        report_of(text) == Ok::<_, ParseError>(b@),
    ensures
        a@ == b@,
{
}

/// Each vocabulary rejects every word outside its accepted literals with its own error.
pub proof fn vocabularies_reject_unknown_words(w: Seq<char>)
    ensures
        (w != "Ironclad"@ && w != "Silent"@ && w != "Defect"@ && w != "Watcher"@ && w
            != "4-Character"@) <==> character_of(w) == Err::<Character, _>(
            ParseError::InvalidCharacter,
        ),
        (w != "Any%"@ && w != "Ascension-20"@) <==> difficulty_of(w) == Err::<Difficulty, _>(
            ParseError::InvalidDifficulty,
        ),
        (w != "Unseeded"@ && w != "Seeded"@) <==> seeding_of(w) == Err::<Seeding, _>(
            ParseError::InvalidSeeding,
        ),
        (w != "Glitchless"@ && w != "Glitched"@) <==> glitching_of(w) == Err::<Glitching, _>(
            ParseError::InvalidGlitching,
        ),
{
}

/// A record read from any text has a seed exactly when its category is seeded.
pub proof fn seed_present_iff_seeded(text: Seq<char>)
    ensures
        report_of(text) matches Ok(m) ==> (m.seed is Some <==> m.category.seeding
            == Seeding::Seeded),
{
}

/// A record read from any text is well formed: positive placing, real dates, seed as seeded.
pub proof fn parsed_records_are_well_formed(text: Seq<char>)
    ensures
        report_of(text) matches Ok(m) ==> m.wf(),
{
}


proof fn lemma_prefix_find(t: Seq<char>, t2: Seq<char>, p: Seq<char>, from: int, i: int)
    requires
        i <= t.len(),
        i <= t2.len(),
        t.take(i) == t2.take(i),
        find(t, p, from) is Some,
        find(t, p, from)->0 + p.len() <= i,
    ensures
        find(t2, p, from) == find(t, p, from),
        from <= find(t, p, from)->0,
{
    let e = find(t, p, from)->0 + p.len();
    lemma_find_some(t, p, from);
    assert(t.take(e) =~= t.take(i).take(e));
    assert(t2.take(e) =~= t2.take(i).take(e));
    lemma_find_prefix(t, t2, p, from);
}

proof fn lemma_prefix_sub(t: Seq<char>, t2: Seq<char>, i: int, x: int, y: int)
    requires
        i <= t.len(),
        i <= t2.len(),
        t.take(i) == t2.take(i),
        0 <= x <= y <= i,
    ensures
        t2.subrange(x, y) == t.subrange(x, y),
{
    assert(t.subrange(x, y) =~= t.take(i).subrange(x, y));
    assert(t2.subrange(x, y) =~= t2.take(i).subrange(x, y));
}

proof fn lemma_head_prefix(t: Seq<char>, t2: Seq<char>, i: int)
    requires
        head_of(t) is Ok,
        head_of(t)->Ok_0.end <= i <= t.len() <= usize::MAX,
        i <= t2.len(),
        t.take(i) == t2.take(i),
    ensures
        head_of(t2) == head_of(t),
        head_of(t)->Ok_0.runner_start <= head_of(t)->Ok_0.runner_end <= head_of(t)->Ok_0.end,
{
    reveal_strlit(" - ");
    reveal_strlit(" in ");
    reveal_strlit(" by ");
    reveal_strlit(" place");
    let p1 = find(t, " - "@, 0)->0;
    let p2 = find(t, " in "@, p1 + 3)->0;
    let p3 = find(t, " by "@, p2 + 4)->0;
    let p4 = find(t, " - "@, p3 + 4)->0;
    let p5 = find(t, " place"@, p4 + 3)->0;
    lemma_find_some(t, " - "@, 0);
    lemma_find_some(t, " in "@, p1 + 3);
    lemma_find_some(t, " by "@, p2 + 4);
    lemma_find_some(t, " - "@, p3 + 4);
    lemma_find_some(t, " place"@, p4 + 3);
    lemma_prefix_find(t, t2, " - "@, 0, i);
    lemma_prefix_find(t, t2, " in "@, p1 + 3, i);
    lemma_prefix_find(t, t2, " by "@, p2 + 4, i);
    lemma_prefix_find(t, t2, " - "@, p3 + 4, i);
    lemma_prefix_find(t, t2, " place"@, p4 + 3, i);
    lemma_prefix_sub(t, t2, i, 0, p1);
    assert(t.take(p1) == t.subrange(0, p1));
    assert(t2.take(p1) == t2.subrange(0, p1));
    lemma_prefix_sub(t, t2, i, p1 + 3, p2);
    lemma_prefix_sub(t, t2, i, p2 + 4, p3);
    lemma_prefix_sub(t, t2, i, p4 + 3, p5);
}

proof fn lemma_middle_prefix(t: Seq<char>, t2: Seq<char>, from: int, i: int)
    requires
        0 <= from,
        middle_of(t, from) is Ok,
        middle_of(t, from)->Ok_0.end <= i <= t.len() <= usize::MAX,
        i <= t2.len(),
        t.take(i) == t2.take(i),
    ensures
        middle_of(t2, from) == middle_of(t, from),
        from <= middle_of(t, from)->Ok_0.end,
{
    reveal_strlit("Version: ");
    reveal_strlit(" ");
    let p6 = find(t, "Version: "@, from)->0;
    let p7 = find(t, " "@, p6 + 9)->0;
    lemma_find_some(t, "Version: "@, from);
    lemma_find_some(t, " "@, p6 + 9);
    lemma_prefix_find(t, t2, "Version: "@, from, i);
    lemma_prefix_find(t, t2, " "@, p6 + 9, i);
    lemma_prefix_sub(t, t2, i, from, p6);
    lemma_prefix_sub(t, t2, i, p6 + 9, p7);
    lemma_prefix_sub(t, t2, i, p7 + 1, p7 + 11);
}

proof fn lemma_dates_shift(t: Seq<char>, t2: Seq<char>, from: int, c: int, d: int)
    requires
        0 <= c <= from,
        c <= t.len(),
        0 <= c + d <= t2.len(),
        t.skip(c) == t2.skip(c + d),
    ensures
        dates_of(t2, from + d) == dates_of(t, from),
{
    reveal_strlit(" on ");
    reveal_strlit("Played on:");
    assert(t.skip(c).len() == t.len() - c);
    assert(t2.skip(c + d).len() == t2.len() - (c + d));
    lemma_find_shift(t, t2, " on "@, from, c, d);
    lemma_find_some(t, " on "@, from);
    if let Some(q1) = find(t, " on "@, from) {
        if q1 + 14 <= t.len() {
            lemma_sub_shift(t, t2, q1 + 4, q1 + 14, c, d);
            lemma_find_shift(t, t2, "Played on:"@, q1 + 14, c, d);
            lemma_find_some(t, "Played on:"@, q1 + 14);
            if let Some(q2) = find(t, "Played on:"@, q1 + 14) {
                lemma_find_shift(t, t2, " on "@, q2 + 10, c, d);
                lemma_find_some(t, " on "@, q2 + 10);
                if let Some(q3) = find(t, " on "@, q2 + 10) {
                    if q3 + 14 <= t.len() {
                        lemma_sub_shift(t, t2, q3 + 4, q3 + 14, c, d);
                    }
                }
            }
        }
    }
}

proof fn lemma_sub_shift(t: Seq<char>, t2: Seq<char>, x: int, y: int, c: int, d: int)
    requires
        0 <= c <= x <= y <= t.len(),
        0 <= c + d <= t2.len(),
        t.skip(c) == t2.skip(c + d),
    ensures
        t2.subrange(x + d, y + d) == t.subrange(x, y),
{
    assert(t.skip(c).len() == t.len() - c);
    assert(t2.skip(c + d).len() == t2.len() - (c + d));
    let a = t2.subrange(x + d, y + d);
    let b = t.subrange(x, y);
    assert forall|j: int| 0 <= j < y - x implies #[trigger] a[j] == b[j] by {
        assert(t2.skip(c + d)[x - c + j] == t.skip(c)[x - c + j]);
        assert(t2.skip(c + d)[x - c + j] == t2[x + d + j]);
        assert(t.skip(c)[x - c + j] == t[x + j]);
    }
    assert(a =~= b);
}

/// Any text inserted into the content of the notes, anchor-like text such as
/// `"Submitted by:"` included, leaves the record read from the report as it was.
#[verifier::rlimit(50)]
pub proof fn notes_are_opaque(t: Seq<char>, s: Seq<char>, i: int)
    requires
        t.len() <= usize::MAX,
        record_of(t) is Ok,
        notes_content(t) matches Some((a, b)) && a <= i <= b,
    ensures
        record_of(t.take(i) + s + t.skip(i)) == record_of(t),
{
    reveal_strlit("Submitted by:");
    reveal_strlit("Notes:");
    let t2 = t.take(i) + s + t.skip(i);
    let sb = "Submitted by:"@;
    let h = head_of(t)->Ok_0;
    let m = middle_of(t, h.end as int)->Ok_0;
    let ps = rfind(t, sb, t.len() as int)->0;
    let k = find(t, "Notes:"@, m.end as int)->0;
    lemma_rfind_some(t, sb, t.len() as int);
    lemma_find_some(t, "Notes:"@, m.end as int);
    assert(t2.take(i) =~= t.take(i));
    assert(t2.skip(i + s.len()) =~= t.skip(i));
    assert(t2.len() == t.len() + s.len());
    lemma_middle_prefix(t, t2, h.end as int, i);
    lemma_head_prefix(t, t2, i);
    // The last "Submitted by:" moves by the inserted length.
    let ps2 = ps + s.len();
    lemma_occurs_shift(t, t2, sb, ps, i, s.len() as int);
    assert forall|j: int| ps2 < j <= t2.len() implies !occurs_at(t2, sb, j) by {
        lemma_occurs_shift(t, t2, sb, j - s.len(), i, s.len() as int);
    }
    lemma_rfind_is(t2, sb, t2.len() as int, ps2);
    lemma_prefix_find(t, t2, "Notes:"@, m.end as int, i);
    lemma_prefix_sub(t, t2, i, m.end as int, k);
    lemma_prefix_sub(t, t2, i, h.runner_start as int, h.runner_end as int);
    lemma_dates_shift(t, t2, ps + 13, i, s.len() as int);
}


proof fn lemma_digit_word(d: Seq<char>, u: Seq<char>)
    requires
        all_digits(d),
        u.len() > 0,
        !is_digit(u[0]),
    ensures
        unit_value(d + u, u) == decimal(d),
        forall|i: int| 0 <= i < d.len() ==> #[trigger] d[i] != ' ',
{
    let w = d + u;
    assert(w.skip(w.len() - u.len()) =~= u);
    assert(w.take(w.len() - u.len()) =~= d);
    assert forall|i: int| 0 <= i < d.len() implies #[trigger] d[i] != ' ' by {
        assert(is_digit(d[i]));
    }
}

/// Minutes and seconds are read as written, with no carrying past 59: `Mm Ns` gives
/// minute `M` and second `N`.
pub proof fn minutes_and_seconds_as_written(m: Seq<char>, s: Seq<char>)
    requires
        decimal(m) is Some,
        decimal(s) is Some,
    ensures
        duration_of(m + "m"@ + seq![' '] + s + "s"@) == Some(
            Duration { hour: 0, minute: decimal(m)->0, second: decimal(s)->0, millisecond: 0 },
        ),
{
    reveal_strlit("m");
    reveal_strlit("s");
    reveal_strlit("ms");
    let wm = m + "m"@;
    let ws = s + "s"@;
    lemma_digit_word(m, "m"@);
    lemma_digit_word(s, "s"@);
    lemma_split_single(wm, ' ');
    lemma_split_single(ws, ' ');
    lemma_split_join(wm, ws, ' ');
    assert(m + "m"@ + seq![' '] + s + "s"@ =~= wm + seq![' '] + ws);
    let words = split(wm + seq![' '] + ws, ' ');
    assert(words =~= seq![wm, ws]);
    assert(ws.skip(ws.len() - 2)[0] == s.last());
    assert(unit_value(ws, "ms"@) is None);
}

/// A number without its unit fails: `M Ns` is no duration.
pub proof fn missing_unit_is_rejected(m: Seq<char>, s: Seq<char>)
    requires
        decimal(m) is Some,
        decimal(s) is Some,
    ensures
        duration_of(m + seq![' '] + s + "s"@) is None,
{
    reveal_strlit("m");
    reveal_strlit("s");
    reveal_strlit("ms");
    let ws = s + "s"@;
    lemma_digit_word(s, "s"@);
    assert forall|i: int| 0 <= i < m.len() implies #[trigger] m[i] != ' ' by {
        assert(is_digit(m[i]));
    }
    lemma_split_single(m, ' ');
    lemma_split_single(ws, ' ');
    lemma_split_join(m, ws, ' ');
    assert(m + seq![' '] + s + "s"@ =~= m + seq![' '] + ws);
    let words = split(m + seq![' '] + ws, ' ');
    assert(words =~= seq![m, ws]);
    assert(ws.skip(ws.len() - 2)[0] == s.last());
    assert(unit_value(ws, "ms"@) is None);
    assert(is_digit(m.last()));
    assert(m.skip(m.len() - 1)[0] == m.last());
    assert(unit_value(m, "m"@) is None);
}

} // verus!
