//! The settings source: a line-oriented text with `exclude:` lines (one
//! path each, repeatable) and a `frequency:` line (last occurrence wins).
//! Unknown lines are ignored, and an absent or unrecognized frequency
//! falls back to daily.

use vstd::prelude::*;
use vstd::string::StringExecFns;
use crate::text::{
    chars_starts_with, spec_lines, spec_trim, split_lines, str_eq, to_char_vec, trim_from,
};

verus! {

/// How often the automatic backup runs.
#[derive(Clone, Copy, Debug, PartialEq, Eq, Structural)]
pub enum Frequency {
    Hourly,
    Weekly,
    Daily,
}

/// A line that names an excluded path.
pub open spec fn is_exclude_line(l: Seq<char>) -> bool {
    l.len() >= "exclude:"@.len() && l.subrange(0, "exclude:"@.len() as int) == "exclude:"@
}

/// A line that names the backup frequency.
pub open spec fn is_frequency_line(l: Seq<char>) -> bool {
    l.len() >= "frequency:"@.len() && l.subrange(0, "frequency:"@.len() as int) == "frequency:"@
}

/// Folds the recognized lines left to right: every `exclude:` value is
/// collected in order, and the last `frequency:` value wins.
pub open spec fn spec_settings_fold(
    lines: Seq<Seq<char>>,
    excluded: Seq<Seq<char>>,
    frequency: Seq<char>,
) -> (Seq<Seq<char>>, Seq<char>)
    decreases lines.len(),
{
    if lines.len() == 0 {
        (excluded, frequency)
    } else if is_exclude_line(lines[0]) {
        spec_settings_fold(
            lines.skip(1),
            excluded.push(spec_trim(lines[0].skip("exclude:"@.len() as int))),
            frequency,
        )
    } else if is_frequency_line(lines[0]) {
        spec_settings_fold(
            lines.skip(1),
            excluded,
            spec_trim(lines[0].skip("frequency:"@.len() as int)),
        )
    } else {
        spec_settings_fold(lines.skip(1), excluded, frequency)
    }
}

/// What a settings text means: the excluded paths in order of appearance,
/// and the frequency value, `daily` when no line sets one.
pub open spec fn spec_settings(s: Seq<char>) -> (Seq<Seq<char>>, Seq<char>) {
    spec_settings_fold(spec_lines(s), Seq::empty(), "daily"@)
}

/// The frequency that a settings value selects; anything unrecognized
/// degrades to daily.
pub open spec fn spec_frequency(value: Seq<char>) -> Frequency {
    if value == "hourly"@ {
        Frequency::Hourly
    } else if value == "weekly"@ {
        Frequency::Weekly
    } else {
        Frequency::Daily
    }
}

/// Parses a settings text into the excluded paths and the raw frequency
/// value, exactly as `spec_settings` reads it.
pub fn load_init_settings(content: &str) -> (r: (Vec<String>, String))
    ensures
        r.0@.map_values(|p: String| p@) == spec_settings(content@).0,
        r.1@ == spec_settings(content@).1,
{
    let chars = to_char_vec(content);
    let lines = split_lines(&chars);
    let mut excluded: Vec<String> = Vec::new();
    let mut frequency: String = String::from_str("daily");
    let ghost line_views = lines@.map_values(|l: Vec<char>| l@);
    let mut i: usize = 0;
    proof {
        assert(line_views.skip(0) =~= line_views);
        assert(excluded@.map_values(|p: String| p@) =~= Seq::<Seq<char>>::empty());
    }
    while i < lines.len()
        invariant
            i <= lines@.len(),
            line_views == lines@.map_values(|l: Vec<char>| l@),
            spec_settings(content@) == spec_settings_fold(
                line_views.skip(i as int),
                excluded@.map_values(|p: String| p@),
                frequency@,
            ),
        decreases lines@.len() - i,
    {
        let ghost prev_excluded = excluded@;
        let ghost prev_frequency = frequency@;
        proof {
            assert(line_views.skip(i as int)[0] == line_views[i as int]);
            assert(line_views.skip(i as int).skip(1) =~= line_views.skip(i + 1));
        }
        let line = &lines[i];
        if chars_starts_with(line, "exclude:") {
            let value = trim_from(line, "exclude:".unicode_len());
            excluded.push(value);
            proof {
                assert(prev_excluded.map_values(|p: String| p@).push(
                    spec_trim(line_views[i as int].skip("exclude:"@.len() as int)),
                ) =~= excluded@.map_values(|p: String| p@));
            }
        } else if chars_starts_with(line, "frequency:") {
            frequency = trim_from(line, "frequency:".unicode_len());
        }
        i = i + 1;
    }
    proof {
        assert(line_views.skip(line_views.len() as int) =~= Seq::<Seq<char>>::empty());
    }
    (excluded, frequency)
}

/// Reads the backup frequency from a settings text.  Never fails: an
/// absent or unrecognized value selects daily.
pub fn get_backup_frequency(content: &str) -> (r: Frequency)
    ensures
        r == spec_frequency(spec_settings(content@).1),
{
    let (_excluded, frequency) = load_init_settings(content);
    if str_eq(frequency.as_str(), "hourly") {
        Frequency::Hourly
    } else if str_eq(frequency.as_str(), "weekly") {
        Frequency::Weekly
    } else {
        Frequency::Daily
    }
}

} // verus!
