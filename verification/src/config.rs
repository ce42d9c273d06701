//! The config resolver: which platform this is, which files to protect,
//! and what the local os-release text says about the machine.

use vstd::prelude::*;
use vstd::string::StringExecFns;
use crate::settings::{load_init_settings, spec_settings};
use crate::text::{
    chars_starts_with, push_char, spec_contains, spec_lines, split_lines, to_char_vec,
    chars_contains,
};

verus! {

#[derive(Clone, Copy, Debug, PartialEq, Eq, Structural)]
pub enum ConfigError {
    /// The os-release text does not describe a supported platform.
    UnsupportedPlatform,
    /// The os-release text lacks a usable name or version.
    OsDetailsMissing,
}

/// The candidate configuration files of the one supported platform
/// profile, in the order they are backed up.
pub open spec fn spec_candidate_paths() -> Seq<Seq<char>> {
    seq![
        "/home/user/.bashrc"@,
        "/home/user/.vimrc"@,
        "/home/user/.gitconfig"@,
        "/etc/apt/sources.list"@,
        "/etc/environment"@,
    ]
}

/// The fixed candidate list for the supported platform.
pub fn get_ubuntu_config_files() -> (r: Vec<String>)
    ensures
        r@.map_values(|p: String| p@) == spec_candidate_paths(),
{
    let mut v: Vec<String> = Vec::new();
    v.push(String::from_str("/home/user/.bashrc"));
    v.push(String::from_str("/home/user/.vimrc"));
    v.push(String::from_str("/home/user/.gitconfig"));
    v.push(String::from_str("/etc/apt/sources.list"));
    v.push(String::from_str("/etc/environment"));
    proof {
        assert(v@.map_values(|p: String| p@) =~= spec_candidate_paths());
    }
    v
}

/// Whether an os-release text describes the supported platform.
pub fn is_ubuntu(os_release: &str) -> (r: bool)
    ensures
        r == spec_contains(os_release@, "Ubuntu"@),
{
    let chars = to_char_vec(os_release);
    chars_contains(&chars, "Ubuntu")
}

/// `p` is one of the excluded paths.
pub open spec fn path_excluded(p: Seq<char>, excluded: Seq<Seq<char>>) -> bool {
    exists|j: int| 0 <= j < excluded.len() && excluded[j] == p
}

/// The candidate paths minus the excluded ones, original order kept.
pub open spec fn spec_filter_excluded(files: Seq<Seq<char>>, excluded: Seq<Seq<char>>) -> Seq<
    Seq<char>,
>
    decreases files.len(),
{
    if files.len() == 0 {
        Seq::empty()
    } else if path_excluded(files[0], excluded) {
        spec_filter_excluded(files.skip(1), excluded)
    } else {
        seq![files[0]] + spec_filter_excluded(files.skip(1), excluded)
    }
}

/// Exclusion filtering is a set-difference: a path comes out exactly when
/// it went in as a candidate and is not excluded.
pub proof fn lemma_filter_excluded_membership(
    files: Seq<Seq<char>>,
    excluded: Seq<Seq<char>>,
    p: Seq<char>,
)
    ensures
        spec_filter_excluded(files, excluded).contains(p) <==> (files.contains(p)
            && !path_excluded(p, excluded)),
    decreases files.len(),
{
    if files.len() == 0 {
        assert(!files.contains(p));
    } else {
        lemma_filter_excluded_membership(files.skip(1), excluded, p);
        assert(files.contains(p) <==> (files[0] == p || files.skip(1).contains(p))) by {
            if files.contains(p) {
                let i = choose|i: int| 0 <= i < files.len() && files[i] == p;
                if i > 0 {
                    assert(files.skip(1)[i - 1] == p);
                }
            }
            if files.skip(1).contains(p) {
                let i = choose|i: int| 0 <= i < files.skip(1).len() && files.skip(1)[i] == p;
                assert(files[i + 1] == p);
            }
        }
        if path_excluded(files[0], excluded) {
            if files[0] == p {
                assert(path_excluded(p, excluded));
            }
        } else {
            let tail = spec_filter_excluded(files.skip(1), excluded);
            let whole = seq![files[0]] + tail;
            assert(whole.contains(p) <==> (files[0] == p || tail.contains(p))) by {
                if whole.contains(p) {
                    let i = choose|i: int| 0 <= i < whole.len() && whole[i] == p;
                    if i > 0 {
                        assert(tail[i - 1] == p);
                    }
                }
                if tail.contains(p) {
                    let i = choose|i: int| 0 <= i < tail.len() && tail[i] == p;
                    assert(whole[i + 1] == p);
                }
                assert(whole[0] == files[0]);
            }
        }
    }
}

fn is_path_excluded(p: &String, excluded: &Vec<String>) -> (r: bool)
    ensures
        r == path_excluded(p@, excluded@.map_values(|e: String| e@)),
{
    let ghost evs = excluded@.map_values(|e: String| e@);
    let mut j: usize = 0;
    while j < excluded.len()
        invariant
            j <= excluded@.len(),
            evs == excluded@.map_values(|e: String| e@),
            forall|k: int| 0 <= k < j ==> evs[k] != p@,
        decreases excluded@.len() - j,
    {
        if crate::text::str_eq(excluded[j].as_str(), p.as_str()) {
            proof {
                assert(evs[j as int] == p@);
            }
            return true;
        }
        j = j + 1;
    }
    false
}

/// Drops every excluded path from the candidate list, keeping the
/// original order of the remainder: an order-preserving set-difference.
pub fn filter_excluded(files: &Vec<String>, excluded: &Vec<String>) -> (r: Vec<String>)
    ensures
        r@.map_values(|p: String| p@) == spec_filter_excluded(
            files@.map_values(|p: String| p@),
            excluded@.map_values(|e: String| e@),
        ),
{
    let ghost fvs = files@.map_values(|p: String| p@);
    let ghost evs = excluded@.map_values(|e: String| e@);
    let mut out: Vec<String> = Vec::new();
    let mut i: usize = 0;
    proof {
        assert(fvs.skip(0) =~= fvs);
        assert(out@.map_values(|p: String| p@) + spec_filter_excluded(fvs, evs)
            =~= spec_filter_excluded(fvs, evs));
    }
    while i < files.len()
        invariant
            i <= files@.len(),
            fvs == files@.map_values(|p: String| p@),
            evs == excluded@.map_values(|e: String| e@),
            spec_filter_excluded(fvs, evs) == out@.map_values(|p: String| p@)
                + spec_filter_excluded(fvs.skip(i as int), evs),
        decreases files@.len() - i,
    {
        let ghost prev_out = out@;
        proof {
            assert(fvs.skip(i as int)[0] == fvs[i as int]);
            assert(fvs.skip(i as int).skip(1) =~= fvs.skip(i + 1));
        }
        if !is_path_excluded(&files[i], excluded) {
            out.push(files[i].clone());
            proof {
                assert(prev_out.map_values(|p: String| p@) + (seq![fvs[i as int]]
                    + spec_filter_excluded(fvs.skip(i + 1), evs)) =~= out@.map_values(
                    |p: String| p@,
                ) + spec_filter_excluded(fvs.skip(i + 1), evs));
            }
        }
        i = i + 1;
    }
    proof {
        assert(fvs.skip(fvs.len() as int) =~= Seq::<Seq<char>>::empty());
        assert(out@.map_values(|p: String| p@) + spec_filter_excluded(
            Seq::<Seq<char>>::empty(),
            evs,
        ) =~= out@.map_values(|p: String| p@));
    }
    out
}

/// Resolves the list of files to protect.  Fails exactly when the
/// os-release text does not describe the supported platform; otherwise
/// returns the platform's candidate list minus the settings' exclusions,
/// in the candidate order.
pub fn get_config_files(os_release: &str, settings: &str) -> (r: Result<Vec<String>, ConfigError>)
    ensures
        r is Ok <==> spec_contains(os_release@, "Ubuntu"@),
        r is Err ==> r->Err_0 == ConfigError::UnsupportedPlatform,
        r is Ok ==> r->Ok_0@.map_values(|p: String| p@) == spec_filter_excluded(
            spec_candidate_paths(),
            spec_settings(settings@).0,
        ),
{
    if !is_ubuntu(os_release) {
        return Err(ConfigError::UnsupportedPlatform);
    }
    let candidates = get_ubuntu_config_files();
    let (excluded, _frequency) = load_init_settings(settings);
    Ok(filter_excluded(&candidates, &excluded))
}

/// `s` with every double-quote character removed.
pub open spec fn spec_strip_quotes(s: Seq<char>) -> Seq<char>
    decreases s.len(),
{
    if s.len() == 0 {
        s
    } else if s[0] == '"' {
        spec_strip_quotes(s.skip(1))
    } else {
        seq![s[0]] + spec_strip_quotes(s.skip(1))
    }
}

fn strip_quotes_from(v: &Vec<char>, from: usize) -> (r: String)
    requires
        from <= v@.len(),
    ensures
        r@ == spec_strip_quotes(v@.skip(from as int)),
{
    let mut s = String::new();
    let mut i: usize = from;
    proof {
        assert(s@ + spec_strip_quotes(v@.skip(from as int)) =~= spec_strip_quotes(
            v@.skip(from as int),
        ));
    }
    while i < v.len()
        invariant
            from <= i <= v@.len(),
            spec_strip_quotes(v@.skip(from as int)) == s@ + spec_strip_quotes(v@.skip(i as int)),
        decreases v@.len() - i,
    {
        let ghost prev = s@;
        proof {
            assert(v@.skip(i as int)[0] == v@[i as int]);
            assert(v@.skip(i as int).skip(1) =~= v@.skip(i + 1));
        }
        let c = v[i];
        if c != '"' {
            push_char(&mut s, c);
            proof {
                assert(prev + (seq![v@[i as int]] + spec_strip_quotes(v@.skip(i + 1))) =~= s@
                    + spec_strip_quotes(v@.skip(i + 1)));
            }
        }
        i = i + 1;
    }
    proof {
        assert(v@.skip(v@.len() as int) =~= Seq::<char>::empty());
    }
    s
}

/// A line that sets the platform name.
pub open spec fn is_name_line(l: Seq<char>) -> bool {
    l.len() >= "NAME="@.len() && l.subrange(0, "NAME="@.len() as int) == "NAME="@
}

/// A line that sets the platform version.
pub open spec fn is_version_line(l: Seq<char>) -> bool {
    l.len() >= "VERSION_ID="@.len() && l.subrange(0, "VERSION_ID="@.len() as int) == "VERSION_ID="@
}

/// Folds the os-release lines left to right: the last `NAME=` and
/// `VERSION_ID=` values win, quotes stripped.
pub open spec fn spec_os_fold(lines: Seq<Seq<char>>, name: Seq<char>, version: Seq<char>) -> (
    Seq<char>,
    Seq<char>,
)
    decreases lines.len(),
{
    if lines.len() == 0 {
        (name, version)
    } else if is_name_line(lines[0]) {
        spec_os_fold(
            lines.skip(1),
            spec_strip_quotes(lines[0].skip("NAME="@.len() as int)),
            version,
        )
    } else if is_version_line(lines[0]) {
        spec_os_fold(
            lines.skip(1),
            name,
            spec_strip_quotes(lines[0].skip("VERSION_ID="@.len() as int)),
        )
    } else {
        spec_os_fold(lines.skip(1), name, version)
    }
}

/// What an os-release text names: its platform name and version.
pub open spec fn spec_os_details(s: Seq<char>) -> (Seq<char>, Seq<char>) {
    spec_os_fold(spec_lines(s), Seq::empty(), Seq::empty())
}

/// Reads the platform name and version out of an os-release text.
/// Fails exactly when the text leaves either empty.
pub fn get_os_details(content: &str) -> (r: Result<(String, String), ConfigError>)
    ensures
        r is Ok <==> (spec_os_details(content@).0.len() > 0 && spec_os_details(
            content@,
        ).1.len() > 0),
        r is Ok ==> r->Ok_0.0@ == spec_os_details(content@).0 && r->Ok_0.1@ == spec_os_details(
            content@,
        ).1,
        r is Err ==> r->Err_0 == ConfigError::OsDetailsMissing,
{
    let chars = to_char_vec(content);
    let lines = split_lines(&chars);
    let mut name: String = String::new();
    let mut version: String = String::new();
    let ghost line_views = lines@.map_values(|l: Vec<char>| l@);
    let mut i: usize = 0;
    proof {
        assert(line_views.skip(0) =~= line_views);
    }
    while i < lines.len()
        invariant
            i <= lines@.len(),
            line_views == lines@.map_values(|l: Vec<char>| l@),
            spec_os_details(content@) == spec_os_fold(
                line_views.skip(i as int),
                name@,
                version@,
            ),
        decreases lines@.len() - i,
    {
        proof {
            assert(line_views.skip(i as int)[0] == line_views[i as int]);
            assert(line_views.skip(i as int).skip(1) =~= line_views.skip(i + 1));
        }
        let line = &lines[i];
        if chars_starts_with(line, "NAME=") {
            name = strip_quotes_from(line, "NAME=".unicode_len());
        } else if chars_starts_with(line, "VERSION_ID=") {
            version = strip_quotes_from(line, "VERSION_ID=".unicode_len());
        }
        i = i + 1;
    }
    proof {
        assert(line_views.skip(line_views.len() as int) =~= Seq::<Seq<char>>::empty());
    }
    if name.as_str().is_empty() || version.as_str().is_empty() {
        return Err(ConfigError::OsDetailsMissing);
    }
    Ok((name, version))
}

/// What to do with the machine's OS details against the account's stored
/// configuration.
#[derive(Clone, Copy, Debug, PartialEq, Eq, Structural)]
pub enum OsCheckAction {
    /// The stored configuration matches this machine.
    Accept,
    /// A configuration exists but names another platform.
    Reject,
    /// No configuration exists yet: store this machine's details.
    Register,
}

/// Decides what the stored configuration (the first one on record, when
/// any) means for this machine's name and version.
pub fn check_os_action(existing: &Option<(String, String)>, name: &str, version: &str) -> (r:
    OsCheckAction)
    ensures
        existing is None ==> r == OsCheckAction::Register,
        existing is Some ==> ((existing->Some_0.0@ == name@ && existing->Some_0.1@ == version@)
            <==> r == OsCheckAction::Accept),
        existing is Some ==> (!(existing->Some_0.0@ == name@ && existing->Some_0.1@ == version@)
            <==> r == OsCheckAction::Reject),
{
    match existing {
        None => OsCheckAction::Register,
        Some((stored_name, stored_version)) => {
            if crate::text::str_eq(stored_name.as_str(), name) && crate::text::str_eq(
                stored_version.as_str(),
                version,
            ) {
                OsCheckAction::Accept
            } else {
                OsCheckAction::Reject
            }
        },
    }
}

} // verus!
