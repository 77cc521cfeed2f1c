//! Running a project's tests with GUT (`gdio test`): the Godot command
//! line, and which GUT release `gdio test --init` installs.
use vstd::prelude::*;
use crate::text::{chars_of, push_chars, split, split_chars, trim_start_char, trim_start_matching, views};
use crate::numparse::{parse_u32, parse_unsigned};
use crate::platform::string_views;
use crate::releases::Release;

verus! {

/// The GUT arguments selecting tests: the folder given (leading `/` then
/// `\` removed) under `res://`; else, without a `.gutconfig.json`, every
/// test under `res://`; else what the configuration says.
pub open spec fn test_dir_args(folder: Option<Seq<char>>, has_gutconfig: bool) -> Seq<Seq<char>> {
    match folder {
        Some(f) => seq!["-gdir=res://"@ + trim_start_char(trim_start_char(f, '/'), '\\')],
        None => if !has_gutconfig { seq!["-gdir=res://"@, "-ginclude_subdirs"@] } else { Seq::empty() },
    }
}

/// The arguments Godot runs GUT with: headless unless `visual`, the
/// project, GUT's command-line script, the tests, and either compact output
/// (visual) or exiting when done.
pub open spec fn gut_arguments(visual: bool, project_dir: Seq<char>, folder: Option<Seq<char>>, has_gutconfig: bool) -> Seq<Seq<char>> {
    (if visual { Seq::empty() } else { seq!["--headless"@] })
        + seq!["--path"@, project_dir, "-s"@, "addons/gut/gut_cmdln.gd"@]
        + test_dir_args(folder, has_gutconfig)
        + seq![if visual { "-gcompact_mode"@ } else { "-gexit"@ }]
}

/// The command line that runs a project's tests.
pub fn gut_args(visual: bool, project_dir: &str, folder: Option<&str>, has_gutconfig: bool) -> (v: Vec<String>)
    ensures
        string_views(v@) == gut_arguments(visual, project_dir@, match folder { Some(f) => Some(f@), None => None }, has_gutconfig),
{
    let mut v: Vec<String> = Vec::new();
    if !visual {
        v.push(String::from_str("--headless"));
    }
    v.push(String::from_str("--path"));
    v.push(project_dir.to_owned());
    v.push(String::from_str("-s"));
    v.push(String::from_str("addons/gut/gut_cmdln.gd"));
    let ghost head = string_views(v@);
    match folder {
        Some(f) => {
            let t1 = trim_start_matching(chars_of(f).as_slice(), '/');
            let t2 = trim_start_matching(t1.as_slice(), '\\');
            let mut a = String::from_str("-gdir=res://");
            push_chars(&mut a, t2.as_slice());
            v.push(a);
        },
        None => {
            if !has_gutconfig {
                v.push(String::from_str("-gdir=res://"));
                v.push(String::from_str("-ginclude_subdirs"));
            }
        },
    }
    let ghost mid = string_views(v@);
    assert(mid =~= head + test_dir_args(match folder { Some(f) => Some(f@), None => None }, has_gutconfig));
    if visual {
        v.push(String::from_str("-gcompact_mode"));
    } else {
        v.push(String::from_str("-gexit"));
    }
    assert(string_views(v@) =~= gut_arguments(visual, project_dir@, match folder { Some(f) => Some(f@), None => None }, has_gutconfig));
    v
}

/// The `i`th dot-separated number of a version, 0 when absent or not a number.
pub open spec fn version_part(v: Seq<char>, i: int) -> int {
    let parts = split(v, '.');
    if i < parts.len() {
        match parse_unsigned(parts[i], u32::MAX as int) {
            Some(n) => n,
            None => 0,
        }
    } else {
        0
    }
}

/// How GUT releases are ranked: major × 10000 + minor × 100 + patch.
pub open spec fn gut_rank(v: Seq<char>) -> int {
    version_part(v, 0) * 10000 + version_part(v, 1) * 100 + version_part(v, 2)
}

/// The GUT release installed: the last stable release of the highest rank,
/// or the first release when none is stable.
pub open spec fn is_gut_pick(rs: Seq<Release>, i: int) -> bool {
    if exists|j: int| 0 <= j < rs.len() && (#[trigger] rs[j]).stable {
        &&& 0 <= i < rs.len()
        &&& rs[i].stable
        &&& forall|j: int| 0 <= j < rs.len() && (#[trigger] rs[j]).stable ==> gut_rank(rs[j].version@) <= gut_rank(rs[i].version@)
        &&& forall|j: int| i < j < rs.len() && (#[trigger] rs[j]).stable ==> gut_rank(rs[j].version@) < gut_rank(rs[i].version@)
    } else {
        i == 0 && rs.len() > 0
    }
}

fn part_of(parts: &Vec<Vec<char>>, i: usize) -> (n: u64)
    ensures
        n as int == (if i < parts@.len() {
            match parse_unsigned(parts@[i as int]@, u32::MAX as int) { Some(n) => n, None => 0 }
        } else { 0 }),
{
    if i < parts.len() {
        match parse_u32(parts[i].as_slice()) {
            Some(n) => n as u64,
            None => 0,
        }
    } else {
        0
    }
}

fn rank_of(version: &str) -> (r: u64)
    ensures
        r as int == gut_rank(version@),
        r <= u32::MAX as int * 10101,
{
    let parts = split_chars(chars_of(version).as_slice(), '.');
    proof {
        assert(views(parts@) == split(version@, '.'));
        assert forall|i: int| 0 <= i < parts@.len() implies #[trigger] parts@[i]@ == split(version@, '.')[i] by {
            assert(views(parts@)[i] == parts@[i]@);
        }
    }
    let a = part_of(&parts, 0);
    let b = part_of(&parts, 1);
    let c = part_of(&parts, 2);
    a * 10000 + b * 100 + c
}

/// Which of the releases of GUT `gdio test --init` installs (`None` when
/// there are none). Ranks are computed in 32-bit arithmetic, so the rank
/// of every stable release must fit in a `u32`.
pub fn pick_gut_release(releases: &[Release]) -> (r: Option<usize>)
    requires
        forall|j: int| 0 <= j < releases@.len() && (#[trigger] releases@[j]).stable ==> gut_rank(releases@[j].version@) <= u32::MAX,
    ensures
        r matches Some(i) ==> is_gut_pick(releases@, i as int),
        r is None ==> releases@.len() == 0,
{
    let mut best: Option<usize> = None;
    let mut best_rank: u64 = 0;
    let mut i: usize = 0;
    while i < releases.len()
        invariant
            i <= releases@.len(),
            best matches Some(b) ==> {
                &&& b < i
                &&& releases@[b as int].stable
                &&& best_rank as int == gut_rank(releases@[b as int].version@)
                &&& forall|j: int| 0 <= j < i && (#[trigger] releases@[j]).stable ==> gut_rank(releases@[j].version@) <= best_rank
                &&& forall|j: int| b < j < i && (#[trigger] releases@[j]).stable ==> gut_rank(releases@[j].version@) < best_rank
            },
            best is None ==> forall|j: int| 0 <= j < i ==> !(#[trigger] releases@[j]).stable,
        decreases releases.len() - i,
    {
        if releases[i].stable {
            let k = rank_of(releases[i].version.as_str());
            match best {
                Some(_) => {
                    if k >= best_rank {
                        best = Some(i);
                        best_rank = k;
                    }
                },
                None => {
                    best = Some(i);
                    best_rank = k;
                },
            }
        }
        i = i + 1;
    }
    match best {
        Some(b) => Some(b),
        None => {
            if releases.len() > 0 {
                Some(0)
            } else {
                None
            }
        },
    }
}

} // verus!
