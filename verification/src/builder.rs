//! Building Godot from source: the engine version of a source tree, SCons
//! arguments, clone directories and `git clone` progress lines.
use vstd::prelude::*;
use vstd::slice::slice_to_vec;
use crate::text::{chars_of, chars_eq, find_char, find_char_in, first_where, has_prefix, last_where, lemma_first_where_is, lemma_first_where_none, lemma_last_where_is, lines, lines_of, push_chars, push_str, starts_with, string_of_all, strip_suffix_or_keep, strip_suffix_or_self, trim, trim_char, trim_end_char, trim_end_matching, trim_matching, trim_start, trim_start_char, trim_start_matching, trimmed, views};
use crate::numparse::{decimal, parse_unsigned, parse_u32, parse_u64, push_decimal};
use crate::platform::{TargetOs, joined, join_path, string_views};
use crate::config::Config;

verus! {

/// Key of a `key=value` argument: the text before its first `=`.
pub open spec fn arg_key(a: Seq<char>) -> Option<Seq<char>> {
    match find_char(a, '=') {
        Some(i) => Some(a.take(i)),
        None => None,
    }
}

/// Argument `a` sets a key that one of `extra` sets too.
pub open spec fn overridden(a: Seq<char>, extra: Seq<Seq<char>>) -> bool {
    arg_key(a) matches Some(k) && exists|j: int| 0 <= j < extra.len() && #[trigger] arg_key(extra[j]) == Some(k)
}

/// `base` without the arguments whose key `extra` sets, then `extra`.
pub open spec fn merged_args(base: Seq<Seq<char>>, extra: Seq<Seq<char>>) -> Seq<Seq<char>> {
    base.filter(|a: Seq<char>| !overridden(a, extra)) + extra
}

fn key_of(a: &[char]) -> (r: Option<Vec<char>>)
    ensures
        match arg_key(a@) {
            Some(k) => r matches Some(v) && v@ == k,
            None => r is None,
        },
{
    match find_char_in(a, '=') {
        Some(i) => Some(slice_to_vec(&a[0..i])),
        None => None,
    }
}

proof fn lemma_merge_step(base: Seq<Seq<char>>, extra: Seq<Seq<char>>, i: int)
    requires
        0 <= i < base.len(),
    ensures
        base.take(i + 1).filter(|a: Seq<char>| !overridden(a, extra)) == if !overridden(base[i], extra) {
            base.take(i).filter(|a: Seq<char>| !overridden(a, extra)).push(base[i])
        } else {
            base.take(i).filter(|a: Seq<char>| !overridden(a, extra))
        },
{
    reveal(Seq::filter);
    assert(base.take(i + 1).drop_last() == base.take(i));
    assert(base.take(i + 1).last() == base[i]);
}

/// Merges SCons arguments: `extra_args` override the `key=value` arguments
/// of `base_args` with the same key and follow them.
pub fn merge_args(base_args: Vec<String>, extra_args: &[String]) -> (r: Vec<String>)
    ensures
        string_views(r@) == merged_args(string_views(base_args@), string_views(extra_args@)),
{
    let ghost ex = string_views(extra_args@);
    let ghost bs = string_views(base_args@);
    let mut r: Vec<String> = Vec::new();
    let mut i: usize = 0;
    proof { reveal(Seq::filter); }
    assert(bs.take(0) =~= Seq::<Seq<char>>::empty());
    while i < base_args.len()
        invariant
            i <= base_args@.len(),
            bs == string_views(base_args@),
            ex == string_views(extra_args@),
            string_views(r@) == bs.take(i as int).filter(|a: Seq<char>| !overridden(a, ex)),
        decreases base_args.len() - i,
    {
        proof { lemma_merge_step(bs, ex, i as int); }
        assert(bs[i as int] == base_args@[i as int]@);
        let drop = match key_of(chars_of(base_args[i].as_str()).as_slice()) {
            Some(k) => {
                let mut found = false;
                let mut m: usize = 0;
                while m < extra_args.len()
                    invariant
                        m <= extra_args@.len(),
                        ex == string_views(extra_args@),
                        !found ==> forall|q: int| 0 <= q < m ==> #[trigger] arg_key(ex[q]) != Some(k@),
                        found ==> exists|q: int| 0 <= q < ex.len() && #[trigger] arg_key(ex[q]) == Some(k@),
                    decreases extra_args.len() - m,
                {
                    assert(ex[m as int] == extra_args@[m as int]@);
                    match key_of(chars_of(extra_args[m].as_str()).as_slice()) {
                        Some(km) => {
                            if chars_eq(km.as_slice(), k.as_slice()) {
                                assert(arg_key(ex[m as int]) == Some(k@));
                                found = true;
                            }
                        },
                        None => {},
                    }
                    m = m + 1;
                }
                found
            },
            None => false,
        };
        assert(drop == overridden(bs[i as int], ex));
        if !drop {
            let ghost before = r@;
            r.push(base_args[i].clone());
            assert(string_views(r@) =~= string_views(before).push(bs[i as int]));
        }
        i = i + 1;
    }
    assert(bs.take(bs.len() as int) == bs);
    let mut k: usize = 0;
    let ghost kept = string_views(r@);
    while k < extra_args.len()
        invariant
            k <= extra_args@.len(),
            ex == string_views(extra_args@),
            string_views(r@) == kept + ex.take(k as int),
        decreases extra_args.len() - k,
    {
        let ghost before = r@;
        r.push(extra_args[k].clone());
        assert(string_views(r@) =~= string_views(before).push(ex[k as int]));
        assert(ex.take(k + 1) =~= ex.take(k as int).push(ex[k as int]));
        k = k + 1;
    }
    assert(ex.take(ex.len() as int) == ex);
    r
}

/// SCons arguments of every template build, with the C# module when `csharp`.
pub open spec fn scons_base(csharp: bool) -> Seq<Seq<char>> {
    (if csharp { seq!["module_mono_enabled=yes"@] } else { Seq::empty() })
        + seq!["production=yes"@, "debug_symbols=no"@, "lto=auto"@, "disable_path_overrides=no"@]
}

/// SCons arguments of every template build.
pub fn scons_base_args(csharp: bool) -> (v: Vec<String>)
    ensures
        string_views(v@) == scons_base(csharp),
{
    let mut v: Vec<String> = Vec::new();
    if csharp {
        v.push(String::from_str("module_mono_enabled=yes"));
    }
    v.push(String::from_str("production=yes"));
    v.push(String::from_str("debug_symbols=no"));
    v.push(String::from_str("lto=auto"));
    v.push(String::from_str("disable_path_overrides=no"));
    assert(string_views(v@) =~= scons_base(csharp));
    v
}

/// Arguments always given to SCons after those of the build itself.
pub open spec fn scons_fixed() -> Seq<Seq<char>> {
    seq!["verbose=yes"@, "warnings=all"@, "cache_dir=.scons_cache"@]
}

/// The full SCons command line of a build: its arguments, the fixed ones,
/// then the user's `extra_args` merged over them.
pub fn scons_command_args(args: &[String], extra_args: &[String]) -> (r: Vec<String>)
    ensures
        string_views(r@) == merged_args(string_views(args@) + scons_fixed(), string_views(extra_args@)),
{
    let mut v: Vec<String> = Vec::new();
    let mut i: usize = 0;
    while i < args.len()
        invariant
            i <= args@.len(),
            string_views(v@) == string_views(args@).take(i as int),
        decreases args.len() - i,
    {
        let ghost before = v@;
        v.push(args[i].clone());
        assert(string_views(v@) =~= string_views(before).push(args@[i as int]@));
        assert(string_views(args@).take(i + 1) =~= string_views(args@).take(i as int).push(args@[i as int]@));
        i = i + 1;
    }
    assert(string_views(args@).take(args@.len() as int) =~= string_views(args@));
    let ghost own = v@;
    v.push(String::from_str("verbose=yes"));
    v.push(String::from_str("warnings=all"));
    v.push(String::from_str("cache_dir=.scons_cache"));
    assert(string_views(v@) =~= string_views(own) + scons_fixed());
    merge_args(v, extra_args)
}

/// SCons arguments of an editor build, with the C# module when `csharp`.
pub open spec fn editor_build(csharp: bool) -> Seq<Seq<char>> {
    seq!["target=editor"@, "debug_symbols=no"@] + (if csharp { seq!["module_mono_enabled=yes"@] } else {
        Seq::empty() })
}

/// SCons arguments of an editor build.
pub fn editor_build_args(csharp: bool) -> (v: Vec<String>)
    ensures
        string_views(v@) == editor_build(csharp),
{
    let mut v: Vec<String> = Vec::new();
    v.push(String::from_str("target=editor"));
    v.push(String::from_str("debug_symbols=no"));
    if csharp {
        v.push(String::from_str("module_mono_enabled=yes"));
    }
    assert(string_views(v@) =~= editor_build(csharp));
    v
}

/// A dependency installer of a source tree's `misc/scripts`: a file named
/// `install_*.py`.
pub open spec fn install_script(name: Seq<char>) -> bool {
    starts_with(name, "install_"@) && crate::text::ends_with(name, ".py"@)
}

/// Whether the file `name` is a dependency installer.
pub fn is_install_script(name: &str) -> (b: bool)
    ensures
        b == install_script(name@),
{
    let cs = chars_of(name);
    let p = chars_of("install_");
    let q = chars_of(".py");
    has_prefix(cs.as_slice(), p.as_slice()) && crate::text::has_suffix(cs.as_slice(), q.as_slice())
}

/// The dependency installers among the files `names`, in their order.
pub fn install_scripts(names: &[String]) -> (r: Vec<String>)
    ensures
        string_views(r@) == string_views(names@).filter(|n: Seq<char>| install_script(n)),
{
    let mut r: Vec<String> = Vec::new();
    let mut i: usize = 0;
    proof { reveal(Seq::filter); }
    assert(string_views(names@).take(0) =~= Seq::<Seq<char>>::empty());
    while i < names.len()
        invariant
            i <= names@.len(),
            string_views(r@) == string_views(names@).take(i as int).filter(|n: Seq<char>| install_script(n)),
        decreases names.len() - i,
    {
        proof {
            reveal(Seq::filter);
            assert(string_views(names@).take(i + 1).drop_last() =~= string_views(names@).take(i as int));
            assert(string_views(names@).take(i + 1).last() == names@[i as int]@);
        }
        if is_install_script(names[i].as_str()) {
            let ghost before = r@;
            r.push(names[i].clone());
            assert(string_views(r@) =~= string_views(before).push(names@[i as int]@));
        }
        i = i + 1;
    }
    assert(string_views(names@).take(names@.len() as int) =~= string_views(names@));
    r
}

/// Where the export templates of `godot_version` are installed, inside
/// Godot's data directory `godot_data_dir`.
pub fn get_templates_dir(godot_data_dir: &str, os: TargetOs, godot_version: &str) -> (r: String)
    ensures
        r@ == joined(joined(godot_data_dir@, "export_templates"@, os), godot_version@, os),
{
    let base = Config::get_godot_templates_dir(godot_data_dir, os);
    join_path(base.as_str(), godot_version, os)
}

/// Value of a `version.py` assignment after its name: the trimmed text after
/// `=`, or the whole rest trimmed when there is no `=`.
pub open spec fn assigned_value(rest: Seq<char>) -> Seq<char> {
    let t = trim(rest);
    trim(if starts_with(t, "="@) { t.skip(1) } else { rest })
}

/// What has been read from `version.py` so far.
pub struct VersionPy {
    pub major: Option<int>,
    pub minor: Option<int>,
    pub patch: Option<int>,
    pub status: Option<Seq<char>>,
}

/// Effect of one `version.py` line: the last `major`, `minor` and `patch`
/// assignment counts (an unparsable one clears it), and the last non-empty
/// `status`, quotes removed.
pub open spec fn version_py_step(st: VersionPy, line: Seq<char>) -> VersionPy {
    let t = trim(line);
    if starts_with(t, "major"@) {
        VersionPy { major: parse_unsigned(assigned_value(t.skip(5)), u32::MAX as int), ..st }
    } else if starts_with(t, "minor"@) {
        VersionPy { minor: parse_unsigned(assigned_value(t.skip(5)), u32::MAX as int), ..st }
    } else if starts_with(t, "patch"@) {
        VersionPy { patch: parse_unsigned(assigned_value(t.skip(5)), u32::MAX as int), ..st }
    } else if starts_with(t, "status"@) {
        let v = trim_char(trim_char(assigned_value(t.skip(6)), '"'), '\'');
        if v.len() > 0 { VersionPy { status: Some(v), ..st } } else { st }
    } else {
        st
    }
}

/// What the first `k` lines of `version.py` give.
pub open spec fn version_py_scan(ls: Seq<Seq<char>>, k: int) -> VersionPy
    decreases k,
{
    if k <= 0 {
        VersionPy { major: None, minor: None, patch: None, status: None }
    } else {
        version_py_step(version_py_scan(ls, k - 1), ls[k - 1])
    }
}

/// What a `version.py` text gives.
pub open spec fn version_py(content: Seq<char>) -> VersionPy {
    version_py_scan(lines(content), lines(content).len() as int)
}

/// A `version.py` that does not give the engine version.
#[derive(Debug, PartialEq, Eq, Structural)]
pub enum VersionPyError {
    MissingMajor,
    MissingMinor,
}

impl VersionPyError {
    /// The error message shown for it.
    pub fn message(&self) -> (m: &'static str)
        ensures
            m@ == (match self {
                VersionPyError::MissingMajor => "Could not parse 'major' from version.py"@,
                VersionPyError::MissingMinor => "Could not parse 'minor' from version.py"@,
            }),
    {
        match self {
            VersionPyError::MissingMajor => "Could not parse 'major' from version.py",
            VersionPyError::MissingMinor => "Could not parse 'minor' from version.py",
        }
    }
}

/// The engine version `major.minor.patch.status` a `version.py` text gives
/// (patch 0 and status `stable` when unset), or which part is missing.
pub open spec fn godot_source_version(content: Seq<char>) -> Result<Seq<char>, VersionPyError> {
    let v = version_py(content);
    match v.major {
        None => Err(VersionPyError::MissingMajor),
        Some(ma) => match v.minor {
            None => Err(VersionPyError::MissingMinor),
            Some(mi) => {
                let pa = match v.patch { Some(p) => p, None => 0 };
                let st = match v.status { Some(s) => s, None => "stable"@ };
                Ok(decimal(ma as nat) + "."@ + decimal(mi as nat) + "."@ + decimal(pa as nat) + "."@ + st)
            },
        },
    }
}

struct VersionScan {
    major: Option<u32>,
    minor: Option<u32>,
    patch: Option<u32>,
    status: Option<Vec<char>>,
}

spec fn opt_int(o: Option<u32>) -> Option<int> {
    match o {
        Some(v) => Some(v as int),
        None => None,
    }
}

spec fn scan_view(s: VersionScan) -> VersionPy {
    VersionPy {
        major: opt_int(s.major),
        minor: opt_int(s.minor),
        patch: opt_int(s.patch),
        status: match s.status { Some(v) => Some(v@), None => None },
    }
}

fn assigned_value_of(rest: &[char]) -> (r: Vec<char>)
    ensures
        r@ == assigned_value(rest@),
{
    let t = trimmed(rest);
    if has_prefix(t.as_slice(), chars_of("=").as_slice()) {
        let n = t.len();
        proof { reveal_strlit("="); }
        trimmed(&t.as_slice()[1..n])
    } else {
        trimmed(rest)
    }
}

fn parsed_u32(v: &[char]) -> (r: Option<u32>)
    ensures
        opt_int(r) == parse_unsigned(v@, u32::MAX as int),
{
    parse_u32(v)
}

fn version_line(s: &mut VersionScan, line: &[char])
    ensures
        scan_view(*final(s)) == version_py_step(scan_view(*old(s)), line@),
{
    let t = trimmed(line);
    let n = t.len();
    let ts = t.as_slice();
    proof {
        reveal_strlit("major");
        reveal_strlit("minor");
        reveal_strlit("patch");
        reveal_strlit("status");
    }
    if has_prefix(ts, chars_of("major").as_slice()) {
        s.major = parsed_u32(assigned_value_of(&ts[5..n]).as_slice());
    } else if has_prefix(ts, chars_of("minor").as_slice()) {
        s.minor = parsed_u32(assigned_value_of(&ts[5..n]).as_slice());
    } else if has_prefix(ts, chars_of("patch").as_slice()) {
        s.patch = parsed_u32(assigned_value_of(&ts[5..n]).as_slice());
    } else if has_prefix(ts, chars_of("status").as_slice()) {
        let a = assigned_value_of(&ts[6..n]);
        let b = trim_matching(a.as_slice(), '"');
        let v = trim_matching(b.as_slice(), '\'');
        if v.len() > 0 {
            s.status = Some(v);
        }
    }
}

/// Reads the engine version (`major.minor.patch.status`) from the text of a
/// Godot source tree's `version.py`.
pub fn detect_godot_version(content: &str) -> (r: Result<String, VersionPyError>)
    ensures
        match godot_source_version(content@) {
            Ok(v) => r matches Ok(s) && s@ == v,
            Err(e) => r == Err::<String, VersionPyError>(e),
        },
{
    let ls = lines_of(chars_of(content).as_slice());
    let ghost vs = views(ls@);
    let mut s = VersionScan { major: None, minor: None, patch: None, status: None };
    let mut i: usize = 0;
    while i < ls.len()
        invariant
            i <= ls@.len(),
            vs == views(ls@),
            vs == lines(content@),
            scan_view(s) == version_py_scan(vs, i as int),
        decreases ls.len() - i,
    {
        assert(vs[i as int] == ls@[i as int]@);
        version_line(&mut s, ls[i].as_slice());
        i = i + 1;
    }
    let major = match s.major {
        Some(m) => m,
        None => {
            return Err(VersionPyError::MissingMajor);
        },
    };
    let minor = match s.minor {
        Some(m) => m,
        None => {
            return Err(VersionPyError::MissingMinor);
        },
    };
    let patch: u32 = match s.patch {
        Some(p) => p,
        None => 0,
    };
    let mut out = String::new();
    push_decimal(&mut out, major as u64);
    push_str(&mut out, ".");
    push_decimal(&mut out, minor as u64);
    push_str(&mut out, ".");
    push_decimal(&mut out, patch as u64);
    push_str(&mut out, ".");
    match s.status {
        Some(st) => push_chars(&mut out, st.as_slice()),
        None => push_str(&mut out, "stable"),
    }
    Ok(out)
}

/// A `git` progress line without a leading side-band channel byte (1, 2 or 3).
pub open spec fn without_sideband(line: Seq<char>) -> Seq<char> {
    if line.len() > 0 && (line[0] == '\u{1}' || line[0] == '\u{2}' || line[0] == '\u{3}') {
        line.skip(1)
    } else {
        line
    }
}

/// Drops the side-band channel byte `git` puts before a progress line.
pub fn strip_sideband_prefix(line: &str) -> (r: String)
    ensures
        r@ == without_sideband(line@),
{
    let c = chars_of(line);
    let n = c.len();
    if n > 0 && (c[0] == '\u{1}' || c[0] == '\u{2}' || c[0] == '\u{3}') {
        crate::text::string_of(c.as_slice(), 1, n)
    } else {
        String::from_str(line)
    }
}

/// Directory a `git clone` of `url` creates: the last `/`- or `:`-separated
/// part, after trailing `/`s and a `.git` suffix are removed.
pub open spec fn clone_dir(url: Seq<char>) -> Seq<char> {
    let u = strip_suffix_or_self(trim_end_char(url, '/'), ".git"@);
    match last_where(u.len() as int, |i: int| u[i] == '/' || u[i] == ':') {
        Some(i) => u.skip(i + 1),
        None => u,
    }
}

/// The directory name a clone of `url` gets.
pub fn dir_from_url(url: &str) -> (r: String)
    ensures
        r@ == clone_dir(url@),
{
    let a = trim_end_matching(chars_of(url).as_slice(), '/');
    let u = strip_suffix_or_keep(a.as_slice(), chars_of(".git").as_slice());
    assert(u@ == strip_suffix_or_self(trim_end_char(url@, '/'), ".git"@));
    let ghost pred = |i: int| strip_suffix_or_self(trim_end_char(url@, '/'), ".git"@)[i] == '/'
        || strip_suffix_or_self(trim_end_char(url@, '/'), ".git"@)[i] == ':';
    let n = u.len();
    let mut k: usize = n;
    while k > 0
        invariant
            k <= n == u@.len(),
            u@ == strip_suffix_or_self(trim_end_char(url@, '/'), ".git"@),
            pred == (|i: int| strip_suffix_or_self(trim_end_char(url@, '/'), ".git"@)[i] == '/'
                || strip_suffix_or_self(trim_end_char(url@, '/'), ".git"@)[i] == ':'),
            forall|j: int| k <= j < n ==> !#[trigger] pred(j),
        decreases k,
    {
        let p = k - 1;
        if u[p] == '/' || u[p] == ':' {
            proof { lemma_last_where_is(n as int, pred, p as int); }
            assert(u@.subrange(p + 1, n as int) == u@.skip(p + 1));
            return crate::text::string_of(u.as_slice(), p + 1, n);
        }
        k = p;
    }
    assert(u@.skip(0) == u@);
    string_of_all(u.as_slice())
}

/// Progress phases `git clone` reports: line prefix and label.
pub open spec fn phase(k: int) -> (Seq<char>, Seq<char>) {
    if k == 0 {
        ("remote: Counting objects"@, "Counting objects"@)
    } else if k == 1 {
        ("remote: Compressing objects"@, "Compressing objects"@)
    } else if k == 2 {
        ("Receiving objects"@, "Receiving objects"@)
    } else if k == 3 {
        ("Resolving deltas"@, "Resolving deltas"@)
    } else {
        ("Updating files"@, "Updating files"@)
    }
}

/// Parts of a progress line: its phase label, the text before `%` (the
/// percentage), and the `(done/total)` counts when they parse as `u64`s.
pub struct ProgressParts {
    pub label: String,
    pub percent: String,
    pub counts: Option<(u64, u64)>,
}

/// The counts `(done/total)` of the text after a percentage, when present.
pub open spec fn progress_counts(rest: Seq<char>) -> Option<(int, int)> {
    match find_char(rest, '(') {
        Some(ps) => match find_char(rest.skip(ps), ')') {
            Some(pe) => {
                let inside = rest.subrange(ps + 1, ps + pe);
                match find_char(inside, '/') {
                    Some(sl) => match (parse_unsigned(inside.take(sl), u64::MAX as int),
                        parse_unsigned(inside.skip(sl + 1), u64::MAX as int)) {
                        (Some(d), Some(t)) => Some((d, t)),
                        _ => None,
                    },
                    None => None,
                }
            },
            None => None,
        },
        None => None,
    }
}

/// Text after a phase prefix, with blanks and `:`s before the percentage removed.
pub open spec fn after_phase(line: Seq<char>, prefix: Seq<char>) -> Seq<char> {
    trim_start(trim_start_char(trim_start(line.skip(prefix.len() as int)), ':'))
}

/// The phase of a progress line with the text up to its `%`, and the counts;
/// `None` when no phase prefix matches or no `%` follows.
pub open spec fn progress_line_parts(line: Seq<char>) -> Option<(Seq<char>, Seq<char>, Option<(int, int)>)> {
    match first_where(5, |k: int| starts_with(line, phase(k).0)) {
        Some(k) => {
            let rest = after_phase(line, phase(k).0);
            match find_char(rest, '%') {
                Some(pe) => Some((phase(k).1, trim(rest.take(pe)), progress_counts(rest))),
                None => None,
            }
        },
        None => None,
    }
}

fn counts_of(rest: &[char]) -> (r: Option<(u64, u64)>)
    ensures
        match progress_counts(rest@) {
            Some((d, t)) => r matches Some((a, b)) && a == d && b == t,
            None => r is None,
        },
{
    let n = rest.len();
    let ps = match find_char_in(rest, '(') {
        Some(p) => p,
        None => {
            return None;
        },
    };
    let tail = &rest[ps..n];
    assert(tail@ == rest@.skip(ps as int));
    let pe = match find_char_in(tail, ')') {
        Some(p) => p,
        None => {
            return None;
        },
    };
    if pe == 0 {
        assert(rest@[ps as int] == '(');
        assert(tail@[0] == ')');
        assert(false);
        return None;
    }
    let inside = &rest[ps + 1..ps + pe];
    let m = inside.len();
    match find_char_in(inside, '/') {
        Some(sl) => {
            let d = parse_u64(&inside[0..sl]);
            let t = parse_u64(&inside[sl + 1..m]);
            assert(inside@.take(sl as int) == inside@.subrange(0, sl as int));
            assert(inside@.skip(sl + 1) == inside@.subrange(sl + 1, m as int));
            match (d, t) {
                (Some(a), Some(b)) => Some((a, b)),
                _ => None,
            }
        },
        None => None,
    }
}

fn phase_prefix(k: usize) -> (r: (&'static str, &'static str))
    requires
        k < 5,
    ensures
        (r.0@, r.1@) == phase(k as int),
{
    if k == 0 {
        ("remote: Counting objects", "Counting objects")
    } else if k == 1 {
        ("remote: Compressing objects", "Compressing objects")
    } else if k == 2 {
        ("Receiving objects", "Receiving objects")
    } else if k == 3 {
        ("Resolving deltas", "Resolving deltas")
    } else {
        ("Updating files", "Updating files")
    }
}

/// Splits a `git clone` progress line into its phase label, percentage text
/// and counts; the percentage is read as a number by the caller.
pub fn progress_parts(line: &str) -> (r: Option<ProgressParts>)
    ensures
        match progress_line_parts(line@) {
            Some((label, pct, counts)) => r matches Some(p) && p.label@ == label && p.percent@ == pct
                && match counts {
                    Some((d, t)) => p.counts matches Some((a, b)) && a == d && b == t,
                    None => p.counts is None,
                },
            None => r is None,
        },
{
    let l = chars_of(line);
    let ghost pred = |k: int| starts_with(line@, phase(k).0);
    let mut k: usize = 0;
    while k < 5
        invariant
            k <= 5,
            l@ == line@,
            pred == (|k: int| starts_with(line@, phase(k).0)),
            forall|j: int| 0 <= j < k ==> !#[trigger] pred(j),
        decreases 5 - k,
    {
        let (prefix, label) = phase_prefix(k);
        let pc = chars_of(prefix);
        if has_prefix(l.as_slice(), pc.as_slice()) {
            proof { lemma_first_where_is(5, pred, k as int); }
            let n = l.len();
            let p = pc.len();
            let a = crate::text::trimmed_start(&l.as_slice()[p..n]);
            let b = trim_start_matching(a.as_slice(), ':');
            let rest = crate::text::trimmed_start(b.as_slice());
            assert(rest@ == after_phase(line@, phase(k as int).0));
            return match find_char_in(rest.as_slice(), '%') {
                Some(pe) => {
                    let pct = trimmed(&rest.as_slice()[0..pe]);
                    assert(rest@.take(pe as int) == rest@.subrange(0, pe as int));
                    Some(ProgressParts {
                        label: String::from_str(label),
                        percent: string_of_all(pct.as_slice()),
                        counts: counts_of(rest.as_slice()),
                    })
                },
                None => None,
            };
        }
        k = k + 1;
    }
    proof { lemma_first_where_none(5, pred); }
    None
}

/// Arguments of the `git clone` of a project repository into `dir`:
/// shallow to `depth` commits when given, with its submodules.
pub open spec fn project_clone_arguments(url: Seq<char>, dir: Seq<char>, depth: Option<u32>) -> Seq<Seq<char>> {
    seq!["clone"@]
        + (match depth { Some(d) => seq!["--depth"@, decimal(d as nat)], None => Seq::empty() })
        + seq!["--progress"@, "--recurse-submodules"@, url, dir]
}

/// The `git clone` command line of `gdio clone`.
pub fn project_clone_args(url: &str, dir: &str, depth: Option<u32>) -> (v: Vec<String>)
    ensures
        string_views(v@) == project_clone_arguments(url@, dir@, depth),
{
    let mut v: Vec<String> = Vec::new();
    v.push(String::from_str("clone"));
    if let Some(d) = depth {
        v.push(String::from_str("--depth"));
        let mut n = String::new();
        push_decimal(&mut n, d as u64);
        v.push(n);
    }
    v.push(String::from_str("--progress"));
    v.push(String::from_str("--recurse-submodules"));
    v.push(url.to_owned());
    v.push(dir.to_owned());
    assert(string_views(v@) =~= project_clone_arguments(url@, dir@, depth));
    v
}

/// Arguments of the `git clone` of the engine sources into `godot`: one
/// commit deep unless `full`, at `tag` when given.
pub open spec fn engine_clone_arguments(tag: Option<Seq<char>>, full: bool) -> Seq<Seq<char>> {
    seq!["clone"@]
        + (if full { Seq::empty() } else { seq!["--depth"@, "1"@] })
        + seq!["--progress"@, "https://github.com/godotengine/godot.git"@, "godot"@]
        + (match tag { Some(t) => seq!["--branch"@, t], None => Seq::empty() })
}

/// The `git clone` command line of `gdio build clone`.
pub fn engine_clone_args(tag: Option<&str>, full: bool) -> (v: Vec<String>)
    ensures
        string_views(v@) == engine_clone_arguments(match tag { Some(t) => Some(t@), None => None }, full),
{
    let mut v: Vec<String> = Vec::new();
    v.push(String::from_str("clone"));
    if !full {
        v.push(String::from_str("--depth"));
        v.push(String::from_str("1"));
    }
    v.push(String::from_str("--progress"));
    v.push(String::from_str("https://github.com/godotengine/godot.git"));
    v.push(String::from_str("godot"));
    if let Some(t) = tag {
        v.push(String::from_str("--branch"));
        v.push(t.to_owned());
    }
    assert(string_views(v@) =~= engine_clone_arguments(match tag { Some(t) => Some(t@), None => None }, full));
    v
}

/// What the progress bar of a clone shows so far: the phase and its total.
pub struct CloneProgress {
    pub phase: String,
    pub total: u64,
}

/// How the progress bar changes for one progress line.
pub struct ProgressUpdate {
    /// New message: the phase, when it changed.
    pub message: Option<String>,
    /// New length: the count, when it is positive and new.
    pub length: Option<u64>,
    /// New position, once a total is known.
    pub position: Option<u64>,
}

/// Applies a progress line of phase `phase` with `done` of `count` items.
pub fn progress_step(state: &mut CloneProgress, phase: &str, count: u64, done: u64) -> (u: ProgressUpdate)
    ensures
        old(state).phase@ != phase@ ==> (u.message matches Some(m) && m@ == phase@) && final(state).phase@ == phase@,
        old(state).phase@ == phase@ ==> u.message is None && final(state).phase@ == old(state).phase@,
        final(state).total == (if count > 0 && count != old(state).total { count } else { old(state).total }),
        u.length == (if count > 0 && count != old(state).total { Some(count) } else { None::<u64> }),
        u.position == (if final(state).total > 0 { Some(done) } else { None::<u64> }),
{
    let message = if !chars_eq(chars_of(state.phase.as_str()).as_slice(), chars_of(phase).as_slice()) {
        state.phase = phase.to_owned();
        Some(phase.to_owned())
    } else {
        None
    };
    let length = if count > 0 && count != state.total {
        state.total = count;
        Some(count)
    } else {
        None
    };
    let position = if state.total > 0 { Some(done) } else { None };
    ProgressUpdate { message, length, position }
}

} // verus!
