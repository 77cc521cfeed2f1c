//! Settings read from a Godot project's `project.godot` and
//! `export_presets.cfg` texts.
use vstd::prelude::*;
use vstd::slice::slice_to_vec;
use crate::text::{
    chars_of, find_char, find_char_in, first_where, has_prefix, lemma_first_where_is,
    lemma_first_where_none, lines, lines_of, starts_with, string_of_all, trim,
    trim_start_char, trim_start_matching, trimmed, views, contains, ends_with, has_suffix,
    join, last_where, push_str, split, trim_start,
};
use vstd::utf8::{decode_utf8, encode_utf8, encode_utf8_decode_utf8, is_char_boundary};

verus! {

/// The text between the first two double quotes of `t`.
pub open spec fn quoted(t: Seq<char>) -> Option<Seq<char>> {
    match find_char(t, '"') {
        Some(s) => match find_char(t.skip(s + 1), '"') {
            Some(e) => Some(t.subrange(s + 1, s + 1 + e)),
            None => None,
        },
        None => None,
    }
}

/// Value of the setting `key` on the trimmed line `t`: `t` starts with
/// `key` and holds a quoted text.
pub open spec fn setting(t: Seq<char>, key: Seq<char>) -> Option<Seq<char>> {
    if starts_with(t, key) {
        quoted(t)
    } else {
        None
    }
}

fn quoted_of(t: &[char]) -> (r: Option<Vec<char>>)
    ensures
        match quoted(t@) {
            Some(q) => r matches Some(v) && v@ == q,
            None => r is None,
        },
{
    match find_char_in(t, '"') {
        Some(s) => {
            let n = t.len();
            let rest = &t[s + 1..n];
            assert(rest@ == t@.skip(s + 1));
            match find_char_in(rest, '"') {
                Some(e) => {
                    let v = slice_to_vec(&t[s + 1..s + 1 + e]);
                    Some(v)
                },
                None => None,
            }
        },
        None => None,
    }
}

fn setting_of(t: &[char], key: &str) -> (r: Option<Vec<char>>)
    ensures
        match setting(t@, key@) {
            Some(q) => r matches Some(v) && v@ == q,
            None => r is None,
        },
{
    if has_prefix(t, chars_of(key).as_slice()) {
        quoted_of(t)
    } else {
        None
    }
}

/// Line `l` sets `key`, to a non-empty value when `nonempty`.
pub open spec fn has_setting(l: Seq<char>, key: Seq<char>, nonempty: bool) -> bool {
    setting(trim(l), key) matches Some(v) && (nonempty ==> v.len() > 0)
}

/// Value of the first line of `ls` that sets `key` (to a non-empty value
/// when `nonempty`).
pub open spec fn first_setting(ls: Seq<Seq<char>>, key: Seq<char>, nonempty: bool) -> Option<Seq<char>> {
    match first_where(ls.len() as int, |i: int| has_setting(ls[i], key, nonempty)) {
        Some(i) => setting(trim(ls[i]), key),
        None => None,
    }
}

fn find_setting(ls: &Vec<Vec<char>>, key: &str, nonempty: bool) -> (r: Option<Vec<char>>)
    ensures
        match first_setting(views(ls@), key@, nonempty) {
            Some(q) => r matches Some(v) && v@ == q,
            None => r is None,
        },
{
    let ghost vs = views(ls@);
    let ghost pred = |i: int| has_setting(vs[i], key@, nonempty);
    let mut i: usize = 0;
    while i < ls.len()
        invariant
            i <= ls@.len(),
            vs == views(ls@),
            vs.len() == ls@.len(),
            pred == (|i: int| has_setting(vs[i], key@, nonempty)),
            forall|j: int| 0 <= j < i ==> !#[trigger] pred(j),
        decreases ls.len() - i,
    {
        assert(vs[i as int] == ls@[i as int]@);
        let t = trimmed(ls[i].as_slice());
        match setting_of(t.as_slice(), key) {
            Some(v) => {
                if !nonempty || v.len() > 0 {
                    assert(pred(i as int));
                    proof { lemma_first_where_is(vs.len() as int, pred, i as int); }
                    return Some(v);
                }
            },
            None => {},
        }
        assert(!pred(i as int));
        i = i + 1;
    }
    proof { lemma_first_where_none(vs.len() as int, pred); }
    None
}

/// Engine version a `project.godot` text declares in `config/features`.
pub open spec fn declared_godot_version(content: Seq<char>) -> Option<Seq<char>> {
    first_setting(lines(content), "config/features="@, false)
}

/// Reads the engine version (such as `4.3`) from the text of `project.godot`:
/// the first quoted value of the first `config/features=` line that has one.
pub fn parse_godot_version(content: &str) -> (r: Option<String>)
    ensures
        match declared_godot_version(content@) {
            Some(v) => r matches Some(s) && s@ == v,
            None => r is None,
        },
{
    let ls = lines_of(chars_of(content).as_slice());
    match find_setting(&ls, "config/features=", false) {
        Some(v) => Some(string_of_all(v.as_slice())),
        None => None,
    }
}

/// Name a `project.godot` text declares in `config/name`.
pub open spec fn declared_project_name(content: Seq<char>) -> Option<Seq<char>> {
    first_setting(lines(content), "config/name="@, false)
}

/// Reads the project name from the text of `project.godot`.
pub fn parse_project_name(content: &str) -> (r: Option<String>)
    ensures
        match declared_project_name(content@) {
            Some(v) => r matches Some(s) && s@ == v,
            None => r is None,
        },
{
    let ls = lines_of(chars_of(content).as_slice());
    match find_setting(&ls, "config/name=", false) {
        Some(v) => Some(string_of_all(v.as_slice())),
        None => None,
    }
}

/// Game version a `project.godot` text declares in `config/version`
/// (the first non-empty one, leading `v`s removed), or the empty text.
pub open spec fn declared_game_version(content: Seq<char>) -> Seq<char> {
    match first_setting(lines(content), "config/version="@, true) {
        Some(v) => trim_start_char(v, 'v'),
        None => Seq::empty(),
    }
}

/// Reads the game's own version from the text of `project.godot`
/// (`"v1.2"` gives `1.2`); empty when none is set.
pub fn parse_game_version(content: &str) -> (r: String)
    ensures
        r@ == declared_game_version(content@),
{
    let ls = lines_of(chars_of(content).as_slice());
    match find_setting(&ls, "config/version=", true) {
        Some(v) => string_of_all(trim_start_matching(v.as_slice(), 'v').as_slice()),
        None => String::new(),
    }
}

/// An export preset of `export_presets.cfg`.
pub struct ExportPreset {
    pub name: String,
    pub platform: String,
    pub export_path: Option<String>,
    pub binary_format: Option<String>,
}

/// Text of an optional string.
pub open spec fn opt_view(o: Option<String>) -> Option<Seq<char>> {
    match o {
        Some(s) => Some(s@),
        None => None,
    }
}

impl View for ExportPreset {
    type V = (Seq<char>, Seq<char>, Option<Seq<char>>, Option<Seq<char>>);

    open spec fn view(&self) -> Self::V {
        (self.name@, self.platform@, opt_view(self.export_path), opt_view(self.binary_format))
    }
}

/// State of a scan of `export_presets.cfg`, line by line: the presets
/// completed, whether a `[preset.N]` section is open, and its settings so far.
pub struct PresetScan {
    pub found: Seq<(Seq<char>, Seq<char>, Option<Seq<char>>, Option<Seq<char>>)>,
    pub in_preset: bool,
    pub name: Seq<char>,
    pub platform: Seq<char>,
    pub export_path: Option<Seq<char>>,
    pub binary_format: Option<Seq<char>>,
}

/// The completed presets, with the open one added when it has a name.
pub open spec fn flushed(st: PresetScan) -> Seq<(Seq<char>, Seq<char>, Option<Seq<char>>, Option<Seq<char>>)> {
    if st.name.len() > 0 {
        st.found.push((st.name, st.platform, st.export_path, st.binary_format))
    } else {
        st.found
    }
}

/// Effect of one line on the scan.
pub open spec fn scan_step(st: PresetScan, line: Seq<char>) -> PresetScan {
    let t = trim(line);
    if starts_with(t, "[preset."@) {
        PresetScan {
            found: if st.in_preset { flushed(st) } else { st.found },
            in_preset: true,
            name: Seq::empty(),
            platform: Seq::empty(),
            export_path: None,
            binary_format: None,
        }
    } else if starts_with(t, "["@) && st.in_preset {
        PresetScan { found: flushed(st), in_preset: false, ..st }
    } else if st.in_preset {
        if st.name.len() == 0 && setting(t, "name="@) is Some {
            PresetScan { name: setting(t, "name="@)->0, ..st }
        } else if st.platform.len() == 0 && setting(t, "platform="@) is Some {
            PresetScan { platform: setting(t, "platform="@)->0, ..st }
        } else if st.export_path is None && setting(t, "export_path="@) is Some {
            let v = setting(t, "export_path="@)->0;
            PresetScan { export_path: if v.len() > 0 { Some(v) } else { None }, ..st }
        } else if setting(t, "binary_format/architecture="@) is Some {
            let v = setting(t, "binary_format/architecture="@)->0;
            if v.len() > 0 {
                PresetScan { binary_format: Some(v), ..st }
            } else {
                st
            }
        } else {
            st
        }
    } else {
        st
    }
}

/// State after the first `k` lines of `ls`.
pub open spec fn scan_lines(ls: Seq<Seq<char>>, k: int) -> PresetScan
    decreases k,
{
    if k <= 0 {
        PresetScan {
            found: Seq::empty(),
            in_preset: false,
            name: Seq::empty(),
            platform: Seq::empty(),
            export_path: None,
            binary_format: None,
        }
    } else {
        scan_step(scan_lines(ls, k - 1), ls[k - 1])
    }
}

/// The presets of an `export_presets.cfg` text: each `[preset.N]` section with
/// a name, with its first name, platform and export path and its last
/// architecture; empty paths and architectures count as unset.
pub open spec fn export_presets(content: Seq<char>) -> Seq<(Seq<char>, Seq<char>, Option<Seq<char>>, Option<Seq<char>>)> {
    let ls = lines(content);
    let st = scan_lines(ls, ls.len() as int);
    if st.in_preset {
        flushed(st)
    } else {
        st.found
    }
}

struct Scanner {
    found: Vec<ExportPreset>,
    in_preset: bool,
    name: Vec<char>,
    platform: Vec<char>,
    export_path: Option<Vec<char>>,
    binary_format: Option<Vec<char>>,
}

spec fn opt_chars(o: Option<Vec<char>>) -> Option<Seq<char>> {
    match o {
        Some(v) => Some(v@),
        None => None,
    }
}

spec fn preset_views(v: Seq<ExportPreset>) -> Seq<(Seq<char>, Seq<char>, Option<Seq<char>>, Option<Seq<char>>)> {
    v.map_values(|p: ExportPreset| p@)
}

spec fn scanner_view(s: Scanner) -> PresetScan {
    PresetScan {
        found: preset_views(s.found@),
        in_preset: s.in_preset,
        name: s.name@,
        platform: s.platform@,
        export_path: opt_chars(s.export_path),
        binary_format: opt_chars(s.binary_format),
    }
}

fn opt_string(o: &Option<Vec<char>>) -> (r: Option<String>)
    ensures
        opt_view(r) == opt_chars(*o),
{
    match o {
        Some(v) => Some(string_of_all(v.as_slice())),
        None => None,
    }
}

fn copy_chars(o: &Option<Vec<char>>) -> (r: Option<Vec<char>>)
    ensures
        opt_chars(r) == opt_chars(*o),
{
    match o {
        Some(v) => Some(slice_to_vec(v.as_slice())),
        None => None,
    }
}

fn flush(s: &mut Scanner)
    ensures
        preset_views(final(s).found@) == flushed(scanner_view(*old(s))),
        final(s).in_preset == old(s).in_preset,
        final(s).name@ == old(s).name@,
        final(s).platform@ == old(s).platform@,
        opt_chars(final(s).export_path) == opt_chars(old(s).export_path),
        opt_chars(final(s).binary_format) == opt_chars(old(s).binary_format),
{
    if s.name.len() > 0 {
        let p = ExportPreset {
            name: string_of_all(s.name.as_slice()),
            platform: string_of_all(s.platform.as_slice()),
            export_path: opt_string(&s.export_path),
            binary_format: opt_string(&s.binary_format),
        };
        let ghost before = s.found@;
        s.found.push(p);
        assert(preset_views(s.found@) =~= preset_views(before).push(p@));
    }
}

fn scan_line(s: &mut Scanner, line: &[char])
    ensures
        scanner_view(*final(s)) == scan_step(scanner_view(*old(s)), line@),
{
    let t = trimmed(line);
    let ts = t.as_slice();
    let ghost st = scanner_view(*s);
    if has_prefix(ts, chars_of("[preset.").as_slice()) {
        if s.in_preset {
            flush(s);
        }
        s.in_preset = true;
        s.name = Vec::new();
        s.platform = Vec::new();
        s.export_path = None;
        s.binary_format = None;
        assert(scanner_view(*s) == scan_step(st, line@));
    } else if has_prefix(ts, chars_of("[").as_slice()) && s.in_preset {
        flush(s);
        s.in_preset = false;
        assert(scanner_view(*s) == scan_step(st, line@));
    } else if s.in_preset {
        let name = setting_of(ts, "name=");
        let platform = setting_of(ts, "platform=");
        let export_path = setting_of(ts, "export_path=");
        let arch = setting_of(ts, "binary_format/architecture=");
        if s.name.len() == 0 && name.is_some() {
            s.name = name.unwrap();
        } else if s.platform.len() == 0 && platform.is_some() {
            s.platform = platform.unwrap();
        } else if s.export_path.is_none() && export_path.is_some() {
            let v = export_path.unwrap();
            if v.len() > 0 {
                s.export_path = Some(v);
            }
        } else if arch.is_some() {
            let v = arch.unwrap();
            if v.len() > 0 {
                s.binary_format = Some(v);
            }
        }
        assert(scanner_view(*s) == scan_step(st, line@));
    }
}

/// Reads the export presets from the text of `export_presets.cfg`.
pub fn parse_export_presets(content: &str) -> (r: Vec<ExportPreset>)
    ensures
        r@.map_values(|p: ExportPreset| p@) == export_presets(content@),
{
    let ls = lines_of(chars_of(content).as_slice());
    let ghost vs = views(ls@);
    let mut s = Scanner {
        found: Vec::new(),
        in_preset: false,
        name: Vec::new(),
        platform: Vec::new(),
        export_path: None,
        binary_format: None,
    };
    assert(preset_views(s.found@) =~= Seq::empty());
    assert(scanner_view(s) == scan_lines(vs, 0));
    let mut i: usize = 0;
    while i < ls.len()
        invariant
            i <= ls@.len(),
            vs == views(ls@),
            vs.len() == ls@.len(),
            scanner_view(s) == scan_lines(vs, i as int),
        decreases ls.len() - i,
    {
        assert(vs[i as int] == ls@[i as int]@);
        scan_line(&mut s, ls[i].as_slice());
        i = i + 1;
    }
    if s.in_preset {
        flush(&mut s);
    }
    s.found
}

/// Resource path of an addon's `plugin.cfg`.
pub open spec fn plugin_path(folder: Seq<char>) -> Seq<char> {
    "res://addons/"@ + folder + "/plugin.cfg"@
}

/// `s` with every `\r\n` replaced by `\n`, as `str::replace` does.
pub open spec fn crlf_to_lf(s: Seq<char>) -> Seq<char>
    decreases s.len(),
{
    if s.len() == 0 {
        s
    } else if s.len() >= 2 && s[0] == '\r' && s[1] == '\n' {
        seq!['\n'] + crlf_to_lf(s.skip(2))
    } else {
        seq![s[0]] + crlf_to_lf(s.skip(1))
    }
}

fn crlf_to_lf_of(s: &[char]) -> (r: Vec<char>)
    ensures
        r@ == crlf_to_lf(s@),
{
    let mut r: Vec<char> = Vec::new();
    let mut i: usize = 0;
    let n = s.len();
    assert(s@.skip(0) == s@);
    while i < n
        invariant
            i <= n == s@.len(),
            r@ + crlf_to_lf(s@.skip(i as int)) == crlf_to_lf(s@),
        decreases n - i,
    {
        let ghost rest = s@.skip(i as int);
        if i + 1 < n && s[i] == '\r' && s[i + 1] == '\n' {
            assert(rest.skip(2) == s@.skip(i + 2));
            r.push('\n');
            assert(r@ + crlf_to_lf(s@.skip(i + 2)) =~= crlf_to_lf(s@)) by {
                assert(crlf_to_lf(rest) == seq!['\n'] + crlf_to_lf(rest.skip(2)));
            }
            i = i + 2;
        } else {
            assert(rest.skip(1) == s@.skip(i + 1));
            r.push(s[i]);
            assert(r@ + crlf_to_lf(s@.skip(i + 1)) =~= crlf_to_lf(s@)) by {
                assert(crlf_to_lf(rest) == seq![rest[0]] + crlf_to_lf(rest.skip(1)));
            }
            i = i + 1;
        }
    }
    assert(crlf_to_lf(s@.skip(n as int)) =~= Seq::<char>::empty());
    assert(r@ =~= r@ + crlf_to_lf(s@.skip(n as int)));
    r
}

/// Index of the `[editor_plugins]` section header among `ls`.
pub open spec fn section_index(ls: Seq<Seq<char>>) -> Option<int> {
    first_where(ls.len() as int, |i: int| trim(ls[i]) == "[editor_plugins]"@)
}

/// Index of the first line after `s` that opens a section or sets `enabled=`.
pub open spec fn stop_index(ls: Seq<Seq<char>>, s: int) -> Option<int> {
    first_where(ls.len() as int, |i: int| i > s
        && (starts_with(trim(ls[i]), "["@) || starts_with(trim(ls[i]), "enabled="@)))
}

/// Index of the section's `enabled=` line, if it comes before the next section.
pub open spec fn enabled_index(ls: Seq<Seq<char>>, s: int) -> Option<int> {
    match stop_index(ls, s) {
        Some(i) => if starts_with(trim(ls[i]), "enabled="@) { Some(i) } else { None },
        None => None,
    }
}

/// `line[p]` is a `)` followed only by blanks or a `#` comment.
pub open spec fn closes_at(line: Seq<char>, p: int) -> bool {
    line[p] == ')' && (trim_start(line.skip(p + 1)).len() == 0 || starts_with(trim_start(line.skip(p + 1)), "#"@))
}

/// Position of the `)` that closes an `enabled=` line's array: the last `)`
/// followed only by blanks or a comment.
pub open spec fn close_pos(line: Seq<char>) -> Option<int> {
    last_where(line.len() as int, |p: int| closes_at(line, p))
}

/// An `enabled=` line holding just `path`.
pub open spec fn default_enabled_line(path: Seq<char>) -> Seq<char> {
    "enabled=PackedStringArray(\""@ + path + "\")"@
}

/// The text before the closing `)` holds a non-empty array to extend.
pub open spec fn extends_array(prefix: Seq<char>) -> bool {
    contains(prefix, "PackedStringArray("@) && ends_with(prefix, "\""@)
}

/// The text of `prefix` after its first 26 bytes (the length of
/// `enabled=PackedStringArray(`).
pub open spec fn after_array_start(prefix: Seq<char>) -> Seq<char> {
    decode_utf8(encode_utf8(prefix).skip(26))
}

/// The `enabled=` line with `path` added to its array.
pub open spec fn enabled_line(line: Seq<char>, path: Seq<char>) -> Seq<char> {
    match close_pos(line) {
        Some(p) => if extends_array(line.take(p)) {
            "enabled=PackedStringArray("@ + after_array_start(line.take(p)) + ",\""@ + path + "\")"@
        } else {
            default_enabled_line(path)
        },
        None => default_enabled_line(path),
    }
}

/// The lines of `project.godot` with the plugin at `path` enabled.
pub open spec fn plugin_lines(ls: Seq<Seq<char>>, path: Seq<char>) -> Seq<Seq<char>> {
    match section_index(ls) {
        Some(s) => match enabled_index(ls, s) {
            Some(i) => ls.update(i, enabled_line(ls[i], path)),
            None => ls.insert(s + 1, default_enabled_line(path)),
        },
        None => (if ls.last().len() > 0 { ls.push(Seq::empty()) } else { ls })
            .push("[editor_plugins]"@).push(default_enabled_line(path)),
    }
}

/// Whether the `project.godot` text uses `\r\n` line endings.
pub open spec fn uses_crlf(content: Seq<char>) -> bool {
    contains(content, "\r\n"@)
}

/// The lines of a `project.godot` text, split at `\n` after `\r\n` became `\n`.
pub open spec fn godot_lines(content: Seq<char>) -> Seq<Seq<char>> {
    split(if uses_crlf(content) { crlf_to_lf(content) } else { content }, '\n')
}

/// New `project.godot` text with the addon's plugin enabled, line endings
/// kept; `None` when the plugin is mentioned already.
pub open spec fn plugin_enabled(content: Seq<char>, folder: Seq<char>) -> Option<Seq<char>> {
    let path = plugin_path(folder);
    if contains(content, path) {
        None
    } else {
        Some(join(plugin_lines(godot_lines(content), path), if uses_crlf(content) { "\r\n"@ } else { "\n"@ }))
    }
}

/// The `enabled=` line that would be extended can be cut after its first 26
/// bytes (always so unless that line is malformed).
pub open spec fn enable_plugin_safe(content: Seq<char>, folder: Seq<char>) -> bool {
    let ls = godot_lines(content);
    contains(content, plugin_path(folder)) || match section_index(ls) {
        Some(s) => match enabled_index(ls, s) {
            Some(i) => match close_pos(ls[i]) {
                Some(p) => extends_array(ls[i].take(p)) ==> is_char_boundary(encode_utf8(ls[i].take(p)), 26),
                None => true,
            },
            None => true,
        },
        None => true,
    }
}

fn find_close_pos(line: &[char]) -> (r: Option<usize>)
    ensures
        r matches Some(p) ==> p < line@.len() && close_pos(line@) == Some(p as int),
        r is None ==> close_pos(line@) is None,
{
    let ghost pred = |p: int| closes_at(line@, p);
    let n = line.len();
    let mut k: usize = n;
    while k > 0
        invariant
            k <= n == line@.len(),
            pred == (|p: int| closes_at(line@, p)),
            forall|j: int| k <= j < n ==> !#[trigger] pred(j),
        decreases k,
    {
        let p = k - 1;
        if line[p] == ')' {
            let after = &line[p + 1..n];
            assert(after@ == line@.skip(p + 1));
            let a = crate::text::trim_start_index(after);
            let m = after.len();
            let rest = &after[a..m];
            assert(rest@ == trim_start(line@.skip(p + 1)));
            if rest.len() == 0 || has_prefix(rest, chars_of("#").as_slice()) {
                assert(pred(p as int));
                proof { crate::text::lemma_last_where_is(n as int, pred, p as int); }
                return Some(p);
            }
        }
        assert(!pred(p as int));
        k = p;
    }
    None
}

fn find_section(ls: &Vec<Vec<char>>) -> (r: Option<usize>)
    ensures
        r matches Some(s) ==> s < ls@.len() && section_index(views(ls@)) == Some(s as int),
        r is None ==> section_index(views(ls@)) is None,
{
    let ghost vs = views(ls@);
    let ghost pred = |i: int| trim(vs[i]) == "[editor_plugins]"@;
    let header = chars_of("[editor_plugins]");
    let mut i: usize = 0;
    while i < ls.len()
        invariant
            i <= ls@.len(),
            vs == views(ls@),
            vs.len() == ls@.len(),
            header@ == "[editor_plugins]"@,
            pred == (|i: int| trim(vs[i]) == "[editor_plugins]"@),
            forall|j: int| 0 <= j < i ==> !#[trigger] pred(j),
        decreases ls.len() - i,
    {
        assert(vs[i as int] == ls@[i as int]@);
        if crate::text::chars_eq(trimmed(ls[i].as_slice()).as_slice(), header.as_slice()) {
            proof { lemma_first_where_is(vs.len() as int, pred, i as int); }
            return Some(i);
        }
        i = i + 1;
    }
    proof { lemma_first_where_none(vs.len() as int, pred); }
    None
}

fn find_enabled(ls: &Vec<Vec<char>>, s: usize) -> (r: Option<usize>)
    requires
        s < ls@.len(),
    ensures
        r matches Some(i) ==> s < i < ls@.len() && enabled_index(views(ls@), s as int) == Some(i as int),
        r is None ==> enabled_index(views(ls@), s as int) is None,
{
    let ghost vs = views(ls@);
    let ghost pred = |i: int| i > s as int
        && (starts_with(trim(vs[i]), "["@) || starts_with(trim(vs[i]), "enabled="@));
    let open = chars_of("[");
    let enabled = chars_of("enabled=");
    let n = ls.len();
    let mut i: usize = s + 1;
    while i < ls.len()
        invariant
            s < i <= ls@.len(),
            vs == views(ls@),
            vs.len() == ls@.len(),
            open@ == "["@,
            enabled@ == "enabled="@,
            pred == (|i: int| i > s as int
                && (starts_with(trim(vs[i]), "["@) || starts_with(trim(vs[i]), "enabled="@))),
            forall|j: int| 0 <= j < i ==> !#[trigger] pred(j),
        decreases ls.len() - i,
    {
        assert(vs[i as int] == ls@[i as int]@);
        let t = trimmed(ls[i].as_slice());
        let is_open = has_prefix(t.as_slice(), open.as_slice());
        let is_enabled = has_prefix(t.as_slice(), enabled.as_slice());
        if is_open || is_enabled {
            proof { lemma_first_where_is(vs.len() as int, pred, i as int); }
            if is_enabled {
                return Some(i);
            }
            return None;
        }
        i = i + 1;
    }
    proof { lemma_first_where_none(vs.len() as int, pred); }
    None
}

fn extend_enabled_line(line: &[char], path: &str) -> (r: Vec<char>)
    requires
        match close_pos(line@) {
            Some(p) => extends_array(line@.take(p)) ==> is_char_boundary(encode_utf8(line@.take(p)), 26),
            None => true,
        },
    ensures
        r@ == enabled_line(line@, path@),
{
    let mut def = String::from_str("enabled=PackedStringArray(\"");
    push_str(&mut def, path);
    push_str(&mut def, "\")");
    match find_close_pos(line) {
        Some(p) => {
            let prefix = crate::text::string_of(line, 0, p);
            assert(prefix@ == line@.take(p as int));
            let pc = chars_of(prefix.as_str());
            if crate::text::contains_in(pc.as_slice(), chars_of("PackedStringArray(").as_slice())
                && has_suffix(pc.as_slice(), chars_of("\"").as_slice()) {
                let (_, rest) = prefix.as_str().split_at(26);
                proof {
                    encode_utf8_decode_utf8(rest@);
                    assert(encode_utf8(rest@) =~= encode_utf8(prefix@).skip(26));
                }
                let mut r = String::from_str("enabled=PackedStringArray(");
                push_str(&mut r, rest);
                push_str(&mut r, ",\"");
                push_str(&mut r, path);
                push_str(&mut r, "\")");
                chars_of(r.as_str())
            } else {
                chars_of(def.as_str())
            }
        },
        None => chars_of(def.as_str()),
    }
}

/// Whether the plugin of addon `folder_name` can be enabled in a
/// `project.godot` text without cutting a character of its `enabled=` line.
pub fn can_enable_plugin(content: &str, folder_name: &str) -> (b: bool)
    ensures
        b == enable_plugin_safe(content@, folder_name@),
{
    let mut path = String::from_str("res://addons/");
    push_str(&mut path, folder_name);
    push_str(&mut path, "/plugin.cfg");
    let c = chars_of(content);
    if crate::text::contains_in(c.as_slice(), chars_of(path.as_str()).as_slice()) {
        return true;
    }
    let crlf = crate::text::contains_in(c.as_slice(), chars_of("\r\n").as_slice());
    let norm = if crlf { crlf_to_lf_of(c.as_slice()) } else { c };
    let ls = crate::text::split_chars(norm.as_slice(), '\n');
    match find_section(&ls) {
        Some(s) => match find_enabled(&ls, s) {
            Some(i) => {
                assert(views(ls@)[i as int] == ls@[i as int]@);
                match find_close_pos(ls[i].as_slice()) {
                    Some(p) => {
                        let prefix = crate::text::string_of(ls[i].as_slice(), 0, p);
                        let pc = chars_of(prefix.as_str());
                        if crate::text::contains_in(pc.as_slice(), chars_of("PackedStringArray(").as_slice())
                            && has_suffix(pc.as_slice(), chars_of("\"").as_slice()) {
                            prefix.as_str().is_char_boundary(26)
                        } else {
                            true
                        }
                    },
                    None => true,
                }
            },
            None => true,
        },
        None => true,
    }
}

/// Enables the plugin of addon `folder_name` in the text of `project.godot`:
/// adds its `plugin.cfg` to `[editor_plugins]` `enabled=` (creating the key or
/// the section where missing), keeping the line endings. `None` when the
/// plugin is mentioned already.
pub fn enable_plugin(content: &str, folder_name: &str) -> (r: Option<String>)
    requires
        enable_plugin_safe(content@, folder_name@),
    ensures
        match plugin_enabled(content@, folder_name@) {
            Some(t) => r matches Some(s) && s@ == t,
            None => r is None,
        },
        r matches Some(s) ==> contains(s@, plugin_path(folder_name@)),
{
    proof { crate::plugin_laws::lemma_enabled_text_names_plugin(content@, folder_name@); }
    let mut path = String::from_str("res://addons/");
    push_str(&mut path, folder_name);
    push_str(&mut path, "/plugin.cfg");
    let c = chars_of(content);
    if crate::text::contains_in(c.as_slice(), chars_of(path.as_str()).as_slice()) {
        return None;
    }
    let crlf = crate::text::contains_in(c.as_slice(), chars_of("\r\n").as_slice());
    let norm = if crlf { crlf_to_lf_of(c.as_slice()) } else { c };
    let mut ls = crate::text::split_chars(norm.as_slice(), '\n');
    let ghost vs = views(ls@);
    let mut def = String::from_str("enabled=PackedStringArray(\"");
    push_str(&mut def, path.as_str());
    push_str(&mut def, "\")");
    match find_section(&ls) {
        Some(s) => match find_enabled(&ls, s) {
            Some(i) => {
                assert(vs[i as int] == ls@[i as int]@);
                let new_line = extend_enabled_line(ls[i].as_slice(), path.as_str());
                ls.set(i, new_line);
                assert(views(ls@) =~= vs.update(i as int, enabled_line(vs[i as int], path@)));
            },
            None => {
                let n = ls.len();
                assert(s < n);
                ls.insert(s + 1, chars_of(def.as_str()));
                assert(views(ls@) =~= vs.insert(s + 1, default_enabled_line(path@)));
            },
        },
        None => {
            let last = ls.len() - 1;
            assert(vs.last() == ls@[last as int]@);
            if ls[last].len() > 0 {
                ls.push(Vec::new());
            }
            let ghost mid = views(ls@);
            assert(mid =~= (if vs.last().len() > 0 { vs.push(Seq::empty()) } else { vs }));
            ls.push(chars_of("[editor_plugins]"));
            ls.push(chars_of(def.as_str()));
            assert(views(ls@) =~= mid.push("[editor_plugins]"@).push(default_enabled_line(path@)));
        },
    }
    let sep = if crlf { "\r\n" } else { "\n" };
    Some(crate::text::join_chars(&ls, sep))
}

} // verus!
