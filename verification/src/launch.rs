//! Command lines gdio runs: the Godot editor (import, open, run, export)
//! and butler (the itch.io uploader), and the names of the files it moves.
use vstd::prelude::*;
use crate::text::{chars_of, find_char, find_char_in, lines, lines_of, push_str, string_of_all, trim, trimmed};
use crate::platform::{string_views, TargetOs};

verus! {

/// Arguments that import a project's assets headlessly.
pub fn import_args(project_dir: &str) -> (v: Vec<String>)
    ensures
        string_views(v@) == seq!["--headless"@, "--path"@, project_dir@, "--import"@],
{
    let mut v: Vec<String> = Vec::new();
    v.push(String::from_str("--headless"));
    v.push(String::from_str("--path"));
    v.push(project_dir.to_owned());
    v.push(String::from_str("--import"));
    assert(string_views(v@) =~= seq!["--headless"@, "--path"@, project_dir@, "--import"@]);
    v
}

/// Arguments that open a project, in the editor (`--editor`) or as a game
/// (`--game`).
pub fn open_args(project_dir: &str, editor: bool) -> (v: Vec<String>)
    ensures
        string_views(v@) == seq!["--path"@, project_dir@, if editor { "--editor"@ } else { "--game"@ }],
{
    let mut v: Vec<String> = Vec::new();
    v.push(String::from_str("--path"));
    v.push(project_dir.to_owned());
    if editor {
        v.push(String::from_str("--editor"));
    } else {
        v.push(String::from_str("--game"));
    }
    assert(string_views(v@) =~= seq!["--path"@, project_dir@, if editor { "--editor"@ } else { "--game"@ }]);
    v
}

/// Arguments that export a project with a preset, headlessly, as a debug or
/// release build.
pub fn export_args(project_dir: &str, preset: &str, output: &str, debug: bool) -> (v: Vec<String>)
    ensures
        string_views(v@) == seq!["--headless"@, "--path"@, project_dir@,
            if debug { "--export-debug"@ } else { "--export-release"@ }, preset@, output@],
{
    let mut v: Vec<String> = Vec::new();
    v.push(String::from_str("--headless"));
    v.push(String::from_str("--path"));
    v.push(project_dir.to_owned());
    if debug {
        v.push(String::from_str("--export-debug"));
    } else {
        v.push(String::from_str("--export-release"));
    }
    v.push(preset.to_owned());
    v.push(output.to_owned());
    assert(string_views(v@) =~= seq!["--headless"@, "--path"@, project_dir@,
        if debug { "--export-debug"@ } else { "--export-release"@ }, preset@, output@]);
    v
}

/// An itch.io game is named `user/game`.
pub fn valid_game_id(game: &str) -> (b: bool)
    ensures
        b == (find_char(game@, '/') is Some),
{
    find_char_in(chars_of(game).as_slice(), '/').is_some()
}

/// Name of the archive uploaded for a platform:
/// `<project>-<platform>-v<version>.zip`.
pub fn upload_zip_name(project_name: &str, platform: &str, version: &str) -> (r: String)
    ensures
        r@ == project_name@ + "-"@ + platform@ + "-v"@ + version@ + ".zip"@,
{
    let mut r = project_name.to_owned();
    push_str(&mut r, "-");
    push_str(&mut r, platform);
    push_str(&mut r, "-v");
    push_str(&mut r, version);
    push_str(&mut r, ".zip");
    r
}

/// Arguments of `butler push`: the archive, `<game>:<channel>`, and the
/// version shown on itch.io.
pub fn butler_push_args(zip_path: &str, game: &str, channel: &str, version: &str) -> (v: Vec<String>)
    ensures
        string_views(v@) == seq!["push"@, zip_path@, game@ + ":"@ + channel@, "--userversion"@, version@],
{
    let mut target = game.to_owned();
    push_str(&mut target, ":");
    push_str(&mut target, channel);
    let mut v: Vec<String> = Vec::new();
    v.push(String::from_str("push"));
    v.push(zip_path.to_owned());
    v.push(target);
    v.push(String::from_str("--userversion"));
    v.push(version.to_owned());
    assert(string_views(v@) =~= seq!["push"@, zip_path@, game@ + ":"@ + channel@, "--userversion"@, version@]);
    v
}

/// A processor architecture.
#[derive(Clone, Copy, Debug, PartialEq, Eq, Structural)]
pub enum CpuArch {
    X86_64,
    Aarch64,
    Other,
}

/// The (os, arch) butler is published for on this machine, if any.
pub open spec fn butler_target(os: TargetOs, arch: CpuArch) -> Option<(Seq<char>, Seq<char>)> {
    match (os, arch) {
        (TargetOs::Windows, CpuArch::X86_64) => Some(("windows"@, "amd64"@)),
        (TargetOs::Linux, CpuArch::X86_64) => Some(("linux"@, "amd64"@)),
        (TargetOs::Linux, CpuArch::Aarch64) => Some(("linux"@, "arm64"@)),
        (TargetOs::MacOs, CpuArch::X86_64) => Some(("darwin"@, "amd64"@)),
        (TargetOs::MacOs, CpuArch::Aarch64) => Some(("darwin"@, "arm64"@)),
        _ => None,
    }
}

/// Name of the butler archive for a machine: `butler-<os>-<arch>.zip`;
/// `None` where butler is not published.
pub fn butler_zip_name(os: TargetOs, arch: CpuArch) -> (r: Option<String>)
    ensures
        match butler_target(os, arch) {
            Some((o, a)) => r matches Some(s) && s@ == "butler-"@ + o + "-"@ + a + ".zip"@,
            None => r is None,
        },
{
    let (o, a): (&str, &str) = match (os, arch) {
        (TargetOs::Windows, CpuArch::X86_64) => ("windows", "amd64"),
        (TargetOs::Linux, CpuArch::X86_64) => ("linux", "amd64"),
        (TargetOs::Linux, CpuArch::Aarch64) => ("linux", "arm64"),
        (TargetOs::MacOs, CpuArch::X86_64) => ("darwin", "amd64"),
        (TargetOs::MacOs, CpuArch::Aarch64) => ("darwin", "arm64"),
        _ => {
            return None;
        },
    };
    let mut r = String::from_str("butler-");
    push_str(&mut r, o);
    push_str(&mut r, "-");
    push_str(&mut r, a);
    push_str(&mut r, ".zip");
    Some(r)
}

/// Arguments of `gdio args`: the project, then the user's arguments.
pub fn custom_args(project_dir: &str, extra: &[String]) -> (v: Vec<String>)
    ensures
        string_views(v@) == seq!["--path"@, project_dir@] + string_views(extra@),
{
    let mut v: Vec<String> = Vec::new();
    v.push(String::from_str("--path"));
    v.push(project_dir.to_owned());
    let ghost head = string_views(v@);
    let mut i: usize = 0;
    while i < extra.len()
        invariant
            i <= extra@.len(),
            head == seq!["--path"@, project_dir@],
            string_views(v@) == head + string_views(extra@).take(i as int),
        decreases extra.len() - i,
    {
        let ghost before = v@;
        v.push(extra[i].clone());
        assert(string_views(extra@).take(i + 1) == string_views(extra@).take(i as int).push(extra@[i as int]@));
        assert(string_views(v@) =~= string_views(before).push(extra@[i as int]@));
        i = i + 1;
    }
    assert(string_views(extra@).take(extra@.len() as int) == string_views(extra@));
    v
}

/// Arguments that run a script headlessly (`gdio script`).
pub fn script_args(file: &str) -> (v: Vec<String>)
    ensures
        string_views(v@) == seq!["--headless"@, "--script"@, file@],
{
    let mut v: Vec<String> = Vec::new();
    v.push(String::from_str("--headless"));
    v.push(String::from_str("--script"));
    v.push(file.to_owned());
    assert(string_views(v@) =~= seq!["--headless"@, "--script"@, file@]);
    v
}

/// The `project.godot` of a new project named `name`.
pub fn new_project_text(name: &str) -> (r: String)
    ensures
        r@ == "[application]\nconfig/name=\""@ + name@ + "\"\n"@,
{
    let mut r = String::from_str("[application]\nconfig/name=\"");
    push_str(&mut r, name);
    push_str(&mut r, "\"\n");
    r
}

/// The path that `which butler` (or `where butler.exe`) printed: the first
/// line of its trimmed output.
pub open spec fn located_path(output: Seq<char>) -> Seq<char> {
    if lines(trim(output)).len() > 0 { lines(trim(output))[0] } else { trim(output) }
}

/// The butler path named by the output of the command that looks it up on
/// `PATH`.
pub fn which_path(output: &str) -> (r: String)
    ensures
        r@ == located_path(output@),
{
    let t = trimmed(chars_of(output).as_slice());
    let ls = lines_of(t.as_slice());
    if ls.len() > 0 {
        assert(ls@[0]@ == crate::text::views(ls@)[0]);
        string_of_all(ls[0].as_slice())
    } else {
        string_of_all(t.as_slice())
    }
}

} // verus!
