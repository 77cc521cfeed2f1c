//! Shell integration and self-removal: which shell is in use, where its
//! completion script for gdio lives, where gdio is installed, and the
//! script that deletes the installation once gdio has exited.
use vstd::prelude::*;
use crate::text::{chars_of, chars_eq, push_char, push_str};
use crate::numparse::{decimal, push_decimal};
use crate::platform::{joined, join_path, string_views, TargetOs};

verus! {

/// Shells gdio writes completions for.
#[derive(Clone, Copy, Debug, PartialEq, Eq, Structural)]
pub enum ShellKind {
    Bash,
    Zsh,
    Fish,
    PowerShell,
    Elvish,
}

/// The shell named by the file name of `$SHELL` (`None` when unset):
/// zsh, fish, or bash for `bash` and `sh`; otherwise PowerShell on Windows
/// and bash elsewhere.
pub open spec fn shell_named(name: Option<Seq<char>>, windows: bool) -> ShellKind {
    match name {
        Some(n) => if n == "zsh"@ {
            ShellKind::Zsh
        } else if n == "fish"@ {
            ShellKind::Fish
        } else if n == "bash"@ || n == "sh"@ {
            ShellKind::Bash
        } else if windows {
            ShellKind::PowerShell
        } else {
            ShellKind::Bash
        },
        None => if windows { ShellKind::PowerShell } else { ShellKind::Bash },
    }
}

fn is(s: &str, name: &str) -> (b: bool)
    ensures
        b == (s@ == name@),
{
    chars_eq(chars_of(s).as_slice(), chars_of(name).as_slice())
}

/// The shell to write completions for.
pub fn detect_shell(shell_file_name: Option<&str>, windows: bool) -> (r: ShellKind)
    ensures
        r == shell_named(match shell_file_name { Some(s) => Some(s@), None => None }, windows),
{
    if let Some(n) = shell_file_name {
        if is(n, "zsh") {
            return ShellKind::Zsh;
        } else if is(n, "fish") {
            return ShellKind::Fish;
        } else if is(n, "bash") || is(n, "sh") {
            return ShellKind::Bash;
        }
    }
    if windows { ShellKind::PowerShell } else { ShellKind::Bash }
}

/// Environment a completion path depends on: the home directory, the
/// Homebrew prefix (macOS), `$XDG_DATA_HOME`, `$ZDOTDIR` and
/// `$XDG_CONFIG_HOME`.
pub struct ShellEnv {
    pub home: String,
    pub brew_prefix: Option<String>,
    pub xdg_data_home: Option<String>,
    pub zdotdir: Option<String>,
    pub xdg_config_home: Option<String>,
}

/// `dir` followed by the fixed path `rest`.
pub open spec fn under(dir: Option<String>, rest: Seq<char>, home: Seq<char>, home_rest: Seq<char>, os: TargetOs) -> Seq<char> {
    match dir {
        Some(d) => d@ + rest,
        None => joined(home, home_rest, os),
    }
}

/// Where the completion script of `shell` is installed.
pub open spec fn completion_location(shell: ShellKind, env: ShellEnv, os: TargetOs) -> Option<Seq<char>> {
    let home = env.home@;
    match shell {
        ShellKind::Bash => if os == TargetOs::MacOs {
            Some(under(env.brew_prefix, "/etc/bash_completion.d/gdio"@, home, ".local/share/bash-completion/completions/gdio"@, os))
        } else {
            Some(under(env.xdg_data_home, "/bash-completion/completions/gdio"@, home, ".local/share/bash-completion/completions/gdio"@, os))
        },
        ShellKind::Zsh => Some(under(env.zdotdir, "/.zsh/completions/_gdio"@, home, ".zsh/completions/_gdio"@, os)),
        ShellKind::Fish => Some(under(env.xdg_config_home, "/fish/completions/gdio.fish"@, home, ".config/fish/completions/gdio.fish"@, os)),
        ShellKind::PowerShell => if os == TargetOs::Windows {
            Some(joined(home, "Documents/PowerShell/Modules/gdio/gdio.psm1"@, os))
        } else {
            Some(under(env.xdg_config_home, "/powershell/Modules/gdio/gdio.psm1"@, home, ".config/powershell/Modules/gdio/gdio.psm1"@, os))
        },
        ShellKind::Elvish => None,
    }
}

fn path_under(dir: &Option<String>, rest: &str, home: &str, home_rest: &str, os: TargetOs) -> (r: String)
    ensures
        r@ == under(*dir, rest@, home@, home_rest@, os),
{
    match dir {
        Some(d) => {
            let mut r = d.clone();
            push_str(&mut r, rest);
            r
        },
        None => join_path(home, home_rest, os),
    }
}

/// Where the completion script of `shell` is installed; `None` for shells
/// gdio does not install completions for.
pub fn completions_install_path(shell: ShellKind, env: &ShellEnv, os: TargetOs) -> (r: Option<String>)
    ensures
        match completion_location(shell, *env, os) {
            Some(p) => r matches Some(s) && s@ == p,
            None => r is None,
        },
{
    let home = env.home.as_str();
    match shell {
        ShellKind::Bash => {
            if os == TargetOs::MacOs {
                Some(path_under(&env.brew_prefix, "/etc/bash_completion.d/gdio", home, ".local/share/bash-completion/completions/gdio", os))
            } else {
                Some(path_under(&env.xdg_data_home, "/bash-completion/completions/gdio", home, ".local/share/bash-completion/completions/gdio", os))
            }
        },
        ShellKind::Zsh => Some(path_under(&env.zdotdir, "/.zsh/completions/_gdio", home, ".zsh/completions/_gdio", os)),
        ShellKind::Fish => Some(path_under(&env.xdg_config_home, "/fish/completions/gdio.fish", home, ".config/fish/completions/gdio.fish", os)),
        ShellKind::PowerShell => {
            if os == TargetOs::Windows {
                Some(join_path(home, "Documents/PowerShell/Modules/gdio/gdio.psm1", os))
            } else {
                Some(path_under(&env.xdg_config_home, "/powershell/Modules/gdio/gdio.psm1", home, ".config/powershell/Modules/gdio/gdio.psm1", os))
            }
        },
        ShellKind::Elvish => None,
    }
}

/// Every completion script `gdio uninstall` deletes where it exists: the
/// bash scripts (both home locations, the Homebrew one on macOS, the one
/// under `$XDG_DATA_HOME`), the zsh scripts (home and `$ZDOTDIR`), the fish
/// script and the PowerShell module.
pub open spec fn completion_files(env: ShellEnv, os: TargetOs) -> Seq<Seq<char>> {
    let home = env.home@;
    seq![joined(home, ".local/share/bash-completion/completions/gdio"@, os), joined(home, ".bash_completion.d/gdio"@, os)]
        + (if os == TargetOs::MacOs && env.brew_prefix is Some { seq![env.brew_prefix->0@ + "/etc/bash_completion.d/gdio"@] } else { Seq::empty() })
        + (match env.xdg_data_home { Some(x) => seq![x@ + "/bash-completion/completions/gdio"@], None => Seq::empty() })
        + seq![joined(home, ".zsh/completions/_gdio"@, os)]
        + (match env.zdotdir { Some(z) => seq![z@ + "/.zsh/completions/_gdio"@], None => Seq::empty() })
        + seq![under(env.xdg_config_home, "/fish/completions/gdio.fish"@, home, ".config/fish/completions/gdio.fish"@, os)]
        + seq![if os == TargetOs::Windows {
            joined(home, "Documents/PowerShell/Modules/gdio/gdio.psm1"@, os)
        } else {
            under(env.xdg_config_home, "/powershell/Modules/gdio/gdio.psm1"@, home, ".config/powershell/Modules/gdio/gdio.psm1"@, os)
        }]
}

fn push_path(v: &mut Vec<String>, p: String)
    ensures
        string_views(final(v)@) == string_views(old(v)@).push(p@),
{
    let ghost before = v@;
    v.push(p);
    assert(string_views(v@) =~= string_views(before).push(p@));
}

fn suffixed(d: &String, rest: &str) -> (r: String)
    ensures
        r@ == d@ + rest@,
{
    let mut r = d.clone();
    push_str(&mut r, rest);
    r
}

/// The completion scripts `gdio uninstall` deletes where they exist.
pub fn completion_removal_paths(env: &ShellEnv, os: TargetOs) -> (v: Vec<String>)
    ensures
        string_views(v@) == completion_files(*env, os),
{
    let home = env.home.as_str();
    let mut v: Vec<String> = Vec::new();
    push_path(&mut v, join_path(home, ".local/share/bash-completion/completions/gdio", os));
    push_path(&mut v, join_path(home, ".bash_completion.d/gdio", os));
    let ghost a = string_views(v@);
    if os == TargetOs::MacOs {
        if let Some(p) = &env.brew_prefix {
            push_path(&mut v, suffixed(p, "/etc/bash_completion.d/gdio"));
        }
    }
    let ghost b = string_views(v@);
    assert(b =~= a + (if os == TargetOs::MacOs && env.brew_prefix is Some {
        seq![env.brew_prefix->0@ + "/etc/bash_completion.d/gdio"@] } else { Seq::empty() }));
    if let Some(x) = &env.xdg_data_home {
        push_path(&mut v, suffixed(x, "/bash-completion/completions/gdio"));
    }
    let ghost c = string_views(v@);
    assert(c =~= b + (match env.xdg_data_home { Some(x) => seq![x@ + "/bash-completion/completions/gdio"@], None => Seq::<Seq<char>>::empty() }));
    push_path(&mut v, join_path(home, ".zsh/completions/_gdio", os));
    let ghost d = string_views(v@);
    if let Some(z) = &env.zdotdir {
        push_path(&mut v, suffixed(z, "/.zsh/completions/_gdio"));
    }
    let ghost e = string_views(v@);
    assert(e =~= d + (match env.zdotdir { Some(z) => seq![z@ + "/.zsh/completions/_gdio"@], None => Seq::<Seq<char>>::empty() }));
    push_path(&mut v, path_under(&env.xdg_config_home, "/fish/completions/gdio.fish", home, ".config/fish/completions/gdio.fish", os));
    if os == TargetOs::Windows {
        push_path(&mut v, join_path(home, "Documents/PowerShell/Modules/gdio/gdio.psm1", os));
    } else {
        push_path(&mut v, path_under(&env.xdg_config_home, "/powershell/Modules/gdio/gdio.psm1", home, ".config/powershell/Modules/gdio/gdio.psm1", os));
    }
    assert(string_views(v@) =~= completion_files(*env, os));
    v
}

/// Where gdio is installed: `$GDIO_INSTALL_DIR` when set, else
/// `<local data dir>/gdio/bin` on Windows and `<home>/.gdio/bin` elsewhere
/// (`.` standing for a directory that cannot be found).
pub open spec fn install_location(env_dir: Option<Seq<char>>, os: TargetOs, data_local: Option<Seq<char>>, home: Option<Seq<char>>) -> Seq<char> {
    match env_dir {
        Some(d) => d,
        None => if os == TargetOs::Windows {
            joined(joined(match data_local { Some(p) => p, None => "."@ }, "gdio"@, os), "bin"@, os)
        } else {
            joined(joined(match home { Some(p) => p, None => "."@ }, ".gdio"@, os), "bin"@, os)
        },
    }
}

/// The directory gdio is installed in.
pub fn get_install_dir(env_dir: Option<&str>, os: TargetOs, data_local: Option<&str>, home: Option<&str>) -> (r: String)
    ensures
        r@ == install_location(match env_dir { Some(x) => Some(x@), None => None }, os,
            match data_local { Some(x) => Some(x@), None => None }, match home { Some(x) => Some(x@), None => None }),
{
    if let Some(d) = env_dir {
        return d.to_owned();
    }
    if os == TargetOs::Windows {
        let base = match data_local { Some(p) => p, None => "." };
        let g = join_path(base, "gdio", os);
        join_path(g.as_str(), "bin", os)
    } else {
        let base = match home { Some(p) => p, None => "." };
        let g = join_path(base, ".gdio", os);
        join_path(g.as_str(), "bin", os)
    }
}

/// `s` with each `'` doubled, as PowerShell quotes it.
pub open spec fn ps_quoted(s: Seq<char>) -> Seq<char>
    decreases s.len(),
{
    if s.len() == 0 {
        Seq::empty()
    } else if s.last() == '\'' {
        ps_quoted(s.drop_last()) + seq!['\'', '\'']
    } else {
        ps_quoted(s.drop_last()).push(s.last())
    }
}

/// The script that deletes the installation directory once the process
/// `pid` has exited: PowerShell on Windows, `sh` elsewhere.
pub open spec fn cleanup_script_text(pid: u32, dir: Seq<char>, windows: bool) -> Seq<char> {
    if windows {
        "while (Get-Process -Id "@ + decimal(pid as nat)
            + " -ErrorAction SilentlyContinue) { Start-Sleep -Seconds 1 }; Remove-Item -Path '"@
            + ps_quoted(dir) + "' -Recurse -Force -ErrorAction SilentlyContinue"@
    } else {
        "#!/bin/sh\nwhile kill -0 "@ + decimal(pid as nat) + " 2>/dev/null; do\n\tsleep 1\ndone\nrm -rf \""@ + dir
            + "\"\n"@
    }
}

/// The script that removes the installation directory `dir` after the
/// process `pid` has exited.
pub fn cleanup_script(pid: u32, dir: &str, windows: bool) -> (r: String)
    ensures
        r@ == cleanup_script_text(pid, dir@, windows),
{
    if windows {
        let mut r = String::from_str("while (Get-Process -Id ");
        push_decimal(&mut r, pid as u64);
        push_str(&mut r, " -ErrorAction SilentlyContinue) { Start-Sleep -Seconds 1 }; Remove-Item -Path '");
        let d = chars_of(dir);
        let ghost start = r@;
        let mut i: usize = 0;
        assert(d@.take(0) =~= Seq::<char>::empty());
        while i < d.len()
            invariant
                i <= d@.len(),
                d@ == dir@,
                r@ == start + ps_quoted(d@.take(i as int)),
            decreases d.len() - i,
        {
            assert(d@.take(i + 1).drop_last() == d@.take(i as int));
            assert(d@.take(i + 1).last() == d@[i as int]);
            if d[i] == '\'' {
                push_char(&mut r, '\'');
                push_char(&mut r, '\'');
                assert(r@ =~= start + ps_quoted(d@.take(i + 1)));
            } else {
                push_char(&mut r, d[i]);
                assert(r@ =~= start + ps_quoted(d@.take(i + 1)));
            }
            i = i + 1;
        }
        assert(d@.take(d@.len() as int) == d@);
        push_str(&mut r, "' -Recurse -Force -ErrorAction SilentlyContinue");
        r
    } else {
        let mut r = String::from_str("#!/bin/sh\nwhile kill -0 ");
        push_decimal(&mut r, pid as u64);
        push_str(&mut r, " 2>/dev/null; do\n\tsleep 1\ndone\nrm -rf \"");
        push_str(&mut r, dir);
        push_str(&mut r, "\"\n");
        r
    }
}

} // verus!
