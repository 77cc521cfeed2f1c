//! The registry of editors, projects, itch.io settings and addon settings.
use vstd::prelude::*;
use crate::strmap::StrMap;
use crate::platform::{TargetOs, join_path, joined};
use crate::text::{chars_of, chars_eq, push_str, starts_with, trim_start_char, trim_start_matching, has_prefix};
use crate::numparse::{decimal, parse_unsigned, parse_u64, push_decimal};

verus! {

/// Where an editor binary came from.
#[derive(Clone, Copy, Debug, PartialEq, Eq, Structural)]
pub enum EditorSource {
    Downloaded,
    Local,
}

/// A registered Godot editor.
#[derive(Debug)]
pub struct EditorInfo {
    pub name: String,
    pub path: String,
    pub version: String,
    pub is_mono: bool,
    pub source: EditorSource,
}

impl Clone for EditorInfo {
    fn clone(&self) -> (r: Self)
        ensures
            r == *self,
    {
        EditorInfo {
            name: self.name.clone(),
            path: self.path.clone(),
            version: self.version.clone(),
            is_mono: self.is_mono,
            source: self.source,
        }
    }
}

/// Registry key of an editor: its version, with `-csharp` for C# builds.
pub open spec fn editor_key(e: EditorInfo) -> Seq<char> {
    if e.is_mono {
        e.version@ + "-csharp"@
    } else {
        e.version@
    }
}

impl EditorInfo {
    /// Registry key: the version, with `-csharp` appended for C# builds.
    pub fn key(&self) -> (k: String)
        ensures
            k@ == editor_key(*self),
    {
        if self.is_mono {
            let mut k = self.version.clone();
            push_str(&mut k, "-csharp");
            k
        } else {
            self.version.clone()
        }
    }
}

/// A project that has been opened.
#[derive(Debug)]
pub struct ProjectInfo {
    pub path: String,
    pub name: String,
    pub bound_editor: Option<String>,
    pub last_opened: Option<String>,
}

/// A copy of an optional string.
pub fn clone_opt_string(s: &Option<String>) -> (r: Option<String>)
    ensures
        r == *s,
{
    match s {
        Some(x) => Some(x.clone()),
        None => None,
    }
}

impl Clone for ProjectInfo {
    fn clone(&self) -> (r: Self)
        ensures
            r == *self,
    {
        ProjectInfo {
            path: self.path.clone(),
            name: self.name.clone(),
            bound_editor: clone_opt_string(&self.bound_editor),
            last_opened: clone_opt_string(&self.last_opened),
        }
    }
}

/// The itch.io game a project uploads to.
#[derive(Debug)]
pub struct ItchProjectConfig {
    pub game: String,
}

impl Clone for ItchProjectConfig {
    fn clone(&self) -> (r: Self)
        ensures
            r == *self,
    {
        ItchProjectConfig { game: self.game.clone() }
    }
}

/// itch.io upload settings.
pub struct ItchConfig {
    pub butler_path: String,
    pub projects: StrMap<ItchProjectConfig>,
}

impl ItchConfig {
    /// Upload settings of the project at `project_path`.
    pub fn get_project(&self, project_path: &str) -> (r: Option<&ItchProjectConfig>)
        ensures
            r matches Some(p) ==> self.projects@.contains_key(project_path@) && *p == self.projects@[project_path@],
            r is None ==> !self.projects@.contains_key(project_path@),
    {
        self.projects.get(project_path)
    }

    /// Sets the upload settings of the project at `project_path`.
    pub fn set_project(&mut self, project_path: &str, project_config: ItchProjectConfig)
        ensures
            final(self).projects@ == old(self).projects@.insert(project_path@, project_config),
            final(self).butler_path == old(self).butler_path,
    {
        self.projects.insert(String::from_str(project_path), project_config);
    }
}

/// An addon repository.
#[derive(Debug)]
pub struct Repository {
    pub name: String,
    pub url: String,
}

impl Clone for Repository {
    fn clone(&self) -> (r: Self)
        ensures
            r == *self,
    {
        Repository { name: self.name.clone(), url: self.url.clone() }
    }
}

/// An addon kept in the global store and linked into projects.
#[derive(Debug)]
pub struct LinkedAddonInfo {
    pub version: String,
    pub folder_name: String,
    pub projects: Vec<String>,
}

/// An addon installed into every project during sync.
#[derive(Debug)]
pub struct GlobalAddonEntry {
    pub version: Option<String>,
    pub folder_name: String,
    pub repository: String,
    pub linked: bool,
}

/// Addon settings of the registry.
pub struct AddonsConfig {
    pub repositories: Vec<Repository>,
    pub linked: StrMap<LinkedAddonInfo>,
    pub globals: StrMap<GlobalAddonEntry>,
    pub globals_exclusions: StrMap<Vec<String>>,
    pub sync_count: u32,
}

impl Default for AddonsConfig {
    fn default() -> (r: Self)
        ensures
            r.repositories@.len() == 0,
            r.linked@ == Map::<Seq<char>, LinkedAddonInfo>::empty(),
            r.globals@ == Map::<Seq<char>, GlobalAddonEntry>::empty(),
            r.globals_exclusions@ == Map::<Seq<char>, Vec<String>>::empty(),
            r.sync_count == 0,
    {
        AddonsConfig {
            repositories: Vec::new(),
            linked: StrMap::new(),
            globals: StrMap::new(),
            globals_exclusions: StrMap::new(),
            sync_count: 0,
        }
    }
}

/// URL of the official Godot Asset Store.
pub open spec fn official_store_url() -> Seq<char> {
    "https://store.godotengine.org"@
}

/// The repositories every registry starts with: the official Godot Asset Store.
pub fn default_repositories() -> (v: Vec<Repository>)
    ensures
        v@.len() == 1,
        v@[0].name@ == "godot-official-store"@,
        v@[0].url@ == official_store_url(),
{
    let mut v = Vec::new();
    v.push(Repository {
        name: String::from_str("godot-official-store"),
        url: String::from_str("https://store.godotengine.org"),
    });
    v
}

/// Whether `url` names the default repository (the official store, or no URL).
pub fn is_default_repository(url: &str) -> (b: bool)
    ensures
        b == (url@ == official_store_url() || url@.len() == 0),
{
    let u = chars_of(url);
    chars_eq(u.as_slice(), chars_of("https://store.godotengine.org").as_slice()) || u.len() == 0
}

/// One addon tracked in a project's `.gdio` file.
#[derive(Debug)]
pub struct GdioAddonEntry {
    pub version: String,
    pub repository: String,
}

/// The addons tracked in a project's `.gdio` file, by `publisher/asset`.
pub struct GdioProject {
    pub addons: StrMap<GdioAddonEntry>,
}

impl Default for GdioProject {
    fn default() -> (r: Self)
        ensures
            r.addons@ == Map::<Seq<char>, GdioAddonEntry>::empty(),
    {
        GdioProject { addons: StrMap::new() }
    }
}

/// The registry: editors by key, projects by path, the most recent project,
/// itch.io and addon settings.
pub struct Config {
    pub editors: StrMap<EditorInfo>,
    pub projects: StrMap<ProjectInfo>,
    pub recent_project: Option<String>,
    pub itch: Option<ItchConfig>,
    pub addons: AddonsConfig,
    pub gdre_tools_version: Option<String>,
    pub gdre_tools_last_checked: Option<u64>,
}

impl Default for Config {
    fn default() -> (r: Self)
        ensures
            r.editors@ == Map::<Seq<char>, EditorInfo>::empty(),
            r.projects@ == Map::<Seq<char>, ProjectInfo>::empty(),
            r.recent_project is None,
            r.itch is None,
            r.addons.repositories@.len() == 0,
            r.addons.linked@ == Map::<Seq<char>, LinkedAddonInfo>::empty(),
            r.addons.globals@ == Map::<Seq<char>, GlobalAddonEntry>::empty(),
            r.gdre_tools_version is None,
            r.gdre_tools_last_checked is None,
    {
        Config {
            editors: StrMap::new(),
            projects: StrMap::new(),
            recent_project: None,
            itch: None,
            addons: AddonsConfig::default(),
            gdre_tools_version: None,
            gdre_tools_last_checked: None,
        }
    }
}

/// `a` holds the same editors, projects, recent project, itch.io settings and
/// GDRE Tools record as `b`: every field but the addon settings.
pub open spec fn same_outside_addons(a: Config, b: Config) -> bool {
    &&& a.editors == b.editors
    &&& a.projects == b.projects
    &&& a.recent_project == b.recent_project
    &&& a.itch == b.itch
    &&& a.gdre_tools_version == b.gdre_tools_version
    &&& a.gdre_tools_last_checked == b.gdre_tools_last_checked
}

/// `a` holds the same itch.io settings, addon settings and GDRE Tools record
/// as `b`: every field but the editors, the projects and the recent project.
pub open spec fn same_tools_and_addons(a: Config, b: Config) -> bool {
    &&& a.itch == b.itch
    &&& a.addons == b.addons
    &&& a.gdre_tools_version == b.gdre_tools_version
    &&& a.gdre_tools_last_checked == b.gdre_tools_last_checked
}

/// Stored and requested editor versions match when one, without leading `v`s,
/// is a prefix of the other.
pub open spec fn versions_match(stored_key: Seq<char>, requested: Seq<char>) -> bool {
    let s = trim_start_char(stored_key, 'v');
    let r = trim_start_char(requested, 'v');
    starts_with(s, r) || starts_with(r, s)
}

impl Config {
    /// gdio's own directory: `%APPDATA%/gdio` on Windows (`appdata` is the
    /// roaming application-data directory), `~/.config/gdio` elsewhere
    /// (`home` is the user's home directory).
    pub fn config_dir(os: TargetOs, home: &str, appdata: &str) -> (r: String)
        ensures
            r@ == (if os == TargetOs::Windows { joined(appdata@, "gdio"@, os) } else {
                joined(home@, ".config/gdio"@, os) }),
    {
        if os == TargetOs::Windows {
            join_path(appdata, "gdio", os)
        } else {
            join_path(home, ".config/gdio", os)
        }
    }

    /// Godot's data directory, where export templates go: `%APPDATA%/Godot`
    /// on Windows, `~/Library/Application Support/Godot` on macOS,
    /// `~/.local/share/godot` on Linux and elsewhere.
    pub fn get_godot_data_dir(os: TargetOs, home: &str, appdata: &str) -> (r: String)
        ensures
            r@ == (if os == TargetOs::Windows {
                joined(appdata@, "Godot"@, os)
            } else if os == TargetOs::MacOs {
                joined(home@, "Library/Application Support/Godot"@, os)
            } else {
                joined(home@, ".local/share/godot"@, os)
            }),
    {
        if os == TargetOs::Windows {
            join_path(appdata, "Godot", os)
        } else if os == TargetOs::MacOs {
            join_path(home, "Library/Application Support/Godot", os)
        } else {
            join_path(home, ".local/share/godot", os)
        }
    }

    /// File holding the registry, inside `config_dir`.
    pub fn config_path(config_dir: &str, os: TargetOs) -> (r: String)
        ensures
            r@ == joined(config_dir@, "config.json"@, os),
    {
        join_path(config_dir, "config.json", os)
    }

    /// Directory for temporary downloads.
    pub fn get_downloads_dir(config_dir: &str, os: TargetOs) -> (r: String)
        ensures
            r@ == joined(config_dir@, "downloads"@, os),
    {
        join_path(config_dir, "downloads", os)
    }

    /// Directory of downloaded editors.
    pub fn get_editors_dir(config_dir: &str, os: TargetOs) -> (r: String)
        ensures
            r@ == joined(config_dir@, "editors"@, os),
    {
        join_path(config_dir, "editors", os)
    }

    /// Godot's export-template directory inside Godot's data directory.
    pub fn get_godot_templates_dir(godot_data_dir: &str, os: TargetOs) -> (r: String)
        ensures
            r@ == joined(godot_data_dir@, "export_templates"@, os),
    {
        join_path(godot_data_dir, "export_templates", os)
    }

    /// The global addon store.
    pub fn get_global_addons_dir(config_dir: &str, os: TargetOs) -> (r: String)
        ensures
            r@ == joined(config_dir@, "addons"@, os),
    {
        join_path(config_dir, "addons", os)
    }

    /// Where downloaded addon archives are kept (the downloads directory).
    pub fn get_addons_cache_dir(config_dir: &str, os: TargetOs) -> (r: String)
        ensures
            r@ == joined(config_dir@, "downloads"@, os),
    {
        Self::get_downloads_dir(config_dir, os)
    }

    /// Directory of the GDRE tools.
    pub fn get_gdre_tools_dir(config_dir: &str, os: TargetOs) -> (r: String)
        ensures
            r@ == joined(config_dir@, "gdre_tools"@, os),
    {
        join_path(config_dir, "gdre_tools", os)
    }

    /// Directory of the butler uploader.
    pub fn get_butler_dir(config_dir: &str, os: TargetOs) -> (r: String)
        ensures
            r@ == joined(config_dir@, "butler"@, os),
    {
        join_path(config_dir, "butler", os)
    }

    /// The butler executable (`butler.exe` on Windows).
    pub fn get_butler_path(config_dir: &str, os: TargetOs) -> (r: String)
        ensures
            r@ == joined(joined(config_dir@, "butler"@, os), if os == TargetOs::Windows { "butler.exe"@ } else { "butler"@ }, os),
    {
        let dir = Self::get_butler_dir(config_dir, os);
        if os == TargetOs::Windows {
            join_path(dir.as_str(), "butler.exe", os)
        } else {
            join_path(dir.as_str(), "butler", os)
        }
    }

    /// Registers `editor` under its key, replacing any editor with that key.
    pub fn register_editor(&mut self, editor: EditorInfo)
        ensures
            final(self).editors@ == old(self).editors@.insert(editor_key(editor), editor),
            final(self).projects == old(self).projects,
            final(self).recent_project == old(self).recent_project,
            final(self).itch == old(self).itch,
            final(self).addons == old(self).addons,
            final(self).gdre_tools_version == old(self).gdre_tools_version,
            final(self).gdre_tools_last_checked == old(self).gdre_tools_last_checked,
    {
        let key = editor.key();
        self.editors.insert(key, editor);
    }

    /// Unregisters the editor with key `version`, returning it.
    pub fn remove_editor(&mut self, version: &str) -> (r: Option<EditorInfo>)
        ensures
            final(self).editors@ == old(self).editors@.remove(version@),
            r matches Some(e) ==> old(self).editors@.contains_key(version@) && e == old(self).editors@[version@],
            r is None ==> !old(self).editors@.contains_key(version@),
            final(self).projects == old(self).projects,
            final(self).recent_project == old(self).recent_project,
            final(self).itch == old(self).itch,
            final(self).addons == old(self).addons,
            final(self).gdre_tools_version == old(self).gdre_tools_version,
            final(self).gdre_tools_last_checked == old(self).gdre_tools_last_checked,
    {
        self.editors.remove(version)
    }

    /// The editor registered under `version`; otherwise one whose key and
    /// `version` (leading `v`s dropped) are prefix-related, if any.
    pub fn find_editor_for_version(&self, version: &str) -> (r: Option<&EditorInfo>)
        ensures
            self.editors@.contains_key(version@) ==> r == Some(&self.editors@[version@]),
            !self.editors@.contains_key(version@) ==> (r matches Some(e) ==> exists|k: Seq<char>|
                #[trigger] self.editors@.contains_key(k) && versions_match(k, version@) && *e == self.editors@[k]),
            r is None ==> forall|k: Seq<char>| #[trigger] self.editors@.contains_key(k) ==> !versions_match(k, version@),
    {
        if let Some(e) = self.editors.get(version) {
            return Some(e);
        }
        let requested = trim_start_matching(chars_of(version).as_slice(), 'v');
        let entries = self.editors.entries();
        let mut i: usize = 0;
        while i < entries.len()
            invariant
                i <= entries@.len(),
                requested@ == trim_start_char(version@, 'v'),
                entries@ == self.editors.entry_seq(),
                !self.editors@.contains_key(version@),
                forall|k: Seq<char>| #[trigger] self.editors@.contains_key(k) ==>
                    exists|j: int| 0 <= j < entries@.len() && (#[trigger] entries@[j]).0@ == k,
                forall|j: int| 0 <= j < entries@.len() ==>
                    self.editors@.contains_key(#[trigger] entries@[j].0@) && self.editors@[entries@[j].0@] == entries@[j].1,
                forall|j: int| 0 <= j < i ==> !versions_match((#[trigger] entries@[j]).0@, version@),
            decreases entries.len() - i,
        {
            let stored = trim_start_matching(chars_of(entries[i].0.as_str()).as_slice(), 'v');
            if has_prefix(stored.as_slice(), requested.as_slice()) || has_prefix(requested.as_slice(), stored.as_slice()) {
                return Some(&entries[i].1);
            }
            i = i + 1;
        }
        None
    }

    /// Records `project` under its path and makes it the most recent project.
    pub fn register_project(&mut self, project: &ProjectInfo)
        ensures
            final(self).projects@ == old(self).projects@.insert(project.path@, *project),
            final(self).recent_project matches Some(p) && p@ == project.path@,
            final(self).editors == old(self).editors,
            final(self).itch == old(self).itch,
            final(self).addons == old(self).addons,
            final(self).gdre_tools_version == old(self).gdre_tools_version,
            final(self).gdre_tools_last_checked == old(self).gdre_tools_last_checked,
    {
        self.projects.insert(project.path.clone(), project.clone());
        self.recent_project = Some(project.path.clone());
    }

    /// Binds the project at `project_path`, if registered, to `editor_version`.
    pub fn update_project_editor(&mut self, project_path: &str, editor_version: &str)
        ensures
            old(self).projects@.contains_key(project_path@) ==> {
                let p = old(self).projects@[project_path@];
                &&& final(self).projects@.contains_key(project_path@)
                &&& final(self).projects@ == old(self).projects@.insert(project_path@, final(self).projects@[project_path@])
                &&& final(self).projects@[project_path@].path == p.path
                &&& final(self).projects@[project_path@].name == p.name
                &&& final(self).projects@[project_path@].last_opened == p.last_opened
                &&& final(self).projects@[project_path@].bound_editor matches Some(b) && b@ == editor_version@
            },
            !old(self).projects@.contains_key(project_path@) ==> final(self).projects@ == old(self).projects@,
            final(self).editors == old(self).editors,
            final(self).recent_project == old(self).recent_project,
            final(self).itch == old(self).itch,
            final(self).addons == old(self).addons,
            final(self).gdre_tools_version == old(self).gdre_tools_version,
            final(self).gdre_tools_last_checked == old(self).gdre_tools_last_checked,
    {
        match self.projects.get(project_path) {
            Some(p) => {
                let updated = ProjectInfo {
                    path: p.path.clone(),
                    name: p.name.clone(),
                    bound_editor: Some(String::from_str(editor_version)),
                    last_opened: clone_opt_string(&p.last_opened),
                };
                self.projects.insert(String::from_str(project_path), updated);
            },
            None => {},
        }
    }

    /// Forgets the project at `path`, and the recent project if it was that one.
    pub fn remove_project(&mut self, path: &str) -> (r: Option<ProjectInfo>)
        ensures
            final(self).projects@ == old(self).projects@.remove(path@),
            r matches Some(p) ==> old(self).projects@.contains_key(path@) && p == old(self).projects@[path@],
            r is None ==> !old(self).projects@.contains_key(path@),
            final(self).recent_project == (match old(self).recent_project {
                Some(p) => if p@ == path@ { None } else { Some(p) },
                None => None,
            }),
            final(self).editors == old(self).editors,
            final(self).itch == old(self).itch,
            final(self).addons == old(self).addons,
            final(self).gdre_tools_version == old(self).gdre_tools_version,
            final(self).gdre_tools_last_checked == old(self).gdre_tools_last_checked,
    {
        let removed = self.projects.remove(path);
        let same = match &self.recent_project {
            Some(p) => chars_eq(chars_of(p.as_str()).as_slice(), chars_of(path).as_slice()),
            None => false,
        };
        if same {
            self.recent_project = None;
        }
        removed
    }

    /// itch.io settings, if any.
    pub fn get_itch_config(&self) -> (r: Option<&ItchConfig>)
        ensures
            r == (match &self.itch { Some(i) => Some(i), None => None }),
    {
        match &self.itch {
            Some(i) => Some(i),
            None => None,
        }
    }

    /// itch.io settings of the project at `project_path`, if any.
    pub fn get_itch_project(&self, project_path: &str) -> (r: Option<&ItchProjectConfig>)
        ensures
            r matches Some(p) ==> self.itch matches Some(i) && i.projects@.contains_key(project_path@)
                && *p == i.projects@[project_path@],
            r is None ==> !(self.itch matches Some(i) && i.projects@.contains_key(project_path@)),
    {
        match &self.itch {
            Some(i) => i.get_project(project_path),
            None => None,
        }
    }

    /// The itch.io settings, created (butler on the PATH, no projects) where
    /// there were none.
    pub fn get_or_default_itch(&mut self) -> (r: &mut ItchConfig)
        ensures
            match old(self).itch {
                Some(i) => *r == i,
                None => r.butler_path@ == "butler"@ && r.projects@ == Map::<Seq<char>, ItchProjectConfig>::empty(),
            },
            final(self).itch == Some(*final(r)),
            final(self).editors == old(self).editors,
            final(self).projects == old(self).projects,
            final(self).recent_project == old(self).recent_project,
            final(self).addons == old(self).addons,
            final(self).gdre_tools_version == old(self).gdre_tools_version,
            final(self).gdre_tools_last_checked == old(self).gdre_tools_last_checked,
    {
        if self.itch.is_none() {
            self.itch = Some(ItchConfig { butler_path: String::from_str("butler"), projects: StrMap::new() });
        }
        match &mut self.itch {
            Some(i) => i,
            None => vstd::pervasive::unreached(),
        }
    }

    /// Sets the itch.io settings of a project, creating itch.io settings
    /// (butler on the PATH) where there were none.
    pub fn set_itch_project(&mut self, project_path: &str, project_config: ItchProjectConfig)
        ensures
            final(self).itch matches Some(i) && i.projects@ == (match old(self).itch {
                Some(o) => o.projects@,
                None => Map::<Seq<char>, ItchProjectConfig>::empty(),
            }).insert(project_path@, project_config),
            final(self).itch matches Some(i) && i.butler_path@ == (match old(self).itch {
                Some(o) => o.butler_path@,
                None => "butler"@,
            }),
            final(self).editors == old(self).editors,
            final(self).projects == old(self).projects,
            final(self).recent_project == old(self).recent_project,
            final(self).addons == old(self).addons,
            final(self).gdre_tools_version == old(self).gdre_tools_version,
            final(self).gdre_tools_last_checked == old(self).gdre_tools_last_checked,
    {
        let mut itch = match self.itch.take() {
            Some(i) => i,
            None => ItchConfig { butler_path: String::from_str("butler"), projects: StrMap::new() },
        };
        itch.set_project(project_path, project_config);
        self.itch = Some(itch);
    }
}

/// How long ago an event `diff` seconds old was, in words: under a minute
/// "just now", then minutes, hours with minutes, weeks with days, months of
/// 30 days and years of 365 days.
pub open spec fn elapsed_text(diff: nat) -> Seq<char> {
    let mins = diff / 60;
    let hours = mins / 60;
    let days = hours / 24;
    let weeks = days / 7;
    let months = days / 30;
    let years = days / 365;
    if diff < 60 {
        "just now"@
    } else if mins < 60 {
        if mins == 1 { "1 min ago"@ } else { decimal(mins) + " min ago"@ }
    } else if hours < 24 {
        let m = mins % 60;
        if hours == 1 && m == 0 {
            "1 h ago"@
        } else if m == 0 {
            decimal(hours) + " h ago"@
        } else if hours == 1 {
            "1 h "@ + decimal(m) + " min ago"@
        } else {
            decimal(hours) + " h "@ + decimal(m) + " min ago"@
        }
    } else if weeks < 4 {
        let d = days % 7;
        if weeks == 1 && d == 0 {
            "1 week ago"@
        } else if d == 0 {
            decimal(weeks) + " weeks ago"@
        } else if weeks == 1 {
            "1 week "@ + decimal(d) + " d ago"@
        } else {
            decimal(weeks) + " weeks "@ + decimal(d) + " d ago"@
        }
    } else if months < 12 {
        if months == 1 { "1 month ago"@ } else { decimal(months) + " months ago"@ }
    } else {
        if years == 1 { "1 year ago"@ } else { decimal(years) + " years ago"@ }
    }
}

/// How long before `now` the decimal timestamp `timestamp` was: "never" when
/// it is not a number, "just now" when it is in the future.
pub open spec fn relative_time(timestamp: Seq<char>, now: nat) -> Seq<char> {
    match parse_unsigned(timestamp, u64::MAX as int) {
        None => "never"@,
        Some(ts) => if ts > now { "just now"@ } else { elapsed_text((now - ts) as nat) },
    }
}

fn push_count(r: &mut String, n: u64, unit: &str)
    ensures
        final(r)@ == old(r)@ + decimal(n as nat) + unit@,
{
    push_decimal(r, n);
    push_str(r, unit);
}

fn elapsed_string(diff: u64) -> (r: String)
    ensures
        r@ == elapsed_text(diff as nat),
{
    let mins = diff / 60;
    let hours = mins / 60;
    let days = hours / 24;
    let weeks = days / 7;
    let months = days / 30;
    let years = days / 365;
    let mut r = String::new();
    if diff < 60 {
        return String::from_str("just now");
    } else if mins < 60 {
        if mins == 1 {
            return String::from_str("1 min ago");
        }
        push_count(&mut r, mins, " min ago");
    } else if hours < 24 {
        let m = mins % 60;
        if hours == 1 && m == 0 {
            return String::from_str("1 h ago");
        } else if m == 0 {
            push_count(&mut r, hours, " h ago");
        } else if hours == 1 {
            push_str(&mut r, "1 h ");
            push_count(&mut r, m, " min ago");
        } else {
            push_count(&mut r, hours, " h ");
            push_count(&mut r, m, " min ago");
        }
    } else if weeks < 4 {
        let d = days % 7;
        if weeks == 1 && d == 0 {
            return String::from_str("1 week ago");
        } else if d == 0 {
            push_count(&mut r, weeks, " weeks ago");
        } else if weeks == 1 {
            push_str(&mut r, "1 week ");
            push_count(&mut r, d, " d ago");
        } else {
            push_count(&mut r, weeks, " weeks ");
            push_count(&mut r, d, " d ago");
        }
    } else if months < 12 {
        if months == 1 {
            return String::from_str("1 month ago");
        }
        push_count(&mut r, months, " months ago");
    } else {
        if years == 1 {
            return String::from_str("1 year ago");
        }
        push_count(&mut r, years, " years ago");
    }
    r
}

/// How long before `now` (seconds since the Unix epoch) the decimal
/// timestamp `timestamp` was, in words.
pub fn relative_time_at(timestamp: &str, now: u64) -> (r: String)
    ensures
        r@ == relative_time(timestamp@, now as nat),
{
    match parse_u64(chars_of(timestamp).as_slice()) {
        None => String::from_str("never"),
        Some(ts) => {
            if ts > now {
                String::from_str("just now")
            } else {
                elapsed_string(now - ts)
            }
        },
    }
}

/// How long ago the decimal timestamp `timestamp` was, by the system clock
/// (read as the epoch when it is set before the epoch).
pub fn format_relative_time(timestamp: &str) -> (r: String)
    ensures
        exists|now: nat| r@ == relative_time(timestamp@, now),
{
    let now = match crate::shared::unix_time_secs() {
        Some(n) => n,
        None => 0,
    };
    relative_time_at(timestamp, now)
}

} // verus!
