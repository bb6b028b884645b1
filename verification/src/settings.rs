//! The settings record and the places where the program keeps its files.
use vstd::prelude::*;
use crate::paths::{join, join_path, path_exists};
use crate::text::owned;

verus! {

/// A managed dsh version: installed or updated in a folder of its own.
#[derive(Debug, Clone)]
pub struct DshVersionEntry {
    /// Stable id, fixed once generated.
    pub id: String,
    /// The user's label (renamable).
    pub label: String,
    /// The npm version requested (latest / exact version / semver range).
    pub spec: String,
    /// The version actually installed (read back from package.json).
    pub installed: Option<String>,
    /// The install prefix folder.
    pub dir: String,
    /// The absolute path of `bin.js`.
    pub bin: Option<String>,
    /// managed (by this program) / global (npm global) / manual (a path given by hand).
    pub source: String,
}

/// A version entry with its strings taken by their characters.
pub struct VersionEntryView {
    pub id: Seq<char>,
    pub label: Seq<char>,
    pub spec: Seq<char>,
    pub installed: Option<Seq<char>>,
    pub dir: Seq<char>,
    pub bin: Option<Seq<char>>,
    pub source: Seq<char>,
}

pub open spec fn ostr(o: Option<String>) -> Option<Seq<char>> {
    match o {
        Some(s) => Some(s@),
        None => None,
    }
}

impl View for DshVersionEntry {
    type V = VersionEntryView;

    open spec fn view(&self) -> VersionEntryView {
        VersionEntryView {
            id: self.id@,
            label: self.label@,
            spec: self.spec@,
            installed: ostr(self.installed),
            dir: self.dir@,
            bin: ostr(self.bin),
            source: self.source@,
        }
    }
}

/// Copies an optional string.
pub fn copy_ostr(o: &Option<String>) -> (r: Option<String>)
    ensures
        ostr(r) == ostr(*o),
{
    match o {
        Some(s) => Some(s.clone()),
        None => None,
    }
}

impl DshVersionEntry {
    /// A copy with the same contents.
    pub fn copy(&self) -> (r: DshVersionEntry)
        ensures
            r@ == self@,
    {
        DshVersionEntry {
            id: self.id.clone(),
            label: self.label.clone(),
            spec: self.spec.clone(),
            installed: copy_ostr(&self.installed),
            dir: self.dir.clone(),
            bin: copy_ostr(&self.bin),
            source: self.source.clone(),
        }
    }
}

impl Default for DshVersionEntry {
    /// The entry that a saved entry's missing fields default to.
    fn default() -> (r: DshVersionEntry)
        ensures
            r@ == (VersionEntryView {
                id: Seq::empty(),
                label: Seq::empty(),
                spec: "latest"@,
                installed: None,
                dir: Seq::empty(),
                bin: None,
                source: "managed"@,
            }),
    {
        DshVersionEntry {
            id: String::new(),
            label: String::new(),
            spec: owned("latest"),
            installed: None,
            dir: String::new(),
            bin: None,
            source: owned("managed"),
        }
    }
}

/// The program's settings (`settings.json`).
#[derive(Debug, Clone)]
pub struct Settings {
    /// dsh web port; 0 lets the system pick one.
    pub port: u16,
    /// dsh working folder; `None` means the user's home.
    pub workspace: Option<String>,
    /// Closing the window hides it to the tray instead of asking.
    pub close_to_tray: bool,
    /// Kept in the file; a plugin change only tells the user to restart.
    pub auto_restart_after_plugin_change: bool,
    /// Kept in the file; unused (a restart countdown, in seconds).
    pub restart_countdown_sec: u32,
    /// The dsh profile to start.
    pub profile: String,
    /// node.exe given by hand.
    pub node_bin: Option<String>,
    /// dsh entry (bin.js) given by hand or chosen among the versions.
    pub dsh_bin: Option<String>,
    /// The managed dsh versions.
    pub dsh_versions: Vec<DshVersionEntry>,
    /// The id of the active version entry.
    pub active_version_id: Option<String>,
    /// Download folder; `None` means the system's.
    pub download_dir: Option<String>,
    /// Ask where to save each download.
    pub ask_download_location: bool,
    /// Show the downloads panel when a download starts.
    pub show_downloads_on_start: bool,
    /// Title bar tint (0-100).
    pub titlebar_tint: u8,
    /// Popup tint (0-100).
    pub popup_tint: u8,
    /// Window material: acrylic / mica / none.
    pub window_material: String,
}

/// The version entries of `s`, by their views.
pub open spec fn versions_of(s: Settings) -> Seq<VersionEntryView> {
    s.dsh_versions@.map_values(|e: DshVersionEntry| e@)
}

impl Default for Settings {
    /// The settings of a first start.
    fn default() -> (r: Settings)
        ensures
            r.port == 3080,
            r.workspace is None,
            !r.close_to_tray,
            !r.auto_restart_after_plugin_change,
            r.restart_countdown_sec == 6,
            r.profile@ == "web"@,
            r.node_bin is None,
            r.dsh_bin is None,
            r.dsh_versions@.len() == 0,
            r.active_version_id is None,
            r.download_dir is None,
            !r.ask_download_location,
            r.show_downloads_on_start,
            r.titlebar_tint == 18,
            r.popup_tint == 55,
            r.window_material@ == "acrylic"@,
    {
        Settings {
            port: 3080,
            workspace: None,
            close_to_tray: false,
            auto_restart_after_plugin_change: false,
            restart_countdown_sec: 6,
            profile: owned("web"),
            node_bin: None,
            dsh_bin: None,
            dsh_versions: Vec::new(),
            active_version_id: None,
            download_dir: None,
            ask_download_location: false,
            show_downloads_on_start: true,
            titlebar_tint: 18,
            popup_tint: 55,
            window_material: owned("acrylic"),
        }
    }
}

/// `DSH Desktop`, the folder name under the user's application data.
pub open spec fn app_folder() -> Seq<char> {
    "DSH Desktop"@
}

/// The settings folder: `<APPDATA>\DSH Desktop`, else under the system's
/// configuration folder, else under `.`.
pub fn settings_dir(appdata: Option<String>, config_dir: Option<String>) -> (r: String)
    ensures
        r@ == join_path(
            match appdata {
                Some(a) => a@,
                None => match config_dir {
                    Some(c) => c@,
                    None => "."@,
                },
            },
            app_folder(),
        ),
{
    let base = match appdata {
        Some(a) => a,
        None => match config_dir {
            Some(c) => c,
            None => owned("."),
        },
    };
    join(base.as_str(), "DSH Desktop")
}

/// The system's configuration folder (`dirs::config_dir`), as text. It
/// depends on the machine and its user: nothing is promised of it.
#[verifier::external_body]
fn system_config_dir() -> (r: Option<String>) {
    dirs::config_dir().map(|p| p.to_string_lossy().to_string())
}

/// The system's download folder (`dirs::download_dir`), as text. It depends
/// on the machine and its user: nothing is promised of it.
#[verifier::external_body]
pub(crate) fn system_download_dir() -> (r: Option<String>) {
    dirs::download_dir().map(|p| p.to_string_lossy().to_string())
}

/// The settings folder of this machine, given `%APPDATA%` (see `settings_dir`):
/// with `APPDATA` set it is `<APPDATA>\DSH Desktop`.
pub fn settings_dir_here(appdata: Option<String>) -> (r: String)
    ensures
        appdata matches Some(a) ==> r@ == join_path(a@, app_folder()),
{
    match appdata {
        Some(a) => settings_dir(Some(a), None),
        None => settings_dir(None, system_config_dir()),
    }
}

/// The download folder in use, given the one set and the system's: the one
/// set, else the system's, else empty.
pub open spec fn dir_in_use_of(set: Option<Seq<char>>, system: Option<Seq<char>>) -> Seq<char> {
    match set {
        Some(d) => d,
        None => match system {
            Some(d) => d,
            None => Seq::empty(),
        },
    }
}

/// The download folder in use, given the system's download folder.
pub fn download_dir_from(s: &Settings, system: Option<String>) -> (r: String)
    ensures
        r@ == dir_in_use_of(ostr(s.download_dir), ostr(system)),
{
    match &s.download_dir {
        Some(d) => d.clone(),
        None => match system {
            Some(d) => d,
            None => String::new(),
        },
    }
}

/// The download folder in use: the one set, else the system's, else empty
/// (`download_dir_from`). The system's folder depends on the machine and its
/// user: nothing is promised of which one comes out.
pub fn download_dir_in_use(s: &Settings) -> (r: String)
    ensures
        s.download_dir matches Some(d) ==> r@ == d@,
        exists|system: Option<Seq<char>>| r@ == #[trigger] dir_in_use_of(ostr(s.download_dir), system),
{
    let r = match &s.download_dir {
        Some(_) => download_dir_from(s, None),
        None => download_dir_from(s, system_download_dir()),
    };
    r
}

/// The folder a download goes to by default, given the system's download
/// folder (`None` when the system has none): that folder, else `temp`.
pub open spec fn default_dir_of(system: Option<Seq<char>>, temp: Seq<char>) -> Seq<char> {
    match system {
        Some(d) => d,
        None => temp,
    }
}

/// The folder a download goes to by default, given the system's download
/// folder (`None` when the system has none): that folder, else `temp`.
pub fn download_dir_or(system: Option<String>, temp: String) -> (r: String)
    ensures
        r@ == default_dir_of(ostr(system), temp@),
{
    match system {
        Some(d) => d,
        None => temp,
    }
}

/// The folder a download goes to by default: the system's download folder,
/// else `temp` (the system's temporary folder), as `download_dir_or` chooses.
/// The system's folder depends on the machine and its user: nothing is
/// promised of which one comes out.
pub fn default_download_dir(temp: String) -> (r: String)
    ensures
        exists|system: Option<Seq<char>>| r@ == #[trigger] default_dir_of(system, temp@),
{
    let ghost t = temp@;
    let sys = system_download_dir();
    let ghost o = ostr(sys);
    let r = download_dir_or(sys, temp);
    assert(r@ == default_dir_of(o, t));
    r
}

/// `<settings dir>\settings.json`.
pub fn settings_file(settings_dir: &str) -> (r: String)
    ensures
        r@ == join_path(settings_dir@, "settings.json"@),
{
    join(settings_dir, "settings.json")
}

/// `<settings dir>\logs`.
pub fn logs_dir(settings_dir: &str) -> (r: String)
    ensures
        r@ == join_path(settings_dir@, "logs"@),
{
    join(settings_dir, "logs")
}

/// The control folder: the `DSH_DESKTOP_CONTROL_DIR` override when set, else
/// `<settings dir>\control`.
pub fn control_dir(override_dir: Option<String>, settings_dir: &str) -> (r: String)
    ensures
        r@ == (match override_dir {
            Some(d) => d@,
            None => join_path(settings_dir@, "control"@),
        }),
{
    match override_dir {
        Some(d) => d,
        None => join(settings_dir, "control"),
    }
}

/// `<settings dir>\versions`, where managed versions are installed.
pub fn versions_dir(settings_dir: &str) -> (r: String)
    ensures
        r@ == join_path(settings_dir@, "versions"@),
{
    join(settings_dir, "versions")
}

/// The dsh home: a non-empty `DSH_HOME`, else `<USERPROFILE>\.dsh`, else `.`.
pub fn dsh_home(dsh_home_var: Option<String>, userprofile: Option<String>) -> (r: String)
    ensures
        r@ == (match dsh_home_var {
            Some(h) if h@.len() > 0 => h@,
            _ => match userprofile {
                Some(u) => join_path(u@, ".dsh"@),
                None => "."@,
            },
        }),
{
    match dsh_home_var {
        Some(h) => {
            if !h.as_str().is_empty() {
                return h;
            }
        },
        None => {},
    }
    match userprofile {
        Some(u) => join(u.as_str(), ".dsh"),
        None => owned("."),
    }
}

/// `<dsh home>\profiles`.
pub fn profiles_dir(dsh_home: &str) -> (r: String)
    ensures
        r@ == join_path(dsh_home@, "profiles"@),
{
    join(dsh_home, "profiles")
}

/// After loading: a missing workspace becomes the user's home; an empty one, or
/// one that is not on disk, becomes the user's home or `None`. Whether the
/// folder is on disk is the disk's answer; only the possible outcomes are stated.
pub fn fix_workspace(s: &mut Settings, userprofile: Option<String>)
    ensures
        final(s).port == old(s).port,
        final(s).profile == old(s).profile,
        final(s).dsh_bin == old(s).dsh_bin,
        final(s).dsh_versions == old(s).dsh_versions,
        final(s).active_version_id == old(s).active_version_id,
        ostr(final(s).workspace) == ostr(old(s).workspace) || ostr(final(s).workspace) == ostr(
            userprofile,
        ),
        old(s).workspace is None && userprofile is None ==> final(s).workspace is None,
        old(s).workspace is None && userprofile is Some ==> ostr(final(s).workspace) == ostr(
            userprofile,
        ),
        (old(s).workspace matches Some(w) && w@.len() == 0) ==> ostr(final(s).workspace) == ostr(
            userprofile,
        ),
{
    if s.workspace.is_none() {
        s.workspace = copy_ostr(&userprofile);
    }
    let w = copy_ostr(&s.workspace);
    match w {
        Some(w) => {
            let ws = w.as_str();
            if ws.is_empty() || !path_exists(ws) {
                s.workspace = userprofile;
            }
        },
        None => {},
    }
}

} // verus!
