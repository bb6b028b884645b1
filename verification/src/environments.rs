//! Environments: the dsh versions (installed each in a folder of its own,
//! switched between, renamed, removed) and the dsh profiles (listed, created,
//! copied, renamed, removed, activated). Everything here works on the settings
//! record and on plain values; the caller reads and writes the disk.
use vstd::prelude::*;
use crate::json::{json_member, json_member_of, json_profile_manifest, json_with_member, profile_manifest_of, with_member_pretty};
use crate::paths::{has_drive, join, join_path, parent_of, parent_path, path_exists};
use crate::runtime::{dsh_bin_for, dsh_bin_path};
use crate::settings::{copy_ostr, ostr, versions_of, DshVersionEntry, Settings, VersionEntryView};
use crate::text::{
    chars_eq, chars_of, contains, contains_exec, owned, push_all, str_eq, string_of, trim,
    trim_chars,
};

verus! {

// ───────────────────────────── names ─────────────────────────────

/// Message for an empty profile name.
pub open spec fn msg_profile_empty() -> Seq<char> {
    "profile 名称不能为空"@
}

/// Prefix of the message for a reserved profile name.
pub open spec fn msg_profile_illegal() -> Seq<char> {
    "非法 profile 名称: "@
}

/// Message for a profile name holding a path separator.
pub open spec fn msg_profile_sep() -> Seq<char> {
    "profile 名称不能包含路径分隔符"@
}

/// Why `name` cannot name a profile, if it cannot: empty once trimmed, `.`,
/// `..` or `node_modules`, or holding `/` or `\`.
pub open spec fn profile_name_error(name: Seq<char>) -> Option<Seq<char>> {
    let t = trim(name);
    if t.len() == 0 {
        Some(msg_profile_empty())
    } else if t == "."@ || t == ".."@ || t == "node_modules"@ {
        Some(msg_profile_illegal() + t)
    } else if t.contains('/') || t.contains('\\') {
        Some(msg_profile_sep())
    } else {
        None
    }
}

/// Checks that `name` can name a profile.
pub fn validate_profile_name(name: &str) -> (r: Result<(), String>)
    ensures
        r is Ok <==> profile_name_error(name@) is None,
        r matches Err(e) ==> profile_name_error(name@) == Some(e@),
{
    let t = trim_chars(&chars_of(name));
    if t.len() == 0 {
        return Err(owned("profile 名称不能为空"));
    }
    if chars_eq(&t, &chars_of(".")) || chars_eq(&t, &chars_of("..")) || chars_eq(
        &t,
        &chars_of("node_modules"),
    ) {
        let mut m = chars_of("非法 profile 名称: ");
        push_all(&mut m, &t);
        return Err(string_of(&m));
    }
    let mut i: usize = 0;
    while i < t.len()
        invariant
            i <= t@.len(),
            t@ == trim(name@),
            t@.len() > 0,
            !(t@ == "."@ || t@ == ".."@ || t@ == "node_modules"@),
            forall|k: int| 0 <= k < i ==> t@[k] != '/' && t@[k] != '\\',
        decreases t@.len() - i,
    {
        if t[i] == '/' || t[i] == '\\' {
            if t[i] == '/' {
                assert(t@.contains('/'));
            } else {
                assert(t@.contains('\\'));
            }
            return Err(owned("profile 名称不能包含路径分隔符"));
        }
        i = i + 1;
    }
    Ok(())
}

/// A version label is acceptable when something is left of it once trimmed.
pub fn validate_version_name(label: &str) -> (r: bool)
    ensures
        r == (trim(label@).len() > 0),
{
    trim_chars(&chars_of(label)).len() > 0
}

// ───────────────────────────── paths ─────────────────────────────

/// A path with each run of separators made one `\` (`C:/a//b` becomes `C:\a\b`).
pub open spec fn collapse_seps(s: Seq<char>) -> Seq<char>
    decreases s.len(),
{
    if s.len() == 0 {
        Seq::empty()
    } else {
        let t = collapse_seps(s.drop_last());
        let c = s.last();
        if c == '\\' || c == '/' {
            if t.len() > 0 && t.last() == '\\' {
                t
            } else {
                t.push('\\')
            }
        } else {
            t.push(c)
        }
    }
}

/// A path in a normal form: separators collapsed, a trailing separator dropped
/// (except a lone root separator).
pub open spec fn norm_path(s: Seq<char>) -> Seq<char> {
    let t = collapse_seps(s);
    if t.len() > 1 && t.last() == '\\' {
        t.drop_last()
    } else {
        t
    }
}

/// `Path::starts_with` by whole components: `base` names `p` or a folder above it.
pub open spec fn path_under(p: Seq<char>, base: Seq<char>) -> bool {
    let np = norm_path(p);
    let nb = norm_path(base);
    ||| nb.len() == 0
    ||| nb == seq!['\\'] && np.len() > 0 && np[0] == '\\'
    ||| (nb.len() <= np.len() && np.take(nb.len() as int) == nb && (np.len() == nb.len()
        || np[nb.len() as int] == '\\'))
}

fn collapse_exec(v: &Vec<char>) -> (r: Vec<char>)
    ensures
        r@ == collapse_seps(v@),
{
    let mut out: Vec<char> = Vec::new();
    let mut i: usize = 0;
    while i < v.len()
        invariant
            i <= v@.len(),
            out@ == collapse_seps(v@.take(i as int)),
        decreases v@.len() - i,
    {
        let c = v[i];
        assert(v@.take(i + 1).drop_last() =~= v@.take(i as int));
        if c == '\\' || c == '/' {
            let n = out.len();
            if !(n > 0 && out[n - 1] == '\\') {
                out.push('\\');
            }
        } else {
            out.push(c);
        }
        i = i + 1;
    }
    assert(v@.take(v@.len() as int) =~= v@);
    out
}

fn norm_exec(v: &Vec<char>) -> (r: Vec<char>)
    ensures
        r@ == norm_path(v@),
{
    let mut t = collapse_exec(v);
    let n = t.len();
    if n > 1 && t[n - 1] == '\\' {
        t.pop();
    }
    t
}

/// Whether `base` names the path `p` or a folder above it (`Path::starts_with`).
pub fn path_starts_with(p: &str, base: &str) -> (r: bool)
    ensures
        r == path_under(p@, base@),
{
    let np = norm_exec(&chars_of(p));
    let nb = norm_exec(&chars_of(base));
    if nb.len() == 0 {
        return true;
    }
    if nb.len() == 1 && nb[0] == '\\' {
        assert(nb@ =~= seq!['\\']);
        return np.len() > 0 && np[0] == '\\';
    }
    assert(nb@ != seq!['\\']) by {
        if nb@.len() == 1 {
            assert(nb@[0] != seq!['\\'][0]);
        }
    }
    if nb.len() > np.len() {
        return false;
    }
    let mut i: usize = 0;
    while i < nb.len()
        invariant
            nb@.len() <= np@.len(),
            nb@.len() > 0,
            nb@ != seq!['\\'],
            np@ == norm_path(p@),
            nb@ == norm_path(base@),
            i <= nb@.len(),
            forall|k: int| 0 <= k < i ==> np@[k] == nb@[k],
        decreases nb@.len() - i,
    {
        if np[i] != nb[i] {
            assert(np@.take(nb@.len() as int)[i as int] != nb@[i as int]);
            return false;
        }
        i = i + 1;
    }
    assert(np@.take(nb@.len() as int) =~= nb@);
    np.len() == nb.len() || np[nb.len()] == '\\'
}

/// Characters as `str::to_lowercase` gives them, as far as a search for ASCII
/// words can tell: ASCII capitals and the Kelvin sign become ASCII small letters,
/// the dotted capital I becomes `i` and a combining dot, every other character
/// stays (no other character has a lower case that holds an ASCII letter).
pub open spec fn fold_char(c: char) -> Seq<char> {
    if 'A' <= c && c <= 'Z' {
        seq![((c as int) + 32) as char]
    } else if c == '\u{212a}' {
        seq!['k']
    } else if c == '\u{130}' {
        seq!['i', '\u{307}']
    } else {
        seq![c]
    }
}

/// `fold_char` over a whole string.
pub open spec fn fold_lower(s: Seq<char>) -> Seq<char>
    decreases s.len(),
{
    if s.len() == 0 {
        Seq::empty()
    } else {
        fold_lower(s.drop_last()) + fold_char(s.last())
    }
}

pub fn fold_lower_exec(v: &Vec<char>) -> (r: Vec<char>)
    ensures
        r@ == fold_lower(v@),
{
    let mut out: Vec<char> = Vec::new();
    let mut i: usize = 0;
    while i < v.len()
        invariant
            i <= v@.len(),
            out@ == fold_lower(v@.take(i as int)),
        decreases v@.len() - i,
    {
        let c = v[i];
        assert(v@.take(i + 1).drop_last() =~= v@.take(i as int));
        let ghost before = out@;
        if 'A' <= c && c <= 'Z' {
            out.push((((c as u32) + 32) as u8) as char);
        } else if c == '\u{212a}' {
            out.push('k');
        } else if c == '\u{130}' {
            out.push('i');
            out.push('\u{307}');
        } else {
            out.push(c);
        }
        assert(out@ =~= before + fold_char(c));
        i = i + 1;
    }
    assert(v@.take(v@.len() as int) =~= v@);
    out
}

/// How a dsh entry is classed by its path: under the versions folder it is
/// managed by this program; in an npm `node_modules\@deepseek-ai\dsh\lib\bin.js`
/// layout it is the global install; anything else was given by hand.
pub open spec fn bin_source(bin: Seq<char>, versions_dir: Seq<char>) -> Seq<char> {
    if path_under(bin, versions_dir) {
        "managed"@
    } else if contains(fold_lower(bin), "node_modules"@) && contains(fold_lower(bin), "@deepseek-ai"@)
        && contains(fold_lower(bin), "dsh"@) && contains(fold_lower(bin), "lib"@) && contains(
        fold_lower(bin),
        "bin.js"@,
    ) {
        "global"@
    } else {
        "manual"@
    }
}

/// Classes a dsh entry by its path (`managed`, `global` or `manual`).
pub fn classify_bin(bin: &str, versions_dir: &str) -> (r: String)
    ensures
        r@ == bin_source(bin@, versions_dir@),
{
    if path_starts_with(bin, versions_dir) {
        return owned("managed");
    }
    let lower = fold_lower_exec(&chars_of(bin));
    if contains_exec(&lower, &chars_of("node_modules")) && contains_exec(
        &lower,
        &chars_of("@deepseek-ai"),
    ) && contains_exec(&lower, &chars_of("dsh")) && contains_exec(&lower, &chars_of("lib"))
        && contains_exec(&lower, &chars_of("bin.js")) {
        return owned("global");
    }
    owned("manual")
}

/// ` (<version>)` for a known version, nothing otherwise.
pub open spec fn version_suffix(installed: Option<Seq<char>>) -> Seq<char> {
    match installed {
        Some(v) => " ("@ + v + ")"@,
        None => Seq::empty(),
    }
}

/// The label of an entry found on disk: `全局 dsh (v)` for the global install,
/// `当前 dsh (v)` for any other path.
pub open spec fn found_label(global: bool, installed: Option<Seq<char>>) -> Seq<char> {
    (if global {
        "全局 dsh"@
    } else {
        "当前 dsh"@
    }) + version_suffix(installed)
}

/// Builds `found_label`.
pub fn make_found_label(global: bool, installed: &Option<String>) -> (r: String)
    ensures
        r@ == found_label(global, ostr(*installed)),
{
    let mut out = if global {
        chars_of("全局 dsh")
    } else {
        chars_of("当前 dsh")
    };
    match installed {
        Some(v) => {
            push_all(&mut out, &chars_of(" ("));
            push_all(&mut out, &chars_of(v.as_str()));
            push_all(&mut out, &chars_of(")"));
        },
        None => {},
    }
    string_of(&out)
}


// ───────────────────────────── the versions panel ─────────────────────────────

/// A row of the versions panel.
#[derive(Debug, Clone)]
pub struct VersionView {
    pub id: String,
    pub label: String,
    pub spec: String,
    pub installed: Option<String>,
    pub dir: String,
    pub bin: Option<String>,
    pub source: String,
    pub exists: bool,
    pub active: bool,
}

/// A row of the versions panel, by its characters.
pub struct VersionRow {
    pub entry: VersionEntryView,
    pub exists: bool,
    pub active: bool,
}

impl View for VersionView {
    type V = VersionRow;

    open spec fn view(&self) -> VersionRow {
        VersionRow {
            entry: VersionEntryView {
                id: self.id@,
                label: self.label@,
                spec: self.spec@,
                installed: ostr(self.installed),
                dir: self.dir@,
                bin: ostr(self.bin),
                source: self.source@,
            },
            exists: self.exists,
            active: self.active,
        }
    }
}

/// The non-empty dsh entry path of the settings, if any.
pub open spec fn current_bin(s: Settings) -> Option<Seq<char>> {
    match s.dsh_bin {
        Some(b) => if b@.len() > 0 {
            Some(b@)
        } else {
            None
        },
        None => None,
    }
}

/// Whether a version entry is the one in use: its id is the active id, or its
/// path is the dsh entry path (both absent counts as equal).
pub open spec fn entry_in_use(s: Settings, e: VersionEntryView) -> bool {
    (match s.active_version_id {
        Some(a) => a@ == e.id,
        None => false,
    }) || ostr(s.dsh_bin) == e.bin
}

/// Some entry of `vs` runs `bin`.
pub open spec fn entry_with_bin(vs: Seq<VersionEntryView>, bin: Seq<char>) -> bool {
    exists|i: int| 0 <= i < vs.len() && vs[i].bin == Some(bin)
}

/// The row shown for a dsh path that no entry records.
pub open spec fn current_row(bin: Seq<char>, versions_dir: Seq<char>, installed: Option<Seq<char>>) -> VersionEntryView {
    VersionEntryView {
        id: "__current__"@,
        label: found_label(bin_source(bin, versions_dir) == "global"@, installed),
        spec: bin_source(bin, versions_dir),
        installed,
        dir: Seq::empty(),
        bin: Some(bin),
        source: bin_source(bin, versions_dir),
    }
}

/// The row shown for the global install when there is nothing else.
pub open spec fn global_row(bin: Seq<char>, installed: Option<Seq<char>>) -> VersionEntryView {
    VersionEntryView {
        id: "__global__"@,
        label: found_label(true, installed),
        spec: "global"@,
        installed,
        dir: Seq::empty(),
        bin: Some(bin),
        source: "global"@,
    }
}

/// Whether the settings' dsh path is recorded by no entry, so that an extra row shows it.
pub open spec fn needs_current_row(s: Settings) -> bool {
    current_bin(s) matches Some(b) && !entry_with_bin(versions_of(s), b)
}

fn copy_entry_fields(e: &DshVersionEntry, exists: bool, active: bool) -> (r: VersionView)
    ensures
        r@ == (VersionRow { entry: e@, exists, active }),
{
    VersionView {
        id: e.id.clone(),
        label: e.label.clone(),
        spec: e.spec.clone(),
        installed: copy_ostr(&e.installed),
        dir: e.dir.clone(),
        bin: copy_ostr(&e.bin),
        source: e.source.clone(),
        exists,
        active,
    }
}

fn opt_eq(a: &Option<String>, b: &Option<String>) -> (r: bool)
    ensures
        r == (ostr(*a) == ostr(*b)),
{
    match (a, b) {
        (Some(x), Some(y)) => str_eq(x.as_str(), y.as_str()),
        (None, None) => true,
        _ => false,
    }
}

/// The dsh entry path of the settings when it is set and not empty.
pub fn current_bin_of(s: &Settings) -> (r: Option<String>)
    ensures
        ostr(r) == current_bin(*s),
{
    match &s.dsh_bin {
        Some(b) => if b.as_str().is_empty() {
            None
        } else {
            Some(b.clone())
        },
        None => None,
    }
}

/// Whether some entry of the settings runs `bin`.
pub fn has_entry_with_bin(s: &Settings, bin: &str) -> (r: bool)
    ensures
        r == entry_with_bin(versions_of(*s), bin@),
{
    let mut i: usize = 0;
    while i < s.dsh_versions.len()
        invariant
            i <= s.dsh_versions@.len(),
            forall|k: int| 0 <= k < i ==> versions_of(*s)[k].bin != Some(bin@),
        decreases s.dsh_versions@.len() - i,
    {
        match &s.dsh_versions[i].bin {
            Some(b) => {
                if str_eq(b.as_str(), bin) {
                    assert(versions_of(*s)[i as int].bin == Some(bin@));
                    return true;
                }
            },
            None => {},
        }
        i = i + 1;
    }
    false
}

/// The rows of the versions panel: one per entry (marked in use or not, and
/// whether its `bin.js` is on disk), then a row for a dsh path that no entry
/// records, and, when that leaves the panel empty, a row for the global install
/// `global` = (path, version) found on disk. `current_installed` is the version
/// read for the settings' dsh path. Which paths are on disk is the disk's answer.
pub fn list_versions(
    s: &Settings,
    versions_dir: &str,
    current_installed: Option<String>,
    global: Option<(String, Option<String>)>,
) -> (r: Vec<VersionView>)
    ensures
        r@.len() == versions_of(*s).len() + (if needs_current_row(*s) { 1int } else { 0int }) + (
        if versions_of(*s).len() == 0 && !needs_current_row(*s) && global is Some {
            1int
        } else {
            0int
        }),
        forall|i: int|
            0 <= i < versions_of(*s).len() ==> #[trigger] r@[i]@.entry == versions_of(*s)[i]
                && r@[i]@.active == entry_in_use(*s, versions_of(*s)[i]) && (versions_of(
                *s,
            )[i].bin is None ==> !r@[i]@.exists),
        needs_current_row(*s) ==> r@[versions_of(*s).len() as int]@.entry == current_row(
            current_bin(*s)->0,
            versions_dir@,
            ostr(current_installed),
        ) && r@[versions_of(*s).len() as int]@.active,
        (versions_of(*s).len() == 0 && !needs_current_row(*s)) ==> (global matches Some(g)
            ==> r@[0]@ == (VersionRow {
            entry: global_row(g.0@, ostr(g.1)),
            exists: true,
            active: false,
        })),
{
    let mut out: Vec<VersionView> = Vec::new();
    let mut i: usize = 0;
    while i < s.dsh_versions.len()
        invariant
            i <= s.dsh_versions@.len(),
            out@.len() == i,
            forall|k: int|
                0 <= k < i ==> #[trigger] out@[k]@.entry == versions_of(*s)[k] && out@[k]@.active
                    == entry_in_use(*s, versions_of(*s)[k]) && (versions_of(*s)[k].bin is None
                    ==> !out@[k]@.exists),
        decreases s.dsh_versions@.len() - i,
    {
        let e = &s.dsh_versions[i];
        let exists = match &e.bin {
            Some(b) => path_exists(b.as_str()),
            None => false,
        };
        let by_id = match &s.active_version_id {
            Some(a) => str_eq(a.as_str(), e.id.as_str()),
            None => false,
        };
        let active = by_id || opt_eq(&s.dsh_bin, &e.bin);
        out.push(copy_entry_fields(e, exists, active));
        i = i + 1;
    }
    let n = out.len();
    match current_bin_of(s) {
        Some(bin) => {
            if !has_entry_with_bin(s, bin.as_str()) {
                let exists = path_exists(bin.as_str());
                let source = classify_bin(bin.as_str(), versions_dir);
                let global_src = str_eq(source.as_str(), "global");
                let label = make_found_label(global_src, &current_installed);
                out.push(
                    VersionView {
                        id: owned("__current__"),
                        label,
                        spec: source.clone(),
                        installed: copy_ostr(&current_installed),
                        dir: String::new(),
                        bin: Some(bin),
                        source,
                        exists,
                        active: true,
                    },
                );
            }
        },
        None => {},
    }
    if out.len() == 0 {
        match global {
            Some((gbin, ginst)) => {
                let label = make_found_label(true, &ginst);
                out.push(
                    VersionView {
                        id: owned("__global__"),
                        label,
                        spec: owned("global"),
                        installed: ginst,
                        dir: String::new(),
                        bin: Some(gbin),
                        source: owned("global"),
                        exists: true,
                        active: false,
                    },
                );
            },
            None => {},
        }
    }
    assert(n == versions_of(*s).len());
    out
}


// ───────────────────────────── the profiles panel ─────────────────────────────

/// A row of the profiles panel.
#[derive(Debug, Clone)]
pub struct ProfileView {
    pub name: String,
    pub dir: String,
    pub exists: bool,
    pub web_ready: bool,
    pub bundles: usize,
    pub plugins: usize,
    pub active: bool,
}

/// A row of the profiles panel, by its characters.
pub struct ProfileRow {
    pub name: Seq<char>,
    pub dir: Seq<char>,
    pub exists: bool,
    pub web_ready: bool,
    pub bundles: usize,
    pub plugins: usize,
    pub active: bool,
}

impl View for ProfileView {
    type V = ProfileRow;

    open spec fn view(&self) -> ProfileRow {
        ProfileRow {
            name: self.name@,
            dir: self.dir@,
            exists: self.exists,
            web_ready: self.web_ready,
            bundles: self.bundles,
            plugins: self.plugins,
            active: self.active,
        }
    }
}

/// What the profiles folder holds for one entry: its name and path, whether it
/// is a folder, the bundles its manifest lists and how many plugins it depends on.
pub struct ProfileEntry {
    pub name: String,
    pub dir: String,
    pub is_dir: bool,
    pub bundles: Vec<String>,
    pub plugins: usize,
}

/// The bundle that makes a profile able to serve the web app.
pub open spec fn web_bundle() -> Seq<char> {
    "@deepseek-ai/dsh-web-app"@
}

/// Whether `bundles` lists the web app bundle.
pub open spec fn lists_web_bundle(bundles: Seq<String>) -> bool {
    exists|i: int| 0 <= i < bundles.len() && bundles[i]@ == web_bundle()
}

/// The row of a profile folder.
pub open spec fn profile_row(name: Seq<char>, dir: Seq<char>, bundles: Seq<String>, plugins: usize, active: Seq<char>) -> ProfileRow {
    ProfileRow {
        name,
        dir,
        exists: true,
        web_ready: lists_web_bundle(bundles),
        bundles: bundles.len() as usize,
        plugins,
        active: name == active,
    }
}

/// The row of a profile folder.
pub fn profile_view(name: &str, dir: &str, bundles: &Vec<String>, plugins: usize, active: &str) -> (r: ProfileView)
    ensures
        r@ == profile_row(name@, dir@, bundles@, plugins, active@),
{
    let mut web = false;
    let mut i: usize = 0;
    while i < bundles.len()
        invariant
            i <= bundles@.len(),
            web == exists|k: int| 0 <= k < i && bundles@[k]@ == web_bundle(),
        decreases bundles@.len() - i,
    {
        if str_eq(bundles[i].as_str(), "@deepseek-ai/dsh-web-app") {
            web = true;
        }
        i = i + 1;
    }
    ProfileView {
        name: owned(name),
        dir: owned(dir),
        exists: true,
        web_ready: web,
        bundles: bundles.len(),
        plugins,
        active: str_eq(name, active),
    }
}

/// Strict code-point order of strings (`String`'s `Ord`).
pub open spec fn name_lt(a: Seq<char>, b: Seq<char>) -> bool
    decreases a.len(),
{
    if a.len() == 0 {
        b.len() > 0
    } else if b.len() == 0 {
        false
    } else if a[0] != b[0] {
        a[0] < b[0]
    } else {
        name_lt(a.drop_first(), b.drop_first())
    }
}

pub proof fn lemma_name_lt_asym(a: Seq<char>, b: Seq<char>)
    ensures
        !(name_lt(a, b) && name_lt(b, a)),
        !name_lt(a, a),
    decreases a.len(),
{
    if a.len() > 0 && b.len() > 0 && a[0] == b[0] {
        lemma_name_lt_asym(a.drop_first(), b.drop_first());
    }
    if a.len() > 0 {
        lemma_name_lt_asym(a.drop_first(), a.drop_first());
    }
}

pub proof fn lemma_name_lt_trans(a: Seq<char>, b: Seq<char>, c: Seq<char>)
    requires
        name_lt(a, b),
        name_lt(b, c),
    ensures
        name_lt(a, c),
    decreases a.len(),
{
    if a.len() > 0 && b.len() > 0 && c.len() > 0 && a[0] == b[0] && b[0] == c[0] {
        lemma_name_lt_trans(a.drop_first(), b.drop_first(), c.drop_first());
    }
}

pub proof fn lemma_name_lt_total(a: Seq<char>, b: Seq<char>)
    ensures
        name_lt(a, b) || name_lt(b, a) || a == b,
    decreases a.len(),
{
    if a.len() > 0 && b.len() > 0 && a[0] == b[0] {
        lemma_name_lt_total(a.drop_first(), b.drop_first());
        if a.drop_first() == b.drop_first() {
            assert(a =~= seq![a[0]] + a.drop_first());
            assert(b =~= seq![b[0]] + b.drop_first());
        }
    }
    if a.len() == 0 && b.len() == 0 {
        assert(a =~= b);
    }
}

/// The panel's order: the active profile first, then by name.
pub open spec fn row_before(a: ProfileRow, b: ProfileRow) -> bool {
    (a.active && !b.active) || (a.active == b.active && name_lt(a.name, b.name))
}

pub proof fn lemma_row_before_asym(a: ProfileRow, b: ProfileRow)
    ensures
        !(row_before(a, b) && row_before(b, a)),
{
    lemma_name_lt_asym(a.name, b.name);
}

pub proof fn lemma_row_before_trans(a: ProfileRow, b: ProfileRow, c: ProfileRow)
    requires
        row_before(a, b),
        row_before(b, c),
    ensures
        row_before(a, c),
{
    if a.active == b.active && b.active == c.active {
        lemma_name_lt_trans(a.name, b.name, c.name);
    }
}

/// No row comes after one it should precede.
pub open spec fn rows_sorted(rs: Seq<ProfileRow>) -> bool {
    forall|i: int, j: int| 0 <= i < j < rs.len() ==> !row_before(#[trigger] rs[j], #[trigger] rs[i])
}

fn name_less(a: &Vec<char>, b: &Vec<char>) -> (r: bool)
    ensures
        r == name_lt(a@, b@),
{
    let mut i: usize = 0;
    assert(a@.skip(0) =~= a@);
    assert(b@.skip(0) =~= b@);
    loop
        invariant
            i <= a@.len(),
            i <= b@.len(),
            name_lt(a@, b@) == name_lt(a@.skip(i as int), b@.skip(i as int)),
        decreases a@.len() - i,
    {
        if i == a.len() {
            return i < b.len();
        }
        if i == b.len() {
            return false;
        }
        if a[i] != b[i] {
            return a[i] < b[i];
        }
        assert(a@.skip(i as int).drop_first() =~= a@.skip(i + 1));
        assert(b@.skip(i as int).drop_first() =~= b@.skip(i + 1));
        i = i + 1;
    }
}

fn row_less(a: &ProfileView, b: &ProfileView) -> (r: bool)
    ensures
        r == row_before(a@, b@),
{
    (a.active && !b.active) || (a.active == b.active && name_less(
        &chars_of(a.name.as_str()),
        &chars_of(b.name.as_str()),
    ))
}

/// The rows of the profiles panel: each folder except `node_modules` becomes a
/// row, ordered with the active profile first and then by name.
pub open spec fn profile_rows(entries: Seq<ProfileEntry>, active: Seq<char>) -> Seq<ProfileRow>
    decreases entries.len(),
{
    if entries.len() == 0 {
        Seq::empty()
    } else {
        let e = entries.last();
        let rest = profile_rows(entries.drop_last(), active);
        if e.name@ == "node_modules"@ || !e.is_dir {
            rest
        } else {
            rest.push(profile_row(e.name@, e.dir@, e.bundles@, e.plugins, active))
        }
    }
}

/// The profiles panel: the rows of `entries`, active first, then by name.
pub fn list_profiles(entries: &Vec<ProfileEntry>, active: &str) -> (r: Vec<ProfileView>)
    ensures
        r@.map_values(|v: ProfileView| v@).to_multiset() == profile_rows(entries@, active@).to_multiset(),
        rows_sorted(r@.map_values(|v: ProfileView| v@)),
{
    broadcast use vstd::seq_lib::group_to_multiset_ensures;
    let mut out: Vec<ProfileView> = Vec::new();
    let mut i: usize = 0;
    while i < entries.len()
        invariant
            i <= entries@.len(),
            out@.map_values(|v: ProfileView| v@).to_multiset() == profile_rows(
                entries@.take(i as int),
                active@,
            ).to_multiset(),
            rows_sorted(out@.map_values(|v: ProfileView| v@)),
        decreases entries@.len() - i,
    {
        let e = &entries[i];
        assert(entries@.take(i + 1).drop_last() =~= entries@.take(i as int));
        if !(str_eq(e.name.as_str(), "node_modules") || !e.is_dir) {
            let row = profile_view(e.name.as_str(), e.dir.as_str(), &e.bundles, e.plugins, active);
            let ghost before = out@.map_values(|v: ProfileView| v@);
            let mut p: usize = 0;
            while p < out.len() && !row_less(&row, &out[p])
                invariant
                    p <= out@.len(),
                    before == out@.map_values(|v: ProfileView| v@),
                    forall|k: int| 0 <= k < p ==> !row_before(row@, #[trigger] before[k]),
                decreases out@.len() - p,
            {
                p = p + 1;
            }
            let ghost rv = row@;
            out.insert(p, row);
            let ghost after = out@.map_values(|v: ProfileView| v@);
            assert(after =~= before.insert(p as int, rv));
            proof {
                let prev = profile_rows(entries@.take(i as int), active@);
                assert(profile_rows(entries@.take(i + 1), active@) == prev.push(rv));
                vstd::seq_lib::to_multiset_insert(before, p as int, rv);
                vstd::seq_lib::to_multiset_build(prev, rv);
            }
            proof {
                assert forall|a: int, b: int| 0 <= a < b < after.len() implies !row_before(
                    #[trigger] after[b],
                    #[trigger] after[a],
                ) by {
                    if a < p && b == p {
                    } else if a == p && b > p {
                        let x = before[b - 1];
                        if row_before(x, rv) {
                            if b - 1 == p {
                                lemma_row_before_asym(rv, x);
                            } else {
                                assert(!row_before(before[b - 1], before[p as int]));
                                lemma_row_before_trans(x, rv, before[p as int]);
                            }
                        }
                    } else if a < p && b > p {
                        assert(after[a] == before[a]);
                        assert(after[b] == before[b - 1]);
                    } else if b < p {
                    } else {
                        assert(after[a] == before[a - 1]);
                        assert(after[b] == before[b - 1]);
                    }
                }
            }
        }
        i = i + 1;
    }
    assert(entries@.take(entries@.len() as int) =~= entries@);
    out
}


// ───────────────────────────── the environment view ─────────────────────────────

/// A long-running environment task (shown while it runs).
#[derive(Debug, Clone)]
pub struct EnvTask {
    pub kind: String,
    pub phase: String,
    pub detail: String,
    pub target: String,
}

/// Everything the environments panel shows.
#[derive(Debug, Clone)]
pub struct EnvData {
    pub dsh_home: String,
    pub versions: Vec<VersionView>,
    pub profiles: Vec<ProfileView>,
    pub active_version_id: Option<String>,
    pub active_profile: String,
    pub busy: Option<EnvTask>,
    pub last_error: Option<String>,
}

/// The environments panel: the dsh home, the version rows, the profile rows of
/// the folder listing `entries`, the active version and profile; no task runs
/// and there is no error yet.
pub fn env_view(
    s: &Settings,
    dsh_home: &str,
    versions_dir: &str,
    current_installed: Option<String>,
    global: Option<(String, Option<String>)>,
    entries: &Vec<ProfileEntry>,
) -> (r: EnvData)
    ensures
        r.dsh_home@ == dsh_home@,
        r.versions@.len() == versions_of(*s).len() + (if needs_current_row(*s) { 1int } else { 0int }) + (
        if versions_of(*s).len() == 0 && !needs_current_row(*s) && global is Some {
            1int
        } else {
            0int
        }),
        forall|i: int|
            0 <= i < versions_of(*s).len() ==> #[trigger] r.versions@[i]@.entry == versions_of(*s)[i]
                && r.versions@[i]@.active == entry_in_use(*s, versions_of(*s)[i]),
        r.profiles@.map_values(|v: ProfileView| v@).to_multiset() == profile_rows(entries@, s.profile@).to_multiset(),
        rows_sorted(r.profiles@.map_values(|v: ProfileView| v@)),
        ostr(r.active_version_id) == ostr(s.active_version_id),
        r.active_profile@ == s.profile@,
        r.busy is None,
        r.last_error is None,
{
    EnvData {
        dsh_home: owned(dsh_home),
        versions: list_versions(s, versions_dir, current_installed, global),
        profiles: list_profiles(entries, s.profile.as_str()),
        active_version_id: copy_ostr(&s.active_version_id),
        active_profile: s.profile.clone(),
        busy: None,
        last_error: None,
    }
}

// ───────────────────────────── switching versions ─────────────────────────────

/// Index of the first version entry with `id`, from `i` on.
pub open spec fn entry_index_from(vs: Seq<VersionEntryView>, id: Seq<char>, i: int) -> Option<int>
    decreases vs.len() - i,
{
    if i < 0 || i >= vs.len() {
        None
    } else if vs[i].id == id {
        Some(i)
    } else {
        entry_index_from(vs, id, i + 1)
    }
}

/// Index of the first version entry with `id`.
pub open spec fn entry_index(vs: Seq<VersionEntryView>, id: Seq<char>) -> Option<int> {
    entry_index_from(vs, id, 0)
}

pub proof fn lemma_entry_index_from(vs: Seq<VersionEntryView>, id: Seq<char>, i: int)
    requires
        0 <= i,
    ensures
        entry_index_from(vs, id, i) matches Some(k) ==> i <= k < vs.len() && vs[k].id == id,
    decreases vs.len() - i,
{
    if i < vs.len() && vs[i].id != id {
        lemma_entry_index_from(vs, id, i + 1);
    }
}

/// Index of the first version entry with `id`.
pub fn find_entry(s: &Settings, id: &str) -> (r: Option<usize>)
    ensures
        r matches Some(k) ==> entry_index(versions_of(*s), id@) == Some(k as int) && k
            < s.dsh_versions@.len(),
        r is None ==> entry_index(versions_of(*s), id@) is None,
{
    proof {
        lemma_entry_index_from(versions_of(*s), id@, 0);
    }
    let mut i: usize = 0;
    while i < s.dsh_versions.len()
        invariant
            i <= s.dsh_versions@.len(),
            entry_index(versions_of(*s), id@) == entry_index_from(versions_of(*s), id@, i as int),
        decreases s.dsh_versions@.len() - i,
    {
        if str_eq(s.dsh_versions[i].id.as_str(), id) {
            return Some(i);
        }
        i = i + 1;
    }
    None
}

/// The ids of the rows that stand for a path rather than an entry.
pub open spec fn pseudo_version_id(id: Seq<char>) -> bool {
    id == "__global__"@ || id == "__current__"@
}

/// What switching to a version needs: the `bin.js` to use and, for a recorded
/// entry, its id and folder.
pub enum ActivationPlan {
    /// A path row: use this path and clear the active id.
    Path(String),
    /// A recorded entry: (bin, id, dir).
    Entry(String, String, String),
}

/// `activate_version`'s choice before the disk is asked: for a path row, the
/// settings' dsh path or else the global install; for an entry, its `bin.js`.
pub open spec fn activation_plan(s: Settings, id: Seq<char>, global_bin: Option<Seq<char>>) -> Result<
    (Seq<char>, Option<(Seq<char>, Seq<char>)>),
    Seq<char>,
> {
    if pseudo_version_id(id) {
        match current_bin(s) {
            Some(b) => Ok((b, None)),
            None => match global_bin {
                Some(g) => Ok((g, None)),
                None => Err("未找到全局 dsh"@),
            },
        }
    } else {
        match entry_index(versions_of(s), id) {
            None => Err("版本不存在"@),
            Some(k) => match versions_of(s)[k].bin {
                None => Err("该版本缺少 bin.js 路径"@),
                Some(b) => Ok((b, Some((versions_of(s)[k].id, versions_of(s)[k].dir)))),
            },
        }
    }
}

pub open spec fn plan_view(p: ActivationPlan) -> (Seq<char>, Option<(Seq<char>, Seq<char>)>) {
    match p {
        ActivationPlan::Path(b) => (b@, None),
        ActivationPlan::Entry(b, id, dir) => (b@, Some((id@, dir@))),
    }
}

/// Chooses what switching to version `id` would use.
pub fn plan_activation(s: &Settings, id: &str, global_bin: Option<String>) -> (r: Result<ActivationPlan, String>)
    ensures
        r matches Ok(p) ==> activation_plan(*s, id@, ostr(global_bin)) == Ok::<
            (Seq<char>, Option<(Seq<char>, Seq<char>)>),
            Seq<char>,
        >(plan_view(p)),
        r matches Err(e) ==> activation_plan(*s, id@, ostr(global_bin)) == Err::<
            (Seq<char>, Option<(Seq<char>, Seq<char>)>),
            Seq<char>,
        >(e@),
{
    if str_eq(id, "__global__") || str_eq(id, "__current__") {
        return match current_bin_of(s) {
            Some(b) => Ok(ActivationPlan::Path(b)),
            None => match global_bin {
                Some(g) => Ok(ActivationPlan::Path(g)),
                None => Err(owned("未找到全局 dsh")),
            },
        };
    }
    match find_entry(s, id) {
        None => Err(owned("版本不存在")),
        Some(k) => {
            let e = &s.dsh_versions[k];
            match &e.bin {
                None => Err(owned("该版本缺少 bin.js 路径")),
                Some(b) => Ok(ActivationPlan::Entry(b.clone(), e.id.clone(), e.dir.clone())),
            }
        },
    }
}

/// The settings after switching to `bin` (with the entry id, if any); `bin_exists`
/// is whether `bin` is on disk: when it is not, nothing changes and the error says so.
pub open spec fn activation_result(
    s: Settings,
    plan: (Seq<char>, Option<(Seq<char>, Seq<char>)>),
    bin_exists: bool,
) -> Result<(), Seq<char>> {
    if !bin_exists {
        Err(
            match plan.1 {
                None => "当前 dsh 路径不存在"@,
                Some(e) => "版本目录不存在或未安装完整: "@ + e.1,
            },
        )
    } else {
        Ok(())
    }
}

/// Switches the settings to a planned version, given whether its `bin.js` is on disk.
pub fn apply_activation(s: &mut Settings, plan: ActivationPlan, bin_exists: bool) -> (r: Result<(), String>)
    ensures
        match r {
            Ok(()) => activation_result(*old(s), plan_view(plan), bin_exists) is Ok,
            Err(e) => activation_result(*old(s), plan_view(plan), bin_exists) == Err::<(), Seq<char>>(e@),
        },
        r is Err ==> *final(s) == *old(s),
        r is Ok ==> ostr(final(s).dsh_bin) == Some(plan_view(plan).0) && ostr(final(s).active_version_id) == (match plan_view(plan).1 {
            Some(e) => Some(e.0),
            None => None,
        }),
        *final(s) == (Settings { dsh_bin: final(s).dsh_bin, active_version_id: final(s).active_version_id, ..*old(s) }),
{
    match plan {
        ActivationPlan::Path(b) => {
            if !bin_exists {
                return Err(owned("当前 dsh 路径不存在"));
            }
            s.dsh_bin = Some(b);
            s.active_version_id = None;
            Ok(())
        },
        ActivationPlan::Entry(b, id, dir) => {
            if !bin_exists {
                let mut m = chars_of("版本目录不存在或未安装完整: ");
                push_all(&mut m, &chars_of(dir.as_str()));
                return Err(string_of(&m));
            }
            s.dsh_bin = Some(b);
            s.active_version_id = Some(id);
            Ok(())
        },
    }
}

/// Switches to version `id` (or, for a path row, to the current or global dsh
/// path) when its `bin.js` is on disk. `global_bin` is the global install found
/// on disk. Whether the path is on disk is the disk's answer: the settings change
/// only as `apply_activation` states for the planned path.
pub fn activate_version(s: &mut Settings, id: &str, global_bin: Option<String>) -> (r: Result<(), String>)
    ensures
        activation_plan(*old(s), id@, ostr(global_bin)) matches Err(e) ==> (r matches Err(m) && m@ == e),
        activation_plan(*old(s), id@, ostr(global_bin)) matches Ok(p) ==> (exists|b: bool| match r {
            Ok(()) => activation_result(*old(s), p, b) is Ok,
            Err(m) => activation_result(*old(s), p, b) == Err::<(), Seq<char>>(m@),
        }),
        activation_plan(*old(s), id@, ostr(global_bin)) matches Ok(p) ==> (r is Ok ==> ostr(final(s).dsh_bin) == Some(p.0) && ostr(final(s).active_version_id) == (match p.1 {
            Some(e) => Some(e.0),
            None => None,
        })),
        r is Err ==> *final(s) == *old(s),
        *final(s) == (Settings { dsh_bin: final(s).dsh_bin, active_version_id: final(s).active_version_id, ..*old(s) }),
{
    let plan = match plan_activation(s, id, global_bin) {
        Ok(p) => p,
        Err(e) => return Err(e),
    };
    let exists = match &plan {
        ActivationPlan::Path(b) => path_exists(b.as_str()),
        ActivationPlan::Entry(b, _, _) => path_exists(b.as_str()),
    };
    apply_activation(s, plan, exists)
}

// ───────────────────────────── renaming and removing versions ─────────────────────────────

/// Message: the version in use cannot be renamed.
pub open spec fn msg_rename_in_use() -> Seq<char> {
    "当前使用中的版本不能重命名，请先切换到其他版本"@
}

/// Relabels version `id` with the trimmed `label`, unless the label is empty,
/// there is no such version, or it is the one in use.
pub fn rename_version(s: &mut Settings, id: &str, label: &str) -> (r: Result<(), String>)
    ensures
        trim(label@).len() == 0 ==> (r matches Err(e) && e@ == "备注名不能为空"@),
        trim(label@).len() > 0 && entry_index(versions_of(*old(s)), id@) is None ==> (r matches Err(e) && e@ == "版本不存在"@),
        trim(label@).len() > 0 && (entry_index(versions_of(*old(s)), id@) matches Some(k) && entry_in_use_by_id(*old(s), id@, versions_of(*old(s))[k])) ==> (r matches Err(e) && e@ == msg_rename_in_use()),
        r is Err ==> *final(s) == *old(s),
        r is Ok <==> trim(label@).len() > 0 && (entry_index(versions_of(*old(s)), id@) matches Some(k) && !entry_in_use_by_id(*old(s), id@, versions_of(*old(s))[k])),
        r is Ok ==> (entry_index(versions_of(*old(s)), id@) matches Some(k) && versions_of(*final(s)) == versions_of(*old(s)).update(k, VersionEntryView { label: trim(label@), ..versions_of(*old(s))[k] })),
        *final(s) == (Settings { dsh_versions: final(s).dsh_versions, ..*old(s) }),
{
    if !validate_version_name(label) {
        return Err(owned("备注名不能为空"));
    }
    let k = match find_entry(s, id) {
        Some(k) => k,
        None => return Err(owned("版本不存在")),
    };
    let by_id = match &s.active_version_id {
        Some(a) => str_eq(a.as_str(), id),
        None => false,
    };
    if by_id || opt_eq(&s.dsh_bin, &s.dsh_versions[k].bin) {
        return Err(owned("当前使用中的版本不能重命名，请先切换到其他版本"));
    }
    let mut e = s.dsh_versions[k].copy();
    e.label = string_of(&trim_chars(&chars_of(label)));
    let ghost before = versions_of(*s);
    s.dsh_versions.set(k, e);
    assert(versions_of(*s) =~= before.update(k as int, VersionEntryView { label: trim(label@), ..before[k as int] }));
    Ok(())
}

/// The version is in use: `id` is the active id, or the entry's path is the
/// settings' dsh path (both absent counts as equal).
pub open spec fn entry_in_use_by_id(s: Settings, id: Seq<char>, e: VersionEntryView) -> bool {
    (match s.active_version_id {
        Some(a) => a@ == id,
        None => false,
    }) || ostr(s.dsh_bin) == e.bin
}

/// Removes managed version `id` from the settings. Global and hand-given
/// versions cannot be removed, nor the one in use (so the active entry never
/// changes here). Returns the version's folder when it lies under the versions
/// folder, for the caller to delete; a folder elsewhere is left alone.
pub fn remove_version(s: &mut Settings, id: &str, versions_dir: &str) -> (r: Result<Option<String>, String>)
    ensures
        entry_index(versions_of(*old(s)), id@) is None ==> (r matches Err(e) && e@ == "版本不存在"@),
        (entry_index(versions_of(*old(s)), id@) matches Some(k) && (versions_of(*old(s))[k].source == "global"@ || versions_of(*old(s))[k].source == "manual"@)) ==> (r matches Err(e) && e@ == "系统/手动路径版本不能删除，只能删除桌面端管理的版本"@),
        (entry_index(versions_of(*old(s)), id@) matches Some(k) && !(versions_of(*old(s))[k].source == "global"@ || versions_of(*old(s))[k].source == "manual"@) && entry_in_use_by_id(*old(s), id@, versions_of(*old(s))[k])) ==> (r matches Err(e) && e@ == "当前使用中的版本不能删除，请先切换到其他版本"@),
        r is Err ==> *final(s) == *old(s),
        r matches Ok(d) ==> (entry_index(versions_of(*old(s)), id@) matches Some(k)
            && !(versions_of(*old(s))[k].source == "global"@ || versions_of(*old(s))[k].source == "manual"@)
            && !entry_in_use_by_id(*old(s), id@, versions_of(*old(s))[k])
            && versions_of(*final(s)) == versions_of(*old(s)).remove(k)
            && ostr(d) == (if path_under(versions_of(*old(s))[k].dir, versions_dir@) { Some(versions_of(*old(s))[k].dir) } else { None })),
        (entry_index(versions_of(*old(s)), id@) matches Some(k) && !(versions_of(*old(s))[k].source == "global"@
            || versions_of(*old(s))[k].source == "manual"@) && !entry_in_use_by_id(*old(s), id@, versions_of(*old(s))[k]))
            ==> r is Ok,
        *final(s) == (Settings { dsh_versions: final(s).dsh_versions, ..*old(s) }),
{
    let k = match find_entry(s, id) {
        Some(k) => k,
        None => return Err(owned("版本不存在")),
    };
    let src = s.dsh_versions[k].source.as_str();
    if str_eq(src, "global") || str_eq(src, "manual") {
        return Err(owned("系统/手动路径版本不能删除，只能删除桌面端管理的版本"));
    }
    let by_id = match &s.active_version_id {
        Some(a) => str_eq(a.as_str(), id),
        None => false,
    };
    if by_id || opt_eq(&s.dsh_bin, &s.dsh_versions[k].bin) {
        return Err(owned("当前使用中的版本不能删除，请先切换到其他版本"));
    }
    let dir = s.dsh_versions[k].dir.clone();
    let ghost before = versions_of(*s);
    s.dsh_versions.remove(k);
    assert(versions_of(*s) =~= before.remove(k as int));
    if path_starts_with(dir.as_str(), versions_dir) {
        Ok(Some(dir))
    } else {
        Ok(None)
    }
}

/// Whether each version entry's `bin.js` is on disk (false without a path).
pub fn bins_on_disk(s: &Settings) -> (r: Vec<bool>)
    ensures
        r@.len() == s.dsh_versions@.len(),
        forall|i: int| 0 <= i < r@.len() && versions_of(*s)[i].bin is None ==> !r@[i],
{
    let mut r: Vec<bool> = Vec::new();
    let mut i: usize = 0;
    while i < s.dsh_versions.len()
        invariant
            i <= s.dsh_versions@.len(),
            r@.len() == i,
            forall|k: int| 0 <= k < i && versions_of(*s)[k].bin is None ==> !r@[k],
        decreases s.dsh_versions@.len() - i,
    {
        let b = match &s.dsh_versions[i].bin {
            Some(p) => path_exists(p.as_str()),
            None => false,
        };
        r.push(b);
        i = i + 1;
    }
    r
}

/// The first version entry whose `bin.js` is on disk, `on_disk[i]` telling it of entry `i`.
pub fn first_available(s: &Settings, on_disk: &Vec<bool>) -> (r: Option<DshVersionEntry>)
    requires
        on_disk@.len() == s.dsh_versions@.len(),
    ensures
        r is None <==> forall|i: int| 0 <= i < on_disk@.len() ==> !on_disk@[i],
        r matches Some(e) ==> exists|k: int| 0 <= k < on_disk@.len() && on_disk@[k] && e@ == versions_of(*s)[k] && forall|j: int| 0 <= j < k ==> !on_disk@[j],
{
    let mut i: usize = 0;
    while i < on_disk.len()
        invariant
            i <= on_disk@.len(),
            on_disk@.len() == s.dsh_versions@.len(),
            forall|j: int| 0 <= j < i ==> !on_disk@[j],
        decreases on_disk@.len() - i,
    {
        if on_disk[i] {
            let e = s.dsh_versions[i].copy();
            assert(e@ == versions_of(*s)[i as int]);
            return Some(e);
        }
        i = i + 1;
    }
    None
}

/// The entry chosen when `on_disk[i]` tells whether the `bin.js` of entry `i`
/// is on disk: the first entry on disk, `None` when there is none.
pub open spec fn first_on_disk(vs: Seq<VersionEntryView>, on_disk: Seq<bool>) -> Option<VersionEntryView> {
    if exists|k: int| 0 <= k < on_disk.len() && #[trigger] on_disk[k] {
        let k = choose|k: int| 0 <= k < on_disk.len() && #[trigger] on_disk[k] && forall|j: int| 0 <= j < k ==> !on_disk[j];
        Some(vs[k])
    } else {
        None
    }
}

/// Disk answers for the entries: one per entry, never `true` for an entry without `bin.js`.
pub open spec fn disk_answers_for(vs: Seq<VersionEntryView>, on_disk: Seq<bool>) -> bool {
    on_disk.len() == vs.len() && forall|i: int| 0 <= i < on_disk.len() && #[trigger] on_disk[i] ==> vs[i].bin is Some
}

/// The first version entry whose `bin.js` is on disk (a fallback at start-up).
/// Which paths are on disk is the disk's answer: the result is the first entry
/// on disk for the answers it gave.
pub fn find_available_version(s: &Settings) -> (r: Option<DshVersionEntry>)
    ensures
        exists|on_disk: Seq<bool>| #[trigger] disk_answers_for(versions_of(*s), on_disk) && match r {
            Some(e) => first_on_disk(versions_of(*s), on_disk) == Some(e@),
            None => first_on_disk(versions_of(*s), on_disk) is None,
        },
{
    let flags = bins_on_disk(s);
    let r = first_available(s, &flags);
    proof {
        let vs = versions_of(*s);
        let f = flags@;
        assert(disk_answers_for(vs, f));
        if r is Some {
            let e = r->0;
            {
                let k0 = choose|k: int| 0 <= k < f.len() && f[k] && e@ == vs[k] && forall|j: int| 0 <= j < k ==> !f[j];
                assert(f[k0]);
                let k = choose|k: int| 0 <= k < f.len() && #[trigger] f[k] && forall|j: int| 0 <= j < k ==> !f[j];
                if k < k0 {
                    assert(!f[k]);
                } else if k0 < k {
                    assert(!f[k0]);
                }
                assert(k == k0);
                assert(first_on_disk(vs, f) == Some(e@));
            }
        } else {
            assert(first_on_disk(vs, f) is None);
        }
    }
    r
}

// ───────────────────────────── profiles ─────────────────────────────

/// The folder of profile `name` (trimmed) under `profiles_dir`, as
/// `Path::join` gives it: `<profiles>\<name>`; but a name with a drive prefix
/// and no root (`C:x`, which the name checks let through) replaces the folder
/// instead of being joined to it.
pub open spec fn profile_path(profiles_dir: Seq<char>, name: Seq<char>) -> Seq<char> {
    if has_drive(name) {
        name
    } else {
        join_path(profiles_dir, name)
    }
}

fn drive_prefixed(v: &Vec<char>) -> (r: bool)
    ensures
        r == has_drive(v@),
{
    v.len() >= 2 && v[1] == ':' && (('a' <= v[0] && v[0] <= 'z') || ('A' <= v[0] && v[0] <= 'Z'))
}

/// The folder of a valid profile name (trimmed): `profile_path`.
pub fn profile_dir(name: &str, profiles_dir: &str) -> (r: Result<String, String>)
    ensures
        r is Ok <==> profile_name_error(name@) is None,
        r matches Err(e) ==> profile_name_error(name@) == Some(e@),
        r matches Ok(d) ==> d@ == profile_path(profiles_dir@, trim(name@)),
{
    match validate_profile_name(name) {
        Err(e) => Err(e),
        Ok(()) => {
            let t = trim_chars(&chars_of(name));
            if drive_prefixed(&t) {
                Ok(string_of(&t))
            } else {
                Ok(join(profiles_dir, string_of(&t).as_str()))
            }
        },
    }
}

/// Activating profile `name`, given whether its folder (`profile_path`) is on
/// disk: the trimmed name to make the profile to start, or the error.
pub open spec fn activate_profile_decision(name: Seq<char>, on_disk: bool) -> Result<Seq<char>, Seq<char>> {
    match profile_name_error(name) {
        Some(m) => Err(m),
        None => if on_disk {
            Ok(trim(name))
        } else {
            Err("profile 不存在或未初始化"@)
        },
    }
}

/// Activates profile `name` from the disk's answer for its folder
/// (`activate_profile_decision`): on success only the profile changes.
pub fn decide_activate_profile(s: &mut Settings, name: &str, on_disk: bool) -> (r: Result<(), String>)
    ensures
        match activate_profile_decision(name@, on_disk) {
            Ok(t) => r is Ok && final(s).profile@ == t,
            Err(m) => (r matches Err(e) && e@ == m) && *final(s) == *old(s),
        },
        *final(s) == (Settings { profile: final(s).profile, ..*old(s) }),
{
    if let Err(e) = validate_profile_name(name) {
        return Err(e);
    }
    if !on_disk {
        return Err(owned("profile 不存在或未初始化"));
    }
    s.profile = string_of(&trim_chars(&chars_of(name)));
    Ok(())
}

/// Makes `name` (trimmed) the profile to start, when it is valid and its folder
/// is on disk: the folder is looked up and `decide_activate_profile` decides.
/// What the disk answers is not stated; the name check does not depend on it.
pub fn activate_profile(s: &mut Settings, name: &str, profiles_dir: &str) -> (r: Result<(), String>)
    ensures
        exists|on_disk: bool| #[trigger] activate_profile_decision(name@, on_disk) == (match r {
            Ok(()) => Ok(final(s).profile@),
            Err(e) => Err(e@),
        }),
        profile_name_error(name@) matches Some(m) ==> (r matches Err(e) && e@ == m),
        r is Err ==> *final(s) == *old(s),
        *final(s) == (Settings { profile: final(s).profile, ..*old(s) }),
{
    proof {
        crate::text::lemma_trim_idem(name@);
    }
    let t = string_of(&trim_chars(&chars_of(name)));
    let dir = match profile_dir(t.as_str(), profiles_dir) {
        Ok(d) => d,
        Err(e) => {
            assert(activate_profile_decision(name@, false) == Err::<Seq<char>, Seq<char>>(e@));
            return Err(e);
        },
    };
    let on_disk = path_exists(dir.as_str());
    let r = decide_activate_profile(s, name, on_disk);
    assert(activate_profile_decision(name@, on_disk) == (match r {
        Ok(()) => Ok(s.profile@),
        Err(e) => Err(e@),
    }));
    r
}

/// A plan's result as values.
pub open spec fn new_profile_plan_of(r: Result<(String, String, bool), String>) -> Result<(Seq<char>, Seq<char>, bool), Seq<char>> {
    match r {
        Ok(x) => Ok((x.0@, x.1@, x.2)),
        Err(e) => Err(e@),
    }
}

/// The checks before creating profile `name`, given whether its folder is on
/// disk: a valid name whose folder is not there yet. The plan is the trimmed
/// name, its folder, and whether it is the active profile.
pub open spec fn add_profile_decision(active: Seq<char>, name: Seq<char>, profiles_dir: Seq<char>, on_disk: bool) -> Result<(Seq<char>, Seq<char>, bool), Seq<char>> {
    match profile_name_error(name) {
        Some(m) => Err(m),
        None => if on_disk {
            Err("profile 已存在: "@ + trim(name))
        } else {
            Ok((trim(name), profile_path(profiles_dir, trim(name)), active == trim(name)))
        },
    }
}

/// Decides the creation of a profile from the disk's answer (`add_profile_decision`).
pub fn decide_add_profile(s: &Settings, name: &str, profiles_dir: &str, on_disk: bool) -> (r: Result<(String, String, bool), String>)
    ensures
        new_profile_plan_of(r) == add_profile_decision(s.profile@, name@, profiles_dir@, on_disk),
{
    proof {
        crate::text::lemma_trim_idem(name@);
    }
    let t = string_of(&trim_chars(&chars_of(name)));
    let dir = match profile_dir(t.as_str(), profiles_dir) {
        Ok(d) => d,
        Err(e) => return Err(e),
    };
    if on_disk {
        let mut m = chars_of("profile 已存在: ");
        push_all(&mut m, &chars_of(t.as_str()));
        return Err(string_of(&m));
    }
    let active = str_eq(s.profile.as_str(), t.as_str());
    Ok((t, dir, active))
}

/// The checks before creating profile `name`: its folder is looked up on disk
/// and `decide_add_profile` decides. What the disk answers is not stated; the
/// name check does not depend on it. The caller writes the template and reads
/// the manifest back.
pub fn add_empty_profile(s: &Settings, name: &str, profiles_dir: &str) -> (r: Result<(String, String, bool), String>)
    ensures
        exists|on_disk: bool| new_profile_plan_of(r) == #[trigger] add_profile_decision(s.profile@, name@, profiles_dir@, on_disk),
        profile_name_error(name@) matches Some(m) ==> (r matches Err(e) && e@ == m),
{
    proof {
        crate::text::lemma_trim_idem(name@);
    }
    let t = string_of(&trim_chars(&chars_of(name)));
    let dir = match profile_dir(t.as_str(), profiles_dir) {
        Ok(d) => d,
        Err(e) => {
            assert(new_profile_plan_of(Err(e)) == add_profile_decision(s.profile@, name@, profiles_dir@, false));
            return Err(e);
        },
    };
    let on_disk = path_exists(dir.as_str());
    decide_add_profile(s, name, profiles_dir, on_disk)
}

/// A plan's result as values.
pub open spec fn copy_plan_of(r: Result<(String, String, String, bool), String>) -> Result<(Seq<char>, Seq<char>, Seq<char>, bool), Seq<char>> {
    match r {
        Ok(x) => Ok((x.0@, x.1@, x.2@, x.3)),
        Err(e) => Err(e@),
    }
}

/// The checks before copying profile `source` to `name` (trimmed), given
/// whether the source folder and the target folder exist: both names valid, the
/// source on disk, the target not yet, and the two folders not the same. The
/// plan is the two folders, the new name and whether it is the active profile.
pub open spec fn copy_profile_decision(
    active: Seq<char>,
    source: Seq<char>,
    name: Seq<char>,
    profiles_dir: Seq<char>,
    src_exists: bool,
    dst_exists: bool,
) -> Result<(Seq<char>, Seq<char>, Seq<char>, bool), Seq<char>> {
    let src = profile_path(profiles_dir, trim(source));
    let dst = profile_path(profiles_dir, trim(name));
    match profile_name_error(source) {
        Some(m) => Err(m),
        None => match profile_name_error(name) {
            Some(m) => Err(m),
            None => if !src_exists {
                Err("源 profile 不存在: "@ + source)
            } else if dst_exists {
                Err("profile 已存在: "@ + trim(name))
            } else if norm_path(src) == norm_path(dst) {
                Err("源与目标同名"@)
            } else {
                Ok((src, dst, trim(name), active == trim(name)))
            },
        },
    }
}

/// Decides a copy of a profile from the answers of the disk (`copy_profile_decision`).
pub fn decide_copy_profile(
    s: &Settings,
    source: &str,
    name: &str,
    profiles_dir: &str,
    src_exists: bool,
    dst_exists: bool,
) -> (r: Result<(String, String, String, bool), String>)
    ensures
        copy_plan_of(r) == copy_profile_decision(s.profile@, source@, name@, profiles_dir@, src_exists, dst_exists),
{
    proof {
        crate::text::lemma_trim_idem(name@);
    }
    let t = string_of(&trim_chars(&chars_of(name)));
    let src = match profile_dir(source, profiles_dir) {
        Ok(d) => d,
        Err(e) => return Err(e),
    };
    let dst = match profile_dir(t.as_str(), profiles_dir) {
        Ok(d) => d,
        Err(e) => return Err(e),
    };
    if !src_exists {
        let mut m = chars_of("源 profile 不存在: ");
        push_all(&mut m, &chars_of(source));
        return Err(string_of(&m));
    }
    if dst_exists {
        let mut m = chars_of("profile 已存在: ");
        push_all(&mut m, &chars_of(t.as_str()));
        return Err(string_of(&m));
    }
    if chars_eq(&norm_exec(&chars_of(src.as_str())), &norm_exec(&chars_of(dst.as_str()))) {
        return Err(owned("源与目标同名"));
    }
    let active = str_eq(s.profile.as_str(), t.as_str());
    Ok((src, dst, t, active))
}

/// The checks before copying profile `source` to `name`: the two folders are
/// looked up on disk and `decide_copy_profile` decides. What the disk answers
/// is not stated; the name checks do not depend on it.
pub fn plan_copy_profile(s: &Settings, source: &str, name: &str, profiles_dir: &str) -> (r: Result<(String, String, String, bool), String>)
    ensures
        exists|src_exists: bool, dst_exists: bool| copy_plan_of(r) == #[trigger] copy_profile_decision(
            s.profile@,
            source@,
            name@,
            profiles_dir@,
            src_exists,
            dst_exists,
        ),
        profile_name_error(source@) matches Some(m) ==> (r matches Err(e) && e@ == m),
        profile_name_error(source@) is None ==> (profile_name_error(name@) matches Some(m) ==> (r matches Err(e) && e@ == m)),
{
    proof {
        crate::text::lemma_trim_idem(name@);
    }
    let t = string_of(&trim_chars(&chars_of(name)));
    let src = match profile_dir(source, profiles_dir) {
        Ok(d) => d,
        Err(e) => {
            assert(copy_plan_of(Err(e)) == copy_profile_decision(s.profile@, source@, name@, profiles_dir@, false, false));
            return Err(e);
        },
    };
    let dst = match profile_dir(t.as_str(), profiles_dir) {
        Ok(d) => d,
        Err(e) => {
            assert(copy_plan_of(Err(e)) == copy_profile_decision(s.profile@, source@, name@, profiles_dir@, false, false));
            return Err(e);
        },
    };
    let src_exists = path_exists(src.as_str());
    let dst_exists = if src_exists { path_exists(dst.as_str()) } else { false };
    decide_copy_profile(s, source, name, profiles_dir, src_exists, dst_exists)
}

/// A plan's result as values.
pub open spec fn pair_plan_of(r: Result<(String, String), String>) -> Result<(Seq<char>, Seq<char>), Seq<char>> {
    match r {
        Ok(x) => Ok((x.0@, x.1@)),
        Err(e) => Err(e@),
    }
}

/// The checks before renaming profile `old` to `name` (trimmed), given whether
/// the two folders exist: both names valid, `old` on disk, `name` not yet, and
/// `old` not the active profile. The plan is the two folders.
pub open spec fn rename_profile_decision(
    active: Seq<char>,
    old: Seq<char>,
    name: Seq<char>,
    profiles_dir: Seq<char>,
    src_exists: bool,
    dst_exists: bool,
) -> Result<(Seq<char>, Seq<char>), Seq<char>> {
    match profile_name_error(old) {
        Some(m) => Err(m),
        None => match profile_name_error(name) {
            Some(m) => Err(m),
            None => if !src_exists {
                Err("profile 不存在: "@ + old)
            } else if dst_exists {
                Err("profile 已存在: "@ + trim(name))
            } else if active == old {
                Err("当前正在使用的 profile 不能重命名；请先切换到别的 profile"@)
            } else {
                Ok((profile_path(profiles_dir, trim(old)), profile_path(profiles_dir, trim(name))))
            },
        },
    }
}

/// Decides a rename of a profile from the answers of the disk (`rename_profile_decision`).
pub fn decide_rename_profile(
    s: &Settings,
    old: &str,
    name: &str,
    profiles_dir: &str,
    src_exists: bool,
    dst_exists: bool,
) -> (r: Result<(String, String), String>)
    ensures
        pair_plan_of(r) == rename_profile_decision(s.profile@, old@, name@, profiles_dir@, src_exists, dst_exists),
{
    proof {
        crate::text::lemma_trim_idem(name@);
    }
    let t = string_of(&trim_chars(&chars_of(name)));
    let src = match profile_dir(old, profiles_dir) {
        Ok(d) => d,
        Err(e) => return Err(e),
    };
    let dst = match profile_dir(t.as_str(), profiles_dir) {
        Ok(d) => d,
        Err(e) => return Err(e),
    };
    if !src_exists {
        let mut m = chars_of("profile 不存在: ");
        push_all(&mut m, &chars_of(old));
        return Err(string_of(&m));
    }
    if dst_exists {
        let mut m = chars_of("profile 已存在: ");
        push_all(&mut m, &chars_of(t.as_str()));
        return Err(string_of(&m));
    }
    if str_eq(s.profile.as_str(), old) {
        return Err(owned("当前正在使用的 profile 不能重命名；请先切换到别的 profile"));
    }
    Ok((src, dst))
}

/// The checks before renaming profile `old` to `name`: the two folders are
/// looked up on disk and `decide_rename_profile` decides. What the disk answers
/// is not stated; the name checks do not depend on it.
pub fn plan_rename_profile(s: &Settings, old: &str, name: &str, profiles_dir: &str) -> (r: Result<(String, String), String>)
    ensures
        exists|src_exists: bool, dst_exists: bool| pair_plan_of(r) == #[trigger] rename_profile_decision(
            s.profile@,
            old@,
            name@,
            profiles_dir@,
            src_exists,
            dst_exists,
        ),
        profile_name_error(old@) matches Some(m) ==> (r matches Err(e) && e@ == m),
        profile_name_error(old@) is None ==> (profile_name_error(name@) matches Some(m) ==> (r matches Err(e) && e@ == m)),
{
    proof {
        crate::text::lemma_trim_idem(name@);
    }
    let t = string_of(&trim_chars(&chars_of(name)));
    let src = match profile_dir(old, profiles_dir) {
        Ok(d) => d,
        Err(e) => {
            assert(pair_plan_of(Err(e)) == rename_profile_decision(s.profile@, old@, name@, profiles_dir@, false, false));
            return Err(e);
        },
    };
    let dst = match profile_dir(t.as_str(), profiles_dir) {
        Ok(d) => d,
        Err(e) => {
            assert(pair_plan_of(Err(e)) == rename_profile_decision(s.profile@, old@, name@, profiles_dir@, false, false));
            return Err(e);
        },
    };
    let src_exists = path_exists(src.as_str());
    let dst_exists = if src_exists { path_exists(dst.as_str()) } else { false };
    decide_rename_profile(s, old, name, profiles_dir, src_exists, dst_exists)
}

/// A plan's result as values.
pub open spec fn dir_plan_of(r: Result<String, String>) -> Result<Seq<char>, Seq<char>> {
    match r {
        Ok(d) => Ok(d@),
        Err(e) => Err(e@),
    }
}

/// The checks before deleting profile `name`, given whether its folder exists:
/// valid, not the active profile, on disk, and under the profiles folder. The
/// plan is its folder, for the caller to delete.
pub open spec fn remove_profile_decision(
    active: Seq<char>,
    name: Seq<char>,
    profiles_dir: Seq<char>,
    on_disk: bool,
) -> Result<Seq<char>, Seq<char>> {
    let dir = profile_path(profiles_dir, trim(name));
    match profile_name_error(name) {
        Some(m) => Err(m),
        None => if active == name {
            Err("当前正在使用的 profile 不能删除；请先切换到别的 profile"@)
        } else if !on_disk {
            Err("profile 不存在: "@ + name)
        } else if !path_under(dir, profiles_dir) {
            Err("拒绝删除非 profiles 目录"@)
        } else {
            Ok(dir)
        },
    }
}

/// Decides the removal of a profile from the answer of the disk (`remove_profile_decision`).
pub fn decide_remove_profile(s: &Settings, name: &str, profiles_dir: &str, on_disk: bool) -> (r: Result<String, String>)
    ensures
        dir_plan_of(r) == remove_profile_decision(s.profile@, name@, profiles_dir@, on_disk),
{
    let dir = match profile_dir(name, profiles_dir) {
        Ok(d) => d,
        Err(e) => return Err(e),
    };
    if str_eq(s.profile.as_str(), name) {
        return Err(owned("当前正在使用的 profile 不能删除；请先切换到别的 profile"));
    }
    if !on_disk {
        let mut m = chars_of("profile 不存在: ");
        push_all(&mut m, &chars_of(name));
        return Err(string_of(&m));
    }
    if !path_starts_with(dir.as_str(), profiles_dir) {
        return Err(owned("拒绝删除非 profiles 目录"));
    }
    Ok(dir)
}

/// The checks before deleting profile `name`: its folder is looked up on disk
/// and `decide_remove_profile` decides. What the disk answers is not stated;
/// the checks of the name and of the active profile do not depend on it.
pub fn plan_remove_profile(s: &Settings, name: &str, profiles_dir: &str) -> (r: Result<String, String>)
    ensures
        exists|on_disk: bool| dir_plan_of(r) == #[trigger] remove_profile_decision(s.profile@, name@, profiles_dir@, on_disk),
        profile_name_error(name@) matches Some(m) ==> (r matches Err(e) && e@ == m),
        profile_name_error(name@) is None && s.profile@ == name@ ==> (r matches Err(e) && e@
            == "当前正在使用的 profile 不能删除；请先切换到别的 profile"@),
{
    let dir = match profile_dir(name, profiles_dir) {
        Ok(d) => d,
        Err(e) => {
            assert(dir_plan_of(Err(e)) == remove_profile_decision(s.profile@, name@, profiles_dir@, false));
            return Err(e);
        },
    };
    let on_disk = path_exists(dir.as_str());
    decide_remove_profile(s, name, profiles_dir, on_disk)
}


// ───────────────────────────── registering what is on disk ─────────────────────────────

/// The parent `n` levels up, when there is one.
pub open spec fn ancestor(p: Seq<char>, n: nat) -> Option<Seq<char>>
    decreases n,
{
    if n == 0 {
        Some(p)
    } else {
        match parent_path(p) {
            None => None,
            Some(q) => ancestor(q, (n - 1) as nat),
        }
    }
}

/// The install prefix of an entry script `<prefix>\node_modules\@deepseek-ai\dsh\lib\bin.js`
/// as the program takes it: three levels up, empty when there are fewer.
pub open spec fn bin_prefix(bin: Seq<char>) -> Seq<char> {
    match ancestor(bin, 3) {
        Some(p) => p,
        None => Seq::empty(),
    }
}

/// The install prefix of an entry script.
pub fn prefix_of_bin(bin: &str) -> (r: String)
    ensures
        r@ == bin_prefix(bin@),
{
    proof {
        reveal_with_fuel(ancestor, 4);
    }
    let a = match parent_of(bin) {
        Some(x) => x,
        None => return string_of(&Vec::new()),
    };
    let b = match parent_of(a.as_str()) {
        Some(x) => x,
        None => return string_of(&Vec::new()),
    };
    match parent_of(b.as_str()) {
        Some(x) => x,
        None => string_of(&Vec::new()),
    }
}

/// The `package.json` that gives the version of an entry script: in the
/// folder two levels up (the package folder).
pub open spec fn bin_package_json(bin: Seq<char>) -> Option<Seq<char>> {
    match ancestor(bin, 2) {
        Some(p) => Some(join_path(p, "package.json"@)),
        None => None,
    }
}

/// The `package.json` to read for the version of an entry script.
pub fn package_json_of_bin(bin: &str) -> (r: Option<String>)
    ensures
        ostr(r) == bin_package_json(bin@),
{
    proof {
        reveal_with_fuel(ancestor, 3);
    }
    let a = match parent_of(bin) {
        Some(x) => x,
        None => return None,
    };
    match parent_of(a.as_str()) {
        Some(b) => Some(join(b.as_str(), "package.json")),
        None => None,
    }
}

/// The version a package manifest gives: its `version` member, when a string.
pub open spec fn manifest_version(text: Option<Seq<char>>) -> Option<Seq<char>> {
    match text {
        None => None,
        Some(t) => match json_member(t, "version"@) {
            Some((_, v)) => v,
            None => None,
        },
    }
}

/// The version installed, from the text of the package's `package.json`
/// (`None` when it could not be read).
pub fn read_actual_version(package_json: &Option<String>) -> (r: Option<String>)
    ensures
        ostr(r) == manifest_version(ostr(*package_json)),
{
    match package_json {
        None => None,
        Some(t) => match json_member_of(t.as_str(), "version") {
            Some((_, v)) => v,
            None => None,
        },
    }
}

/// The registry entry of a path found on disk.
pub open spec fn seed_entry(id: Seq<char>, label: Seq<char>, spec: Seq<char>, installed: Option<Seq<char>>, bin: Seq<char>, source: Seq<char>) -> VersionEntryView {
    VersionEntryView { id, label, spec, installed, dir: bin_prefix(bin), bin: Some(bin), source }
}

/// The index of the first entry whose script is `bin`.
pub open spec fn bin_index(vs: Seq<VersionEntryView>, bin: Seq<char>) -> Option<int> {
    if exists|i: int| 0 <= i < vs.len() && vs[i].bin == Some(bin) {
        Some(choose|i: int| #![trigger vs[i]] 0 <= i < vs.len() && vs[i].bin == Some(bin) && forall|j: int| 0 <= j < i ==> vs[j].bin != Some(bin))
    } else {
        None
    }
}

/// The settings after registering what is on disk (first start, or a path
/// changed by hand): `current` is the dsh path set (when not empty),
/// `global` the global install found, `installed` the version read for the
/// path concerned, `id` a fresh id.
pub open spec fn seeded(s: Settings, versions_dir: Seq<char>, global: Option<Seq<char>>, installed: Option<Seq<char>>, id: Seq<char>) -> (
    Seq<VersionEntryView>,
    Option<Seq<char>>,
    Option<Seq<char>>,
) {
    let vs = versions_of(s);
    match current_bin(s) {
        Some(bin) => {
            let source = bin_source(bin, versions_dir);
            match bin_index(vs, bin) {
                Some(k) => {
                    let inst = match installed {
                        Some(v) => Some(v),
                        None => vs[k].installed,
                    };
                    let e = if source == "global"@ {
                        VersionEntryView { source, installed: inst, spec: "global"@, label: found_label(true, inst), ..vs[k] }
                    } else {
                        VersionEntryView { source, installed: inst, ..vs[k] }
                    };
                    (vs.update(k, e), ostr(s.dsh_bin), match s.active_version_id {
                        Some(a) => Some(a@),
                        None => Some(vs[k].id),
                    })
                },
                None => (
                    vs.push(seed_entry(id, found_label(source == "global"@, installed), source, installed, bin, source)),
                    ostr(s.dsh_bin),
                    Some(id),
                ),
            }
        },
        None => match global {
            None => (vs, ostr(s.dsh_bin), ostr(s.active_version_id)),
            Some(bin) => if bin_index(vs, bin) is Some {
                (vs, ostr(s.dsh_bin), ostr(s.active_version_id))
            } else {
                (
                    vs.push(seed_entry(id, found_label(true, installed), "global"@, installed, bin, "global"@)),
                    Some(bin),
                    Some(id),
                )
            },
        },
    }
}

fn find_bin(s: &Settings, bin: &str) -> (r: Option<usize>)
    ensures
        match r {
            None => bin_index(versions_of(*s), bin@) is None,
            Some(k) => bin_index(versions_of(*s), bin@) == Some(k as int) && k < s.dsh_versions@.len(),
        },
{
    let ghost vs = versions_of(*s);
    let mut i: usize = 0;
    while i < s.dsh_versions.len()
        invariant
            vs == versions_of(*s),
            i <= s.dsh_versions@.len(),
            forall|j: int| 0 <= j < i ==> vs[j].bin != Some(bin@),
        decreases s.dsh_versions@.len() - i,
    {
        let hit = match &s.dsh_versions[i].bin {
            Some(b) => str_eq(b.as_str(), bin),
            None => false,
        };
        assert(vs[i as int] == s.dsh_versions@[i as int]@);
        if hit {
            proof {
                let c = bin_index(vs, bin@).unwrap();
                assert(vs[i as int].bin == Some(bin@));
                assert(c == i) by {
                    if c < i {
                    } else if c > i {
                        assert(vs[i as int].bin == Some(bin@));
                    }
                }
            }
            return Some(i);
        }
        i = i + 1;
    }
    None
}

/// Registers what is on disk: refreshes the entry of the dsh path set (its
/// class, its version, and for the global install its spec and label; it
/// becomes active if none is), or records that path as a new entry, or,
/// without a path set, records the global install found and switches to it.
pub fn ensure_seed_versions(
    s: &mut Settings,
    versions_dir: &str,
    global: Option<String>,
    installed: Option<String>,
    id: String,
)
    ensures
        (versions_of(*final(s)), ostr(final(s).dsh_bin), ostr(final(s).active_version_id)) == seeded(
            *old(s),
            versions_dir@,
            ostr(global),
            ostr(installed),
            id@,
        ),
        *final(s) == (Settings {
            dsh_versions: final(s).dsh_versions,
            dsh_bin: final(s).dsh_bin,
            active_version_id: final(s).active_version_id,
            ..*old(s)
        }),
{
    let ghost vs = versions_of(*s);
    match current_bin_of(s) {
        Some(bin) => {
            let source = classify_bin(bin.as_str(), versions_dir);
            let is_global = str_eq(source.as_str(), "global");
            match find_bin(s, bin.as_str()) {
                Some(k) => {
                    let inst = match &installed {
                        Some(v) => Some(v.clone()),
                        None => copy_ostr(&s.dsh_versions[k].installed),
                    };
                    let mut e = s.dsh_versions[k].copy();
                    e.source = source;
                    e.installed = copy_ostr(&inst);
                    if is_global {
                        e.spec = owned("global");
                        e.label = make_found_label(true, &inst);
                    }
                    let eid = e.id.clone();
                    s.dsh_versions.set(k, e);
                    assert(versions_of(*s) =~= vs.update(k as int, versions_of(*s)[k as int]));
                    if s.active_version_id.is_none() {
                        s.active_version_id = Some(eid);
                    }
                },
                None => {
                    let label = make_found_label(is_global, &installed);
                    let e = DshVersionEntry {
                        id: id.clone(),
                        label,
                        spec: source.clone(),
                        installed: copy_ostr(&installed),
                        dir: prefix_of_bin(bin.as_str()),
                        bin: Some(bin),
                        source,
                    };
                    s.dsh_versions.push(e);
                    assert(versions_of(*s) =~= vs.push(versions_of(*s).last()));
                    s.active_version_id = Some(id);
                },
            }
        },
        None => {
            if let Some(bin) = global {
                if find_bin(s, bin.as_str()).is_some() {
                    return;
                }
                let e = DshVersionEntry {
                    id: id.clone(),
                    label: make_found_label(true, &installed),
                    spec: owned("global"),
                    installed: copy_ostr(&installed),
                    dir: prefix_of_bin(bin.as_str()),
                    bin: Some(bin.clone()),
                    source: owned("global"),
                };
                s.dsh_versions.push(e);
                assert(versions_of(*s) =~= vs.push(versions_of(*s).last()));
                s.dsh_bin = Some(bin);
                s.active_version_id = Some(id);
            }
        },
    }
}

// ───────────────────────────── adding and updating versions ─────────────────────────────

/// The message when no version is given.
pub open spec fn msg_spec_missing() -> Seq<char> {
    "请填写 dsh 版本（如 latest 或 0.1.2-alpha.2）"@
}

/// The version to add: the trimmed spec, unless it is empty.
pub fn plan_add_version(spec: &str) -> (r: Result<String, String>)
    ensures
        trim(spec@).len() == 0 <==> r is Err,
        r matches Err(e) ==> e@ == msg_spec_missing(),
        r matches Ok(t) ==> t@ == trim(spec@),
{
    let t = trim_chars(&chars_of(spec));
    if t.len() == 0 {
        Err(owned("请填写 dsh 版本（如 latest 或 0.1.2-alpha.2）"))
    } else {
        Ok(string_of(&t))
    }
}

/// A trimmed optional text, when not empty.
pub open spec fn given(o: Option<Seq<char>>) -> Option<Seq<char>> {
    match o {
        Some(x) => if trim(x).len() > 0 { Some(trim(x)) } else { None },
        None => None,
    }
}

fn given_exec(o: &Option<String>) -> (r: Option<String>)
    ensures
        ostr(r) == given(ostr(*o)),
{
    match o {
        None => None,
        Some(x) => {
            let t = trim_chars(&chars_of(x.as_str()));
            if t.len() > 0 {
                Some(string_of(&t))
            } else {
                None
            }
        },
    }
}

/// The folder of a new managed version: `<versions>\<id>`.
pub fn managed_prefix(versions_dir: &str, id: &str) -> (r: String)
    ensures
        r@ == join_path(versions_dir@, id@),
{
    join(versions_dir, id)
}

/// The entry of a version just installed into `prefix`: labelled as given
/// (trimmed) or `dsh <installed version>`, managed by this program.
pub fn new_version_entry(id: &str, label: &Option<String>, spec: &str, actual: &str, prefix: &str) -> (r: DshVersionEntry)
    ensures
        r@ == (VersionEntryView {
            id: id@,
            label: match given(ostr(*label)) {
                Some(l) => l,
                None => "dsh "@ + actual@,
            },
            spec: spec@,
            installed: Some(actual@),
            dir: prefix@,
            bin: Some(dsh_bin_path(prefix@)),
            source: "managed"@,
        }),
{
    let lab = match given_exec(label) {
        Some(l) => l,
        None => {
            let mut v = chars_of("dsh ");
            push_all(&mut v, &chars_of(actual));
            string_of(&v)
        },
    };
    DshVersionEntry {
        id: owned(id),
        label: lab,
        spec: owned(spec),
        installed: Some(owned(actual)),
        dir: owned(prefix),
        bin: Some(dsh_bin_for(prefix)),
        source: owned("managed"),
    }
}

/// Records a new version (not switched to).
pub fn add_version_entry(s: &mut Settings, e: DshVersionEntry)
    ensures
        versions_of(*final(s)) == versions_of(*old(s)).push(e@),
        final(s).dsh_bin == old(s).dsh_bin,
        final(s).active_version_id == old(s).active_version_id,
        final(s).profile == old(s).profile,
{
    let ghost vs = versions_of(*s);
    s.dsh_versions.push(e);
    assert(versions_of(*s) =~= vs.push(e@));
}

/// What updating a version needs: its position, the spec and label to use,
/// and its folder.
pub struct UpdatePlan {
    pub pos: usize,
    pub spec: String,
    pub label: String,
    pub prefix: String,
}

/// Checks an update of version `id` and settles its new spec and label (each
/// kept when not given): global and hand-given versions are not updated here.
pub fn plan_update_version(s: &Settings, id: &str, spec: &Option<String>, label: &Option<String>) -> (r: Result<UpdatePlan, String>)
    ensures
        entry_index(versions_of(*s), id@) is None ==> (r matches Err(e) && e@ == "版本不存在"@),
        (entry_index(versions_of(*s), id@) matches Some(k) && (versions_of(*s)[k].source == "global"@ || versions_of(*s)[k].source
            == "manual"@)) ==> (r matches Err(e) && e@ == "系统/手动路径版本不能由桌面端更新，请使用 npm 或直接切换"@),
        r matches Ok(p) ==> entry_index(versions_of(*s), id@) == Some(p.pos as int)
            && !(versions_of(*s)[p.pos as int].source == "global"@ || versions_of(*s)[p.pos as int].source == "manual"@)
            && p.spec@ == (match given(ostr(*spec)) { Some(x) => x, None => versions_of(*s)[p.pos as int].spec })
            && p.label@ == (match given(ostr(*label)) { Some(x) => x, None => versions_of(*s)[p.pos as int].label })
            && p.prefix@ == versions_of(*s)[p.pos as int].dir,
        (entry_index(versions_of(*s), id@) matches Some(k) && !(versions_of(*s)[k].source == "global"@
            || versions_of(*s)[k].source == "manual"@)) ==> r is Ok,
{
    let k = match find_entry(s, id) {
        Some(k) => k,
        None => return Err(owned("版本不存在")),
    };
    let e = &s.dsh_versions[k];
    assert(e@ == versions_of(*s)[k as int]);
    let src = e.source.as_str();
    if str_eq(src, "global") || str_eq(src, "manual") {
        return Err(owned("系统/手动路径版本不能由桌面端更新，请使用 npm 或直接切换"));
    }
    let new_spec = match given_exec(spec) {
        Some(x) => x,
        None => e.spec.clone(),
    };
    let new_label = match given_exec(label) {
        Some(x) => x,
        None => e.label.clone(),
    };
    Ok(UpdatePlan { pos: k, spec: new_spec, label: new_label, prefix: e.dir.clone() })
}

/// Records an update installed as version `actual`: the entry at the planned
/// position takes the new spec, label, version and entry script (an error if
/// the list no longer has that position). Returns the updated entry.
pub fn apply_update_version(s: &mut Settings, plan: &UpdatePlan, actual: &str) -> (r: Result<DshVersionEntry, String>)
    ensures
        plan.pos >= old(s).dsh_versions@.len() <==> r is Err,
        r matches Err(e) ==> e@ == "版本不存在"@ && *final(s) == *old(s),
        r matches Ok(e) ==> e@ == (VersionEntryView {
            spec: plan.spec@,
            installed: Some(actual@),
            label: plan.label@,
            bin: Some(dsh_bin_path(plan.prefix@)),
            ..versions_of(*old(s))[plan.pos as int]
        }) && versions_of(*final(s)) == versions_of(*old(s)).update(plan.pos as int, e@),
        *final(s) == (Settings { dsh_versions: final(s).dsh_versions, ..*old(s) }),
{
    if plan.pos >= s.dsh_versions.len() {
        return Err(owned("版本不存在"));
    }
    let ghost vs = versions_of(*s);
    let mut e = s.dsh_versions[plan.pos].copy();
    e.spec = plan.spec.clone();
    e.installed = Some(owned(actual));
    e.label = plan.label.clone();
    e.bin = Some(dsh_bin_for(plan.prefix.as_str()));
    let out = e.copy();
    s.dsh_versions.set(plan.pos, e);
    assert(versions_of(*s) =~= vs.update(plan.pos as int, out@));
    Ok(out)
}

// ───────────────────────────── profile manifests ─────────────────────────────

/// The string entries of a manifest's bundle list, in order.
pub open spec fn present_strings(v: Seq<Option<Seq<char>>>) -> Seq<Seq<char>>
    decreases v.len(),
{
    if v.len() == 0 {
        Seq::empty()
    } else {
        present_strings(v.drop_last()) + match v.last() {
            Some(x) => seq![x],
            None => Seq::empty(),
        }
    }
}

/// What a profile's `package.json` gives: the bundles listed (string
/// entries of `/dsh/profile/bundles`) and the number of dependencies; none and
/// zero when it cannot be read or parsed.
pub open spec fn manifest_listing(text: Option<Seq<char>>) -> (Seq<Seq<char>>, nat) {
    match text {
        None => (Seq::empty(), 0),
        Some(t) => match json_profile_manifest(t) {
            None => (Seq::empty(), 0),
            Some((b, n)) => (
                match b {
                    Some(v) => present_strings(v),
                    None => Seq::empty(),
                },
                match n {
                    Some(k) => k,
                    None => 0,
                },
            ),
        },
    }
}

/// Reads a profile manifest's bundles and plugin count.
pub fn read_profile_manifest(text: &Option<String>) -> (r: (Vec<String>, usize))
    ensures
        (r.0@.map_values(|b: String| b@), r.1 as nat) == manifest_listing(ostr(*text)),
{
    let empty: Vec<String> = Vec::new();
    assert(empty@.map_values(|b: String| b@) =~= Seq::<Seq<char>>::empty());
    let t = match text {
        None => return (empty, 0),
        Some(t) => t,
    };
    match profile_manifest_of(t.as_str()) {
        None => (empty, 0),
        Some((b, n)) => {
            let mut out: Vec<String> = Vec::new();
            let ghost bv = match &b {
                Some(v) => v@.map_values(|x: Option<String>| ostr(x)),
                None => Seq::empty(),
            };
            match &b {
                Some(v) => {
                    let mut i: usize = 0;
                    while i < v.len()
                        invariant
                            i <= v@.len(),
                            bv == v@.map_values(|x: Option<String>| ostr(x)),
                            out@.map_values(|b: String| b@) == present_strings(bv.take(i as int)),
                        decreases v@.len() - i,
                    {
                        assert(bv.take(i + 1).drop_last() =~= bv.take(i as int));
                        assert(bv.take(i + 1).last() == ostr(v@[i as int]));
                        match &v[i] {
                            Some(x) => {
                                let ghost before = out@.map_values(|b: String| b@);
                                out.push(x.clone());
                                assert(out@.map_values(|b: String| b@) =~= before + seq![x@]);
                            },
                            None => {
                                assert(present_strings(bv.take(i + 1)) =~= present_strings(bv.take(i as int)));
                            },
                        }
                        i = i + 1;
                    }
                    assert(bv.take(i as int) =~= bv);
                },
                None => {
                    assert(out@.map_values(|b: String| b@) =~= present_strings(bv));
                },
            }
            assert(out@.map_values(|b: String| b@) =~= present_strings(bv));
            let count = match n {
                Some(k) => k,
                None => 0,
            };
            (out, count)
        },
    }
}

/// The row of a profile folder just created or copied, from its manifest text.
pub fn profile_view_of(name: &str, dir: &str, active: bool, manifest: &Option<String>) -> (r: ProfileView)
    ensures
        ({
            let (b, n) = manifest_listing(ostr(*manifest));
            r@ == ProfileRow {
                name: name@,
                dir: dir@,
                exists: true,
                web_ready: exists|i: int| 0 <= i < b.len() && b[i] == web_bundle(),
                bundles: b.len() as usize,
                plugins: n as usize,
                active,
            }
        }),
{
    let (bundles, plugins) = read_profile_manifest(manifest);
    let v = profile_view(name, dir, &bundles, plugins, name);
    proof {
        let bv = bundles@.map_values(|b: String| b@);
        assert(lists_web_bundle(bundles@) == (exists|i: int| 0 <= i < bv.len() && bv[i] == web_bundle())) by {
            if lists_web_bundle(bundles@) {
                let i = choose|i: int| 0 <= i < bundles@.len() && bundles@[i]@ == web_bundle();
                assert(bv[i] == web_bundle());
            }
            if exists|i: int| 0 <= i < bv.len() && bv[i] == web_bundle() {
                let i = choose|i: int| 0 <= i < bv.len() && bv[i] == web_bundle();
                assert(bundles@[i]@ == web_bundle());
            }
        }
    }
    ProfileView { active, ..v }
}


// ───────────────────────────── version ids ─────────────────────────────

/// A lower-case hexadecimal digit.
pub open spec fn hex_digit(d: int) -> char {
    if d < 10 {
        (('0' as int) + d) as char
    } else {
        (('a' as int) + d - 10) as char
    }
}

/// Lower-case hexadecimal representation of `n` (`{:x}`).
pub open spec fn hex(n: nat) -> Seq<char>
    decreases n,
{
    if n < 16 {
        seq![hex_digit(n as int)]
    } else {
        hex(n / 16) + seq![hex_digit((n % 16) as int)]
    }
}

fn hex_char(d: u128) -> (c: char)
    requires
        d < 16,
    ensures
        c == hex_digit(d as int),
{
    let v: u8 = d as u8;
    if v < 10 {
        (0x30 + v) as char
    } else {
        (0x61 + v - 10) as char
    }
}

/// The id of a version created at `nanos` nanoseconds since 1970: `v` and the
/// time in lower-case hexadecimal.
pub fn id_for(nanos: u128) -> (r: String)
    ensures
        r@ == seq!['v'] + hex(nanos as nat),
{
    let mut acc: Vec<char> = Vec::new();
    let mut q: u128 = nanos;
    loop
        invariant_except_break
            hex(nanos as nat) == hex(q as nat) + acc@,
        ensures
            hex(nanos as nat) == acc@,
        decreases q,
    {
        let c = hex_char(q % 16);
        let ghost old_acc = acc@;
        acc.insert(0, c);
        assert(acc@ =~= seq![c] + old_acc);
        if q < 16 {
            assert(hex(nanos as nat) =~= acc@);
            break;
        }
        assert(hex(q as nat) + old_acc =~= hex((q / 16) as nat) + acc@);
        q = q / 16;
    }
    let mut v: Vec<char> = vec!['v'];
    push_all(&mut v, &acc);
    string_of(&v)
}

/// The current time in nanoseconds since 1970 (`SystemTime::now`), 0 when the
/// clock is earlier. Nothing is promised of the value.
#[verifier::external_body]
fn unix_nanos() -> (r: u128) {
    std::time::SystemTime::now().duration_since(std::time::UNIX_EPOCH).map(|d| d.as_nanos()).unwrap_or(0)
}

/// A fresh version id from the clock.
pub fn gen_id() -> (r: String)
    ensures
        exists|t: u128| r@ == seq!['v'] + hex(t as nat),
{
    id_for(unix_nanos())
}

// ───────────────────────────── a new profile's files ─────────────────────────────

/// The manifest of a new profile, before its name is set: private, without
/// dependencies, on dsh's base and web-app bundles, patches reloaded live.
pub const PROFILE_MANIFEST_BASE: &'static str = "{\"private\":true,\"dependencies\":{},\"dsh\":{\"profile\":{\"bundles\":[\"@deepseek-ai/dsh-base\",\"@deepseek-ai/dsh-web-app\"],\"patchReload\":\"live\"}}}";

/// A new profile's patch layer: an empty YAML array, with a comment.
pub const PROFILE_PATCH_TEXT: &'static str = "# Your patch layer for this dsh profile, applied after every bundle layer:\n# a top-level YAML array of loader patch entries.\n[]\n";

/// A new profile's pnpm workspace: the folder itself, hoisted, peers not installed.
pub const PROFILE_WORKSPACE_TEXT: &'static str = "packages:\n  - .\n\nnodeLinker: hoisted\nautoInstallPeers: false\n";

/// The package name of profile `name`.
pub open spec fn profile_package_name(name: Seq<char>) -> Seq<char> {
    "dsh-profile-"@ + name
}

/// A profile manifest with its name set to that of profile `name`, printed
/// pretty; `None` when the text is not JSON.
pub fn manifest_named(text: &str, name: &str) -> (r: Option<String>)
    ensures
        ostr(r) == json_with_member(text@, "name"@, profile_package_name(name@)),
{
    let mut v = chars_of("dsh-profile-");
    push_all(&mut v, &chars_of(name));
    let value = string_of(&v);
    with_member_pretty(text, "name", value.as_str())
}

/// The manifest of a copied profile, renamed after the copy so that no two
/// profiles share a name: `None` (nothing to write) when the manifest could
/// not be read or is not JSON.
pub fn copied_manifest(text: &Option<String>, name: &str) -> (r: Option<String>)
    ensures
        ostr(r) == match ostr(*text) {
            Some(t) => json_with_member(t, "name"@, profile_package_name(name@)),
            None => None,
        },
{
    match text {
        Some(t) => manifest_named(t.as_str(), name),
        None => None,
    }
}

/// The files a new profile `name` starts with, by file name: its manifest
/// (empty when it could not be printed), its patch layer and its workspace.
pub fn new_profile_files(name: &str) -> (r: Vec<(String, String)>)
    ensures
        r@.len() == 3,
        r@[0].0@ == "package.json"@,
        r@[0].1@ == match json_with_member(PROFILE_MANIFEST_BASE@, "name"@, profile_package_name(name@)) {
            Some(t) => t,
            None => Seq::<char>::empty(),
        },
        r@[1].0@ == "cordis.patch.yml"@,
        r@[1].1@ == PROFILE_PATCH_TEXT@,
        r@[2].0@ == "pnpm-workspace.yaml"@,
        r@[2].1@ == PROFILE_WORKSPACE_TEXT@,
{
    let manifest = match manifest_named(PROFILE_MANIFEST_BASE, name) {
        Some(t) => t,
        None => String::new(),
    };
    let mut r: Vec<(String, String)> = Vec::new();
    r.push((owned("package.json"), manifest));
    r.push((owned("cordis.patch.yml"), owned(PROFILE_PATCH_TEXT)));
    r.push((owned("pnpm-workspace.yaml"), owned(PROFILE_WORKSPACE_TEXT)));
    r
}

} // verus!
