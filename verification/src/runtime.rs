//! Finding node.exe and the dsh entry script (`bin.js`) on this machine.
//!
//! Where a file is looked for on disk, the disk's answer is not the
//! library's: the contracts say which candidates are tried, in which order,
//! and that the first one found is taken.
use vstd::prelude::*;
use crate::environments::{fold_lower, fold_lower_exec};
use crate::settings::ostr;
use crate::paths::{
    disk_flags, first_flagged, first_present, has_drive, join, join_path, parent_of, parent_path, path_exists, paths_view,
};
use crate::text::{chars_of, contains, ends_with, contains_exec, next_index, push_all, replace_all, slice_chars, split_chars, split_seq, string_of};

verus! {

/// The two usual install places of node.exe.
pub open spec fn node_default_places() -> Seq<Seq<char>> {
    seq!["C:\\Program Files\\nodejs\\node.exe"@, "C:\\Program Files (x86)\\nodejs\\node.exe"@]
}

fn node_default_vec() -> (r: Vec<String>)
    ensures
        r@.len() == 2,
        paths_view(r@) == node_default_places(),
{
    let r = vec![
        crate::text::owned("C:\\Program Files\\nodejs\\node.exe"),
        crate::text::owned("C:\\Program Files (x86)\\nodejs\\node.exe"),
    ];
    assert(paths_view(r@) =~= node_default_places());
    r
}

/// `<dir>\node.exe` for each folder of `PATH`.
pub open spec fn node_on_path(dirs: Seq<Seq<char>>) -> Seq<Seq<char>> {
    dirs.map_values(|d: Seq<char>| join_path(d, "node.exe"@))
}

/// The places where node.exe is looked for, in order: the one given by hand,
/// the two usual install places, then each folder of `PATH`.
pub open spec fn node_candidates(explicit: Option<Seq<char>>, dirs: Seq<Seq<char>>) -> Seq<Seq<char>> {
    (match explicit {
        Some(p) => seq![p],
        None => Seq::empty(),
    }) + node_default_places() + node_on_path(dirs)
}

fn opt_view(o: &Option<String>) -> (r: Ghost<Option<Seq<char>>>)
    ensures
        r@ == (match o {
            Some(x) => Some(x@),
            None => None,
        }),
{
    Ghost(match o {
        Some(x) => Some(x@),
        None => None,
    })
}

/// The places where node.exe is looked for (see `node_candidates`).
pub fn node_candidate_list(explicit: &Option<String>, path_dirs: &Vec<String>) -> (r: Vec<String>)
    ensures
        paths_view(r@) == node_candidates(ostr(*explicit), paths_view(path_dirs@)),
{
    let mut cands: Vec<String> = Vec::new();
    if let Some(p) = explicit {
        cands.push(p.clone());
    }
    let defaults = node_default_vec();
    cands.push(defaults[0].clone());
    cands.push(defaults[1].clone());
    let mut i: usize = 0;
    let ghost pre = paths_view(cands@);
    while i < path_dirs.len()
        invariant
            i <= path_dirs@.len(),
            paths_view(cands@) == pre + node_on_path(paths_view(path_dirs@)).take(i as int),
        decreases path_dirs@.len() - i,
    {
        let c = join(path_dirs[i].as_str(), "node.exe");
        proof {
            assert(paths_view(cands@.push(c)) =~= paths_view(cands@).push(c@));
            assert(node_on_path(paths_view(path_dirs@)).take(i + 1) =~= node_on_path(paths_view(path_dirs@)).take(i as int).push(c@));
        }
        cands.push(c);
        i = i + 1;
    }
    let ghost ex = match explicit {
        Some(x) => Some(x@),
        None => None,
    };
    assert(paths_view(cands@) =~= node_candidates(ex, paths_view(path_dirs@)));
    cands
}

/// The node.exe to run given the disk's answer for each candidate: the first
/// candidate found, else `node.exe` (left to the system search).
pub open spec fn node_pick(cands: Seq<Seq<char>>, flags: Seq<bool>) -> Seq<char> {
    match first_present(cands, flags) {
        Some(p) => p,
        None => "node.exe"@,
    }
}

/// Chooses node.exe among `cands`, `flags[i]` telling whether `cands[i]` exists.
pub fn node_choice(cands: &Vec<String>, flags: &Vec<bool>) -> (r: String)
    ensures
        r@ == node_pick(paths_view(cands@), flags@),
{
    match first_flagged(cands, flags) {
        Some(p) => p,
        None => crate::text::owned("node.exe"),
    }
}

/// The first node.exe found (`node.exe`, left to the system search, when
/// none is): the one given by hand, the usual install places, then `PATH`.
/// Which exist is the disk's answer: the result is `node_choice` of it.
pub fn resolve_node(explicit: &Option<String>, path_dirs: &Vec<String>) -> (r: String)
    ensures
        exists|flags: Seq<bool>| flags.len() == node_candidates(ostr(*explicit), paths_view(path_dirs@)).len()
            && r@ == #[trigger] node_pick(node_candidates(ostr(*explicit), paths_view(path_dirs@)), flags),
{
    let cands = node_candidate_list(explicit, path_dirs);
    let flags = disk_flags(&cands);
    let r = node_choice(&cands, &flags);
    assert(r@ == node_pick(node_candidates(ostr(*explicit), paths_view(path_dirs@)), flags@));
    r
}

/// node.exe at one of the usual install places, else `node.exe` (the agent
/// channel's fallback when no node.exe was given by hand).
pub fn resolve_node_fallback() -> (r: String)
    ensures
        exists|flags: Seq<bool>| flags.len() == 2 && r@ == #[trigger] node_pick(node_default_places(), flags),
{
    let cands = node_default_vec();
    let flags = disk_flags(&cands);
    let r = node_choice(&cands, &flags);
    assert(r@ == node_pick(node_default_places(), flags@));
    r
}

/// `<prefix>\node_modules\@deepseek-ai\dsh`, the package folder of a dsh install.
pub open spec fn dsh_pkg_path(prefix: Seq<char>) -> Seq<char> {
    join_path(join_path(join_path(prefix, "node_modules"@), "@deepseek-ai"@), "dsh"@)
}

/// `<package>\lib\bin.js`, the entry script of a dsh install.
pub open spec fn dsh_bin_path(prefix: Seq<char>) -> Seq<char> {
    join_path(join_path(dsh_pkg_path(prefix), "lib"@), "bin.js"@)
}

/// The package folder of the dsh installed under `prefix`.
pub fn dsh_pkg_dir(prefix: &str) -> (r: String)
    ensures
        r@ == dsh_pkg_path(prefix@),
{
    join(join(join(prefix, "node_modules").as_str(), "@deepseek-ai").as_str(), "dsh")
}

/// The entry script of the dsh installed under `prefix`.
pub fn dsh_bin_for(prefix: &str) -> (r: String)
    ensures
        r@ == dsh_bin_path(prefix@),
{
    join(join(dsh_pkg_dir(prefix).as_str(), "lib").as_str(), "bin.js")
}

/// `package.json` of the dsh installed under `prefix`.
pub fn dsh_package_json(prefix: &str) -> (r: String)
    ensures
        r@ == join_path(dsh_pkg_path(prefix@), "package.json"@),
{
    join(dsh_pkg_dir(prefix).as_str(), "package.json")
}

/// The entry script of the npm layout in each of `dirs`.
pub fn bins_in(dirs: &Vec<String>) -> (r: Vec<String>)
    ensures
        paths_view(r@) == dsh_bins_of(paths_view(dirs@)),
{
    let mut r: Vec<String> = Vec::new();
    let mut i: usize = 0;
    while i < dirs.len()
        invariant
            i <= dirs@.len(),
            paths_view(r@) == paths_view(dirs@).map_values(|d: Seq<char>| dsh_bin_path(d)).take(i as int),
        decreases dirs@.len() - i,
    {
        let b = dsh_bin_for(dirs[i].as_str());
        proof {
            assert(paths_view(r@.push(b)) =~= paths_view(r@).push(b@));
            assert(paths_view(dirs@).map_values(|d: Seq<char>| dsh_bin_path(d)).take(i + 1) =~= paths_view(dirs@).map_values(
                |d: Seq<char>| dsh_bin_path(d),
            ).take(i as int).push(b@));
        }
        r.push(b);
        i = i + 1;
    }
    assert(paths_view(dirs@).map_values(|d: Seq<char>| dsh_bin_path(d)).take(i as int) =~= paths_view(dirs@).map_values(
        |d: Seq<char>| dsh_bin_path(d),
    ));
    r
}

/// The global dsh of the npm layout in a folder of `PATH`: the first folder
/// whose `node_modules\@deepseek-ai\dsh\lib\bin.js` exists.
pub fn find_dsh_on_path(path_dirs: &Vec<String>) -> (r: Option<String>)
    ensures
        exists|flags: Seq<bool>| flags.len() == path_dirs@.len() && #[trigger] first_present(
            dsh_bins_of(paths_view(path_dirs@)),
            flags,
        ) == ostr(r),
{
    let cands = bins_in(path_dirs);
    let flags = disk_flags(&cands);
    let r = first_flagged(&cands, &flags);
    assert(first_present(dsh_bins_of(paths_view(path_dirs@)), flags@) == ostr(r));
    r
}

/// `%APPDATA%\npm`, npm's global folder.
pub open spec fn npm_global_dir(appdata: Seq<char>) -> Seq<char> {
    join_path(appdata, "npm"@)
}

/// The entry scripts of the npm layout in each of `dirs`.
pub open spec fn dsh_bins_of(dirs: Seq<Seq<char>>) -> Seq<Seq<char>> {
    dirs.map_values(|d: Seq<char>| dsh_bin_path(d))
}

/// The places of a global dsh: the npm layout in each folder of `PATH`, then
/// npm's global folder under `%APPDATA%`.
pub open spec fn global_bin_candidates(dirs: Seq<Seq<char>>, appdata: Option<Seq<char>>) -> Seq<Seq<char>> {
    dsh_bins_of(dirs) + match appdata {
        Some(a) => seq![dsh_bin_path(npm_global_dir(a))],
        None => Seq::empty(),
    }
}

/// The places of a global dsh (see `global_bin_candidates`).
pub fn global_bin_candidate_list(path_dirs: &Vec<String>, appdata: &Option<String>) -> (r: Vec<String>)
    ensures
        paths_view(r@) == global_bin_candidates(paths_view(path_dirs@), ostr(*appdata)),
{
    let mut c = bins_in(path_dirs);
    if let Some(a) = appdata {
        let b = dsh_bin_for(join(a.as_str(), "npm").as_str());
        proof {
            assert(paths_view(c@.push(b)) =~= paths_view(c@).push(b@));
        }
        c.push(b);
    }
    let ghost av = match appdata {
        Some(a) => Some(a@),
        None => None,
    };
    assert(paths_view(c@) =~= global_bin_candidates(paths_view(path_dirs@), av));
    c
}

/// A global dsh install: the first of `global_bin_candidates` on disk
/// (`first_flagged` of the disk's answers).
pub fn find_global_bin(path_dirs: &Vec<String>, appdata: &Option<String>) -> (r: Option<String>)
    ensures
        exists|flags: Seq<bool>| #[trigger] first_present(
            global_bin_candidates(paths_view(path_dirs@), ostr(*appdata)),
            flags,
        ) == ostr(r),
{
    let c = global_bin_candidate_list(path_dirs, appdata);
    let flags = disk_flags(&c);
    let r = first_flagged(&c, &flags);
    assert(first_present(global_bin_candidates(paths_view(path_dirs@), ostr(*appdata)), flags@) == ostr(r));
    r
}


// ───────────────────────────── npm command shims ─────────────────────────────

/// The dsh command shims npm puts in a folder of `PATH`.
pub open spec fn shim_names() -> Seq<Seq<char>> {
    seq!["dsh.cmd"@, "dsh.bat"@, "dsh.exe"@]
}

/// The text between the first and the second `"` of a line.
pub open spec fn quoted(line: Seq<char>) -> Option<Seq<char>> {
    match next_index(line, '"', 0) {
        None => None,
        Some(a) => match next_index(line, '"', a + 1) {
            None => None,
            Some(b) => Some(line.subrange(a + 1, b)),
        },
    }
}

/// `s` without its leading `\`, `/`, spaces and tabs.
pub open spec fn trim_lead(s: Seq<char>) -> Seq<char>
    decreases s.len(),
{
    if s.len() > 0 && (s[0] == '\\' || s[0] == ' ' || s[0] == '\t' || s[0] == '/') {
        trim_lead(s.drop_first())
    } else {
        s
    }
}

/// The script a shim line names: the quoted path without the shim's own
/// folder variable (`%~dp0`, `%dp0`) and leading separators, taken in `dir`
/// unless it carries a drive.
pub open spec fn shim_target(dir: Seq<char>, raw: Seq<char>) -> Seq<char> {
    let e = trim_lead(replace_all(replace_all(raw, "%~dp0"@, Seq::empty()), "%dp0"@, Seq::empty()));
    if has_drive(e) {
        e
    } else {
        join_path(dir, e)
    }
}

/// The scripts named by the lines of a shim that mention `bin.js` (in any
/// case) and hold a quoted path, in order.
pub open spec fn shim_targets_from(dir: Seq<char>, lines: Seq<Seq<char>>, i: int) -> Seq<Seq<char>>
    decreases lines.len() - i,
{
    if i < 0 || i >= lines.len() {
        Seq::empty()
    } else if contains(fold_lower(lines[i]), "bin.js"@) && quoted(lines[i]) is Some {
        seq![shim_target(dir, quoted(lines[i]).unwrap())] + shim_targets_from(dir, lines, i + 1)
    } else {
        shim_targets_from(dir, lines, i + 1)
    }
}

/// The scripts a shim in `dir` points to (its lines split at `\n`; a `\r`
/// ending a line never falls between two quotes, so it changes nothing).
pub open spec fn shim_targets_of(dir: Seq<char>, text: Seq<char>) -> Seq<Seq<char>> {
    shim_targets_from(dir, split_seq(text, '\n'), 0)
}

fn quoted_exec(line: &Vec<char>) -> (r: Option<Vec<char>>)
    ensures
        match r {
            None => quoted(line@) is None,
            Some(q) => quoted(line@) == Some(q@),
        },
{
    let n = line.len();
    proof {
        crate::text::lemma_next_index_all(line@, '"');
    }
    let mut a: usize = 0;
    while a < n && line[a] != '"'
        invariant
            a <= n,
            n == line@.len(),
            next_index(line@, '"', 0) == next_index(line@, '"', a as int),
        decreases n - a,
    {
        a = a + 1;
    }
    if a >= n {
        return None;
    }
    let mut b: usize = a + 1;
    while b < n && line[b] != '"'
        invariant
            a < b <= n,
            n == line@.len(),
            next_index(line@, '"', a + 1) == next_index(line@, '"', b as int),
        decreases n - b,
    {
        b = b + 1;
    }
    if b >= n {
        return None;
    }
    Some(slice_chars(line, a + 1, b))
}

fn trim_lead_exec(v: &Vec<char>) -> (r: Vec<char>)
    ensures
        r@ == trim_lead(v@),
{
    let n = v.len();
    let mut i: usize = 0;
    assert(v@.subrange(0, n as int) =~= v@);
    while i < n && (v[i] == '\\' || v[i] == ' ' || v[i] == '\t' || v[i] == '/')
        invariant
            i <= n,
            n == v@.len(),
            trim_lead(v@) == trim_lead(v@.subrange(i as int, n as int)),
        decreases n - i,
    {
        assert(v@.subrange(i as int, n as int).drop_first() =~= v@.subrange(i + 1, n as int));
        i = i + 1;
    }
    assert(v@.subrange(0, n as int) =~= v@);
    slice_chars(v, i, n)
}

/// The script a shim line's quoted path names.
pub fn shim_target_exec(dir: &str, raw: &Vec<char>) -> (r: String)
    ensures
        r@ == shim_target(dir@, raw@),
{
    let empty: Vec<char> = Vec::new();
    let p1 = chars_of("%~dp0");
    let p2 = chars_of("%dp0");
    proof {
        reveal_strlit("%~dp0");
        reveal_strlit("%dp0");
    }
    assert(empty@ =~= Seq::<char>::empty());
    let a = crate::text::replace_exec(raw, &p1, &empty);
    let b = crate::text::replace_exec(&a, &p2, &empty);
    let e = trim_lead_exec(&b);
    let drive = e.len() >= 2 && e[1] == ':' && (('a' <= e[0] && e[0] <= 'z') || ('A' <= e[0] && e[0] <= 'Z'));
    if drive {
        string_of(&e)
    } else {
        join(dir, string_of(&e).as_str())
    }
}

/// The scripts a shim in `dir` with text `text` points to, in order.
pub fn shim_targets(dir: &str, text: &str) -> (r: Vec<String>)
    ensures
        paths_view(r@) == shim_targets_of(dir@, text@),
{
    let lines = split_chars(&chars_of(text), '\n');
    let ghost ls = split_seq(text@, '\n');
    let binjs = chars_of("bin.js");
    let mut out: Vec<String> = Vec::new();
    let mut i: usize = 0;
    while i < lines.len()
        invariant
            lines@.len() == ls.len(),
            forall|k: int| 0 <= k < lines@.len() ==> #[trigger] lines@[k]@ == ls[k],
            binjs@ == "bin.js"@,
            i <= lines@.len(),
            paths_view(out@) + shim_targets_from(dir@, ls, i as int) == shim_targets_from(dir@, ls, 0),
        decreases lines@.len() - i,
    {
        assert(lines@[i as int]@ == ls[i as int]);
        let low = fold_lower_exec(&lines[i]);
        if contains_exec(&low, &binjs) {
            match quoted_exec(&lines[i]) {
                Some(q) => {
                    let t = shim_target_exec(dir, &q);
                    proof {
                        assert(paths_view(out@.push(t)) =~= paths_view(out@).push(t@));
                        assert(paths_view(out@.push(t)) + shim_targets_from(dir@, ls, i + 1) =~= paths_view(out@)
                            + shim_targets_from(dir@, ls, i as int));
                    }
                    out.push(t);
                },
                None => {},
            }
        }
        i = i + 1;
    }
    assert(paths_view(out@) =~= paths_view(out@) + shim_targets_from(dir@, ls, i as int));
    out
}

/// Optional texts by their views.
pub open spec fn texts_view(v: Seq<Option<String>>) -> Seq<Option<Seq<char>>> {
    v.map_values(|o: Option<String>| ostr(o))
}

/// Flag lists by their views.
pub open spec fn flag_lists_view(v: Seq<Vec<bool>>) -> Seq<Seq<bool>> {
    v.map_values(|f: Vec<bool>| f@)
}

/// The first index from `j` below `limit` whose flag is set.
pub open spec fn first_flag_from(flags: Seq<bool>, limit: int, j: int) -> Option<int>
    decreases limit - j,
{
    if j < 0 || j >= limit || j >= flags.len() {
        None
    } else if flags[j] {
        Some(j)
    } else {
        first_flag_from(flags, limit, j + 1)
    }
}

/// The entry a dsh launcher `shim` in folder `dir` leads to: the npm layout's
/// `bin.js` next to it when on disk (`layout_found`); else the first script the
/// launcher's text points to that is on disk (`tflags[j]` for target `j`); else
/// the launcher itself.
pub open spec fn launcher_entry(dir: Seq<char>, shim: Seq<char>, text: Option<Seq<char>>, tflags: Seq<bool>, layout_found: bool) -> Seq<char> {
    if layout_found {
        dsh_bin_path(dir)
    } else {
        match text {
            Some(t) => match first_flag_from(tflags, shim_targets_of(dir, t).len() as int, 0) {
                Some(j) => shim_targets_of(dir, t)[j],
                None => shim,
            },
            None => shim,
        }
    }
}

/// The entry taken at shim `k` of `dir`, a shim found there (`launcher_entry`).
pub open spec fn shim_entry(dir: Seq<char>, k: int, text: Option<Seq<char>>, tflags: Seq<bool>, layout_found: bool) -> Seq<char> {
    launcher_entry(dir, join_path(dir, shim_names()[k]), text, tflags, layout_found)
}

/// Whether a path names a dsh launcher: its name ends in `dsh.cmd`, `dsh.bat`
/// or `dsh.exe`, in any case.
pub open spec fn is_launcher_path(p: Seq<char>) -> bool {
    let l = fold_lower(p);
    ends_with(l, "dsh.cmd"@) || ends_with(l, "dsh.bat"@) || ends_with(l, "dsh.exe"@)
}

/// The folder of a launcher given by hand (empty when it has none).
pub open spec fn launcher_dir(p: Seq<char>) -> Seq<char> {
    match parent_path(p) {
        Some(d) => d,
        None => Seq::empty(),
    }
}

/// The entry found in folder `d` of `PATH`: at its first shim found (`shims[3d + k]`),
/// the shim's entry; with no shim, the npm layout's `bin.js` when on disk.
pub open spec fn folder_entry(
    dirs: Seq<Seq<char>>,
    d: int,
    texts: Seq<Option<Seq<char>>>,
    shims: Seq<bool>,
    layout: Seq<bool>,
    tflags: Seq<Seq<bool>>,
) -> Option<Seq<char>> {
    if shims[3 * d] {
        Some(shim_entry(dirs[d], 0, texts[3 * d], tflags[3 * d], layout[d]))
    } else if shims[3 * d + 1] {
        Some(shim_entry(dirs[d], 1, texts[3 * d + 1], tflags[3 * d + 1], layout[d]))
    } else if shims[3 * d + 2] {
        Some(shim_entry(dirs[d], 2, texts[3 * d + 2], tflags[3 * d + 2], layout[d]))
    } else if layout[d] {
        Some(dsh_bin_path(dirs[d]))
    } else {
        None
    }
}

/// The entry found from folder `d` of `PATH` on: the first folder that gives
/// one; after the last folder, the npm layout under `%APPDATA%\npm` when on disk.
pub open spec fn path_entry(
    dirs: Seq<Seq<char>>,
    texts: Seq<Option<Seq<char>>>,
    shims: Seq<bool>,
    layout: Seq<bool>,
    tflags: Seq<Seq<bool>>,
    appdata: Option<Seq<char>>,
    app_found: bool,
    d: int,
) -> Option<Seq<char>>
    decreases dirs.len() - d,
{
    if d < 0 {
        None
    } else if d >= dirs.len() {
        match appdata {
            Some(a) => if app_found { Some(dsh_bin_path(npm_global_dir(a))) } else { None },
            None => None,
        }
    } else {
        match folder_entry(dirs, d, texts, shims, layout, tflags) {
            Some(x) => Some(x),
            None => path_entry(dirs, texts, shims, layout, tflags, appdata, app_found, d + 1),
        }
    }
}

/// The dsh entry, given the disk's answers: the path given by hand, when on
/// disk (`explicit_found`), if it is a `.js` script; a launcher given by hand
/// (`dsh.cmd`, `dsh.bat`, `dsh.exe`), when on disk, is followed as the ones on
/// `PATH` are (`launcher_entry` in its folder, with its text `explicit_text`,
/// its targets' answers `explicit_tflags` and the layout's `explicit_layout`);
/// otherwise the search of `PATH` and `%APPDATA%\npm` (`path_entry` from the
/// first folder).
pub open spec fn dsh_entry(
    explicit: Option<Seq<char>>,
    explicit_found: bool,
    explicit_text: Option<Seq<char>>,
    explicit_tflags: Seq<bool>,
    explicit_layout: bool,
    dirs: Seq<Seq<char>>,
    texts: Seq<Option<Seq<char>>>,
    shims: Seq<bool>,
    layout: Seq<bool>,
    tflags: Seq<Seq<bool>>,
    appdata: Option<Seq<char>>,
    app_found: bool,
) -> Option<Seq<char>> {
    match explicit {
        Some(p) => if explicit_found && ends_with(p, ".js"@) {
            Some(p)
        } else if explicit_found && is_launcher_path(p) {
            Some(launcher_entry(launcher_dir(p), p, explicit_text, explicit_tflags, explicit_layout))
        } else {
            path_entry(dirs, texts, shims, layout, tflags, appdata, app_found, 0)
        },
        None => path_entry(dirs, texts, shims, layout, tflags, appdata, app_found, 0),
    }
}

/// Disk answers for a search of `n` folders: a shim flag and a target flag list
/// per shim, a layout flag per folder; a shim whose text was read counts as found.
pub open spec fn answers_fit(n: int, texts: Seq<Option<Seq<char>>>, shims: Seq<bool>, layout: Seq<bool>, tflags: Seq<Seq<bool>>) -> bool {
    &&& shims.len() == 3 * n
    &&& texts.len() == 3 * n
    &&& layout.len() == n
    &&& tflags.len() == 3 * n
    &&& forall|i: int| 0 <= i < 3 * n && (#[trigger] texts[i]) is Some ==> shims[i]
}

fn launcher_pick(dir: &str, shim: &str, text: &Option<String>, tflags: &Vec<bool>, layout_found: bool) -> (r: String)
    ensures
        r@ == launcher_entry(dir@, shim@, ostr(*text), tflags@, layout_found),
{
    if layout_found {
        return dsh_bin_for(dir);
    }
    match text {
        Some(t) => {
            let targets = shim_targets(dir, t.as_str());
            let ghost tv = shim_targets_of(dir@, t@);
            let mut j: usize = 0;
            while j < targets.len() && j < tflags.len()
                invariant
                    paths_view(targets@) == tv,
                    tv == shim_targets_of(dir@, t@),
                    !layout_found,
                    ostr(*text) == Some(t@),
                    j <= targets@.len(),
                    first_flag_from(tflags@, tv.len() as int, 0) == first_flag_from(tflags@, tv.len() as int, j as int),
                decreases targets@.len() - j,
            {
                assert(targets@.len() == tv.len());
                if tflags[j] {
                    assert(targets@[j as int]@ == tv[j as int]);
                    assert(first_flag_from(tflags@, tv.len() as int, j as int) == Some(j as int));
                    let x = targets[j].clone();
                    assert(x@ == tv[j as int]);
                    return x;
                }
                assert(first_flag_from(tflags@, tv.len() as int, j as int) == first_flag_from(tflags@, tv.len() as int, j + 1));
                j = j + 1;
            }
            assert(first_flag_from(tflags@, tv.len() as int, j as int) is None);
            crate::text::owned(shim)
        },
        None => crate::text::owned(shim),
    }
}

fn shim_pick(dir: &str, k: usize, text: &Option<String>, tflags: &Vec<bool>, layout_found: bool) -> (r: String)
    requires
        k < 3,
    ensures
        r@ == shim_entry(dir@, k as int, ostr(*text), tflags@, layout_found),
{
    let names = vec![crate::text::owned("dsh.cmd"), crate::text::owned("dsh.bat"), crate::text::owned("dsh.exe")];
    assert(paths_view(names@) =~= shim_names());
    assert(names@[k as int]@ == shim_names()[k as int]);
    let shim = join(dir, names[k].as_str());
    launcher_pick(dir, shim.as_str(), text, tflags, layout_found)
}

/// Whether `p` names a dsh launcher (`is_launcher_path`).
pub fn launcher_path(p: &str) -> (r: bool)
    ensures
        r == is_launcher_path(p@),
{
    let l = fold_lower_exec(&chars_of(p));
    suffix_exec(&l, "dsh.cmd") || suffix_exec(&l, "dsh.bat") || suffix_exec(&l, "dsh.exe")
}

fn suffix_exec(v: &Vec<char>, s: &str) -> (r: bool)
    ensures
        r == ends_with(v@, s@),
{
    let p = chars_of(s);
    if p.len() > v.len() {
        false
    } else {
        crate::text::occurs_at_exec(v, &p, v.len() - p.len())
    }
}

/// The folder of a launcher given by hand (`launcher_dir`).
pub fn launcher_folder(p: &str) -> (r: String)
    ensures
        r@ == launcher_dir(p@),
{
    match parent_of(p) {
        Some(d) => d,
        None => String::new(),
    }
}

/// Chooses the dsh entry from the disk's answers (see `dsh_entry`):
/// `explicit_found` for the path given by hand (with, for a launcher, its
/// text, its targets' answers and the layout's answer in its folder),
/// `shims[3d + k]` for shim `k`
/// of folder `d`, `layout[d]` for the npm layout in folder `d`,
/// `target_flags[3d + k][j]` for the `j`-th script shim `k` of folder `d`
/// points to, `app_found` for the npm layout under `%APPDATA%\npm`.
pub fn choose_dsh(
    explicit: &Option<String>,
    explicit_found: bool,
    explicit_text: &Option<String>,
    explicit_tflags: &Vec<bool>,
    explicit_layout: bool,
    path_dirs: &Vec<String>,
    shim_texts: &Vec<Option<String>>,
    shims: &Vec<bool>,
    layout: &Vec<bool>,
    target_flags: &Vec<Vec<bool>>,
    appdata: &Option<String>,
    app_found: bool,
) -> (r: Option<String>)
    requires
        shim_texts@.len() == 3 * path_dirs@.len(),
        shims@.len() == 3 * path_dirs@.len(),
        target_flags@.len() == 3 * path_dirs@.len(),
        layout@.len() == path_dirs@.len(),
    ensures
        ostr(r) == dsh_entry(
            ostr(*explicit),
            explicit_found,
            ostr(*explicit_text),
            explicit_tflags@,
            explicit_layout,
            paths_view(path_dirs@),
            texts_view(shim_texts@),
            shims@,
            layout@,
            flag_lists_view(target_flags@),
            ostr(*appdata),
            app_found,
        ),
{
    if let Some(p) = explicit {
        let pv = chars_of(p.as_str());
        let js = chars_of(".js");
        let is_js = js.len() <= pv.len() && crate::text::occurs_at_exec(&pv, &js, pv.len() - js.len());
        if explicit_found && is_js {
            return Some(p.clone());
        }
        if explicit_found && launcher_path(p.as_str()) {
            let dir = launcher_folder(p.as_str());
            return Some(launcher_pick(dir.as_str(), p.as_str(), explicit_text, explicit_tflags, explicit_layout));
        }
    }
    let ghost dirs = paths_view(path_dirs@);
    let ghost tv = texts_view(shim_texts@);
    let ghost fl = flag_lists_view(target_flags@);
    let ghost av = ostr(*appdata);
    assert(dsh_entry(ostr(*explicit), explicit_found, ostr(*explicit_text), explicit_tflags@, explicit_layout, dirs, tv, shims@, layout@, fl, av, app_found)
        == path_entry(dirs, tv, shims@, layout@, fl, av, app_found, 0));
    let mut d: usize = 0;
    let mut base: usize = 0;
    while d < path_dirs.len()
        invariant
            base == 3 * d,
            dsh_entry(ostr(*explicit), explicit_found, ostr(*explicit_text), explicit_tflags@, explicit_layout, dirs, tv, shims@, layout@, fl, av, app_found)
                == path_entry(dirs, tv, shims@, layout@, fl, av, app_found, 0),
            dirs == paths_view(path_dirs@),
            tv == texts_view(shim_texts@),
            fl == flag_lists_view(target_flags@),
            av == ostr(*appdata),
            shim_texts@.len() == 3 * path_dirs@.len(),
            shims@.len() == 3 * path_dirs@.len(),
            target_flags@.len() == 3 * path_dirs@.len(),
            layout@.len() == path_dirs@.len(),
            d <= path_dirs@.len(),
            path_entry(dirs, tv, shims@, layout@, fl, av, app_found, 0) == path_entry(dirs, tv, shims@, layout@, fl, av, app_found, d as int),
        decreases path_dirs@.len() - d,
    {
        let dir = path_dirs[d].as_str();
        assert(dirs[d as int] == dir@);
        let mut k: usize = 0;
        while k < 3
            invariant
                dirs == paths_view(path_dirs@),
                tv == texts_view(shim_texts@),
                fl == flag_lists_view(target_flags@),
                shim_texts@.len() == 3 * path_dirs@.len(),
                shims@.len() == 3 * path_dirs@.len(),
                target_flags@.len() == 3 * path_dirs@.len(),
                layout@.len() == path_dirs@.len(),
                d < path_dirs@.len(),
                base == 3 * d,
                av == ostr(*appdata),
                dsh_entry(ostr(*explicit), explicit_found, ostr(*explicit_text), explicit_tflags@, explicit_layout, dirs, tv, shims@, layout@, fl, av, app_found)
                    == path_entry(dirs, tv, shims@, layout@, fl, av, app_found, 0),
                path_entry(dirs, tv, shims@, layout@, fl, av, app_found, 0) == path_entry(dirs, tv, shims@, layout@, fl, av, app_found, d as int),
                dirs[d as int] == dir@,
                k <= 3,
                k >= 1 ==> !shims@[3 * d as int],
                k >= 2 ==> !shims@[3 * d + 1],
                k >= 3 ==> !shims@[3 * d + 2],
            decreases 3 - k,
        {
            assert(base + k < shims@.len());
            let _n = shims.len();
            let idx = base + k;
            if shims[idx] {
                let e = shim_pick(dir, k, &shim_texts[idx], &target_flags[idx], layout[d]);
                assert(tv[idx as int] == ostr(shim_texts@[idx as int]));
                assert(fl[idx as int] == target_flags@[idx as int]@);
                assert(folder_entry(dirs, d as int, tv, shims@, layout@, fl) == Some(e@));
                assert(path_entry(dirs, tv, shims@, layout@, fl, av, app_found, d as int) == Some(e@));
                return Some(e);
            }
            k = k + 1;
        }
        if layout[d] {
            let e = dsh_bin_for(dir);
            assert(folder_entry(dirs, d as int, tv, shims@, layout@, fl) == Some(e@));
            assert(path_entry(dirs, tv, shims@, layout@, fl, av, app_found, d as int) == Some(e@));
            return Some(e);
        }
        assert(folder_entry(dirs, d as int, tv, shims@, layout@, fl) is None);
        assert(base + 3 <= shims@.len());
        let _n = shims.len();
        d = d + 1;
        base = base + 3;
    }
    if let Some(a) = appdata {
        if app_found {
            return Some(dsh_bin_for(join(a.as_str(), "npm").as_str()));
        }
    }
    None
}

proof fn lemma_read_shim_found(
    dirs: Seq<Seq<char>>,
    texts: Seq<Option<Seq<char>>>,
    shims: Seq<bool>,
    layout: Seq<bool>,
    tflags: Seq<Seq<bool>>,
    appdata: Option<Seq<char>>,
    app_found: bool,
    d: int,
    i: int,
)
    requires
        answers_fit(dirs.len() as int, texts, shims, layout, tflags),
        0 <= d,
        3 * d <= i < texts.len(),
        texts[i] is Some,
    ensures
        path_entry(dirs, texts, shims, layout, tflags, appdata, app_found, d) is Some,
    decreases dirs.len() - d,
{
    assert(shims[i]);
    if 3 * d + 3 <= i {
        lemma_read_shim_found(dirs, texts, shims, layout, tflags, appdata, app_found, d + 1, i);
    }
}

/// The dsh entry to run. One given by hand is used when it is a `.js` script
/// on disk; a launcher given by hand (`dsh.cmd`, `dsh.bat`, `dsh.exe`) that is
/// on disk is followed as the ones on `PATH`: the npm layout's `bin.js` next to
/// it, else the first existing script its text (`explicit_text`, when readable)
/// points to, else the launcher itself. Otherwise (none given, or one that is
/// not usable) the search goes folder by folder of `PATH`: at the first dsh
/// shim found, the npm layout's `bin.js` next to it, else the first existing
/// script the shim points to, else the shim itself; a folder without shim
/// still counts when it holds the npm layout; last, the npm layout under
/// `%APPDATA%\npm`. `shim_texts[3 * d + k]` is the text of shim `k`
/// (`dsh.cmd`, `dsh.bat`, `dsh.exe`) in folder `d`, when readable; a file that
/// could be read is a file found, so then some entry is always returned (at
/// worst the launcher itself). What else is on disk is the disk's answer: the
/// result is `choose_dsh` of the answers.
pub fn resolve_dsh(
    explicit: &Option<String>,
    explicit_text: &Option<String>,
    path_dirs: &Vec<String>,
    shim_texts: &Vec<Option<String>>,
    appdata: &Option<String>,
) -> (r: Option<String>)
    requires
        shim_texts@.len() == 3 * path_dirs@.len(),
    ensures
        exists|ef: bool, etf: Seq<bool>, el: bool, shims: Seq<bool>, layout: Seq<bool>, tflags: Seq<Seq<bool>>, af: bool|
            answers_fit(path_dirs@.len() as int, texts_view(shim_texts@), shims, layout, tflags)
            && (explicit is Some && explicit_text is Some ==> ef)
            && ostr(r) == #[trigger] dsh_entry(
                ostr(*explicit),
                ef,
                ostr(*explicit_text),
                etf,
                el,
                paths_view(path_dirs@),
                texts_view(shim_texts@),
                shims,
                layout,
                tflags,
                ostr(*appdata),
                af,
            ),
        (exists|i: int| 0 <= i < shim_texts@.len() && #[trigger] shim_texts@[i] is Some) ==> r is Some,
        (explicit matches Some(p) && explicit_text is Some && is_launcher_path(p@)) ==> r is Some,
{
    let ef = match explicit {
        Some(p) => explicit_text.is_some() || path_exists(p.as_str()),
        None => false,
    };
    let (etf, el) = match explicit {
        Some(p) => if launcher_path(p.as_str()) {
            let dir = launcher_folder(p.as_str());
            let f = match explicit_text {
                Some(t) => disk_flags(&shim_targets(dir.as_str(), t.as_str())),
                None => Vec::new(),
            };
            (f, path_exists(dsh_bin_for(dir.as_str()).as_str()))
        } else {
            (Vec::new(), false)
        },
        None => (Vec::new(), false),
    };
    let names = vec![crate::text::owned("dsh.cmd"), crate::text::owned("dsh.bat"), crate::text::owned("dsh.exe")];
    let ghost tv = texts_view(shim_texts@);
    let mut shims: Vec<bool> = Vec::new();
    let mut layout: Vec<bool> = Vec::new();
    let mut tflags: Vec<Vec<bool>> = Vec::new();
    let mut d: usize = 0;
    let mut base: usize = 0;
    while d < path_dirs.len()
        invariant
            base == 3 * d,
            tv == texts_view(shim_texts@),
            shim_texts@.len() == 3 * path_dirs@.len(),
            names@.len() == 3,
            d <= path_dirs@.len(),
            shims@.len() == 3 * d,
            tflags@.len() == 3 * d,
            layout@.len() == d,
            forall|i: int| 0 <= i < 3 * d && (#[trigger] tv[i]) is Some ==> shims@[i],
        decreases path_dirs@.len() - d,
    {
        let dir = path_dirs[d].as_str();
        let mut k: usize = 0;
        while k < 3
            invariant
                tv == texts_view(shim_texts@),
                shim_texts@.len() == 3 * path_dirs@.len(),
                names@.len() == 3,
                d < path_dirs@.len(),
                base == 3 * d,
                k <= 3,
                shims@.len() == 3 * d + k,
                tflags@.len() == 3 * d + k,
                forall|i: int| 0 <= i < 3 * d + k && (#[trigger] tv[i]) is Some ==> shims@[i],
            decreases 3 - k,
        {
            assert(base + k < shim_texts@.len());
            let _n = shim_texts.len();
            let idx = base + k;
            assert(tv[idx as int] == ostr(shim_texts@[idx as int]));
            let found = shim_texts[idx].is_some() || path_exists(join(dir, names[k].as_str()).as_str());
            shims.push(found);
            let f = match &shim_texts[idx] {
                Some(t) => disk_flags(&shim_targets(dir, t.as_str())),
                None => Vec::new(),
            };
            tflags.push(f);
            k = k + 1;
        }
        layout.push(path_exists(dsh_bin_for(dir).as_str()));
        assert(base + 3 <= shim_texts@.len());
        let _n = shim_texts.len();
        d = d + 1;
        base = base + 3;
    }
    let af = match appdata {
        Some(a) => path_exists(dsh_bin_for(join(a.as_str(), "npm").as_str()).as_str()),
        None => false,
    };
    let r = choose_dsh(explicit, ef, explicit_text, &etf, el, path_dirs, shim_texts, &shims, &layout, &tflags, appdata, af);
    proof {
        let fl = flag_lists_view(tflags@);
        assert(answers_fit(path_dirs@.len() as int, tv, shims@, layout@, fl));
        assert(ostr(r) == dsh_entry(ostr(*explicit), ef, ostr(*explicit_text), etf@, el, paths_view(path_dirs@), tv, shims@, layout@, fl, ostr(*appdata), af));
        if exists|i: int| 0 <= i < shim_texts@.len() && #[trigger] shim_texts@[i] is Some {
            let i = choose|i: int| 0 <= i < shim_texts@.len() && #[trigger] shim_texts@[i] is Some;
            assert(tv[i] is Some);
            lemma_read_shim_found(paths_view(path_dirs@), tv, shims@, layout@, fl, ostr(*appdata), af, 0, i);
        }
    }
    r
}

} // verus!
