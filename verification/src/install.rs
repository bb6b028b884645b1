//! Installing dsh with npm: choosing the registry, the npm command lines, the
//! progress read from npm's log, and the messages of each outcome.
use vstd::prelude::*;
use crate::paths::{join, join_path, parent_of, parent_path, path_exists};
use crate::runtime::{dsh_bin_for, dsh_bin_path};
use crate::text::{
    chars_of, contains, contains_exec, owned, push_all, string_of, trim, trim_chars, trim_end,
    trim_end_exec, zpad_i64, zpad_signed,
};

verus! {

// ───────────────────────────── registries ─────────────────────────────

/// The npm registries tried, as (name, URL), in order of preference on ties.
pub open spec fn registries() -> Seq<(Seq<char>, Seq<char>)> {
    seq![
        ("npmmirror（国内）"@, "https://registry.npmmirror.com/"@),
        ("npmjs（官方）"@, "https://registry.npmjs.org/"@),
        ("腾讯云镜像"@, "https://mirrors.cloud.tencent.com/npm/"@),
        ("华为云镜像"@, "https://repo.huaweicloud.com/repository/npm/"@),
    ]
}

/// The npm registries tried.
pub fn registry_candidates() -> (r: Vec<(String, String)>)
    ensures
        r@.len() == 4,
        forall|i: int| 0 <= i < 4 ==> (#[trigger] r@[i].0@, r@[i].1@) == registries()[i],
{
    let r = vec![
        (owned("npmmirror（国内）"), owned("https://registry.npmmirror.com/")),
        (owned("npmjs（官方）"), owned("https://registry.npmjs.org/")),
        (owned("腾讯云镜像"), owned("https://mirrors.cloud.tencent.com/npm/")),
        (owned("华为云镜像"), owned("https://repo.huaweicloud.com/repository/npm/")),
    ];
    assert forall|i: int| 0 <= i < 4 implies (#[trigger] r@[i].0@, r@[i].1@) == registries()[i] by {
        if i == 0 {
        } else if i == 1 {
        } else if i == 2 {
        } else {
        }
    }
    r
}

/// `s` without the leading `https://`s and trailing `/`s: the host whose
/// connection time ranks a registry.
pub open spec fn registry_host_of(url: Seq<char>) -> Seq<char>
    decreases url.len(),
{
    if url.len() >= 8 && url.take(8) == "https://"@ {
        registry_host_of(url.skip(8))
    } else {
        strip_slashes(url)
    }
}

/// `s` without trailing `/`s.
pub open spec fn strip_slashes(s: Seq<char>) -> Seq<char>
    decreases s.len(),
{
    if s.len() > 0 && s.last() == '/' {
        strip_slashes(s.drop_last())
    } else {
        s
    }
}

/// The host of a registry URL.
pub fn registry_host(url: &str) -> (r: String)
    ensures
        r@ == registry_host_of(url@),
{
    let v = chars_of(url);
    let pre = chars_of("https://");
    proof {
        reveal_strlit("https://");
    }
    let n = v.len();
    let mut i: usize = 0;
    assert(v@.skip(0) =~= v@);
    while n - i >= 8 && crate::text::occurs_at_exec(&v, &pre, i)
        invariant
            i <= n,
            n == v@.len(),
            pre@ == "https://"@,
            pre@.len() == 8,
            registry_host_of(v@) == registry_host_of(v@.skip(i as int)),
        decreases n - i,
    {
        assert(crate::text::occurs_at(v@, pre@, i as int));
        assert(v@.skip(i as int).take(8) =~= v@.subrange(i as int, i + 8));
        assert(v@.skip(i as int).take(8) == "https://"@);
        assert(v@.skip(i as int).len() >= 8);
        assert(v@.skip(i as int).skip(8) =~= v@.skip(i + 8));
        assert(registry_host_of(v@.skip(i as int)) == registry_host_of(v@.skip(i as int).skip(8)));
        i = i + 8;
    }
    let ghost rest = v@.skip(i as int);
    if n - i >= 8 {
        assert(rest.take(8) =~= v@.subrange(i as int, i + 8));
    }
    let mut j = n;
    while j > i && v[j - 1] == '/'
        invariant
            i <= j <= n,
            n == v@.len(),
            rest == v@.skip(i as int),
            strip_slashes(rest) == strip_slashes(v@.subrange(i as int, j as int)),
        decreases j,
    {
        assert(v@.subrange(i as int, j as int).drop_last() =~= v@.subrange(i as int, j - 1));
        j = j - 1;
    }
    assert(v@.subrange(i as int, n as int) =~= rest);
    string_of(&crate::text::slice_chars(&v, i, j))
}

/// The registry chosen from the measured connection times (`None`: not
/// reachable): the fastest, the earliest on a tie.
pub open spec fn fastest(lat: Seq<Option<u64>>) -> Option<int> {
    if exists|i: int| 0 <= i < lat.len() && lat[i] is Some {
        Some(choose|k: int| #![trigger lat[k]] 0 <= k < lat.len() && lat[k] is Some
            && (forall|j: int| 0 <= j < lat.len() && lat[j] is Some ==> lat[k].unwrap() <= lat[j].unwrap())
            && (forall|j: int| 0 <= j < k && lat[j] is Some ==> lat[k].unwrap() < lat[j].unwrap()))
    } else {
        None
    }
}

/// Chooses the registry with the shortest connection time (`latencies[i]` for
/// registry `i`, `None` when it could not be reached).
pub fn pick_registry(latencies: &Vec<Option<u64>>) -> (r: Result<(String, String), String>)
    requires
        latencies@.len() == 4,
    ensures
        fastest(latencies@) is None <==> r is Err,
        r matches Err(e) ==> e@ == "所有 npm 源均无法连接"@,
        r matches Ok(p) ==> fastest(latencies@) matches Some(k) && (p.0@, p.1@) == registries()[k],
{
    let cands = registry_candidates();
    let mut best: Option<usize> = None;
    let mut i: usize = 0;
    while i < 4
        invariant
            latencies@.len() == 4,
            i <= 4,
            best matches Some(b) ==> b < i && latencies@[b as int] is Some
                && (forall|j: int| 0 <= j < i && latencies@[j] is Some ==> latencies@[b as int].unwrap() <= latencies@[j].unwrap())
                && (forall|j: int| 0 <= j < b && latencies@[j] is Some ==> latencies@[b as int].unwrap() < latencies@[j].unwrap()),
            best is None ==> forall|j: int| 0 <= j < i ==> latencies@[j] is None,
        decreases 4 - i,
    {
        if let Some(ms) = latencies[i] {
            match best {
                None => best = Some(i),
                Some(b) => {
                    let cur = latencies[b].unwrap();
                    if ms < cur {
                        best = Some(i);
                    }
                },
            }
        }
        i = i + 1;
    }
    match best {
        None => {
            assert(!(exists|i: int| 0 <= i < latencies@.len() && latencies@[i] is Some));
            Err(owned("所有 npm 源均无法连接"))
        },
        Some(b) => {
            proof {
                let lat = latencies@;
                assert(lat[b as int] is Some);
                let c = fastest(lat).unwrap();
                assert(c == b) by {
                    if c < b {
                        assert(lat[b as int].unwrap() < lat[c].unwrap());
                    } else if c > b {
                        assert(lat[c].unwrap() < lat[b as int].unwrap());
                    }
                }
            }
            Ok((cands[b].0.clone(), cands[b].1.clone()))
        },
    }
}

// ───────────────────────────── npm ─────────────────────────────

/// `<folder of node.exe>\node_modules\npm\bin\npm-cli.js`.
pub open spec fn npm_cli_path(node_dir: Seq<char>) -> Seq<char> {
    join_path(join_path(join_path(join_path(node_dir, "node_modules"@), "npm"@), "bin"@), "npm-cli.js"@)
}

/// npm's entry script next to `node_bin`, when it exists. Whether it exists is
/// the disk's answer: a node.exe without a folder never has one, and one
/// found is the script next to it.
pub fn npm_cli_for(node_bin: &str) -> (r: Result<String, String>)
    ensures
        r matches Err(e) ==> e@ == "无法定位 npm（npm-cli.js）"@,
        parent_path(node_bin@) is None ==> r is Err,
        r matches Ok(p) ==> parent_path(node_bin@) matches Some(d) && p@ == npm_cli_path(d),
{
    match parent_of(node_bin) {
        None => Err(owned("无法定位 npm（npm-cli.js）")),
        Some(d) => {
            let p = join(join(join(join(d.as_str(), "node_modules").as_str(), "npm").as_str(), "bin").as_str(), "npm-cli.js");
            if path_exists(p.as_str()) {
                Ok(p)
            } else {
                Err(owned("无法定位 npm（npm-cli.js）"))
            }
        },
    }
}

/// The strings by their views.
pub open spec fn strings_view(v: Seq<String>) -> Seq<Seq<char>> {
    v.map_values(|s: String| s@)
}

/// npm's arguments for the global install of the latest dsh from `registry`.
pub open spec fn global_install_args(cli: Seq<char>, registry: Seq<char>) -> Seq<Seq<char>> {
    seq![cli, "install"@, "-g"@, "@deepseek-ai/dsh@latest"@, "--registry"@, registry, "--loglevel"@, "info"@, "--no-fund"@, "--no-audit"@]
}

/// The arguments to node for `npm install -g @deepseek-ai/dsh@latest`.
pub fn global_install_command(cli: &str, registry: &str) -> (r: Vec<String>)
    ensures
        strings_view(r@) == global_install_args(cli@, registry@),
{
    let r = vec![
        owned(cli), owned("install"), owned("-g"), owned("@deepseek-ai/dsh@latest"), owned("--registry"),
        owned(registry), owned("--loglevel"), owned("info"), owned("--no-fund"), owned("--no-audit"),
    ];
    assert(strings_view(r@) =~= global_install_args(cli@, registry@));
    r
}

/// The package argument for version `spec` of dsh.
pub open spec fn dsh_package(spec: Seq<char>) -> Seq<char> {
    "@deepseek-ai/dsh@"@ + spec
}

/// npm's arguments for installing version `spec` of dsh into `prefix`.
pub open spec fn prefix_install_args(cli: Seq<char>, prefix: Seq<char>, spec: Seq<char>, registry: Seq<char>) -> Seq<Seq<char>> {
    seq![cli, "install"@, "--prefix"@, prefix, dsh_package(spec), "--registry"@, registry, "--loglevel"@, "info"@, "--no-fund"@, "--no-audit"@]
}

/// The arguments to node for `npm install --prefix <prefix> @deepseek-ai/dsh@<spec>`.
pub fn prefix_install_command(cli: &str, prefix: &str, spec: &str, registry: &str) -> (r: Vec<String>)
    ensures
        strings_view(r@) == prefix_install_args(cli@, prefix@, spec@, registry@),
{
    let mut p = chars_of("@deepseek-ai/dsh@");
    push_all(&mut p, &chars_of(spec));
    let pkg = string_of(&p);
    let r = vec![
        owned(cli), owned("install"), owned("--prefix"), owned(prefix), pkg, owned("--registry"),
        owned(registry), owned("--loglevel"), owned("info"), owned("--no-fund"), owned("--no-audit"),
    ];
    assert(strings_view(r@) =~= prefix_install_args(cli@, prefix@, spec@, registry@));
    r
}

/// npm's arguments for `npm root -g`.
pub fn npm_root_command(cli: &str) -> (r: Vec<String>)
    ensures
        strings_view(r@) == seq![cli@, "root"@, "-g"@],
{
    let r = vec![owned(cli), owned("root"), owned("-g")];
    assert(strings_view(r@) =~= seq![cli@, "root"@, "-g"@]);
    r
}

/// `<modules>\@deepseek-ai\dsh\lib\bin.js`: the entry script of dsh in a
/// `node_modules` folder.
pub open spec fn modules_bin_path(modules: Seq<char>) -> Seq<char> {
    join_path(join_path(join_path(join_path(modules, "@deepseek-ai"@), "dsh"@), "lib"@), "bin.js"@)
}

/// The entry script of the global install, from what `npm root -g` printed
/// (the global `node_modules` folder, trimmed); an error when it printed nothing.
pub fn global_bin_from_root(output: &str) -> (r: Result<String, String>)
    ensures
        trim(output@).len() == 0 ==> (r matches Err(e) && e@ == "无法确定 npm 全局安装目录"@),
        trim(output@).len() > 0 ==> (r matches Ok(b) && b@ == modules_bin_path(trim(output@))),
{
    let root = trim_chars(&chars_of(output));
    if root.len() == 0 {
        return Err(owned("无法确定 npm 全局安装目录"));
    }
    let r = string_of(&root);
    Ok(join(join(join(join(r.as_str(), "@deepseek-ai").as_str(), "dsh").as_str(), "lib").as_str(), "bin.js"))
}

/// The message when an install ended without the entry script at `bin`.
pub fn missing_entry_message(bin: &str) -> (r: String)
    ensures
        r@ == "安装完成但未找到 dsh 入口: "@ + bin@,
{
    let mut v = chars_of("安装完成但未找到 dsh 入口: ");
    push_all(&mut v, &chars_of(bin));
    string_of(&v)
}

/// The progress shown while npm installs from registry `name`: the version
/// asked for, when one is (an install into a version folder), else none (the
/// global install of the latest).
pub fn install_progress(name: &str, spec: &Option<String>) -> (r: String)
    ensures
        r@ == "正在从 "@ + name@ + match spec {
            Some(s) => " 安装 dsh "@ + s@ + "…"@,
            None => " 安装 dsh…"@,
        },
{
    let mut v = chars_of("正在从 ");
    push_all(&mut v, &chars_of(name));
    match spec {
        Some(s) => {
            push_all(&mut v, &chars_of(" 安装 dsh "));
            push_all(&mut v, &chars_of(s.as_str()));
            push_all(&mut v, &chars_of("…"));
        },
        None => {
            push_all(&mut v, &chars_of(" 安装 dsh…"));
        },
    }
    string_of(&v)
}

/// The progress shown while npm fetches packages from registry `name`.
pub fn fetch_progress(name: &str) -> (r: String)
    ensures
        r@ == "正在从 "@ + name@ + " 下载依赖…"@,
{
    let mut v = chars_of("正在从 ");
    push_all(&mut v, &chars_of(name));
    push_all(&mut v, &chars_of(" 下载依赖…"));
    string_of(&v)
}

/// The manifest placed in an empty version folder before npm installs into it.
pub const PREFIX_MANIFEST_TEXT: &'static str = "{\n  \"name\": \"dsh-desktop-runtime\",\n  \"private\": true,\n  \"version\": \"0.0.0\"\n}\n";

/// The version an install reports: the one read back from the installed
/// package, else the one asked for.
pub fn installed_version(read_back: &Option<String>, spec: &str) -> (r: String)
    ensures
        r@ == match read_back {
            Some(v) => v@,
            None => spec@,
        },
{
    match read_back {
        Some(v) => v.clone(),
        None => owned(spec),
    }
}

// ───────────────────────────── npm's log ─────────────────────────────

/// How many of npm's last log lines are kept for an error message.
pub open spec fn tail_limit() -> nat {
    40
}

/// The log lines kept after the line `t` (already trimmed) is added.
pub open spec fn push_tail(tail: Seq<Seq<char>>, t: Seq<char>) -> Seq<Seq<char>> {
    if tail.len() + 1 > tail_limit() {
        tail.push(t).drop_first()
    } else {
        tail.push(t)
    }
}

/// npm's install log as the installer follows it: the last lines, and the
/// number of packages fetched so far.
pub struct InstallLog {
    pub tail: Vec<String>,
    pub fetched: u32,
}

impl InstallLog {
    /// Nothing read yet.
    pub fn new() -> (r: InstallLog)
        ensures
            r.tail@.len() == 0,
            r.fetched == 0,
    {
        InstallLog { tail: Vec::new(), fetched: 0 }
    }

    /// Reads one line of npm's log: blank lines are skipped; a line with
    /// `http fetch` counts one more package (the count wraps around at 2^32);
    /// the line, without trailing whitespace, is kept among the last 40.
    /// Returns whether a fetch was counted.
    pub fn push_line(&mut self, line: &str) -> (r: bool)
        requires
            old(self).tail@.len() <= tail_limit(),
        ensures
            final(self).tail@.len() <= tail_limit(),
            trim_end(line@).len() == 0 ==> !r && final(self).fetched == old(self).fetched
                && strings_view(final(self).tail@) == strings_view(old(self).tail@),
            trim_end(line@).len() > 0 ==> r == contains(trim_end(line@), "http fetch"@)
                && final(self).fetched == (if r { #[verifier::truncate] ((old(self).fetched + 1) as u32) } else { old(self).fetched })
                && strings_view(final(self).tail@) == push_tail(strings_view(old(self).tail@), trim_end(line@)),
    {
        let v = chars_of(line);
        let e = trim_end_exec(&v, v.len());
        proof {
            crate::text::lemma_trim_end_bounds(v@, v@.len() as int);
        }
        let t = crate::text::slice_chars(&v, 0, e);
        assert(t@ == trim_end(line@));
        if t.len() == 0 {
            return false;
        }
        let hit = contains_exec(&t, &chars_of("http fetch"));
        if hit {
            let f0 = self.fetched;
            let f1 = f0.wrapping_add(1);
            assert(f1 == (f0 + 1) as u32) by (bit_vector)
                requires
                    f1 == f0.wrapping_add(1);
            self.fetched = f1;
        }
        let ts = string_of(&t);
        let ghost before = strings_view(self.tail@);
        self.tail.push(ts);
        assert(strings_view(self.tail@) =~= before.push(t@));
        if self.tail.len() > 40 {
            let ghost mid = self.tail@;
            self.tail.remove(0);
            assert(strings_view(self.tail@) =~= before.push(t@).drop_first());
        }
        hit
    }
}

/// The error detail: the last four lines, the latest first, joined by spaces.
pub open spec fn tail_detail(tail: Seq<Seq<char>>) -> Seq<char>
    decreases tail.len(),
{
    let n = tail.len();
    if n == 0 {
        Seq::empty()
    } else {
        let last4 = if n > 4 { tail.skip(n - 4) } else { tail };
        joined_reversed(last4)
    }
}

/// `parts` from the last to the first, joined by single spaces.
pub open spec fn joined_reversed(parts: Seq<Seq<char>>) -> Seq<char>
    decreases parts.len(),
{
    if parts.len() == 0 {
        Seq::empty()
    } else if parts.len() == 1 {
        parts[0]
    } else {
        parts.last() + " "@ + joined_reversed(parts.drop_last())
    }
}

/// `format!("{:?}", code)` of an exit code.
pub open spec fn exit_code_text(code: Option<i32>) -> Seq<char> {
    match code {
        None => "None"@,
        Some(c) => "Some("@ + zpad_signed(c as int, 0) + ")"@,
    }
}

/// The message of a failed npm install.
pub open spec fn install_failed_text(code: Option<i32>, tail: Seq<Seq<char>>) -> Seq<char> {
    let d = tail_detail(tail);
    "npm 安装 dsh 失败 (exit="@ + exit_code_text(code) + ")"@ + (if d.len() == 0 {
        Seq::empty()
    } else {
        ": "@ + d
    })
}

/// The exit code as `{:?}` prints it.
pub fn exit_code_string(code: Option<i32>) -> (r: String)
    ensures
        r@ == exit_code_text(code),
{
    match code {
        None => owned("None"),
        Some(c) => {
            let mut v = chars_of("Some(");
            push_all(&mut v, &zpad_i64(c as i64, 0));
            push_all(&mut v, &chars_of(")"));
            string_of(&v)
        },
    }
}

/// The message of an npm install that exited with `code`, with npm's last lines.
pub fn install_failure_message(code: Option<i32>, log: &InstallLog) -> (r: String)
    ensures
        r@ == install_failed_text(code, strings_view(log.tail@)),
{
    let ghost tail = strings_view(log.tail@);
    let n = log.tail.len();
    let start: usize = if n > 4 { n - 4 } else { 0 };
    let ghost last4 = if n > 4 { tail.skip(n - 4) } else { tail };
    assert(last4 =~= tail.subrange(start as int, n as int));
    let mut d: Vec<char> = Vec::new();
    let mut k = n;
    while k > start
        invariant
            start <= k <= n,
            n == log.tail@.len(),
            tail == strings_view(log.tail@),
            last4 == tail.subrange(start as int, n as int),
            k == n ==> d@.len() == 0,
            k < n ==> d@ + (if k > start { " "@ + joined_reversed(tail.subrange(start as int, k as int)) } else { Seq::empty() })
                == joined_reversed(last4),
        decreases k,
    {
        if k < n {
            push_all(&mut d, &chars_of(" "));
        }
        push_all(&mut d, &chars_of(log.tail[k - 1].as_str()));
        proof {
            assert(tail[k - 1] == log.tail@[k - 1]@);
            let sub = tail.subrange(start as int, k as int);
            assert(sub.drop_last() =~= tail.subrange(start as int, k - 1));
            assert(sub.last() == tail[k - 1]);
        }
        k = k - 1;
        proof {
            if k > start {
                assert(d@ + " "@ + joined_reversed(tail.subrange(start as int, k as int)) =~= d@ + (" "@ + joined_reversed(tail.subrange(start as int, k as int))));
            }
        }
    }
    proof {
        if n > 0 {
            assert(d@ =~= joined_reversed(last4));
        }
    }
    let mut v = chars_of("npm 安装 dsh 失败 (exit=");
    push_all(&mut v, &chars_of(exit_code_string(code).as_str()));
    push_all(&mut v, &chars_of(")"));
    if d.len() > 0 {
        push_all(&mut v, &chars_of(": "));
        push_all(&mut v, &d);
    }
    string_of(&v)
}

} // verus!
