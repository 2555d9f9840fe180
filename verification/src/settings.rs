//! The GUI's remembered settings: the last backend kind and a short list of
//! recently opened workspaces.
use vstd::prelude::*;
use crate::data::copy_string;
use crate::text::{append, chars_of, string_from};

verus! {

/// The most workspaces the recent list keeps.
pub const MAX_RECENT_WORKSPACES: usize = 8;

/// The settings file's name.
pub const SETTINGS_FILE: &'static str = "gui-settings.json";

/// Where the settings live, as path pieces to join in order: the directory
/// `config_dir` names if set; otherwise, from the home directory (or the
/// current one, or `.`), the application support folder on macOS, else
/// `glues` under `XDG_CONFIG_HOME` if set, else `.config/glues`.
pub open spec fn settings_dir_spec(
    config_dir: Option<Seq<char>>,
    home: Option<Seq<char>>,
    current_dir: Option<Seq<char>>,
    macos: bool,
    xdg_config_home: Option<Seq<char>>,
) -> Seq<Seq<char>> {
    match config_dir {
        Some(d) => seq![d],
        None => {
            let base = match home {
                Some(h) => h,
                None => match current_dir {
                    Some(c) => c,
                    None => "."@,
                },
            };
            if macos {
                seq![base, "Library"@, "Application Support"@, "Glues"@]
            } else {
                match xdg_config_home {
                    Some(x) => seq![x, "glues"@],
                    None => seq![base, ".config"@, "glues"@],
                }
            }
        },
    }
}

/// The text of an optional string.
pub open spec fn opt_text(s: Option<String>) -> Option<Seq<char>> {
    match s {
        Some(t) => Some(t@),
        None => None,
    }
}

/// The directory of the settings file, as path pieces to join in order,
/// from the environment's values.
pub fn settings_dir(
    config_dir: Option<String>,
    home: Option<String>,
    current_dir: Option<String>,
    macos: bool,
    xdg_config_home: Option<String>,
) -> (r: Vec<String>)
    ensures
        r@.map_values(|p: String| p@) == settings_dir_spec(
            opt_text(config_dir),
            opt_text(home),
            opt_text(current_dir),
            macos,
            opt_text(xdg_config_home),
        ),
{
    let mut pieces: Vec<String> = Vec::new();
    match config_dir {
        Some(d) => {
            pieces.push(d);
            assert(pieces@.map_values(|p: String| p@) =~= settings_dir_spec(
                opt_text(config_dir), opt_text(home), opt_text(current_dir), macos, opt_text(xdg_config_home)));
            return pieces;
        },
        None => {},
    }
    let base = match home {
        Some(h) => h,
        None => match current_dir {
            Some(c) => c,
            None => String::from_str("."),
        },
    };
    if macos {
        pieces.push(base);
        pieces.push(String::from_str("Library"));
        pieces.push(String::from_str("Application Support"));
        pieces.push(String::from_str("Glues"));
    } else {
        match xdg_config_home {
            Some(x) => {
                pieces.push(x);
                pieces.push(String::from_str("glues"));
            },
            None => {
                pieces.push(base);
                pieces.push(String::from_str(".config"));
                pieces.push(String::from_str("glues"));
            },
        }
    }
    assert(pieces@.map_values(|p: String| p@) =~= settings_dir_spec(
        opt_text(config_dir), opt_text(home), opt_text(current_dir), macos, opt_text(xdg_config_home)));
    pieces
}

/// The settings file's path, as path pieces to join in order: its
/// directory, then its name.
pub fn settings_path(
    config_dir: Option<String>,
    home: Option<String>,
    current_dir: Option<String>,
    macos: bool,
    xdg_config_home: Option<String>,
) -> (r: Vec<String>)
    ensures
        r@.map_values(|p: String| p@) == settings_dir_spec(
            opt_text(config_dir),
            opt_text(home),
            opt_text(current_dir),
            macos,
            opt_text(xdg_config_home),
        ).push(SETTINGS_FILE@),
{
    let mut pieces = settings_dir(config_dir, home, current_dir, macos, xdg_config_home);
    let ghost before = pieces@.map_values(|p: String| p@);
    pieces.push(String::from_str(SETTINGS_FILE));
    assert(pieces@.map_values(|p: String| p@) =~= before.push(SETTINGS_FILE@));
    pieces
}

/// A kind of storage backend, as remembered.
#[derive(Clone, Copy, Debug, PartialEq, Eq, Structural)]
pub enum RecentBackend {
    Memory,
    File,
    Redb,
    Git,
    Mongo,
    Proxy,
}

/// A workspace that was opened before.
#[derive(Clone, Debug, PartialEq, Eq)]
pub enum RecentWorkspace {
    File { path: String },
    Redb { path: String },
    Git { path: String, remote: String, branch: String },
    Mongo { conn_str: String, db_name: String },
    Proxy { url: String },
}

/// The GUI's settings.
#[derive(Clone, Debug, PartialEq, Eq)]
pub struct GuiSettings {
    pub last_backend: Option<RecentBackend>,
    pub recent_workspaces: Vec<RecentWorkspace>,
}

impl Default for GuiSettings {
    fn default() -> (s: GuiSettings)
        ensures
            s.last_backend is None,
            s.recent_workspaces@ == Seq::<RecentWorkspace>::empty(),
    {
        GuiSettings { last_backend: None, recent_workspaces: Vec::new() }
    }
}

/// The backend kind of a recent workspace.
pub open spec fn backend_of(w: RecentWorkspace) -> RecentBackend {
    match w {
        RecentWorkspace::File { .. } => RecentBackend::File,
        RecentWorkspace::Redb { .. } => RecentBackend::Redb,
        RecentWorkspace::Git { .. } => RecentBackend::Git,
        RecentWorkspace::Mongo { .. } => RecentBackend::Mongo,
        RecentWorkspace::Proxy { .. } => RecentBackend::Proxy,
    }
}

/// The label shown for a recent workspace's backend.
pub open spec fn backend_label_of(w: RecentWorkspace) -> Seq<char> {
    match w {
        RecentWorkspace::File { .. } => "File"@,
        RecentWorkspace::Redb { .. } => "redb"@,
        RecentWorkspace::Git { .. } => "Git"@,
        RecentWorkspace::Mongo { .. } => "Mongo"@,
        RecentWorkspace::Proxy { .. } => "Proxy"@,
    }
}

/// The key under which two recent workspaces count as the same one: the
/// kind and the location, but not a Git remote or branch.
pub open spec fn dedupe_key_of(w: RecentWorkspace) -> Seq<char> {
    match w {
        RecentWorkspace::File { path } => "file:"@ + path@,
        RecentWorkspace::Redb { path } => "redb:"@ + path@,
        RecentWorkspace::Git { path, .. } => "git:"@ + path@,
        RecentWorkspace::Mongo { conn_str, db_name } => "mongo:"@ + conn_str@ + ":"@ + db_name@,
        RecentWorkspace::Proxy { url } => "proxy:"@ + url@,
    }
}

/// The second line shown for a recent workspace.
pub open spec fn subtitle_of(w: RecentWorkspace) -> Seq<char> {
    match w {
        RecentWorkspace::File { path } => path@,
        RecentWorkspace::Redb { path } => path@,
        RecentWorkspace::Git { path, remote, branch } => branch@ + " - "@ + remote@ + " - "@ + path@,
        RecentWorkspace::Mongo { conn_str, .. } => conn_str@,
        RecentWorkspace::Proxy { url } => url@,
    }
}

/// Whether `piece` is a contiguous part of `whole`.
pub open spec fn is_piece_of(piece: Seq<char>, whole: Seq<char>) -> bool {
    exists|i: int, j: int| 0 <= i <= j <= whole.len() && whole.subrange(i, j) == piece
}

/// The text after the last `/` of `p`, or all of `p` where it has none.
pub open spec fn last_segment(p: Seq<char>) -> Seq<char>
    decreases p.len(),
{
    if p.len() == 0 {
        p
    } else if p.last() == '/' {
        Seq::empty()
    } else {
        last_segment(p.drop_last()).push(p.last())
    }
}

/// Whether `p` is a plain `/`-separated path that ends in a name: it holds
/// no `\` and no `:`, does not start with two `/`, and the text after its
/// last `/` is neither empty nor `.` nor `..`.
pub open spec fn ends_in_plain_name(p: Seq<char>) -> bool {
    &&& !p.contains('\\')
    &&& !p.contains(':')
    &&& !(p.len() >= 2 && p[0] == '/' && p[1] == '/')
    &&& last_segment(p).len() > 0
    &&& last_segment(p) != seq!['.']
    &&& last_segment(p) != seq!['.', '.']
}

/// Calls std's `Path::file_name` on `path` and reads the name back as text.
/// Which part of the path std takes as the final component follows the
/// platform's path rules. The contract states that the name, if any, is a
/// part of the path's text, and that a plain `/`-separated path ending in
/// a name, with nothing that could read as a drive, a network share or a
/// backslash separator, has that name as its final component. The last
/// rests on `/` separating components, as it does on Unix-like systems and
/// on Windows.
#[verifier::external_body]
fn file_name(path: &str) -> (r: Option<String>)
    ensures
        r matches Some(n) ==> is_piece_of(n@, path@),
        ends_in_plain_name(path@) ==> r is Some && r->0@ == last_segment(path@),
{
    match std::path::Path::new(path).file_name() {
        Some(name) => match name.to_str() {
            Some(text) => Some(text.to_owned()),
            None => None,
        },
        None => None,
    }
}

/// The title of a path whose final component is `name`: that component,
/// or the whole path where it has none or an empty one.
pub open spec fn path_title_spec(path: Seq<char>, name: Option<Seq<char>>) -> Seq<char> {
    match name {
        Some(n) => if n.len() > 0 { n } else { path },
        None => path,
    }
}

/// Whether `t` can be the title of `path`: the path itself, or a part of
/// it that is not empty; for a plain `/`-separated path ending in a name,
/// exactly that name.
pub open spec fn is_path_title(t: Seq<char>, path: Seq<char>) -> bool {
    &&& t == path || (t.len() > 0 && is_piece_of(t, path))
    &&& ends_in_plain_name(path) ==> t == last_segment(path)
}

/// `s` up to, not including, its first `/`.
pub open spec fn first_segment(s: Seq<char>) -> Seq<char>
    decreases s.len(),
{
    if s.len() == 0 {
        s
    } else if s[0] == '/' {
        Seq::empty()
    } else {
        seq![s[0]] + first_segment(s.drop_first())
    }
}

/// The title of a proxy URL: its host part, after any `http://` or
/// `https://`, or the whole URL where that part is empty.
pub open spec fn proxy_title_spec(url: Seq<char>) -> Seq<char> {
    let rest = if "http://"@.is_prefix_of(url) {
        url.skip(7)
    } else if "https://"@.is_prefix_of(url) {
        url.skip(8)
    } else {
        url
    };
    let host = first_segment(rest);
    if host.len() > 0 { host } else { url }
}

/// Whether `t` can be the title shown for a recent workspace: a title of
/// its path, its database's name, or its proxy's host.
pub open spec fn is_title_of(t: Seq<char>, w: RecentWorkspace) -> bool {
    match w {
        RecentWorkspace::File { path } => is_path_title(t, path@),
        RecentWorkspace::Redb { path } => is_path_title(t, path@),
        RecentWorkspace::Git { path, .. } => is_path_title(t, path@),
        RecentWorkspace::Mongo { db_name, .. } => t == db_name@,
        RecentWorkspace::Proxy { url } => t == proxy_title_spec(url@),
    }
}

/// The workspaces of `ws` whose key is not `key`, in order.
pub open spec fn without_key(ws: Seq<RecentWorkspace>, key: Seq<char>) -> Seq<RecentWorkspace>
    decreases ws.len(),
{
    if ws.len() == 0 {
        ws
    } else if dedupe_key_of(ws.last()) == key {
        without_key(ws.drop_last(), key)
    } else {
        without_key(ws.drop_last(), key).push(ws.last())
    }
}

/// The recent list after `recent` was opened: it comes first, any earlier
/// entry with its key goes, and the list keeps at most eight entries.
pub open spec fn upserted(ws: Seq<RecentWorkspace>, recent: RecentWorkspace) -> Seq<RecentWorkspace> {
    let all = seq![recent] + without_key(ws, dedupe_key_of(recent));
    if all.len() > MAX_RECENT_WORKSPACES { all.take(MAX_RECENT_WORKSPACES as int) } else { all }
}

/// The first workspace of `ws`, from the `i`-th on, of backend kind `b`.
pub open spec fn first_of_backend(ws: Seq<RecentWorkspace>, b: RecentBackend, i: nat) -> Option<RecentWorkspace>
    decreases ws.len() - i,
{
    if i >= ws.len() {
        None
    } else if backend_of(ws[i as int]) == b {
        Some(ws[i as int])
    } else {
        first_of_backend(ws, b, i + 1)
    }
}

impl RecentWorkspace {
    /// The backend kind.
    pub fn backend(&self) -> (b: RecentBackend)
        ensures
            b == backend_of(*self),
    {
        match self {
            RecentWorkspace::File { .. } => RecentBackend::File,
            RecentWorkspace::Redb { .. } => RecentBackend::Redb,
            RecentWorkspace::Git { .. } => RecentBackend::Git,
            RecentWorkspace::Mongo { .. } => RecentBackend::Mongo,
            RecentWorkspace::Proxy { .. } => RecentBackend::Proxy,
        }
    }

    /// The label of the backend kind.
    pub fn backend_label(&self) -> (l: &'static str)
        ensures
            l@ == backend_label_of(*self),
    {
        match self {
            RecentWorkspace::File { .. } => "File",
            RecentWorkspace::Redb { .. } => "redb",
            RecentWorkspace::Git { .. } => "Git",
            RecentWorkspace::Mongo { .. } => "Mongo",
            RecentWorkspace::Proxy { .. } => "Proxy",
        }
    }

    /// The title: the last path component, the database name, or the
    /// proxy's host.
    pub fn title(&self) -> (t: String)
        ensures
            is_title_of(t@, *self),
    {
        match self {
            RecentWorkspace::File { path } => path_title(path.as_str()),
            RecentWorkspace::Redb { path } => path_title(path.as_str()),
            RecentWorkspace::Git { path, .. } => path_title(path.as_str()),
            RecentWorkspace::Mongo { db_name, .. } => copy_string(db_name),
            RecentWorkspace::Proxy { url } => proxy_title(url.as_str()),
        }
    }

    /// The second line: the location in full.
    pub fn subtitle(&self) -> (t: String)
        ensures
            t@ == subtitle_of(*self),
    {
        match self {
            RecentWorkspace::File { path } => copy_string(path),
            RecentWorkspace::Redb { path } => copy_string(path),
            RecentWorkspace::Git { path, remote, branch } => {
                let mut s = copy_string(branch);
                append(&mut s, " - ");
                append(&mut s, remote.as_str());
                append(&mut s, " - ");
                append(&mut s, path.as_str());
                s
            },
            RecentWorkspace::Mongo { conn_str, .. } => copy_string(conn_str),
            RecentWorkspace::Proxy { url } => copy_string(url),
        }
    }

    /// The key under which two recent workspaces count as the same one.
    pub fn dedupe_key(&self) -> (k: String)
        ensures
            k@ == dedupe_key_of(*self),
    {
        match self {
            RecentWorkspace::File { path } => {
                let mut s = String::from_str("file:");
                append(&mut s, path.as_str());
                s
            },
            RecentWorkspace::Redb { path } => {
                let mut s = String::from_str("redb:");
                append(&mut s, path.as_str());
                s
            },
            RecentWorkspace::Git { path, .. } => {
                let mut s = String::from_str("git:");
                append(&mut s, path.as_str());
                s
            },
            RecentWorkspace::Mongo { conn_str, db_name } => {
                let mut s = String::from_str("mongo:");
                append(&mut s, conn_str.as_str());
                append(&mut s, ":");
                append(&mut s, db_name.as_str());
                s
            },
            RecentWorkspace::Proxy { url } => {
                let mut s = String::from_str("proxy:");
                append(&mut s, url.as_str());
                s
            },
        }
    }
}

/// The title of a path whose final component, as the platform reads it,
/// is `name`.
pub fn title_for_path(path: &str, name: Option<String>) -> (t: String)
    ensures
        t@ == path_title_spec(path@, match name { Some(n) => Some(n@), None => None }),
{
    match name {
        Some(name) => {
            if name.as_str().unicode_len() > 0 {
                name
            } else {
                String::from_str(path)
            }
        },
        None => String::from_str(path),
    }
}

/// The title of a path: its final component, or the whole path where it
/// has none or an empty one.
pub fn path_title(path: &str) -> (t: String)
    ensures
        is_path_title(t@, path@),
{
    let name = file_name(path);
    let t = title_for_path(path, name);
    t
}

/// The title of a proxy URL.
pub fn proxy_title(url: &str) -> (t: String)
    ensures
        t@ == proxy_title_spec(url@),
{
    let v = chars_of(url);
    let n = v.len();
    let http = chars_of("http://");
    let https = chars_of("https://");
    proof {
        reveal_strlit("http://");
        reveal_strlit("https://");
    }
    let start: usize = if starts_with(&v, &http) {
        7
    } else if starts_with(&v, &https) {
        8
    } else {
        0
    };
    let ghost rest = v@.skip(start as int);
    let mut end = start;
    while end < n && v[end] != '/'
        invariant
            n == v@.len(),
            start <= end <= n,
            rest == v@.skip(start as int),
            forall|k: int| start <= k < end ==> v@[k] != '/',
        decreases n - end,
    {
        end = end + 1;
    }
    proof {
        lemma_first_segment(rest, (end - start) as int);
        assert(rest.take((end - start) as int) =~= v@.subrange(start as int, end as int));
        let spec_rest = if "http://"@.is_prefix_of(url@) {
            url@.skip(7)
        } else if "https://"@.is_prefix_of(url@) {
            url@.skip(8)
        } else {
            url@
        };
        assert(spec_rest =~= rest);
        assert(first_segment(spec_rest) =~= v@.subrange(start as int, end as int));
    }
    if end > start {
        string_from(&v, start, end)
    } else {
        String::from_str(url)
    }
}

proof fn lemma_first_segment(s: Seq<char>, k: int)
    requires
        0 <= k <= s.len(),
        forall|j: int| 0 <= j < k ==> s[j] != '/',
        k == s.len() || s[k] == '/',
    ensures
        first_segment(s) == s.take(k),
    decreases k,
{
    if k == 0 {
        assert(s.take(0) =~= Seq::<char>::empty());
    } else {
        let t = s.drop_first();
        assert forall|j: int| 0 <= j < k - 1 implies t[j] != '/' by {
            assert(t[j] == s[j + 1]);
        }
        if k < s.len() {
            assert(t[k - 1] == s[k]);
        }
        lemma_first_segment(t, k - 1);
        assert(seq![s[0]] + t.take(k - 1) =~= s.take(k));
    }
}

fn starts_with(v: &Vec<char>, p: &Vec<char>) -> (r: bool)
    ensures
        r == p@.is_prefix_of(v@),
{
    if p.len() > v.len() {
        return false;
    }
    for k in 0..p.len()
        invariant
            p@.len() <= v@.len(),
            forall|m: int| 0 <= m < k ==> p@[m] == v@[m],
    {
        if p[k] != v[k] {
            return false;
        }
    }
    assert(v@.take(p@.len() as int) =~= p@);
    true
}

proof fn lemma_without_key(ws: Seq<RecentWorkspace>, key: Seq<char>)
    ensures
        without_key(ws, key).len() <= ws.len(),
        forall|i: int| 0 <= i < without_key(ws, key).len() ==> dedupe_key_of(#[trigger] without_key(ws, key)[i]) != key,
        forall|i: int| 0 <= i < without_key(ws, key).len() ==> ws.contains(#[trigger] without_key(ws, key)[i]),
        (forall|i: int| 0 <= i < ws.len() ==> dedupe_key_of(#[trigger] ws[i]) != key) ==> without_key(ws, key) == ws,
    decreases ws.len(),
{
    if ws.len() > 0 {
        let rest = ws.drop_last();
        lemma_without_key(rest, key);
        assert forall|i: int| 0 <= i < without_key(ws, key).len() implies ws.contains(#[trigger] without_key(ws, key)[i]) by {
            let w = without_key(ws, key)[i];
            if i < without_key(rest, key).len() {
                assert(rest.contains(w));
                let j = choose|j: int| 0 <= j < rest.len() && rest[j] == w;
                assert(ws[j] == w);
            } else {
                assert(ws[ws.len() - 1] == w);
            }
        }
        if forall|i: int| 0 <= i < ws.len() ==> dedupe_key_of(#[trigger] ws[i]) != key {
            assert forall|i: int| 0 <= i < rest.len() implies dedupe_key_of(#[trigger] rest[i]) != key by {
                assert(rest[i] == ws[i]);
            }
            assert(dedupe_key_of(ws[ws.len() - 1]) != key);
            assert(rest.push(ws.last()) =~= ws);
        }
    }
}

/// Opening a workspace puts it first in the recent list, keeps at most
/// eight entries, leaves no other entry with its key, and keeps only
/// entries that were there before.
pub proof fn law_upsert_recent(ws: Seq<RecentWorkspace>, recent: RecentWorkspace)
    ensures
        upserted(ws, recent).len() >= 1,
        upserted(ws, recent)[0] == recent,
        upserted(ws, recent).len() <= MAX_RECENT_WORKSPACES,
        forall|i: int| 1 <= i < upserted(ws, recent).len() ==>
            dedupe_key_of(#[trigger] upserted(ws, recent)[i]) != dedupe_key_of(recent) && ws.contains(upserted(ws, recent)[i]),
{
    let key = dedupe_key_of(recent);
    lemma_without_key(ws, key);
    let all = seq![recent] + without_key(ws, key);
    assert forall|i: int| 1 <= i < upserted(ws, recent).len() implies
        dedupe_key_of(#[trigger] upserted(ws, recent)[i]) != key && ws.contains(upserted(ws, recent)[i]) by {
        assert(upserted(ws, recent)[i] == all[i]);
        assert(all[i] == without_key(ws, key)[i - 1]);
    }
}

/// Opening the same workspace twice in a row leaves the recent list as
/// after the first time.
pub proof fn law_upsert_recent_idempotent(ws: Seq<RecentWorkspace>, recent: RecentWorkspace)
    ensures
        upserted(upserted(ws, recent), recent) == upserted(ws, recent),
{
    let key = dedupe_key_of(recent);
    let once = upserted(ws, recent);
    law_upsert_recent(ws, recent);
    let tail = once.drop_first();
    assert forall|i: int| 0 <= i < tail.len() implies dedupe_key_of(#[trigger] tail[i]) != key by {
        assert(tail[i] == once[i + 1]);
    }
    lemma_without_key(tail, key);
    assert(once =~= seq![recent] + tail);
    assert(without_key(once, key) == without_key(tail, key)) by {
        lemma_without_key_skips_first(recent, tail, key);
    }
    assert(seq![recent] + tail =~= once);
}

/// Whether no two workspaces of `ws` share a key.
pub open spec fn keys_distinct(ws: Seq<RecentWorkspace>) -> bool {
    forall|i: int, j: int| 0 <= i < j < ws.len() ==> dedupe_key_of(#[trigger] ws[i]) != dedupe_key_of(#[trigger] ws[j])
}

proof fn lemma_without_key_distinct(ws: Seq<RecentWorkspace>, key: Seq<char>)
    requires
        keys_distinct(ws),
    ensures
        keys_distinct(without_key(ws, key)),
    decreases ws.len(),
{
    if ws.len() > 0 {
        let rest = ws.drop_last();
        assert forall|i: int, j: int| 0 <= i < j < rest.len() implies dedupe_key_of(#[trigger] rest[i]) != dedupe_key_of(#[trigger] rest[j]) by {
            assert(rest[i] == ws[i] && rest[j] == ws[j]);
        }
        lemma_without_key_distinct(rest, key);
        lemma_without_key(rest, key);
        if dedupe_key_of(ws.last()) != key {
            let w = without_key(rest, key);
            let all = w.push(ws.last());
            assert forall|i: int, j: int| 0 <= i < j < all.len() implies dedupe_key_of(#[trigger] all[i]) != dedupe_key_of(#[trigger] all[j]) by {
                if j == w.len() {
                    assert(rest.contains(w[i]));
                    let m = choose|m: int| 0 <= m < rest.len() && rest[m] == w[i];
                    assert(ws[m] == w[i]);
                    assert(ws[ws.len() - 1] == ws.last());
                } else {
                    assert(all[i] == w[i] && all[j] == w[j]);
                }
            }
        }
    }
}

/// Opening a workspace keeps the recent list's keys pairwise distinct when
/// they were before.
pub proof fn law_upsert_keeps_keys_distinct(ws: Seq<RecentWorkspace>, recent: RecentWorkspace)
    requires
        keys_distinct(ws),
    ensures
        keys_distinct(upserted(ws, recent)),
{
    let key = dedupe_key_of(recent);
    let w = without_key(ws, key);
    lemma_without_key(ws, key);
    lemma_without_key_distinct(ws, key);
    let all = seq![recent] + w;
    assert forall|i: int, j: int| 0 <= i < j < all.len() implies dedupe_key_of(#[trigger] all[i]) != dedupe_key_of(#[trigger] all[j]) by {
        assert(all[j] == w[j - 1]);
        if i > 0 {
            assert(all[i] == w[i - 1]);
        }
    }
    let u = upserted(ws, recent);
    assert forall|i: int, j: int| 0 <= i < j < u.len() implies dedupe_key_of(#[trigger] u[i]) != dedupe_key_of(#[trigger] u[j]) by {
        assert(u[i] == all[i] && u[j] == all[j]);
    }
}

proof fn lemma_without_key_skips_first(first: RecentWorkspace, tail: Seq<RecentWorkspace>, key: Seq<char>)
    requires
        dedupe_key_of(first) == key,
    ensures
        without_key(seq![first] + tail, key) == without_key(tail, key),
    decreases tail.len(),
{
    if tail.len() == 0 {
        let all = seq![first] + tail;
        assert(all.drop_last() =~= Seq::<RecentWorkspace>::empty());
        assert(all.last() == first);
        assert(without_key(all, key) == without_key(all.drop_last(), key));
        assert(without_key(all, key) =~= Seq::<RecentWorkspace>::empty());
        assert(without_key(tail, key) =~= Seq::<RecentWorkspace>::empty());
    } else {
        let all = seq![first] + tail;
        assert(all.drop_last() =~= seq![first] + tail.drop_last());
        assert(all.last() == tail.last());
        lemma_without_key_skips_first(first, tail.drop_last(), key);
    }
}

proof fn lemma_first_of_backend(ws: Seq<RecentWorkspace>, b: RecentBackend, i: nat)
    ensures
        first_of_backend(ws, b, i) matches Some(w) ==> backend_of(w) == b
            && exists|k: int| i <= k < ws.len() && ws[k] == w && forall|j: int| i <= j < k ==> backend_of(#[trigger] ws[j]) != b,
        first_of_backend(ws, b, i) is None ==> forall|j: int| i <= j < ws.len() ==> backend_of(#[trigger] ws[j]) != b,
    decreases ws.len() - i,
{
    if i < ws.len() {
        lemma_first_of_backend(ws, b, i + 1);
        if backend_of(ws[i as int]) != b {
            if let Some(w) = first_of_backend(ws, b, i + 1) {
                let k = choose|k: int| i + 1 <= k < ws.len() && ws[k] == w && forall|j: int| i + 1 <= j < k ==> backend_of(#[trigger] ws[j]) != b;
                assert(forall|j: int| i <= j < k ==> backend_of(#[trigger] ws[j]) != b);
            }
        } else {
            assert(forall|j: int| i <= j < i ==> backend_of(#[trigger] ws[j]) != b);
        }
    }
}

/// The recent workspace picked for a backend kind is the first of that
/// kind; there is none only where the list holds none of that kind.
pub proof fn law_first_recent_is_first_of_kind(ws: Seq<RecentWorkspace>, b: RecentBackend)
    ensures
        first_of_backend(ws, b, 0) matches Some(w) ==> backend_of(w) == b
            && exists|k: int| 0 <= k < ws.len() && ws[k] == w && forall|j: int| 0 <= j < k ==> backend_of(#[trigger] ws[j]) != b,
        first_of_backend(ws, b, 0) is None ==> forall|j: int| 0 <= j < ws.len() ==> backend_of(#[trigger] ws[j]) != b,
{
    lemma_first_of_backend(ws, b, 0);
}

impl GuiSettings {
    /// Puts `recent` first in the recent list, drops any earlier entry with
    /// the same key, and keeps at most eight entries.
    pub fn upsert_recent(&mut self, recent: RecentWorkspace)
        ensures
            final(self).last_backend == old(self).last_backend,
            final(self).recent_workspaces@ == upserted(old(self).recent_workspaces@, recent),
    {
        let key = recent.dedupe_key();
        let ghost old_ws = self.recent_workspaces@;
        let mut kept: Vec<RecentWorkspace> = Vec::new();
        kept.push(recent);
        let mut old_list: Vec<RecentWorkspace> = Vec::new();
        std::mem::swap(&mut old_list, &mut self.recent_workspaces);
        let n = old_list.len();
        let mut i: usize = 0;
        assert(old_ws.skip(0) =~= old_ws);
        assert(old_ws.take(0) =~= Seq::<RecentWorkspace>::empty());
        while i < n
            invariant
                n == old_ws.len(),
                0 <= i <= n,
                old_list@ == old_ws.skip(i as int),
                kept@ == seq![recent] + without_key(old_ws.take(i as int), key@),
            decreases n - i,
        {
            let ghost rest = old_list@;
            let item = old_list.remove(0);
            proof {
                assert(item == old_ws[i as int]);
                assert(old_list@ =~= old_ws.skip(i + 1));
                assert(old_ws.take(i + 1).drop_last() =~= old_ws.take(i as int));
                assert(old_ws.take(i + 1).last() == item);
            }
            let item_key = item.dedupe_key();
            if !item_key.eq(&key) {
                kept.push(item);
            }
            assert(kept@ =~= seq![recent] + without_key(old_ws.take(i + 1), key@));
            i = i + 1;
        }
        assert(old_ws.take(n as int) =~= old_ws);
        kept.truncate(MAX_RECENT_WORKSPACES);
        assert(kept@ =~= upserted(old_ws, recent));
        self.recent_workspaces = kept;
    }

    /// The first recent workspace of backend kind `backend`.
    pub fn first_recent_for_backend(&self, backend: RecentBackend) -> (r: Option<&RecentWorkspace>)
        ensures
            match r {
                Some(w) => first_of_backend(self.recent_workspaces@, backend, 0) == Some(*w),
                None => first_of_backend(self.recent_workspaces@, backend, 0) is None,
            },
    {
        let n = self.recent_workspaces.len();
        for i in 0..n
            invariant
                n == self.recent_workspaces@.len(),
                first_of_backend(self.recent_workspaces@, backend, 0) == first_of_backend(self.recent_workspaces@, backend, i as nat),
        {
            if self.recent_workspaces[i].backend() == backend {
                return Some(&self.recent_workspaces[i]);
            }
        }
        None
    }
}

/// Whether two recent workspaces are of the same kind and at the same
/// location: the same path (for Git, whatever the remote and branch), the
/// same Mongo connection and database, or the same proxy URL.
pub open spec fn same_location(a: RecentWorkspace, b: RecentWorkspace) -> bool {
    match (a, b) {
        (RecentWorkspace::File { path: p }, RecentWorkspace::File { path: q }) => p@ == q@,
        (RecentWorkspace::Redb { path: p }, RecentWorkspace::Redb { path: q }) => p@ == q@,
        (RecentWorkspace::Git { path: p, .. }, RecentWorkspace::Git { path: q, .. }) => p@ == q@,
        (
            RecentWorkspace::Mongo { conn_str: c1, db_name: d1 },
            RecentWorkspace::Mongo { conn_str: c2, db_name: d2 },
        ) => c1@ == c2@ && d1@ == d2@,
        (RecentWorkspace::Proxy { url: u1 }, RecentWorkspace::Proxy { url: u2 }) => u1@ == u2@,
        _ => false,
    }
}

/// Whether a Mongo workspace's database name holds no `:`; true of every
/// other workspace.
pub open spec fn db_name_plain(w: RecentWorkspace) -> bool {
    match w {
        RecentWorkspace::Mongo { db_name, .. } => !db_name@.contains(':'),
        _ => true,
    }
}

proof fn lemma_prefixed_equal(lit: Seq<char>, p: Seq<char>, q: Seq<char>)
    requires
        lit + p == lit + q,
    ensures
        p == q,
{
    assert((lit + p).skip(lit.len() as int) =~= p);
    assert((lit + q).skip(lit.len() as int) =~= q);
}

proof fn lemma_split_at_last_colon(c1: Seq<char>, d1: Seq<char>, c2: Seq<char>, d2: Seq<char>)
    requires
        c1 + seq![':'] + d1 == c2 + seq![':'] + d2,
        !d1.contains(':'),
        !d2.contains(':'),
    ensures
        c1 == c2,
        d1 == d2,
{
    let s = c1 + seq![':'] + d1;
    let t = c2 + seq![':'] + d2;
    if d1.len() < d2.len() {
        let i = s.len() - d1.len() - 1;
        assert(s[i] == ':');
        assert(t[i] == d2[i - (t.len() - d2.len())]);
        assert(d2.contains(t[i]));
    } else if d2.len() < d1.len() {
        let i = t.len() - d2.len() - 1;
        assert(t[i] == ':');
        assert(s[i] == d1[i - (s.len() - d1.len())]);
        assert(d1.contains(s[i]));
    } else {
        assert(s.skip(s.len() - d1.len()) =~= d1);
        assert(t.skip(t.len() - d2.len()) =~= d2);
        assert(s.take(c1.len() as int) =~= c1);
        assert(t.take(c2.len() as int) =~= c2);
    }
}

/// Two recent workspaces share a key exactly when they are of the same
/// kind and at the same location, so opening one never drops another one
/// kept elsewhere. (Mongo keys join the connection and the database with
/// a `:`, so this holds where database names hold no `:`.)
pub proof fn law_dedupe_key_tells_locations_apart(a: RecentWorkspace, b: RecentWorkspace)
    requires
        db_name_plain(a),
        db_name_plain(b),
    ensures
        (dedupe_key_of(a) == dedupe_key_of(b)) == same_location(a, b),
{
    reveal_strlit("file:");
    reveal_strlit("redb:");
    reveal_strlit("git:");
    reveal_strlit("mongo:");
    reveal_strlit("proxy:");
    reveal_strlit(":");
    if dedupe_key_of(a) == dedupe_key_of(b) {
        let k = dedupe_key_of(a);
        match (a, b) {
            (RecentWorkspace::File { path: p }, RecentWorkspace::File { path: q }) => {
                lemma_prefixed_equal("file:"@, p@, q@);
            },
            (RecentWorkspace::Redb { path: p }, RecentWorkspace::Redb { path: q }) => {
                lemma_prefixed_equal("redb:"@, p@, q@);
            },
            (RecentWorkspace::Git { path: p, .. }, RecentWorkspace::Git { path: q, .. }) => {
                lemma_prefixed_equal("git:"@, p@, q@);
            },
            (
                RecentWorkspace::Mongo { conn_str: c1, db_name: d1 },
                RecentWorkspace::Mongo { conn_str: c2, db_name: d2 },
            ) => {
                assert("mongo:"@ + c1@ + ":"@ + d1@ =~= "mongo:"@ + (c1@ + seq![':'] + d1@));
                assert("mongo:"@ + c2@ + ":"@ + d2@ =~= "mongo:"@ + (c2@ + seq![':'] + d2@));
                lemma_prefixed_equal("mongo:"@, c1@ + seq![':'] + d1@, c2@ + seq![':'] + d2@);
                lemma_split_at_last_colon(c1@, d1@, c2@, d2@);
            },
            (RecentWorkspace::Proxy { url: u1 }, RecentWorkspace::Proxy { url: u2 }) => {
                lemma_prefixed_equal("proxy:"@, u1@, u2@);
            },
            _ => {
                assert(k[0] == dedupe_key_of(a)[0] && k[0] == dedupe_key_of(b)[0]);
                assert(false);
            },
        }
    }
}

proof fn lemma_without_key_keeps(ws: Seq<RecentWorkspace>, key: Seq<char>, w: RecentWorkspace)
    requires
        ws.contains(w),
        dedupe_key_of(w) != key,
    ensures
        without_key(ws, key).contains(w),
    decreases ws.len(),
{
    let rest = ws.drop_last();
    if ws.last() == w {
        assert(without_key(ws, key) == without_key(rest, key).push(w));
        assert(without_key(ws, key)[without_key(rest, key).len() as int] == w);
    } else {
        let i = choose|i: int| 0 <= i < ws.len() && ws[i] == w;
        assert(i < ws.len() - 1);
        assert(rest[i] == w);
        lemma_without_key_keeps(rest, key, w);
        let j = choose|j: int| 0 <= j < without_key(rest, key).len() && without_key(rest, key)[j] == w;
        if dedupe_key_of(ws.last()) != key {
            assert(without_key(ws, key)[j] == w);
        }
    }
}

/// Opening a workspace keeps every other workspace of the recent list that
/// is at a different location, as long as the list had room.
pub proof fn law_upsert_keeps_other_locations(ws: Seq<RecentWorkspace>, recent: RecentWorkspace, w: RecentWorkspace)
    requires
        ws.contains(w),
        !same_location(w, recent),
        db_name_plain(w),
        db_name_plain(recent),
        ws.len() < MAX_RECENT_WORKSPACES,
    ensures
        upserted(ws, recent).contains(w),
{
    law_dedupe_key_tells_locations_apart(w, recent);
    let key = dedupe_key_of(recent);
    lemma_without_key_keeps(ws, key, w);
    lemma_without_key(ws, key);
    let wk = without_key(ws, key);
    let all = seq![recent] + wk;
    let j = choose|j: int| 0 <= j < wk.len() && wk[j] == w;
    assert(all[j + 1] == w);
    assert(upserted(ws, recent) == all);
}

} // verus!
