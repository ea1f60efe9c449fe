use vstd::prelude::*;

use crate::models::{Connection, ConnectionType, KnownHostEntry};
use crate::text::{
    ascii_lowercase, chars_of, eq_ignore_ascii_case, owned, push_char, str_eq, string_from_chars,
    string_views, trim_bounds, trim_spec,
};

verus! {

// ---------------------------------------------------------------------------
// Where the program keeps its files
// ---------------------------------------------------------------------------

/// `base` joined with the relative or absolute path `p`, as `Path::join` does on Unix: an
/// absolute `p` replaces `base`, otherwise a `/` separates the two unless `base` is empty or
/// already ends with one.
pub open spec fn join_path(base: Seq<char>, p: Seq<char>) -> Seq<char> {
    if p.len() > 0 && p[0] == '/' {
        p
    } else if base.len() == 0 {
        p
    } else if base.last() == '/' {
        base + p
    } else {
        base + seq!['/'] + p
    }
}

fn push_all(s: &mut String, v: &Vec<char>)
    ensures
        final(s)@ == old(s)@ + v@,
{
    let ghost start = s@;
    let mut i: usize = 0;
    while i < v.len()
        invariant
            i <= v@.len(),
            s@ == start + v@.take(i as int),
        decreases v.len() - i,
    {
        push_char(s, v[i]);
        assert(v@.take(i + 1) =~= v@.take(i as int).push(v@[i as int]));
        i = i + 1;
    }
    assert(v@.take(v@.len() as int) =~= v@);
}

/// Joins two paths (see `join_path`).
pub fn join(base: &str, p: &str) -> (r: String)
    ensures
        r@ == join_path(base@, p@),
{
    let b = chars_of(base);
    let q = chars_of(p);
    if q.len() > 0 && q[0] == '/' {
        return owned(p);
    }
    if b.len() == 0 {
        return owned(p);
    }
    let mut r = owned(base);
    if b[b.len() - 1] != '/' {
        push_char(&mut r, '/');
    }
    push_all(&mut r, &q);
    r
}

/// The files of the program: its database, its settings, its known hosts and its theme
/// directory.
#[derive(Debug, Clone)]
pub struct AppPaths {
    pub database: String,
    pub settings: String,
    pub known_hosts: String,
    pub themes: String,
}

/// The directory under the user's home that holds the program's files.
pub open spec fn app_root(home: Seq<char>) -> Seq<char> {
    join_path(home, ".timon"@)
}

impl AppPaths {
    /// The program's files under a user's home directory: `~/.timon/timon.sqlite3`,
    /// `settings.json`, `known_hosts` and `themes` there.
    pub fn under_home(home: &str) -> (p: Self)
        ensures
            p.database@ == join_path(app_root(home@), "timon.sqlite3"@),
            p.settings@ == join_path(app_root(home@), "settings.json"@),
            p.known_hosts@ == join_path(app_root(home@), "known_hosts"@),
            p.themes@ == join_path(app_root(home@), "themes"@),
    {
        let root = join(home, ".timon");
        AppPaths {
            database: join(root.as_str(), "timon.sqlite3"),
            settings: join(root.as_str(), "settings.json"),
            known_hosts: join(root.as_str(), "known_hosts"),
            themes: join(root.as_str(), "themes"),
        }
    }
}

/// Whether an environment value is set and not empty.
pub open spec fn present(v: Option<Seq<char>>) -> bool {
    v matches Some(s) && s.len() > 0
}

/// The user's home directory from the environment: `HOME`, else `USERPROFILE`, else
/// `HOMEDRIVE` joined with `HOMEPATH`, ignoring empty values.
pub open spec fn user_home_spec(
    home: Option<Seq<char>>,
    userprofile: Option<Seq<char>>,
    homedrive: Option<Seq<char>>,
    homepath: Option<Seq<char>>,
) -> Option<Seq<char>> {
    if present(home) {
        home
    } else if present(userprofile) {
        userprofile
    } else if present(homedrive) && present(homepath) {
        Some(join_path(homedrive->0, homepath->0))
    } else {
        None
    }
}

/// Chooses the user's home directory among the environment values (see `user_home_spec`).
pub fn user_home_dir(
    home: Option<String>,
    userprofile: Option<String>,
    homedrive: Option<String>,
    homepath: Option<String>,
) -> (r: Option<String>)
    ensures
        match user_home_spec(
            match home { Some(s) => Some(s@), None => None },
            match userprofile { Some(s) => Some(s@), None => None },
            match homedrive { Some(s) => Some(s@), None => None },
            match homepath { Some(s) => Some(s@), None => None },
        ) {
            Some(h) => r matches Some(s) && s@ == h,
            None => r is None,
        },
{
    if let Some(h) = &home {
        if !h.as_str().is_empty() {
            return home;
        }
    }
    if let Some(u) = &userprofile {
        if !u.as_str().is_empty() {
            return userprofile;
        }
    }
    match (&homedrive, &homepath) {
        (Some(d), Some(p)) => {
            if d.as_str().is_empty() || p.as_str().is_empty() {
                None
            } else {
                Some(join(d.as_str(), p.as_str()))
            }
        },
        _ => None,
    }
}

// ---------------------------------------------------------------------------
// First start
// ---------------------------------------------------------------------------

/// The connections a new database starts with: an SSH example to `root@127.0.0.1`, then
/// a local shell on `localhost` in the light theme with port 0.
pub fn seed_connections() -> (cs: Vec<Connection>)
    ensures
        cs@.len() == 2,
        cs@[0].id == 0 && cs@[0].name@ == "Example SSH"@ && cs@[0].host@ == "127.0.0.1"@
            && cs@[0].username@ == "root"@ && cs@[0].connection_type == ConnectionType::Ssh
            && cs@[0].port == 22 && cs@[0].theme_id@ == "default"@,
        cs@[1].id == 0 && cs@[1].name@ == "Local Shell"@ && cs@[1].host@ == "localhost"@
            && cs@[1].theme_id@ == "atom-one-light"@ && cs@[1].connection_type
            == ConnectionType::Local && cs@[1].port == 0 && cs@[1].username@.len() == 0,
        forall|k: int|
            0 <= k < 2 ==> {
                let c = #[trigger] cs@[k];
                &&& c.group_id is None
                &&& c.key_id is None
                &&& c.effective_key_id is None
                &&& c.identity_id is None
                &&& c.display_username@.len() == 0
                &&& c.password@.len() == 0
                &&& c.shell_path@.len() == 0
                &&& c.work_dir@.len() == 0
                &&& c.startup_command@.len() == 0
                &&& c.serial_port@.len() == 0
                &&& c.baud_rate == 115200
            },
{
    let mut ssh = Connection::default();
    ssh.name = owned("Example SSH");
    ssh.host = owned("127.0.0.1");
    ssh.username = owned("root");
    let mut local = Connection::default();
    local.name = owned("Local Shell");
    local.host = owned("localhost");
    local.theme_id = owned("atom-one-light");
    local.connection_type = ConnectionType::Local;
    local.port = 0;
    let mut cs = Vec::new();
    cs.push(ssh);
    cs.push(local);
    cs
}

// ---------------------------------------------------------------------------
// known_hosts
// ---------------------------------------------------------------------------

/// The lines of a text, split at each `\n` (a text without line breaks is one line).
pub open spec fn split_lines(s: Seq<char>) -> Seq<Seq<char>>
    decreases s.len(),
{
    if s.len() == 0 {
        seq![Seq::empty()]
    } else {
        let p = split_lines(s.drop_last());
        if s.last() == '\n' {
            p.push(Seq::empty())
        } else {
            p.update(p.len() - 1, p.last().push(s.last()))
        }
    }
}

/// The entries of the lines of a known_hosts file: each line, trimmed, numbered from one;
/// blank lines and comments (`#`) are left out.
pub open spec fn known_host_lines(lines: Seq<Seq<char>>) -> Seq<(int, Seq<char>)>
    decreases lines.len(),
{
    if lines.len() == 0 {
        Seq::empty()
    } else {
        let prev = known_host_lines(lines.drop_last());
        let t = trim_spec(lines.last());
        if t.len() > 0 && t[0] != '#' {
            prev.push((lines.len() as int, t))
        } else {
            prev
        }
    }
}

/// The entries of a list of known hosts, by line number and text.
pub open spec fn entry_views(es: Seq<KnownHostEntry>) -> Seq<(int, Seq<char>)> {
    es.map_values(|e: KnownHostEntry| (e.line_number as int, e.line@))
}

proof fn lemma_split_lines_nonempty(s: Seq<char>)
    ensures
        split_lines(s).len() >= 1,
        split_lines(s).len() <= s.len() + 1,
    decreases s.len(),
{
    if s.len() > 0 {
        lemma_split_lines_nonempty(s.drop_last());
    }
}

/// Adds the entry of line `number` (one-based) with text `line`, if it is one.
fn push_host_line(entries: &mut Vec<KnownHostEntry>, number: usize, line: &Vec<char>)
    ensures
        ({
            let t = trim_spec(line@);
            if t.len() > 0 && t[0] != '#' {
                entry_views(final(entries)@) == entry_views(old(entries)@).push((number as int, t))
            } else {
                final(entries)@ == old(entries)@
            }
        }),
{
    let (lo, hi) = trim_bounds(line);
    if lo < hi && line[lo] != '#' {
        let text = string_from_chars(line, lo, hi);
        assert(trim_spec(line@)[0] == line@[lo as int]);
        entries.push(KnownHostEntry { line_number: number, line: text });
        assert(entry_views(entries@) =~= entry_views(old(entries)@).push(
            (number as int, trim_spec(line@)),
        ));
    }
}

/// The known hosts a file lists (see `known_host_lines`).
pub fn known_host_entries(content: &str) -> (entries: Vec<KnownHostEntry>)
    requires
        content@.len() < usize::MAX,
    ensures
        entry_views(entries@) == known_host_lines(split_lines(content@)),
{
    let v = chars_of(content);
    let mut entries: Vec<KnownHostEntry> = Vec::new();
    let mut current: Vec<char> = Vec::new();
    let mut number: usize = 1;
    let mut i: usize = 0;
    while i < v.len()
        invariant
            v@ == content@,
            v@.len() < usize::MAX,
            i <= v@.len(),
            number as int == split_lines(v@.take(i as int)).len(),
            number <= i + 1,
            current@ == split_lines(v@.take(i as int)).last(),
            entry_views(entries@) == known_host_lines(
                split_lines(v@.take(i as int)).drop_last(),
            ),
        decreases v.len() - i,
    {
        let ghost prev = split_lines(v@.take(i as int));
        proof {
            lemma_split_lines_nonempty(v@.take(i as int));
            assert(v@.take(i + 1).drop_last() =~= v@.take(i as int));
            assert(v@.take(i + 1).last() == v@[i as int]);
        }
        if v[i] == '\n' {
            push_host_line(&mut entries, number, &current);
            assert(prev.drop_last().push(prev.last()) =~= prev);
            current = Vec::new();
            number = number + 1;
            assert(split_lines(v@.take(i + 1)) == prev.push(Seq::empty()));
            assert(split_lines(v@.take(i + 1)).drop_last() =~= prev);
        } else {
            current.push(v[i]);
            let ghost next = prev.update(prev.len() - 1, prev.last().push(v@[i as int]));
            assert(split_lines(v@.take(i + 1)) == next);
            assert(next.drop_last() =~= prev.drop_last());
        }
        i = i + 1;
    }
    assert(v@.take(v@.len() as int) =~= v@);
    let ghost lines = split_lines(v@);
    proof {
        lemma_split_lines_nonempty(v@);
        assert(lines.drop_last().push(lines.last()) =~= lines);
    }
    push_host_line(&mut entries, number, &current);
    entries
}

// ---------------------------------------------------------------------------
// The shells a local connection can run
// ---------------------------------------------------------------------------

/// The shells a shells file lists: its lines, trimmed, that are absolute paths.
pub open spec fn listed_shells(lines: Seq<Seq<char>>) -> Seq<Seq<char>>
    decreases lines.len(),
{
    if lines.len() == 0 {
        Seq::empty()
    } else {
        let prev = listed_shells(lines.drop_last());
        let t = trim_spec(lines.last());
        if t.len() > 0 && t[0] == '/' {
            prev.push(t)
        } else {
            prev
        }
    }
}

/// The shells offered where none is known.
pub open spec fn default_unix_shells() -> Seq<Seq<char>> {
    seq!["/bin/zsh"@, "/bin/bash"@, "/bin/sh"@, "/opt/homebrew/bin/fish"@]
}

/// The shells offered on Unix: those the shells file lists (none without the file), with
/// the login shell first when the file does not list it; the default list when that
/// leaves none.
pub open spec fn unix_shells_spec(etc_shells: Option<Seq<char>>, shell: Option<Seq<char>>) -> Seq<Seq<char>> {
    let listed = match etc_shells {
        Some(c) => listed_shells(split_lines(c)),
        None => Seq::empty(),
    };
    let with_login = match shell {
        Some(s) => if listed.contains(s) {
            listed
        } else {
            seq![s] + listed
        },
        None => listed,
    };
    if with_login.len() == 0 {
        default_unix_shells()
    } else {
        with_login
    }
}

fn push_shell_line(shells: &mut Vec<String>, line: &Vec<char>)
    ensures
        ({
            let t = trim_spec(line@);
            if t.len() > 0 && t[0] == '/' {
                string_views(final(shells)@) == string_views(old(shells)@).push(t)
            } else {
                final(shells)@ == old(shells)@
            }
        }),
{
    let (lo, hi) = trim_bounds(line);
    if lo < hi && line[lo] == '/' {
        let text = string_from_chars(line, lo, hi);
        assert(trim_spec(line@)[0] == line@[lo as int]);
        shells.push(text);
        assert(string_views(shells@) =~= string_views(old(shells)@).push(trim_spec(line@)));
    }
}

fn listed_shells_of(content: &str) -> (shells: Vec<String>)
    ensures
        string_views(shells@) == listed_shells(split_lines(content@)),
{
    let v = chars_of(content);
    let mut shells: Vec<String> = Vec::new();
    let mut current: Vec<char> = Vec::new();
    let mut i: usize = 0;
    while i < v.len()
        invariant
            v@ == content@,
            i <= v@.len(),
            current@ == split_lines(v@.take(i as int)).last(),
            string_views(shells@) == listed_shells(split_lines(v@.take(i as int)).drop_last()),
        decreases v.len() - i,
    {
        let ghost prev = split_lines(v@.take(i as int));
        proof {
            lemma_split_lines_nonempty(v@.take(i as int));
            assert(v@.take(i + 1).drop_last() =~= v@.take(i as int));
            assert(v@.take(i + 1).last() == v@[i as int]);
        }
        if v[i] == '\n' {
            push_shell_line(&mut shells, &current);
            assert(prev.drop_last().push(prev.last()) =~= prev);
            current = Vec::new();
            assert(split_lines(v@.take(i + 1)) == prev.push(Seq::empty()));
            assert(split_lines(v@.take(i + 1)).drop_last() =~= prev);
        } else {
            current.push(v[i]);
            let ghost next = prev.update(prev.len() - 1, prev.last().push(v@[i as int]));
            assert(split_lines(v@.take(i + 1)) == next);
            assert(next.drop_last() =~= prev.drop_last());
        }
        i = i + 1;
    }
    assert(v@.take(v@.len() as int) =~= v@);
    let ghost lines = split_lines(v@);
    proof {
        lemma_split_lines_nonempty(v@);
        assert(lines.drop_last().push(lines.last()) =~= lines);
    }
    push_shell_line(&mut shells, &current);
    shells
}

fn contains_string(v: &Vec<String>, s: &str) -> (r: bool)
    ensures
        r == string_views(v@).contains(s@),
{
    let mut i: usize = 0;
    while i < v.len()
        invariant
            i <= v@.len(),
            forall|k: int| 0 <= k < i ==> v@[k]@ != s@,
        decreases v.len() - i,
    {
        if str_eq(v[i].as_str(), s) {
            assert(string_views(v@)[i as int] == s@);
            return true;
        }
        i = i + 1;
    }
    assert forall|k: int| 0 <= k < string_views(v@).len() implies string_views(v@)[k] != s@ by {
        assert(string_views(v@)[k] == v@[k]@);
    }
    false
}

/// The shells a local connection can run on Unix (see `unix_shells_spec`), from the text of
/// the shells file and the login shell, where they are known.
pub fn available_local_shells(etc_shells: Option<String>, shell: Option<String>) -> (shells: Vec<
    String,
>)
    ensures
        string_views(shells@) == unix_shells_spec(
            match etc_shells {
                Some(c) => Some(c@),
                None => None,
            },
            match shell {
                Some(s) => Some(s@),
                None => None,
            },
        ),
{
    let mut shells = match &etc_shells {
        Some(c) => listed_shells_of(c.as_str()),
        None => Vec::new(),
    };
    if let Some(s) = shell {
        if !contains_string(&shells, s.as_str()) {
            let ghost before = string_views(shells@);
            shells.insert(0, s);
            assert(string_views(shells@) =~= seq![shells@[0]@] + before);
        }
    }
    if shells.len() == 0 {
        shells = vec![
            owned("/bin/zsh"),
            owned("/bin/bash"),
            owned("/bin/sh"),
            owned("/opt/homebrew/bin/fish"),
        ];
        assert(string_views(shells@) =~= default_unix_shells());
    }
    shells
}

/// The shells offered on Windows: PowerShell 7, Windows PowerShell and cmd, with the
/// command interpreter of `COMSPEC` first when it is none of them (ignoring ASCII case).
pub open spec fn windows_shells_spec(comspec: Option<Seq<char>>) -> Seq<Seq<char>> {
    let base = seq!["pwsh.exe"@, "powershell.exe"@, "cmd.exe"@];
    match comspec {
        Some(c) => if exists|k: int|
            0 <= k < 3 && ascii_lowercase(#[trigger] base[k]) == ascii_lowercase(c) {
            base
        } else {
            seq![c] + base
        },
        None => base,
    }
}

/// The shells a local connection can run on Windows (see `windows_shells_spec`).
pub fn available_windows_shells(comspec: Option<String>) -> (shells: Vec<String>)
    ensures
        string_views(shells@) == windows_shells_spec(
            match comspec {
                Some(c) => Some(c@),
                None => None,
            },
        ),
{
    let mut shells = vec![owned("pwsh.exe"), owned("powershell.exe"), owned("cmd.exe")];
    let ghost base = seq!["pwsh.exe"@, "powershell.exe"@, "cmd.exe"@];
    assert(string_views(shells@) =~= base);
    if let Some(c) = comspec {
        let mut found = false;
        let mut i: usize = 0;
        while i < 3
            invariant
                i <= 3,
                shells@.len() == 3,
                string_views(shells@) == base,
                found == exists|k: int| 0 <= k < i && ascii_lowercase(#[trigger] base[k]) == ascii_lowercase(c@),
            decreases 3 - i,
        {
            let same = eq_ignore_ascii_case(shells[i].as_str(), c.as_str());
            assert(shells@[i as int]@ == base[i as int]);
            if same {
                found = true;
            }
            i = i + 1;
        }
        if !found {
            shells.insert(0, c);
            assert(string_views(shells@) =~= seq![shells@[0]@] + base);
        }
    }
    shells
}

/// Every entry read from a known_hosts file is a trimmed, non-empty line that is not a
/// comment, numbered from one within the file, and the entries come in file order.
pub proof fn lemma_known_host_lines(lines: Seq<Seq<char>>)
    ensures
        forall|k: int|
            0 <= k < known_host_lines(lines).len() ==> {
                let e = #[trigger] known_host_lines(lines)[k];
                &&& e.1.len() > 0
                &&& e.1[0] != '#'
                &&& 1 <= e.0 <= lines.len()
                &&& e.1 == trim_spec(lines[e.0 - 1])
            },
        forall|j: int, k: int|
            0 <= j < k < known_host_lines(lines).len() ==> (#[trigger] known_host_lines(lines)[j]).0
                < (#[trigger] known_host_lines(lines)[k]).0,
    decreases lines.len(),
{
    if lines.len() > 0 {
        let u = lines.drop_last();
        lemma_known_host_lines(u);
        let prev = known_host_lines(u);
        let out = known_host_lines(lines);
        assert forall|k: int| 0 <= k < prev.len() implies 1 <= (#[trigger] prev[k]).0 <= u.len()
            && prev[k].1 == trim_spec(lines[prev[k].0 - 1]) by {
            assert(lines[prev[k].0 - 1] == u[prev[k].0 - 1]);
        }
        assert forall|k: int| 0 <= k < out.len() implies {
            let e = #[trigger] out[k];
            &&& e.1.len() > 0
            &&& e.1[0] != '#'
            &&& 1 <= e.0 <= lines.len()
            &&& e.1 == trim_spec(lines[e.0 - 1])
        } by {
            if k < prev.len() {
                assert(out[k] == prev[k]);
            }
        }
        assert forall|j: int, k: int| 0 <= j < k < out.len() implies (#[trigger] out[j]).0
            < (#[trigger] out[k]).0 by {
            assert(out[j] == prev[j]);
            if k < prev.len() {
                assert(out[k] == prev[k]);
            }
        }
    }
}

} // verus!
