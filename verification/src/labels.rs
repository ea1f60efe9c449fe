use vstd::prelude::*;

use crate::models::{Connection, ConnectionType};
use crate::text::{
    chars_of, i64_to_string, int_to_decimal, is_blank, is_blank_spec, owned, push_char,
    string_from_chars, trim, trim_spec,
};
use crate::theme::{utf8_len, utf8_len_seq};

verus! {

fn push_str(s: &mut String, t: &str)
    ensures
        final(s)@ == old(s)@ + t@,
{
    s.append(t);
}

// ---------------------------------------------------------------------------
// Short texts for lists and forms
// ---------------------------------------------------------------------------

/// A field as a list shows it: `-` when it is blank.
pub fn empty_as_dash(value: &str) -> (r: String)
    ensures
        r@ == (if is_blank_spec(value@) {
            "-"@
        } else {
            value@
        }),
{
    if is_blank(value) {
        owned("-")
    } else {
        owned(value)
    }
}

/// How many leading characters of `t` fit in `budget` bytes of UTF-8.
pub open spec fn chars_within(t: Seq<char>, budget: int) -> nat
    decreases t.len(),
{
    if t.len() == 0 || utf8_len(t[0]) > budget {
        0
    } else {
        1 + chars_within(t.skip(1), budget - utf8_len(t[0]))
    }
}

/// The inputs on which a preview cuts a character in two and panics: the trimmed text is
/// longer than 64 bytes and byte 64 falls inside a character.
pub open spec fn short_preview_panics(value: Seq<char>) -> bool {
    let t = trim_spec(value);
    utf8_len_seq(t) > 64 && utf8_len_seq(t.take(chars_within(t, 64) as int)) != 64
}

/// A long value as a list previews it: trimmed; `-` when blank; the first 64 bytes and
/// `...` when longer than that.
pub open spec fn short_preview_spec(value: Seq<char>) -> Seq<char> {
    let t = trim_spec(value);
    if t.len() == 0 {
        "-"@
    } else if utf8_len_seq(t) > 64 {
        t.take(chars_within(t, 64) as int) + "..."@
    } else {
        t
    }
}

proof fn lemma_utf8_len_take_step(t: Seq<char>, j: int)
    requires
        0 <= j < t.len(),
    ensures
        utf8_len_seq(t.take(j + 1)) == utf8_len_seq(t.take(j)) + utf8_len(t[j]),
{
    assert(t.take(j + 1).drop_last() =~= t.take(j));
}

proof fn lemma_utf8_len_take_monotone(t: Seq<char>, j: int, k: int)
    requires
        0 <= j <= k <= t.len(),
    ensures
        utf8_len_seq(t.take(j)) <= utf8_len_seq(t.take(k)),
    decreases k - j,
{
    if j < k {
        lemma_utf8_len_take_step(t, k - 1);
        lemma_utf8_len_take_monotone(t, j, k - 1);
    }
}

/// The preview of a long value (see `short_preview_spec`).
pub fn short_preview(value: &str) -> (r: String)
    requires
        !short_preview_panics(value@),
    ensures
        r@ == short_preview_spec(value@),
{
    let trimmed = trim(value);
    let t = chars_of(trimmed.as_str());
    if t.len() == 0 {
        return owned("-");
    }
    // count the characters that fit in 64 bytes, and whether anything is left after them
    let mut used: usize = 0;
    let mut j: usize = 0;
    assert(t@.skip(0) =~= t@);
    assert(t@.take(0) =~= Seq::<char>::empty());
    while j < t.len() && used + char_utf8_len(t[j]) <= 64
        invariant
            t@ == trim_spec(value@),
            j <= t@.len(),
            used == utf8_len_seq(t@.take(j as int)),
            used <= 64,
            chars_within(t@, 64) == j + chars_within(t@.skip(j as int), 64 - used),
        decreases t.len() - j,
    {
        proof {
            lemma_utf8_len_take_step(t@, j as int);
            let rest = t@.skip(j as int);
            assert(rest[0] == t@[j as int]);
            assert(rest.skip(1) =~= t@.skip(j + 1));
        }
        used = used + char_utf8_len(t[j]);
        j = j + 1;
    }
    proof {
        let rest = t@.skip(j as int);
        if j < t.len() {
            assert(rest[0] == t@[j as int]);
        }
        assert(chars_within(rest, 64 - used) == 0);
    }
    if j == t.len() {
        assert(t@.take(j as int) =~= t@);
        return trimmed;
    }
    // something is left, so the text is longer than 64 bytes
    proof {
        lemma_utf8_len_take_step(t@, j as int);
        lemma_utf8_len_take_monotone(t@, j + 1, t@.len() as int);
        assert(t@.take(t@.len() as int) =~= t@);
    }
    let mut r = string_from_chars(&t, 0, j);
    assert(t@.subrange(0, j as int) =~= t@.take(j as int));
    push_str(&mut r, "...");
    r
}

fn char_utf8_len(c: char) -> (n: usize)
    ensures
        n == utf8_len(c),
        1 <= n <= 4,
{
    let u = c as u32;
    if u < 0x80 {
        1
    } else if u < 0x800 {
        2
    } else if u < 0x10000 {
        3
    } else {
        4
    }
}

/// The second line of a connection card: `local`; `serial, <baud>` or
/// `serial, <device> @ <baud>`; `ssh, <user>` (the displayed user, else the connection's
/// own) or `ssh`.
pub open spec fn connection_secondary_spec(c: Connection) -> Seq<char> {
    match c.connection_type {
        ConnectionType::Local => "local"@,
        ConnectionType::Serial => if is_blank_spec(c.serial_port@) {
            "serial, "@ + int_to_decimal(c.baud_rate as int)
        } else {
            "serial, "@ + c.serial_port@ + " @ "@ + int_to_decimal(c.baud_rate as int)
        },
        ConnectionType::Ssh => if !is_blank_spec(c.display_username@) {
            "ssh, "@ + c.display_username@
        } else if !is_blank_spec(c.username@) {
            "ssh, "@ + c.username@
        } else {
            "ssh"@
        },
    }
}

/// The second line of a connection card (see `connection_secondary_spec`).
pub fn connection_termius_secondary_text(connection: &Connection) -> (s: String)
    ensures
        s@ == connection_secondary_spec(*connection),
{
    match connection.connection_type {
        ConnectionType::Local => owned("local"),
        ConnectionType::Serial => {
            let mut s = owned("serial, ");
            if !is_blank(connection.serial_port.as_str()) {
                push_str(&mut s, connection.serial_port.as_str());
                push_str(&mut s, " @ ");
            }
            let b = i64_to_string(connection.baud_rate);
            push_str(&mut s, b.as_str());
            s
        },
        ConnectionType::Ssh => {
            if !is_blank(connection.display_username.as_str()) {
                let mut s = owned("ssh, ");
                push_str(&mut s, connection.display_username.as_str());
                s
            } else if !is_blank(connection.username.as_str()) {
                let mut s = owned("ssh, ");
                push_str(&mut s, connection.username.as_str());
                s
            } else {
                owned("ssh")
            }
        },
    }
}

// ---------------------------------------------------------------------------
// Local tab titles
// ---------------------------------------------------------------------------

/// A working directory as a tab title shows it: `~` for none and for the home directory,
/// `~` followed by the rest for a path under the home directory's text, else the path
/// trimmed.
pub open spec fn work_dir_label_spec(work_dir: Seq<char>, home: Option<Seq<char>>) -> Seq<char> {
    let t = trim_spec(work_dir);
    if t.len() == 0 {
        "~"@
    } else {
        match home {
            Some(h) => if t == h {
                "~"@
            } else if h.len() <= t.len() && t.take(h.len() as int) == h {
                if t.len() == h.len() {
                    "~"@
                } else {
                    "~"@ + t.skip(h.len() as int)
                }
            } else {
                t
            },
            None => t,
        }
    }
}

/// A working directory as a tab title shows it (see `work_dir_label_spec`).
pub fn local_work_dir_label(work_dir: &str, home: Option<&str>) -> (r: String)
    ensures
        r@ == work_dir_label_spec(
            work_dir@,
            match home {
                Some(h) => Some(h@),
                None => None,
            },
        ),
{
    let trimmed = trim(work_dir);
    let t = chars_of(trimmed.as_str());
    if t.len() == 0 {
        return owned("~");
    }
    if let Some(h) = home {
        let hv = chars_of(h);
        if hv.len() <= t.len() {
            let mut i: usize = 0;
            while i < hv.len() && t[i] == hv[i]
                invariant
                    hv@.len() <= t@.len(),
                    i <= hv@.len(),
                    forall|k: int| 0 <= k < i ==> t@[k] == hv@[k],
                decreases hv.len() - i,
            {
                i = i + 1;
            }
            if i == hv.len() {
                assert(t@.take(hv@.len() as int) =~= hv@);
                if t.len() == hv.len() {
                    assert(t@ =~= hv@);
                    return owned("~");
                }
                let mut r = owned("~");
                let rest = string_from_chars(&t, hv.len(), t.len());
                assert(t@.subrange(hv@.len() as int, t@.len() as int) =~= t@.skip(hv@.len() as int));
                push_str(&mut r, rest.as_str());
                assert(t@ != hv@);
                return r;
            } else {
                assert(t@.take(hv@.len() as int)[i as int] != hv@[i as int]);
                assert(t@ != hv@);
            }
        } else {
            assert(t@ != hv@);
        }
    }
    trimmed
}

/// The title of a local terminal tab: `user@host:dir`.
pub fn local_terminal_tab_title(user: &str, host: &str, work_dir: &str, home: Option<&str>) -> (t:
    String)
    ensures
        t@ == user@ + seq!['@'] + host@ + seq![':'] + work_dir_label_spec(
            work_dir@,
            match home {
                Some(h) => Some(h@),
                None => None,
            },
        ),
{
    let mut t = owned(user);
    push_char(&mut t, '@');
    push_str(&mut t, host);
    push_char(&mut t, ':');
    let label = local_work_dir_label(work_dir, home);
    push_str(&mut t, label.as_str());
    t
}

/// Whether an environment value is set and not blank.
pub open spec fn filled(v: Option<Seq<char>>) -> bool {
    v matches Some(s) && !is_blank_spec(s)
}

/// The views of an optional string.
pub open spec fn opt_view(v: Option<String>) -> Option<Seq<char>> {
    match v {
        Some(s) => Some(s@),
        None => None,
    }
}

fn is_filled(v: &Option<String>) -> (b: bool)
    ensures
        b == filled(opt_view(*v)),
{
    match v {
        Some(s) => !is_blank(s.as_str()),
        None => false,
    }
}

/// The local user's name from the environment: `USER`, else `USERNAME`, else `user`.
pub fn current_local_username(user: Option<String>, username: Option<String>) -> (name: String)
    ensures
        name@ == (if filled(opt_view(user)) {
            opt_view(user)->0
        } else if filled(opt_view(username)) {
            opt_view(username)->0
        } else {
            "user"@
        }),
{
    if is_filled(&user) {
        match user {
            Some(u) => u,
            None => owned("user"),
        }
    } else if is_filled(&username) {
        match username {
            Some(u) => u,
            None => owned("user"),
        }
    } else {
        owned("user")
    }
}

/// The text of `s` up to its first `.`.
pub open spec fn first_label(s: Seq<char>) -> Seq<char>
    decreases s.len(),
{
    if s.len() == 0 || s[0] == '.' {
        Seq::empty()
    } else {
        seq![s[0]] + first_label(s.skip(1))
    }
}

fn first_label_of(s: &str) -> (r: String)
    ensures
        r@ == first_label(s@),
{
    let v = chars_of(s);
    let mut j: usize = 0;
    assert(v@.skip(0) =~= v@);
    assert(v@.take(0) + first_label(v@) =~= first_label(v@));
    while j < v.len() && v[j] != '.'
        invariant
            v@ == s@,
            j <= v@.len(),
            first_label(s@) == v@.take(j as int) + first_label(v@.skip(j as int)),
        decreases v.len() - j,
    {
        assert(v@.skip(j as int)[0] == v@[j as int]);
        assert(v@.skip(j as int).skip(1) =~= v@.skip(j + 1));
        assert(v@.take(j + 1) =~= v@.take(j as int) + seq![v@[j as int]]);
        j = j + 1;
    }
    assert(first_label(v@.skip(j as int)) =~= Seq::<char>::empty()) by {
        if j < v.len() {
            assert(v@.skip(j as int)[0] == v@[j as int]);
        }
    }
    let r = string_from_chars(&v, 0, j);
    assert(v@.subrange(0, j as int) =~= v@.take(j as int));
    r
}

/// The local machine's name: `HOSTNAME` trimmed up to its first dot, else `COMPUTERNAME`
/// trimmed, else the output of the `hostname` command trimmed up to its first dot, else
/// `localhost`.
pub open spec fn machine_name_spec(
    hostname: Option<Seq<char>>,
    computername: Option<Seq<char>>,
    command_output: Option<Seq<char>>,
) -> Seq<char> {
    if filled(hostname) {
        first_label(trim_spec(hostname->0))
    } else if filled(computername) {
        trim_spec(computername->0)
    } else if filled(command_output) {
        first_label(trim_spec(command_output->0))
    } else {
        "localhost"@
    }
}

/// The local machine's name (see `machine_name_spec`); `command_output` is what the
/// `hostname` command printed, when it ran and printed UTF-8.
pub fn local_machine_name(
    hostname: Option<String>,
    computername: Option<String>,
    command_output: Option<String>,
) -> (name: String)
    ensures
        name@ == machine_name_spec(
            opt_view(hostname),
            opt_view(computername),
            opt_view(command_output),
        ),
{
    if let Some(h) = &hostname {
        if !is_blank(h.as_str()) {
            let t = trim(h.as_str());
            return first_label_of(t.as_str());
        }
    }
    if let Some(c) = &computername {
        if !is_blank(c.as_str()) {
            return trim(c.as_str());
        }
    }
    if let Some(o) = &command_output {
        if !is_blank(o.as_str()) {
            let t = trim(o.as_str());
            return first_label_of(t.as_str());
        }
    }
    owned("localhost")
}

/// The home directory a tab title abbreviates: `HOME` unless blank, else `USERPROFILE`
/// unless blank, else `HOMEDRIVE` and `HOMEPATH` trimmed and put together.
pub open spec fn tab_home_spec(
    home: Option<Seq<char>>,
    userprofile: Option<Seq<char>>,
    homedrive: Option<Seq<char>>,
    homepath: Option<Seq<char>>,
) -> Option<Seq<char>> {
    if filled(home) {
        home
    } else if filled(userprofile) {
        userprofile
    } else if filled(homedrive) && filled(homepath) {
        Some(trim_spec(homedrive->0) + trim_spec(homepath->0))
    } else {
        None
    }
}

/// The home directory a tab title abbreviates (see `tab_home_spec`).
pub fn current_home_dir(
    home: Option<String>,
    userprofile: Option<String>,
    homedrive: Option<String>,
    homepath: Option<String>,
) -> (r: Option<String>)
    ensures
        opt_view(r) == tab_home_spec(
            opt_view(home),
            opt_view(userprofile),
            opt_view(homedrive),
            opt_view(homepath),
        ),
{
    if is_filled(&home) {
        return home;
    }
    if is_filled(&userprofile) {
        return userprofile;
    }
    match (&homedrive, &homepath) {
        (Some(d), Some(p)) => {
            if is_blank(d.as_str()) || is_blank(p.as_str()) {
                None
            } else {
                let mut r = trim(d.as_str());
                let tp = trim(p.as_str());
                push_str(&mut r, tp.as_str());
                Some(r)
            }
        },
        _ => None,
    }
}

} // verus!
