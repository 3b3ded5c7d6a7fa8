//! The arguments of the commands that manage configured servers, and the
//! checks on what a user types there.
use crate::read_file::lines::{is_white_space, lemma_leading_white_space, trim_start};
use crate::text::{chars_of, string_from_chars};
use vstd::prelude::*;
use vstd::string::StringExecFns;

verus! {

/// The commands that manage configured servers.
pub enum McpSubcommand {
    /// List configured servers.
    List(ListArgs),
    /// Show one configured server.
    Get(GetArgs),
    /// Add a server entry.
    Add(AddArgs),
    /// Remove a server entry.
    Remove(RemoveArgs),
}

/// Arguments of `list`.
pub struct ListArgs {
    /// Print the servers as JSON.
    pub json: bool,
}

/// Arguments of `get`.
pub struct GetArgs {
    /// The server to show.
    pub name: String,
    /// Print the server as JSON.
    pub json: bool,
}

/// Arguments of `add`.
pub struct AddArgs {
    /// Name of the new entry.
    pub name: String,
    /// Variables to set when the server is launched.
    pub env: Vec<(String, String)>,
    /// The command that launches the server, with its arguments.
    pub command: Vec<String>,
    /// Write the entry to the project's configuration instead of the global one.
    pub project: bool,
}

/// Arguments of `remove`.
pub struct RemoveArgs {
    /// The entry to remove.
    pub name: String,
    /// Remove it from the project's configuration instead of the global one.
    pub project: bool,
}

/// The number of trailing characters of `s` that are white space.
pub open spec fn trailing_space_count(s: Seq<char>) -> nat
    decreases s.len(),
{
    if s.len() == 0 || !is_white_space(s.last()) {
        0
    } else {
        1 + trailing_space_count(s.drop_last())
    }
}

/// `s` without white space at either end.
pub open spec fn trim(s: Seq<char>) -> Seq<char> {
    let t = trim_start(s);
    t.subrange(0, t.len() - trailing_space_count(t))
}

/// The position of the first `=` in `s`, if any.
pub open spec fn first_equals(s: Seq<char>) -> Option<int> {
    if exists|i: int| 0 <= i < s.len() && s[i] == '=' {
        Some(choose|i: int| 0 <= i < s.len() && s[i] == '=' && forall|j: int| 0 <= j < i ==> s[j] != '=')
    } else {
        None
    }
}

/// What `KEY=VALUE` denotes: the key trimmed, and everything after the first
/// `=`; nothing when there is no `=` or the key is blank.
pub open spec fn env_pair(raw: Seq<char>) -> Option<(Seq<char>, Seq<char>)> {
    match first_equals(raw) {
        Some(i) => {
            let key = trim(raw.subrange(0, i));
            if key.len() == 0 {
                None
            } else {
                Some((key, raw.subrange(i + 1, raw.len() as int)))
            }
        },
        None => None,
    }
}

proof fn lemma_trailing_count(s: Seq<char>, n: int)
    requires
        0 <= n <= s.len(),
        forall|j: int| s.len() - n <= j < s.len() ==> is_white_space(#[trigger] s[j]),
        n == s.len() || !is_white_space(s[s.len() - n - 1]),
    ensures
        trailing_space_count(s) == n,
    decreases n,
{
    if n > 0 {
        let t = s.drop_last();
        assert forall|j: int| t.len() - (n - 1) <= j < t.len() implies is_white_space(#[trigger] t[j]) by {
            assert(t[j] == s[j]);
        }
        if n < s.len() {
            assert(t[t.len() - (n - 1) - 1] == s[s.len() - n - 1]);
        }
        lemma_trailing_count(t, n - 1);
    }
}

fn white_space_char(c: char) -> (r: bool)
    ensures
        r == is_white_space(c),
{
    ('\u{9}' <= c && c <= '\u{d}') || c == ' ' || c == '\u{85}' || c == '\u{a0}' || c == '\u{1680}'
        || ('\u{2000}' <= c && c <= '\u{200a}') || c == '\u{2028}' || c == '\u{2029}' || c
        == '\u{202f}' || c == '\u{205f}' || c == '\u{3000}'
}

fn trimmed_range(s: &[char], from: usize, to: usize) -> (r: Vec<char>)
    requires
        from <= to <= s@.len(),
    ensures
        r@ == trim(s@.subrange(from as int, to as int)),
{
    let ghost whole = s@.subrange(from as int, to as int);
    let mut a = from;
    while a < to && white_space_char(s[a])
        invariant
            from <= a <= to <= s@.len(),
            whole == s@.subrange(from as int, to as int),
            forall|j: int| 0 <= j < a - from ==> is_white_space(#[trigger] whole[j]),
        decreases to - a,
    {
        a = a + 1;
    }
    proof {
        lemma_leading_white_space(whole, a - from);
    }
    let ghost t = s@.subrange(a as int, to as int);
    assert(t =~= trim_start(whole));
    let mut b = to;
    while b > a && white_space_char(s[b - 1])
        invariant
            from <= a <= b <= to <= s@.len(),
            t == s@.subrange(a as int, to as int),
            forall|j: int| b - a <= j < t.len() ==> is_white_space(#[trigger] t[j]),
        decreases b - a,
    {
        b = b - 1;
    }
    proof {
        lemma_trailing_count(t, to - b);
    }
    let mut out: Vec<char> = Vec::new();
    let mut i = a;
    while i < b
        invariant
            a <= i <= b <= s@.len(),
            out@ == s@.subrange(a as int, i as int),
        decreases b - i,
    {
        out.push(s[i]);
        assert(out@ =~= s@.subrange(a as int, i + 1));
        i = i + 1;
    }
    assert(out@ =~= t.subrange(0, t.len() - trailing_space_count(t)));
    out
}

/// The message for an entry not of the form `KEY=VALUE`.
pub open spec fn env_pair_error() -> Seq<char> {
    "environment entries must be in KEY=VALUE form"@
}

/// Reads a `KEY=VALUE` entry: the key trimmed and not blank, the value
/// everything after the first `=`.
pub fn parse_env_pair(raw: &str) -> (r: Result<(String, String), String>)
    ensures
        env_pair(raw@) matches Some(p) ==> (r matches Ok(q) && q.0@ == p.0 && q.1@ == p.1),
        env_pair(raw@) is None ==> (r matches Err(m) && m@ == env_pair_error()),
{
    let s = chars_of(raw);
    let mut i: usize = 0;
    while i < s.len() && s[i] != '='
        invariant
            i <= s@.len(),
            s@ == raw@,
            forall|j: int| 0 <= j < i ==> #[trigger] s@[j] != '=',
        decreases s@.len() - i,
    {
        i = i + 1;
    }
    if i == s.len() {
        assert(first_equals(raw@) is None);
        return Err("environment entries must be in KEY=VALUE form".to_owned());
    }
    assert(first_equals(raw@) == Some(i as int)) by {
        let k = choose|k: int| 0 <= k < s@.len() && s@[k] == '=' && forall|j: int| 0 <= j < k ==> s@[j] != '=';
        if k < i {
            assert(s@[k] != '=');
        }
        if k > i {
            assert(s@[i as int] == '=');
        }
    }
    let key = trimmed_range(s.as_slice(), 0, i);
    if key.len() == 0 {
        return Err("environment entries must be in KEY=VALUE form".to_owned());
    }
    let mut value: Vec<char> = Vec::new();
    let mut j = i + 1;
    while j < s.len()
        invariant
            i < j <= s@.len(),
            value@ == s@.subrange(i + 1, j as int),
        decreases s@.len() - j,
    {
        value.push(s[j]);
        assert(value@ =~= s@.subrange(i + 1, j + 1));
        j = j + 1;
    }
    Ok((string_from_chars(key.as_slice()), string_from_chars(value.as_slice())))
}

/// A character allowed in a server name: an ASCII letter or digit, `-` or `_`.
pub open spec fn name_char(c: char) -> bool {
    ('a' <= c && c <= 'z') || ('A' <= c && c <= 'Z') || ('0' <= c && c <= '9') || c == '-' || c == '_'
}

/// A valid server name: not empty, and made of allowed characters only.
pub open spec fn valid_server_name(name: Seq<char>) -> bool {
    name.len() > 0 && forall|i: int| 0 <= i < name.len() ==> name_char(#[trigger] name[i])
}

/// Accepts a non-empty name of ASCII letters, digits, `-` and `_`; refuses
/// any other with a message that quotes it.
pub fn validate_server_name(name: &str) -> (r: Result<(), String>)
    ensures
        valid_server_name(name@) ==> r is Ok,
        !valid_server_name(name@) ==> (r matches Err(m) && m@ == "invalid server name '"@ + name@
            + "' (use letters, numbers, '-', '_')"@),
{
    let s = chars_of(name);
    let mut ok = s.len() > 0;
    let mut i: usize = 0;
    while i < s.len()
        invariant
            i <= s@.len(),
            s@ == name@,
            ok == (s@.len() > 0 && forall|j: int| 0 <= j < i ==> name_char(#[trigger] s@[j])),
        decreases s@.len() - i,
    {
        let c = s[i];
        let allowed = ('a' <= c && c <= 'z') || ('A' <= c && c <= 'Z') || ('0' <= c && c <= '9')
            || c == '-' || c == '_';
        ok = ok && allowed;
        proof {
            if !allowed {
                assert(!name_char(s@[i as int]));
            }
        }
        i = i + 1;
    }
    if ok {
        Ok(())
    } else {
        let mut m = "invalid server name '".to_owned();
        m.append(name);
        m.append("' (use letters, numbers, '-', '_')");
        Err(m)
    }
}

} // verus!
