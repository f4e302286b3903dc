//! Desktop-entry text for the per-user `.desktop` file, so compositors can
//! match the running window to its icon. Writing the files is the caller's.
use vstd::prelude::*;
use vstd::utf8::encode_utf8;
use vstd::string::StringSliceAdditionalSpecFns;

use crate::text::{chars_of, owned};

verus! {

/// A byte the Desktop Entry spec cannot carry in a value: a control byte.
pub open spec fn is_control_byte(b: u8) -> bool {
    b < 0x20 || b == 0x7f
}

pub open spec fn has_control_byte(bytes: Seq<u8>) -> bool {
    exists|i: int| 0 <= i < bytes.len() && is_control_byte(#[trigger] bytes[i])
}

/// Backslash and double quote escaped with a backslash.
pub open spec fn escape_char(c: char) -> Seq<char> {
    if c == '\\' {
        seq!['\\', '\\']
    } else if c == '"' {
        seq!['\\', '"']
    } else {
        seq![c]
    }
}

pub open spec fn escape(s: Seq<char>) -> Seq<char>
    decreases s.len(),
{
    if s.len() == 0 {
        Seq::empty()
    } else {
        escape(s.drop_last()) + escape_char(s.last())
    }
}

/// The quoted `Exec=` form of a path: none when the path holds a control
/// byte, else the escaped path between double quotes.
pub open spec fn exec_quote_spec(path: Seq<char>) -> Option<Seq<char>> {
    if has_control_byte(encode_utf8(path)) {
        None
    } else {
        Some(seq!['"'] + escape(path) + seq!['"'])
    }
}

/// Escape and quote an executable path for the Desktop Entry `Exec=` key.
pub fn exec_quote(path: &str) -> (r: Option<String>)
    ensures
        match exec_quote_spec(path@) {
            Some(q) => r matches Some(x) && x@ == q,
            None => r is None,
        },
{
    let bytes = path.as_bytes();
    let mut i: usize = 0;
    while i < bytes.len()
        invariant
            bytes@ == encode_utf8(path@),
            i <= bytes@.len(),
            forall|j: int| 0 <= j < i ==> !is_control_byte(#[trigger] bytes@[j]),
        decreases bytes@.len() - i,
    {
        let b = bytes[i];
        if b < 0x20 || b == 0x7f {
            return None;
        }
        i = i + 1;
    }
    let v = chars_of(path);
    let mut out = owned("\"");
    proof {
        reveal_strlit("\"");
        reveal_strlit("\\\\");
        reveal_strlit("\\\"");
    }
    let mut k: usize = 0;
    while k < v.len()
        invariant
            v@ == path@,
            k <= v@.len(),
            out@ == seq!['"'] + escape(path@.take(k as int)),
        decreases v@.len() - k,
    {
        let c = v[k];
        proof {
            reveal_strlit("\\\\");
            reveal_strlit("\\\"");
            assert(path@.take(k + 1).drop_last() =~= path@.take(k as int));
            assert(path@.take(k + 1).last() == c);
            assert(escape(path@.take(k + 1)) == escape(path@.take(k as int)) + escape_char(c));
        }
        let ghost before = out@;
        if c == '\\' {
            out.append("\\\\");
            assert(out@ =~= before + escape_char(c));
        } else if c == '"' {
            out.append("\\\"");
            assert(out@ =~= before + escape_char(c));
        } else {
            out.append(path.substring_char(k, k + 1));
            proof {
                assert(path@.subrange(k as int, k + 1) =~= seq![c]);
            }
            assert(out@ =~= before + escape_char(c));
        }
        k = k + 1;
    }
    proof {
        assert(path@.take(v@.len() as int) =~= path@);
    }
    out.append("\"");
    Some(out)
}

// ── reading a quoted value back ─────────────────────────────────────────

/// How a Desktop Entry reader takes the inside of a quoted value: a
/// backslash stands for the character after it.
pub open spec fn unescape(s: Seq<char>) -> Seq<char>
    decreases s.len(),
{
    if s.len() == 0 {
        Seq::empty()
    } else if s[0] == '\\' && s.len() >= 2 {
        seq![s[1]] + unescape(s.skip(2))
    } else {
        seq![s[0]] + unescape(s.drop_first())
    }
}

proof fn lemma_escape_concat(a: Seq<char>, b: Seq<char>)
    ensures
        escape(a + b) == escape(a) + escape(b),
    decreases b.len(),
{
    if b.len() == 0 {
        assert(a + b =~= a);
        assert(escape(b) =~= Seq::<char>::empty());
        assert(escape(a) + escape(b) =~= escape(a));
    } else {
        assert((a + b).drop_last() =~= a + b.drop_last());
        assert((a + b).last() == b.last());
        lemma_escape_concat(a, b.drop_last());
        assert(escape(a + b) =~= escape(a) + escape(b));
    }
}

proof fn lemma_unescape_step(c: char, r: Seq<char>)
    ensures
        unescape(escape_char(c) + r) == seq![c] + unescape(r),
{
    let s = escape_char(c) + r;
    if c == '\\' || c == '"' {
        assert(s[0] == '\\');
        assert(s[1] == c);
        assert(s.skip(2) =~= r);
    } else {
        assert(s[0] == c);
        assert(s.drop_first() =~= r);
    }
}

proof fn lemma_unescape_escape(s: Seq<char>)
    ensures
        unescape(escape(s)) == s,
    decreases s.len(),
{
    if s.len() > 0 {
        let t = s.drop_first();
        assert(s =~= seq![s[0]] + t);
        lemma_escape_concat(seq![s[0]], t);
        let one = seq![s[0]];
        assert(one.drop_last() =~= Seq::<char>::empty());
        assert(one.last() == s[0]);
        assert(escape(one.drop_last()) =~= Seq::<char>::empty());
        assert(escape(one) == escape(one.drop_last()) + escape_char(s[0]));
        assert(escape(one) =~= escape_char(s[0]));
        lemma_unescape_step(s[0], escape(t));
        lemma_unescape_escape(t);
    } else {
        assert(escape(s) =~= Seq::<char>::empty());
    }
}

/// A quoted `Exec=` value reads back as the path it quotes: it is the
/// path's escaped form between double quotes, and a reader that takes a
/// backslash as standing for the next character recovers the path exactly.
pub proof fn law_exec_quote_reads_back(path: Seq<char>)
    ensures
        exec_quote_spec(path) matches Some(q) ==> {
            &&& q.len() >= 2
            &&& q[0] == '"'
            &&& q[q.len() - 1] == '"'
            &&& unescape(q.subrange(1, q.len() - 1)) == path
        },
{
    if let Some(q) = exec_quote_spec(path) {
        assert(q.subrange(1, q.len() - 1) =~= escape(path));
        lemma_unescape_escape(path);
    }
}

/// The `Exec=` value: the quoted path of the running binary, or the bare
/// name `gitara` when the path is unknown or cannot be quoted.
pub fn exec_value(exe: Option<&str>) -> (r: String)
    ensures
        r@ == match exe {
            Some(p) => match exec_quote_spec(p@) {
                Some(q) => q,
                None => "gitara"@,
            },
            None => "gitara"@,
        },
{
    match exe {
        Some(p) => match exec_quote(p) {
            Some(q) => q,
            None => owned("gitara"),
        },
        None => owned("gitara"),
    }
}

pub open spec fn entry_head() -> Seq<char> {
    "[Desktop Entry]\nType=Application\nName=gitara\nGenericName=Git GUI\nComment=Native git GUI in Rust\nExec="@
}

pub open spec fn entry_tail() -> Seq<char> {
    " %F\nIcon=gitara\nTerminal=false\nCategories=Development;RevisionControl;\nStartupWMClass=gitara\n"@
}

/// The text of `gitara.desktop` for the `Exec=` value `exe`.
pub fn desktop_entry(exe: &str) -> (r: String)
    ensures
        r@ == entry_head() + exe@ + entry_tail(),
{
    let mut s = owned("[Desktop Entry]\nType=Application\nName=gitara\nGenericName=Git GUI\nComment=Native git GUI in Rust\nExec=");
    s.append(exe);
    s.append(" %F\nIcon=gitara\nTerminal=false\nCategories=Development;RevisionControl;\nStartupWMClass=gitara\n");
    s
}


// ── what an install does ────────────────────────────────────────────────

/// The writes an install makes.
pub struct InstallSteps {
    /// Render the icon at every installed size.
    pub write_icons: bool,
    /// Write the `.desktop` entry.
    pub write_entry: bool,
    /// Ask the desktop caches to refresh.
    pub refresh_caches: bool,
}

/// What to install, given whether a system package already provides the
/// entry, whether the user's data directory is known, and whether the
/// user's entry already exists: a system entry takes precedence and
/// nothing is written; otherwise the icons are always re-rendered, the
/// entry is written only when absent, and the caches are refreshed.
pub fn install_steps(system_entry: bool, has_home: bool, entry_exists: bool) -> (s: InstallSteps)
    ensures
        s.write_icons == (!system_entry && has_home),
        s.write_entry == (!system_entry && has_home && !entry_exists),
        s.refresh_caches == (!system_entry && has_home),
{
    let go = !system_entry && has_home;
    InstallSteps { write_icons: go, write_entry: go && !entry_exists, refresh_caches: go }
}

} // verus!
