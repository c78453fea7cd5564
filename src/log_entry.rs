//! The game's log lines: their grammar, and how the capture controller
//! reacts to them.
//!
//! A line reads `[<secs>.<frac> ]<System> [<Level>]: <text>`, where system
//! and level are runs of the characters `A`..=`z` (which include `[`, `\`,
//! `]`, `^`, `_` and the backquote). A script line's text reads
//! `<script>.lua: <content>`. Both are found at their leftmost occurrence,
//! and text ends at the first line break.

use vstd::prelude::*;

use crate::text::{chars_of, string_from_chars, trim, trim_chars};

verus! {

/// A parsed log line, by system and level.
#[derive(Debug, Clone, PartialEq, Eq)]
pub enum LogEntry {
    SysInfo(String),
    SysWarning(String),
    SysError(String),
    NetInfo(String),
    NetError(String),
    PhysInfo(String),
    PhysWarning(String),
    PhysError(String),
    SndInfo(String),
    GfxInfo(String),
    InputInfo(String),
    AIInfo(String),
    GameInfo(String),
    GameWarning(String),
    AnimInfo(String),
    ScriptInfo { script: String, content: String },
}

/// A character of a system, level or script name: `A`..=`z`.
pub open spec fn is_name_char(c: char) -> bool {
    0x41 <= (c as u32) && (c as u32) <= 0x7a
}

/// The end of the run of name characters that starts at `q`.
pub open spec fn name_end(s: Seq<char>, q: int) -> int
    decreases s.len() - q,
{
    if 0 <= q < s.len() && is_name_char(s[q]) {
        name_end(s, q + 1)
    } else {
        q
    }
}

/// `s` up to its first line break.
pub open spec fn until_newline(s: Seq<char>) -> Seq<char>
    decreases s.len(),
{
    if s.len() == 0 {
        s
    } else if s[0] == '\n' {
        Seq::empty()
    } else {
        seq![s[0]] + until_newline(s.drop_first())
    }
}

/// A line header `<System> [<Level>]: ` starts at `q`.
pub open spec fn header_at(s: Seq<char>, q: int) -> bool {
    let k = name_end(s, q);
    let m = name_end(s, k + 2);
    &&& 0 <= q < s.len()
    &&& k > q
    &&& k + 1 < s.len()
    &&& s[k] == ' '
    &&& s[k + 1] == '['
    &&& m - 1 > k + 2
    &&& m + 1 < s.len()
    &&& s[m - 1] == ']'
    &&& s[m] == ':'
    &&& s[m + 1] == ' '
}

/// A script prefix `<script>.lua: ` starts at `q`.
pub open spec fn script_at(s: Seq<char>, q: int) -> bool {
    let k = name_end(s, q);
    &&& 0 <= q < s.len()
    &&& k > q
    &&& k + 5 < s.len()
    &&& s[k] == '.'
    &&& s[k + 1] == 'l'
    &&& s[k + 2] == 'u'
    &&& s[k + 3] == 'a'
    &&& s[k + 4] == ':'
    &&& s[k + 5] == ' '
}

/// The leftmost position, from `q` on, where a line header starts.
pub open spec fn find_header_from(s: Seq<char>, q: int) -> Option<int>
    decreases s.len() - q,
{
    if q < 0 || q >= s.len() {
        None
    } else if header_at(s, q) {
        Some(q)
    } else {
        find_header_from(s, q + 1)
    }
}

/// The leftmost position, from `q` on, where a script prefix starts.
pub open spec fn find_script_from(s: Seq<char>, q: int) -> Option<int>
    decreases s.len() - q,
{
    if q < 0 || q >= s.len() {
        None
    } else if script_at(s, q) {
        Some(q)
    } else {
        find_script_from(s, q + 1)
    }
}

/// The system, level and text of a line, when it has a header.
pub open spec fn split_line(line: Seq<char>) -> Option<(Seq<char>, Seq<char>, Seq<char>)> {
    let s = trim(line);
    match find_header_from(s, 0) {
        Some(q) => {
            let k = name_end(s, q);
            let m = name_end(s, k + 2);
            Some(
                (
                    s.subrange(q, k),
                    s.subrange(k + 2, m - 1),
                    trim(until_newline(s.skip(m + 2))),
                ),
            )
        },
        None => None,
    }
}

/// The script and content of a script line's text.
pub open spec fn split_script(text: Seq<char>) -> Option<(Seq<char>, Seq<char>)> {
    match find_script_from(text, 0) {
        Some(q) => {
            let k = name_end(text, q);
            Some((text.subrange(q, k), trim(until_newline(text.skip(k + 6)))))
        },
        None => None,
    }
}

/// The system and level that a plain entry stands for.
pub open spec fn plain_kind(sys: Seq<char>, lvl: Seq<char>) -> bool {
    ||| sys == "Sys"@ && (lvl == "Info"@ || lvl == "Warning"@ || lvl == "Error"@)
    ||| sys == "Net"@ && (lvl == "Info"@ || lvl == "Error"@)
    ||| sys == "Phys"@ && (lvl == "Info"@ || lvl == "Warning"@ || lvl == "Error"@)
    ||| sys == "Snd"@ && lvl == "Info"@
    ||| sys == "Gfx"@ && lvl == "Info"@
    ||| sys == "Input"@ && lvl == "Info"@
    ||| sys == "AI"@ && lvl == "Info"@
    ||| sys == "Game"@ && (lvl == "Info"@ || lvl == "Warning"@)
    ||| sys == "Anim"@ && lvl == "Info"@
}

/// An entry as system, level, and its one or two texts (the second empty
/// but for script entries).
pub open spec fn entry_view(e: LogEntry) -> (Seq<char>, Seq<char>, Seq<char>, Seq<char>) {
    match e {
        LogEntry::SysInfo(t) => ("Sys"@, "Info"@, t@, Seq::empty()),
        LogEntry::SysWarning(t) => ("Sys"@, "Warning"@, t@, Seq::empty()),
        LogEntry::SysError(t) => ("Sys"@, "Error"@, t@, Seq::empty()),
        LogEntry::NetInfo(t) => ("Net"@, "Info"@, t@, Seq::empty()),
        LogEntry::NetError(t) => ("Net"@, "Error"@, t@, Seq::empty()),
        LogEntry::PhysInfo(t) => ("Phys"@, "Info"@, t@, Seq::empty()),
        LogEntry::PhysWarning(t) => ("Phys"@, "Warning"@, t@, Seq::empty()),
        LogEntry::PhysError(t) => ("Phys"@, "Error"@, t@, Seq::empty()),
        LogEntry::SndInfo(t) => ("Snd"@, "Info"@, t@, Seq::empty()),
        LogEntry::GfxInfo(t) => ("Gfx"@, "Info"@, t@, Seq::empty()),
        LogEntry::InputInfo(t) => ("Input"@, "Info"@, t@, Seq::empty()),
        LogEntry::AIInfo(t) => ("AI"@, "Info"@, t@, Seq::empty()),
        LogEntry::GameInfo(t) => ("Game"@, "Info"@, t@, Seq::empty()),
        LogEntry::GameWarning(t) => ("Game"@, "Warning"@, t@, Seq::empty()),
        LogEntry::AnimInfo(t) => ("Anim"@, "Info"@, t@, Seq::empty()),
        LogEntry::ScriptInfo { script, content } => ("Script"@, "Info"@, script@, content@),
    }
}

/// The entry a line parses to, as `entry_view` gives it; none for a line
/// without a header, of another system and level, or a script line whose
/// text has no script prefix.
pub open spec fn parsed_line(line: Seq<char>) -> Option<(Seq<char>, Seq<char>, Seq<char>, Seq<char>)> {
    match split_line(line) {
        Some((sys, lvl, text)) => if plain_kind(sys, lvl) {
            Some((sys, lvl, text, Seq::empty()))
        } else if sys == "Script"@ && lvl == "Info"@ {
            match split_script(text) {
                Some((script, content)) => Some((sys, lvl, script, content)),
                None => None,
            }
        } else {
            None
        },
        None => None,
    }
}

/// Whether `c` is a name character.
fn name_char(c: char) -> (r: bool)
    ensures
        r == is_name_char(c),
{
    0x41 <= (c as u32) && (c as u32) <= 0x7a
}

/// The end of the run of name characters that starts at `q`.
fn name_end_at(s: &Vec<char>, q: usize) -> (r: usize)
    requires
        q <= s@.len(),
    ensures
        r == name_end(s@, q as int),
        q <= r <= s@.len(),
{
    let mut k = q;
    while k < s.len() && name_char(s[k])
        invariant
            q <= k <= s@.len(),
            name_end(s@, q as int) == name_end(s@, k as int),
        decreases s@.len() - k,
    {
        k = k + 1;
    }
    k
}

/// Whether a line header starts at `q`.
fn header_at_exec(s: &Vec<char>, q: usize) -> (r: bool)
    requires
        q < s@.len(),
    ensures
        r == header_at(s@, q as int),
{
    let k = name_end_at(s, q);
    if k == q || s.len() - k < 2 || s[k] != ' ' || s[k + 1] != '[' {
        return false;
    }
    let m = name_end_at(s, k + 2);
    m - (k + 2) >= 2 && s.len() - m >= 2 && s[m - 1] == ']' && s[m] == ':' && s[m + 1] == ' '
}

/// Whether a script prefix starts at `q`.
fn script_at_exec(s: &Vec<char>, q: usize) -> (r: bool)
    requires
        q < s@.len(),
    ensures
        r == script_at(s@, q as int),
{
    let k = name_end_at(s, q);
    k > q && s.len() > 5 && k < s.len() - 5 && s[k] == '.' && s[k + 1] == 'l' && s[k + 2] == 'u'
        && s[k + 3] == 'a' && s[k + 4] == ':' && s[k + 5] == ' '
}

/// The characters of `s` from `from` up to the first line break, trimmed.
fn rest_of_line(s: &Vec<char>, from: usize) -> (r: Vec<char>)
    requires
        from <= s@.len(),
    ensures
        r@ == trim(until_newline(s@.skip(from as int))),
{
    let mut out: Vec<char> = Vec::new();
    let mut i = from;
    while i < s.len() && s[i] != '\n'
        invariant
            from <= i <= s@.len(),
            out@ + until_newline(s@.skip(i as int)) == until_newline(s@.skip(from as int)),
        decreases s@.len() - i,
    {
        assert(s@.skip(i as int).drop_first() =~= s@.skip(i + 1));
        assert(s@.skip(i as int)[0] == s@[i as int]);
        let ghost before = out@;
        out.push(s[i]);
        assert(before + until_newline(s@.skip(i as int)) =~= out@ + until_newline(
            s@.skip(i + 1),
        ));
        i = i + 1;
    }
    if i < s.len() {
        assert(s@.skip(i as int)[0] == s@[i as int]);
    } else {
        assert(s@.skip(i as int) =~= Seq::<char>::empty());
    }
    assert(out@ + until_newline(s@.skip(i as int)) =~= out@);
    trim_chars(&out)
}

/// The characters `s[from..to]`.
fn slice_chars(s: &Vec<char>, from: usize, to: usize) -> (r: Vec<char>)
    requires
        from <= to <= s@.len(),
    ensures
        r@ == s@.subrange(from as int, to as int),
{
    let mut out: Vec<char> = Vec::new();
    let mut i = from;
    while i < to
        invariant
            from <= i <= to <= s@.len(),
            out@ == s@.subrange(from as int, i as int),
        decreases to - i,
    {
        out.push(s[i]);
        i = i + 1;
        assert(out@ =~= s@.subrange(from as int, i as int));
    }
    out
}

/// Whether `v` holds the characters of `lit`.
fn is_text(v: &Vec<char>, lit: &str) -> (r: bool)
    ensures
        r == (v@ == lit@),
{
    let w = chars_of(lit);
    if v.len() != w.len() {
        return false;
    }
    let mut i: usize = 0;
    while i < v.len()
        invariant
            w@ == lit@,
            v@.len() == w@.len(),
            i <= v@.len(),
            forall|j: int| 0 <= j < i ==> v@[j] == w@[j],
        decreases v@.len() - i,
    {
        if v[i] != w[i] {
            return false;
        }
        i = i + 1;
    }
    assert(v@ =~= w@);
    true
}

/// The position of the leftmost header, if any.
fn find_header(s: &Vec<char>) -> (r: Option<usize>)
    ensures
        match find_header_from(s@, 0) {
            Some(q) => r == Some(q as usize) && q < s@.len() && header_at(s@, q),
            None => r is None,
        },
{
    let mut q: usize = 0;
    while q < s.len()
        invariant
            q <= s@.len(),
            find_header_from(s@, 0) == find_header_from(s@, q as int),
        decreases s@.len() - q,
    {
        if header_at_exec(s, q) {
            return Some(q);
        }
        q = q + 1;
    }
    None
}

/// The position of the leftmost script prefix, if any.
fn find_script(s: &Vec<char>) -> (r: Option<usize>)
    ensures
        match find_script_from(s@, 0) {
            Some(q) => r == Some(q as usize) && q < s@.len() && script_at(s@, q),
            None => r is None,
        },
{
    let mut q: usize = 0;
    while q < s.len()
        invariant
            q <= s@.len(),
            find_script_from(s@, 0) == find_script_from(s@, q as int),
        decreases s@.len() - q,
    {
        if script_at_exec(s, q) {
            return Some(q);
        }
        q = q + 1;
    }
    None
}

impl LogEntry {
    /// Parses one log line; `None` when it has no header, another system
    /// and level, or is a script line without a script prefix.
    pub fn parse(line: &str) -> (r: Option<LogEntry>)
        ensures
            match parsed_line(line@) {
                Some(v) => r is Some && entry_view(r->0) == v,
                None => r is None,
            },
    {
        proof {
            reveal_strlit("Script");
            reveal_strlit("Sys");
            reveal_strlit("Net");
            reveal_strlit("Phys");
            reveal_strlit("Snd");
            reveal_strlit("Gfx");
            reveal_strlit("Input");
            reveal_strlit("AI");
            reveal_strlit("Game");
            reveal_strlit("Anim");
            reveal_strlit("Info");
            reveal_strlit("Warning");
            reveal_strlit("Error");
        }
        let s = trim_chars(&chars_of(line));
        let q = match find_header(&s) {
            Some(q) => q,
            None => {
                return None;
            },
        };
        let _ = s.len();
        let k = name_end_at(&s, q);
        let m = name_end_at(&s, k + 2);
        let sys = slice_chars(&s, q, k);
        let lvl = slice_chars(&s, k + 2, m - 1);
        let text = rest_of_line(&s, m + 2);
        assert(split_line(line@) == Some((sys@, lvl@, text@)));
        let info = is_text(&lvl, "Info");
        let warning = is_text(&lvl, "Warning");
        let error = is_text(&lvl, "Error");
        if is_text(&sys, "Script") && info {
            assert(sys@.len() == 6);
            assert(!plain_kind(sys@, lvl@));
            let _ = text.len();
            let p = match find_script(&text) {
                Some(p) => p,
                None => {
                    return None;
                },
            };
            let e = name_end_at(&text, p);
            let script = slice_chars(&text, p, e);
            let content = rest_of_line(&text, e + 6);
            return Some(
                LogEntry::ScriptInfo {
                    script: string_from_chars(&script),
                    content: string_from_chars(&content),
                },
            );
        }
        let t = string_from_chars(&text);
        if is_text(&sys, "Sys") {
            if info {
                Some(LogEntry::SysInfo(t))
            } else if warning {
                Some(LogEntry::SysWarning(t))
            } else if error {
                Some(LogEntry::SysError(t))
            } else {
                assert(!plain_kind(sys@, lvl@) && !(sys@ == "Script"@ && lvl@ == "Info"@));
                None
            }
        } else if is_text(&sys, "Net") {
            assert(sys@[0] == 'N');
            if info {
                Some(LogEntry::NetInfo(t))
            } else if error {
                Some(LogEntry::NetError(t))
            } else {
                assert(!plain_kind(sys@, lvl@) && !(sys@ == "Script"@ && lvl@ == "Info"@));
                None
            }
        } else if is_text(&sys, "Phys") {
            assert(sys@[0] == 'P');
            if info {
                Some(LogEntry::PhysInfo(t))
            } else if warning {
                Some(LogEntry::PhysWarning(t))
            } else if error {
                Some(LogEntry::PhysError(t))
            } else {
                assert(!plain_kind(sys@, lvl@) && !(sys@ == "Script"@ && lvl@ == "Info"@));
                None
            }
        } else if is_text(&sys, "Game") {
            assert(sys@[0] == 'G');
            if info {
                Some(LogEntry::GameInfo(t))
            } else if warning {
                Some(LogEntry::GameWarning(t))
            } else {
                assert(!plain_kind(sys@, lvl@) && !(sys@ == "Script"@ && lvl@ == "Info"@));
                None
            }
        } else if !info {
            assert(!plain_kind(sys@, lvl@) && !(sys@ == "Script"@ && lvl@ == "Info"@));
            None
        } else if is_text(&sys, "Snd") {
            Some(LogEntry::SndInfo(t))
        } else if is_text(&sys, "Gfx") {
            Some(LogEntry::GfxInfo(t))
        } else if is_text(&sys, "Input") {
            Some(LogEntry::InputInfo(t))
        } else if is_text(&sys, "AI") {
            Some(LogEntry::AIInfo(t))
        } else if is_text(&sys, "Anim") {
            Some(LogEntry::AnimInfo(t))
        } else {
            assert(!plain_kind(sys@, lvl@) && !(sys@ == "Script"@ && lvl@ == "Info"@));
            None
        }
    }
}

impl std::str::FromStr for LogEntry {
    type Err = ();

    fn from_str(s: &str) -> Result<LogEntry, ()> {
        match LogEntry::parse(s) {
            Some(e) => Ok(e),
            None => Err(()),
        }
    }
}

} // verus!
