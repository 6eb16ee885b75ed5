//! Session resolver: parses the multiplexer's session listing — one line
//! per session, an opaque id and the session name joined by a single
//! comma — and looks a session up by name. Lines without the delimiter
//! are skipped, never an error.

use vstd::prelude::*;
use vstd::string::{StrSliceExecFns, StringExecFns};

verus! {

/// A live session as observed in one listing of the external tool:
/// its opaque identifier and its name. Never stored across operations.
#[derive(Debug, Clone, PartialEq)]
pub struct Session {
    pub id: String,
    pub name: String,
}

/// Whether `c` counts as whitespace when an id is trimmed.
pub uninterp spec fn ws_char(c: char) -> bool;

/// Relies on `char::is_whitespace`: the answer depends on the character
/// alone.
#[verifier::external_body]
fn is_ws(c: char) -> (r: bool)
    ensures
        r == ws_char(c),
{
    c.is_whitespace()
}

/// `s` with leading whitespace removed.
pub open spec fn trim_start_spec(s: Seq<char>) -> Seq<char>
    decreases s.len(),
{
    if s.len() > 0 && ws_char(s[0]) {
        trim_start_spec(s.drop_first())
    } else {
        s
    }
}

/// `s` with trailing whitespace removed.
pub open spec fn trim_end_spec(s: Seq<char>) -> Seq<char>
    decreases s.len(),
{
    if s.len() > 0 && ws_char(s.last()) {
        trim_end_spec(s.drop_last())
    } else {
        s
    }
}

/// `s` with leading and trailing whitespace removed.
pub open spec fn trim_spec(s: Seq<char>) -> Seq<char> {
    trim_end_spec(trim_start_spec(s))
}

/// Removes leading and trailing whitespace.
pub fn trim_chars<'a>(s: &'a str) -> (r: &'a str)
    ensures
        r@ == trim_spec(s@),
{
    let n: usize = s.unicode_len();
    let mut lo: usize = 0;
    proof {
        assert(s@.skip(0) =~= s@);
    }
    while lo < n && is_ws(s.get_char(lo))
        invariant
            lo <= n,
            n == s@.len(),
            trim_start_spec(s@) == trim_start_spec(s@.skip(lo as int)),
        decreases n - lo,
    {
        proof {
            assert(s@.skip(lo as int).drop_first() =~= s@.skip(lo as int + 1));
        }
        lo = lo + 1;
    }
    proof {
        assert(trim_start_spec(s@) == s@.skip(lo as int));
    }
    let mut hi: usize = n;
    while hi > lo && is_ws(s.get_char(hi - 1))
        invariant
            lo <= hi <= n,
            n == s@.len(),
            trim_end_spec(s@.skip(lo as int)) == trim_end_spec(s@.subrange(lo as int, hi as int)),
        decreases hi,
    {
        proof {
            assert(s@.subrange(lo as int, hi as int).drop_last() =~= s@.subrange(
                lo as int,
                hi as int - 1,
            ));
            assert(s@.subrange(lo as int, hi as int).last() == s@[hi as int - 1]);
        }
        hi = hi - 1;
    }
    proof {
        assert(s@.skip(lo as int) =~= s@.subrange(lo as int, n as int));
        assert(trim_end_spec(s@.subrange(lo as int, hi as int)) == s@.subrange(
            lo as int,
            hi as int,
        ));
    }
    s.substring_char(lo, hi)
}

/// Whether the two strings hold the same characters.
pub fn str_eq(a: &str, b: &str) -> (r: bool)
    ensures
        r == (a@ == b@),
{
    let sa = a.to_owned();
    let sb = b.to_owned();
    sa == sb
}

/// A line with one trailing carriage return removed, as the line
/// splitter leaves it.
pub open spec fn chomp_cr(line: Seq<char>) -> Seq<char> {
    if line.len() > 0 && line.last() == '\r' {
        line.drop_last()
    } else {
        line
    }
}

/// The lines of `s` when `cur` has already been read as the start of
/// the current line: split at each newline, one trailing carriage
/// return removed per line, and no empty final line after a trailing
/// newline.
pub open spec fn lines_acc(s: Seq<char>, cur: Seq<char>) -> Seq<Seq<char>>
    decreases s.len(),
{
    if s.len() == 0 {
        if cur.len() == 0 {
            Seq::empty()
        } else {
            seq![chomp_cr(cur)]
        }
    } else if s[0] == '\n' {
        seq![chomp_cr(cur)] + lines_acc(s.drop_first(), Seq::empty())
    } else {
        lines_acc(s.drop_first(), cur.push(s[0]))
    }
}

/// The lines of `s`.
pub open spec fn split_lines(s: Seq<char>) -> Seq<Seq<char>> {
    lines_acc(s, Seq::empty())
}

/// Splits at the first occurrence of `c`, when `pre` has already been
/// read as the part before it.
pub open spec fn split_acc(s: Seq<char>, pre: Seq<char>, c: char) -> Option<
    (Seq<char>, Seq<char>),
>
    decreases s.len(),
{
    if s.len() == 0 {
        None
    } else if s[0] == c {
        Some((pre, s.drop_first()))
    } else {
        split_acc(s.drop_first(), pre.push(s[0]), c)
    }
}

/// The parts of `line` before and after its first comma; `None` when it
/// holds no comma.
pub open spec fn spec_split_once(line: Seq<char>) -> Option<(Seq<char>, Seq<char>)> {
    split_acc(line, Seq::empty(), ',')
}

/// The id field of the first listed line whose name field is `name`.
pub open spec fn find_in_lines(ls: Seq<Seq<char>>, name: Seq<char>) -> Option<Seq<char>>
    decreases ls.len(),
{
    if ls.len() == 0 {
        None
    } else {
        match spec_split_once(ls[0]) {
            Some(p) => if p.1 == name {
                Some(p.0)
            } else {
                find_in_lines(ls.drop_first(), name)
            },
            None => find_in_lines(ls.drop_first(), name),
        }
    }
}

/// The session id that a listing `text` reports under `name`, if any.
pub open spec fn find_session_spec(text: Seq<char>, name: Seq<char>) -> Option<Seq<char>> {
    find_in_lines(split_lines(text), name)
}

/// A line with one trailing carriage return removed.
fn chomp_line(line: &str) -> (r: String)
    ensures
        r@ == chomp_cr(line@),
{
    let k: usize = line.unicode_len();
    if k > 0 && line.get_char(k - 1) == '\r' {
        proof {
            assert(line@.subrange(0, k as int - 1) =~= line@.drop_last());
        }
        line.substring_char(0, k - 1).to_owned()
    } else {
        line.to_owned()
    }
}

/// Splits `text` into its lines.
pub fn split_lines_exec(text: &str) -> (r: Vec<String>)
    ensures
        r.deep_view() == split_lines(text@),
{
    let n: usize = text.unicode_len();
    let mut out: Vec<String> = Vec::new();
    let mut start: usize = 0;
    let mut i: usize = 0;
    proof {
        assert(text@.skip(0) =~= text@);
        assert(text@.subrange(0, 0) =~= Seq::<char>::empty());
        assert(out.deep_view() + lines_acc(text@, Seq::empty()) =~= lines_acc(
            text@,
            Seq::empty(),
        ));
    }
    while i < n
        invariant
            start <= i <= n,
            n == text@.len(),
            split_lines(text@) == out.deep_view() + lines_acc(
                text@.skip(i as int),
                text@.subrange(start as int, i as int),
            ),
        decreases n - i,
    {
        let ghost cur = text@.subrange(start as int, i as int);
        let c = text.get_char(i);
        proof {
            assert(text@.skip(i as int)[0] == text@[i as int]);
            assert(text@.skip(i as int).drop_first() =~= text@.skip(i as int + 1));
        }
        if c == '\n' {
            let line = chomp_line(text.substring_char(start, i));
            proof {
                assert(lines_acc(text@.skip(i as int), cur) == seq![chomp_cr(cur)] + lines_acc(
                    text@.skip(i as int + 1),
                    Seq::empty(),
                ));
            }
            let ghost before = out.deep_view();
            out.push(line);
            proof {
                assert(out.deep_view() =~= before.push(chomp_cr(cur)));
                assert(before + (seq![chomp_cr(cur)] + lines_acc(
                    text@.skip(i as int + 1),
                    Seq::empty(),
                )) =~= out.deep_view() + lines_acc(text@.skip(i as int + 1), Seq::empty()));
                assert(text@.subrange(i as int + 1, i as int + 1) =~= Seq::<char>::empty());
            }
            start = i + 1;
        } else {
            proof {
                assert(cur.push(text@[i as int]) =~= text@.subrange(start as int, i as int + 1));
            }
        }
        i = i + 1;
    }
    proof {
        assert(text@.skip(n as int) =~= Seq::<char>::empty());
    }
    if start < n {
        let line = chomp_line(text.substring_char(start, n));
        let ghost before = out.deep_view();
        let ghost cur = text@.subrange(start as int, n as int);
        out.push(line);
        proof {
            assert(out.deep_view() =~= before.push(chomp_cr(cur)));
            assert(before + lines_acc(Seq::empty(), cur) =~= out.deep_view());
        }
    } else {
        proof {
            assert(out.deep_view() + lines_acc(
                Seq::empty(),
                text@.subrange(start as int, n as int),
            ) =~= out.deep_view());
        }
    }
    out
}

/// The parts of `line` before and after its first comma.
pub fn split_once_comma(line: &str) -> (r: Option<(String, String)>)
    ensures
        match spec_split_once(line@) {
            Some(p) => r matches Some(q) && q.0@ == p.0 && q.1@ == p.1,
            None => r is None,
        },
{
    let n: usize = line.unicode_len();
    let mut j: usize = 0;
    proof {
        assert(line@.skip(0) =~= line@);
        assert(line@.subrange(0, 0) =~= Seq::<char>::empty());
    }
    while j < n
        invariant
            j <= n,
            n == line@.len(),
            spec_split_once(line@) == split_acc(
                line@.skip(j as int),
                line@.subrange(0, j as int),
                ',',
            ),
        decreases n - j,
    {
        let ghost pre = line@.subrange(0, j as int);
        proof {
            assert(line@.skip(j as int)[0] == line@[j as int]);
            assert(line@.skip(j as int).drop_first() =~= line@.skip(j as int + 1));
        }
        if line.get_char(j) == ',' {
            proof {
                assert(line@.skip(j as int).drop_first() =~= line@.subrange(
                    j as int + 1,
                    n as int,
                ));
            }
            let before = line.substring_char(0, j).to_owned();
            let after = line.substring_char(j + 1, n).to_owned();
            return Some((before, after));
        }
        proof {
            assert(pre.push(line@[j as int]) =~= line@.subrange(0, j as int + 1));
        }
        j = j + 1;
    }
    proof {
        assert(line@.skip(n as int) =~= Seq::<char>::empty());
    }
    None
}

/// Looks `name` up in the listing `text`: the first line whose name
/// field equals `name` yields the session, later lines and lines
/// without a delimiter are passed over.
pub fn find_session(text: &str, name: &str) -> (r: Option<Session>)
    ensures
        match find_session_spec(text@, name@) {
            Some(id) => r matches Some(s) && s.id@ == id && s.name@ == name@,
            None => r is None,
        },
{
    let lines = split_lines_exec(text);
    let ghost ldv = lines.deep_view();
    let n = lines.len();
    let mut k: usize = 0;
    proof {
        assert(ldv.skip(0) =~= ldv);
    }
    while k < n
        invariant
            k <= n,
            n == lines.len(),
            ldv == lines.deep_view(),
            find_in_lines(ldv, name@) == find_in_lines(ldv.skip(k as int), name@),
            find_session_spec(text@, name@) == find_in_lines(ldv, name@),
        decreases n - k,
    {
        proof {
            assert(ldv.skip(k as int)[0] == ldv[k as int]);
            assert(ldv.skip(k as int).drop_first() =~= ldv.skip(k as int + 1));
        }
        match split_once_comma(&lines[k]) {
            Some((id, session_name)) => {
                if str_eq(session_name.as_str(), name) {
                    return Some(Session { id, name: name.to_owned() });
                }
            },
            None => {},
        }
        k = k + 1;
    }
    proof {
        assert(ldv.skip(n as int) =~= Seq::<Seq<char>>::empty());
    }
    None
}

/// Law: a listing with some line whose name field is `name` always
/// resolves the name to a session, whatever stands on the other lines.
pub proof fn lemma_session_found(ls: Seq<Seq<char>>, name: Seq<char>)
    requires
        exists|i: int|
            0 <= i < ls.len() && ((#[trigger] spec_split_once(ls[i])) matches Some(p) && p.1
                == name),
    ensures
        find_in_lines(ls, name) is Some,
    decreases ls.len(),
{
    let i = choose|i: int|
        0 <= i < ls.len() && ((#[trigger] spec_split_once(ls[i])) matches Some(p) && p.1 == name);
    match spec_split_once(ls[0]) {
        Some(p) => {
            if p.1 != name {
                assert(i != 0);
                assert(spec_split_once(ls.drop_first()[i - 1]) == spec_split_once(ls[i]));
                lemma_session_found(ls.drop_first(), name);
            }
        },
        None => {
            assert(i != 0);
            assert(spec_split_once(ls.drop_first()[i - 1]) == spec_split_once(ls[i]));
            lemma_session_found(ls.drop_first(), name);
        },
    }
}

} // verus!
