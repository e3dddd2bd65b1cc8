//! The `.env` file the desktop app reads at start-up: one `KEY=value`
//! assignment per line, blank lines and `#` comments skipped.

use vstd::prelude::*;
use crate::text::{line_end, lemma_line_end, lemma_line_end_shift, trim, trim_text};

verus! {

/// Where `c` first stands in `s`; the length of `s` when it does not.
pub open spec fn char_pos(s: Seq<char>, c: char) -> int
    decreases s.len(),
{
    if s.len() == 0 {
        0
    } else if s[0] == c {
        0
    } else {
        1 + char_pos(s.drop_first(), c)
    }
}

proof fn lemma_char_pos(s: Seq<char>, c: char)
    ensures
        0 <= char_pos(s, c) <= s.len(),
        char_pos(s, c) < s.len() ==> s[char_pos(s, c)] == c,
        forall|j: int| 0 <= j < char_pos(s, c) ==> s[j] != c,
    decreases s.len(),
{
    if s.len() > 0 && s[0] != c {
        let t = s.drop_first();
        lemma_char_pos(t, c);
        assert forall|j: int| 0 <= j < char_pos(s, c) implies s[j] != c by {
            if j > 0 {
                assert(s[j] == t[j - 1]);
            }
        }
    }
}

/// The assignment one line makes: none for a blank line or a comment (a
/// line starting with `#` once trimmed) or a line without `=`; else the
/// trimmed text before the first `=` and the trimmed text after it.
pub open spec fn env_entry(line: Seq<char>) -> Option<(Seq<char>, Seq<char>)> {
    let t = trim(line);
    let i = char_pos(t, '=');
    if t.len() == 0 || t[0] == '#' || i >= t.len() {
        None
    } else {
        Some((trim(t.take(i)), trim(t.skip(i + 1))))
    }
}

/// The assignments of a `.env` text, line by line, in order.
pub open spec fn env_entries(s: Seq<char>) -> Seq<(Seq<char>, Seq<char>)>
    decreases s.len(),
{
    let e = line_end(s, 0);
    let here = match env_entry(s.take(e)) {
        Some(p) => seq![p],
        None => Seq::empty(),
    };
    if e < s.len() {
        proof {
            lemma_line_end(s, 0);
        }
        here + env_entries(s.skip(e + 1))
    } else {
        here
    }
}

/// The assignments as plain values.
pub open spec fn pairs_of(v: Seq<(String, String)>) -> Seq<(Seq<char>, Seq<char>)> {
    v.map_values(|p: (String, String)| (p.0@, p.1@))
}

fn env_entry_of(line: &str) -> (r: Option<(String, String)>)
    ensures
        match r {
            Some(p) => env_entry(line@) == Some((p.0@, p.1@)),
            None => env_entry(line@) is None,
        },
{
    let t = trim_text(line);
    let n = t.unicode_len();
    if n == 0 || t.get_char(0) == '#' {
        return None;
    }
    proof { lemma_char_pos(t@, '='); }
    let mut i: usize = 0;
    while i < n && t.get_char(i) != '='
        invariant
            n == t@.len(),
            i <= n,
            forall|j: int| 0 <= j < i ==> t@[j] != '=',
        decreases n - i,
    {
        i = i + 1;
    }
    proof {
        let p = char_pos(t@, '=');
        if p < i {
            assert(t@[p] == '=');
        }
        if i < p {
            assert(t@[i as int] == '=');
        }
    }
    if i == n {
        return None;
    }
    let key = trim_text(t.substring_char(0, i));
    let value = trim_text(t.substring_char(i + 1, n));
    proof {
        assert(t@.subrange(0, i as int) =~= t@.take(i as int));
        assert(t@.subrange(i + 1, n as int) =~= t@.skip(i + 1));
    }
    Some((key, value))
}

/// Reads the assignments of a `.env` text (see `env_entries`).
pub fn env_assignments(text: &str) -> (r: Vec<(String, String)>)
    ensures
        pairs_of(r@) == env_entries(text@),
{
    let n = text.unicode_len();
    let mut out: Vec<(String, String)> = Vec::new();
    let mut start: usize = 0;
    assert(text@.skip(0) =~= text@);
    assert(pairs_of(out@) =~= Seq::empty());
    while start <= n
        invariant
            n == text@.len(),
            start <= n,
            env_entries(text@) == pairs_of(out@) + env_entries(text@.skip(start as int)),
        decreases n - start,
    {
        let mut e = start;
        while e < n && text.get_char(e) != '\n'
            invariant
                n == text@.len(),
                start <= e <= n,
                forall|j: int| start <= j < e ==> text@[j] != '\n',
            decreases n - e,
        {
            e = e + 1;
        }
        let ghost rest = text@.skip(start as int);
        let ghost before = out@;
        proof {
            lemma_line_end(text@, start as int);
            lemma_line_end_shift(text@, start as int, 0);
            let le = line_end(text@, start as int);
            if le < e {
                assert(text@[le] == '\n');
            }
            if e < le {
                assert(text@[e as int] == '\n');
            }
            assert(rest.take(e - start) =~= text@.subrange(start as int, e as int));
        }
        let line = text.substring_char(start, e);
        let entry = env_entry_of(line);
        let ghost here = match env_entry(rest.take(e - start)) {
            Some(p) => seq![p],
            None => Seq::<(Seq<char>, Seq<char>)>::empty(),
        };
        match entry {
            Some(p) => {
                out.push(p);
                proof {
                    assert(pairs_of(out@) =~= pairs_of(before) + here);
                }
            },
            None => {
                proof {
                    assert(pairs_of(out@) =~= pairs_of(before) + here);
                }
            },
        }
        if e == n {
            proof {
                assert(env_entries(rest) == here);
            }
            return out;
        }
        proof {
            assert(rest.skip(e - start + 1) =~= text@.skip(e + 1));
            assert(env_entries(rest) == here + env_entries(text@.skip(e + 1)));
            assert(pairs_of(before) + (here + env_entries(text@.skip(e + 1)))
                =~= pairs_of(out@) + env_entries(text@.skip(e + 1)));
        }
        start = e + 1;
    }
    out
}

} // verus!
