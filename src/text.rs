//! Character-level text facts: substring containment and the splitting of a
//! text into lines.
use vstd::prelude::*;

verus! {

/// `pat` occurs in `text` starting at position `i`.
pub open spec fn occurs_at(text: Seq<char>, pat: Seq<char>, i: int) -> bool {
    0 <= i && i + pat.len() <= text.len() && text.subrange(i, i + pat.len()) == pat
}

/// `pat` is a contiguous piece of `text`. The empty pattern is in every text.
pub open spec fn contains(text: Seq<char>, pat: Seq<char>) -> bool {
    exists|i: int| occurs_at(text, pat, i)
}

/// Position of the first newline at or after `i`, or the length of `s` when
/// there is none.
pub open spec fn next_newline(s: Seq<char>, i: int) -> int
    decreases s.len() - i,
{
    if i < 0 || i >= s.len() {
        s.len() as int
    } else if s[i] == '\n' {
        i
    } else {
        next_newline(s, i + 1)
    }
}

/// The line that starts at `start` and whose terminator (or the end of the
/// text) is at `stop`; a carriage return just before a newline is not part of
/// the line.
pub open spec fn line_text(s: Seq<char>, start: int, stop: int) -> Seq<char> {
    if start < stop && stop < s.len() && s[stop - 1] == '\r' {
        s.subrange(start, stop - 1)
    } else {
        s.subrange(start, stop)
    }
}

/// The lines of `s` from position `i` on. Lines end at `'\n'` (or `"\r\n"`);
/// the last line needs no terminator, and a terminator at the very end opens
/// no further line.
pub open spec fn lines_from(s: Seq<char>, i: int) -> Seq<Seq<char>>
    decreases s.len() + 1 - i,
{
    if i < 0 || i >= s.len() {
        Seq::empty()
    } else {
        let stop = next_newline(s, i);
        if i <= stop <= s.len() {
            seq![line_text(s, i, stop)] + lines_from(s, stop + 1)
        } else {
            Seq::empty()
        }
    }
}

/// The lines of the text `s`, in order.
pub open spec fn lines(s: Seq<char>) -> Seq<Seq<char>> {
    lines_from(s, 0)
}

/// Copies the characters of `s` into a vector.
pub fn chars_of(s: &str) -> (r: Vec<char>)
    ensures
        r@ == s@,
{
    let mut r: Vec<char> = Vec::new();
    for c in it: s.chars()
        invariant
            r@ == it.seq().take(it.index() as int),
    {
        r.push(c);
    }
    r
}

/// Whether `pat` occurs in `text` at position `i`.
fn occurs_at_exec(text: &Vec<char>, lo: usize, hi: usize, pat: &Vec<char>, i: usize) -> (r: bool)
    requires
        lo <= hi <= text.len(),
        i + pat.len() <= hi - lo,
    ensures
        r == occurs_at(text@.subrange(lo as int, hi as int), pat@, i as int),
{
    let ghost t = text@.subrange(lo as int, hi as int);
    let mut j: usize = 0;
    while j < pat.len()
        invariant
            j <= pat.len(),
            lo <= hi <= text.len(),
            i + pat.len() <= hi - lo,
            t == text@.subrange(lo as int, hi as int),
            forall|m: int| 0 <= m < j ==> t[i + m] == pat@[m],
        decreases pat.len() - j,
    {
        if text[lo + i + j] != pat[j] {
            assert(t.subrange(i as int, i + pat.len())[j as int] != pat@[j as int]);
            return false;
        }
        j += 1;
    }
    assert(t.subrange(i as int, i + pat.len()) =~= pat@);
    true
}

/// Whether `pat` occurs in the part `lo..hi` of `text`.
pub fn contains_in(text: &Vec<char>, lo: usize, hi: usize, pat: &Vec<char>) -> (r: bool)
    requires
        lo <= hi <= text.len(),
    ensures
        r == contains(text@.subrange(lo as int, hi as int), pat@),
{
    let ghost t = text@.subrange(lo as int, hi as int);
    if pat.len() > hi - lo {
        assert forall|k: int| !occurs_at(t, pat@, k) by {}
        return false;
    }
    let last: usize = hi - lo - pat.len();
    let mut i: usize = 0;
    loop
        invariant
            i <= last,
            lo <= hi <= text.len(),
            last + pat.len() == hi - lo,
            t == text@.subrange(lo as int, hi as int),
            forall|k: int| 0 <= k < i ==> !occurs_at(t, pat@, k),
        decreases last - i,
    {
        if occurs_at_exec(text, lo, hi, pat, i) {
            return true;
        }
        if i == last {
            assert forall|k: int| !occurs_at(t, pat@, k) by {
                if k > i {
                    assert(k + pat.len() > t.len());
                }
            }
            return false;
        }
        i += 1;
    }
}

/// Whether `pattern` occurs in `text` as a contiguous run of characters.
pub fn contains_str(text: &str, pattern: &str) -> (r: bool)
    ensures
        r == contains(text@, pattern@),
{
    let t = chars_of(text);
    let p = chars_of(pattern);
    let r = contains_in(&t, 0, t.len(), &p);
    assert(t@.subrange(0, t@.len() as int) =~= text@);
    r
}

} // verus!
