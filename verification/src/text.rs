//! Assembling the recognized text of one transcription cycle.
//!
//! The engine hands back the recognized segments one by one; the cycle's
//! result is their concatenation, each followed by a single space, with the
//! whitespace at both ends of the whole removed.

use vstd::prelude::*;
use vstd::string::StringExecFns;
use vstd::string::StrSliceExecFns;

verus! {

/// The characters Unicode gives the White_Space property — the set that
/// `str::trim` removes from the ends of a string.
pub open spec fn spec_is_whitespace(c: char) -> bool {
    ||| c == '\u{0009}'
    ||| c == '\u{000A}'
    ||| c == '\u{000B}'
    ||| c == '\u{000C}'
    ||| c == '\u{000D}'
    ||| c == ' '
    ||| c == '\u{0085}'
    ||| c == '\u{00A0}'
    ||| c == '\u{1680}'
    ||| c == '\u{2000}'
    ||| c == '\u{2001}'
    ||| c == '\u{2002}'
    ||| c == '\u{2003}'
    ||| c == '\u{2004}'
    ||| c == '\u{2005}'
    ||| c == '\u{2006}'
    ||| c == '\u{2007}'
    ||| c == '\u{2008}'
    ||| c == '\u{2009}'
    ||| c == '\u{200A}'
    ||| c == '\u{2028}'
    ||| c == '\u{2029}'
    ||| c == '\u{202F}'
    ||| c == '\u{205F}'
    ||| c == '\u{3000}'
}

/// Whether `c` is whitespace in the sense of [`spec_is_whitespace`].
pub fn is_whitespace_char(c: char) -> (r: bool)
    ensures
        r == spec_is_whitespace(c),
{
    match c {
        '\u{0009}' | '\u{000A}' | '\u{000B}' | '\u{000C}' | '\u{000D}' | ' ' | '\u{0085}'
            | '\u{00A0}' | '\u{1680}' | '\u{2000}' | '\u{2001}' | '\u{2002}' | '\u{2003}'
            | '\u{2004}' | '\u{2005}' | '\u{2006}' | '\u{2007}' | '\u{2008}' | '\u{2009}'
            | '\u{200A}' | '\u{2028}' | '\u{2029}' | '\u{202F}' | '\u{205F}' | '\u{3000}' => true,
        _ => false,
    }
}

/// Every segment followed by one space, in order.
pub open spec fn spec_joined(segs: Seq<Seq<char>>) -> Seq<char>
    decreases segs.len(),
{
    if segs.len() == 0 {
        Seq::empty()
    } else {
        spec_joined(segs.drop_last()) + segs.last() + seq![' ']
    }
}

pub open spec fn spec_trim_front(s: Seq<char>) -> Seq<char>
    decreases s.len(),
{
    if s.len() > 0 && spec_is_whitespace(s[0]) {
        spec_trim_front(s.drop_first())
    } else {
        s
    }
}

pub open spec fn spec_trim_back(s: Seq<char>) -> Seq<char>
    decreases s.len(),
{
    if s.len() > 0 && spec_is_whitespace(s.last()) {
        spec_trim_back(s.drop_last())
    } else {
        s
    }
}

pub open spec fn spec_trimmed(s: Seq<char>) -> Seq<char> {
    spec_trim_back(spec_trim_front(s))
}

/// What one cycle's transcript reads, given the engine's segments.
pub open spec fn spec_transcript(segs: Seq<Seq<char>>) -> Seq<char> {
    spec_trimmed(spec_joined(segs))
}

proof fn lemma_trim_front_subrange(s: Seq<char>, a: int)
    requires
        0 <= a <= s.len(),
        forall|j: int| 0 <= j < a ==> spec_is_whitespace(s[j]),
        a < s.len() ==> !spec_is_whitespace(s[a]),
    ensures
        spec_trim_front(s) =~= s.subrange(a, s.len() as int),
    decreases a,
{
    if a == 0 {
        assert(spec_trim_front(s) =~= s.subrange(0, s.len() as int));
    } else {
        assert(spec_is_whitespace(s[0]));
        let t = s.drop_first();
        assert(forall|j: int| 0 <= j < a - 1 ==> t[j] == s[j + 1]);
        lemma_trim_front_subrange(t, a - 1);
        assert(t.subrange(a - 1, t.len() as int) =~= s.subrange(a, s.len() as int));
    }
}

proof fn lemma_trim_back_subrange(s: Seq<char>, b: int)
    requires
        0 <= b <= s.len(),
        forall|j: int| b <= j < s.len() ==> spec_is_whitespace(s[j]),
        b > 0 ==> !spec_is_whitespace(s[b - 1]),
    ensures
        spec_trim_back(s) =~= s.subrange(0, b),
    decreases s.len(),
{
    if b == s.len() {
        if s.len() > 0 && spec_is_whitespace(s.last()) {
            assert(!spec_is_whitespace(s[b - 1]));
            assert(false);
        }
        assert(spec_trim_back(s) =~= s.subrange(0, b));
    } else {
        assert(spec_is_whitespace(s.last()));
        let t = s.drop_last();
        lemma_trim_back_subrange(t, b);
        assert(t.subrange(0, b) =~= s.subrange(0, b));
    }
}

/// First index past the leading whitespace.
fn scan_front(st: &str) -> (a: usize)
    ensures
        0 <= a <= st@.len(),
        forall|j: int| 0 <= j < a ==> spec_is_whitespace(st@[j]),
        a < st@.len() ==> !spec_is_whitespace(st@[a as int]),
{
    let len: usize = st.unicode_len();
    let mut a: usize = 0;
    while a < len
        invariant
            0 <= a <= len,
            len == st@.len(),
            forall|j: int| 0 <= j < a ==> spec_is_whitespace(st@[j]),
        decreases len - a,
    {
        if !is_whitespace_char(st.get_char(a)) {
            return a;
        }
        a += 1;
    }
    a
}

/// First index such that everything from it on is whitespace, never below
/// `a`.
fn scan_back(st: &str, a: usize) -> (b: usize)
    requires
        a <= st@.len(),
    ensures
        a <= b <= st@.len(),
        forall|j: int| b <= j < st@.len() ==> spec_is_whitespace(st@[j]),
        b > a ==> !spec_is_whitespace(st@[b - 1]),
{
    let len: usize = st.unicode_len();
    let mut b: usize = len;
    while b > a
        invariant
            a <= b <= len,
            len == st@.len(),
            forall|j: int| b <= j < len ==> spec_is_whitespace(st@[j]),
        decreases b,
    {
        if !is_whitespace_char(st.get_char(b - 1)) {
            return b;
        }
        b -= 1;
    }
    b
}

/// Removes the whitespace at both ends of `s`.
pub fn trim_whitespace(s: &String) -> (r: String)
    ensures
        r@ == spec_trimmed(s@),
{
    let st = s.as_str();
    let a = scan_front(st);
    let b = scan_back(st, a);
    let cut = st.substring_char(a, b);
    proof {
        lemma_trim_front_subrange(s@, a as int);
        let t = s@.subrange(a as int, s@.len() as int);
        assert(forall|j: int|
            b - a <= j < t.len() ==> t[j] == s@[j + a] && spec_is_whitespace(t[j]));
        assert(b - a > 0 ==> !spec_is_whitespace(t[b - a - 1]));
        lemma_trim_back_subrange(t, b - a);
        assert(t.subrange(0, b - a) =~= s@.subrange(a as int, b as int));
    }
    String::from_str(cut)
}

/// The transcript of one cycle: the segments joined, each followed by one
/// space, with the whitespace at both ends removed.
pub fn join_segments(segs: &Vec<String>) -> (r: String)
    ensures
        r@ == spec_transcript(segs.deep_view()),
{
    let mut acc = String::new();
    let n: usize = segs.len();
    let mut i: usize = 0;
    while i < n
        invariant
            0 <= i <= n,
            n == segs@.len(),
            acc@ == spec_joined(segs.deep_view().take(i as int)),
        decreases n - i,
    {
        acc.append(segs[i].as_str());
        acc.append(" ");
        proof {
            reveal_strlit(" ");
            let d = segs.deep_view();
            assert(" "@ =~= seq![' ']);
            assert(d.take(i + 1).drop_last() =~= d.take(i as int));
            assert(d.take(i + 1).last() == d[i as int]);
            assert(acc@ == spec_joined(d.take(i + 1)));
        }
        i += 1;
    }
    proof {
        assert(segs.deep_view().take(n as int) =~= segs.deep_view());
    }
    trim_whitespace(&acc)
}

} // verus!
