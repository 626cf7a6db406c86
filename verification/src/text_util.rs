use vstd::prelude::*;
use itertools::Itertools;
use vstd::string::StringExecFns;
use vstd::string::StrSliceExecFns;
use crate::element::views_of;

verus! {

/// The text with every space removed.
pub open spec fn spec_strip_spaces(s: Seq<char>) -> Seq<char>
    decreases s.len(),
{
    if s.len() == 0 {
        s
    } else if s.last() == ' ' {
        spec_strip_spaces(s.drop_last())
    } else {
        spec_strip_spaces(s.drop_last()).push(s.last())
    }
}

/// Removes every space from the text.
pub fn strip_spaces(s: &str) -> (r: String)
    ensures
        r@ == spec_strip_spaces(s@),
{
    let mut out = String::new();
    let n: usize = s.unicode_len();
    let mut i: usize = 0;
    while i < n
        invariant
            n == s@.len(),
            i <= n,
            out@ == spec_strip_spaces(s@.take(i as int)),
        decreases n - i,
    {
        let c = s.get_char(i);
        proof {
            assert(s@.take(i + 1 as int).drop_last() =~= s@.take(i as int));
            assert(s@.take(i + 1 as int).last() == s@[i as int]);
        }
        if c != ' ' {
            let piece = s.substring_char(i, i + 1);
            out.append(piece);
            proof {
                assert(piece@ =~= seq![s@[i as int]]);
                assert(out@ =~= spec_strip_spaces(s@.take(i + 1 as int)));
            }
        }
        i = i + 1;
    }
    proof {
        assert(s@.take(n as int) =~= s@);
    }
    out
}

/// Whether the needle stands in the haystack at position `at`.
pub open spec fn spec_matches_at(haystack: Seq<char>, needle: Seq<char>, at: int) -> bool {
    0 <= at && at + needle.len() <= haystack.len() && haystack.subrange(at, at + needle.len())
        == needle
}

/// Whether the needle is a prefix of the haystack.
pub open spec fn spec_starts_with(haystack: Seq<char>, needle: Seq<char>) -> bool {
    spec_matches_at(haystack, needle, 0)
}

/// Whether the needle stands somewhere in the haystack.
pub open spec fn spec_contains(haystack: Seq<char>, needle: Seq<char>) -> bool {
    exists|at: int| spec_matches_at(haystack, needle, at)
}

/// Compares the needle against the haystack at position `at`.
fn matches_at(haystack: &str, needle: &str, at: usize) -> (r: bool)
    requires
        at + needle@.len() <= haystack@.len(),
    ensures
        r == spec_matches_at(haystack@, needle@, at as int),
{
    let hn: usize = haystack.unicode_len();
    let n: usize = needle.unicode_len();
    let mut j: usize = 0;
    while j < n
        invariant
            n == needle@.len(),
            j <= n,
            hn == haystack@.len(),
            at + n <= hn,
            forall|k: int| 0 <= k < j ==> haystack@[at + k] == needle@[k],
        decreases n - j,
    {
        if haystack.get_char(at + j) != needle.get_char(j) {
            proof {
                assert(haystack@.subrange(at as int, at + needle@.len())[j as int] != needle@[j as int]);
            }
            return false;
        }
        j = j + 1;
    }
    proof {
        assert(haystack@.subrange(at as int, at + needle@.len()) =~= needle@);
    }
    true
}

/// Whether the needle is a prefix of the haystack.
pub fn starts_with(haystack: &str, needle: &str) -> (r: bool)
    ensures
        r == spec_starts_with(haystack@, needle@),
{
    let hn: usize = haystack.unicode_len();
    let nn: usize = needle.unicode_len();
    if nn > hn {
        return false;
    }
    matches_at(haystack, needle, 0)
}

/// Whether the needle stands somewhere in the haystack.
pub fn contains(haystack: &str, needle: &str) -> (r: bool)
    ensures
        r == spec_contains(haystack@, needle@),
{
    let hn: usize = haystack.unicode_len();
    let nn: usize = needle.unicode_len();
    if nn > hn {
        proof {
            assert(forall|at: int| !spec_matches_at(haystack@, needle@, at));
        }
        return false;
    }
    if nn == 0 {
        proof {
            assert(spec_matches_at(haystack@, needle@, 0)) by {
                assert(haystack@.subrange(0, 0) =~= needle@);
            }
        }
        return true;
    }
    let last: usize = hn - nn;
    let mut i: usize = 0;
    while i <= last
        invariant
            hn == haystack@.len(),
            nn == needle@.len(),
            1 <= nn <= hn,
            last == hn - nn,
            i <= last + 1,
            forall|at: int| 0 <= at < i ==> !spec_matches_at(haystack@, needle@, at),
        decreases last + 1 - i,
    {
        if matches_at(haystack, needle, i) {
            return true;
        }
        i = i + 1;
    }
    proof {
        assert(forall|at: int| !spec_matches_at(haystack@, needle@, at));
    }
    false
}

/// Compares two texts character by character.
pub fn str_eq(a: &str, b: &str) -> (r: bool)
    ensures
        r == (a@ == b@),
{
    let an: usize = a.unicode_len();
    let bn: usize = b.unicode_len();
    if an != bn {
        return false;
    }
    let r = matches_at(a, b, 0);
    proof {
        assert(a@.subrange(0, b@.len() as int) =~= a@);
    }
    r
}

/// Whether one of the strings in the list reads the same as the given
/// text.
pub fn vec_contains_str(v: &Vec<String>, s: &str) -> (r: bool)
    ensures
        r == views_of(v@).contains(s@),
{
    let n: usize = v.len();
    let mut i: usize = 0;
    while i < n
        invariant
            n == v@.len(),
            i <= n,
            forall|k: int| 0 <= k < i ==> (#[trigger] v@[k])@ != s@,
        decreases n - i,
    {
        if str_eq(v[i].as_str(), s) {
            proof {
                assert(views_of(v@)[i as int] == s@);
            }
            return true;
        }
        i = i + 1;
    }
    proof {
        assert forall|k: int| 0 <= k < views_of(v@).len() implies views_of(v@)[k] != s@ by {
            assert(v@[k]@ != s@);
        }
    }
    false
}

/// A list with one more entry folded in unless it is already present.
pub open spec fn spec_push_unique(s: Seq<Seq<char>>, x: Seq<char>) -> Seq<Seq<char>> {
    if s.contains(x) {
        s
    } else {
        s.push(x)
    }
}

/// A list with every entry of a second list folded in, in order, each
/// only if not already present.
pub open spec fn spec_add_unique_all(s: Seq<Seq<char>>, vs: Seq<Seq<char>>) -> Seq<Seq<char>>
    decreases vs.len(),
{
    if vs.len() == 0 {
        s
    } else {
        spec_push_unique(spec_add_unique_all(s, vs.drop_last()), vs.last())
    }
}

/// The list with every later duplicate dropped: each text keeps its
/// first position.
pub open spec fn spec_dedup(s: Seq<Seq<char>>) -> Seq<Seq<char>>
    decreases s.len(),
{
    if s.len() == 0 {
        s
    } else {
        spec_push_unique(spec_dedup(s.drop_last()), s.last())
    }
}

/// The name of what an outside case folding returns: it depends on the
/// characters of its argument alone.
pub uninterp spec fn lower_of(s: Seq<char>) -> Seq<char>;

/// Relies on str::to_lowercase: the Unicode lowercase mapping of the
/// text, a function of the characters alone.
#[verifier::external_body]
pub(crate) fn to_lowercase(s: &str) -> (r: String)
    ensures
        r@ == lower_of(s@),
{
    s.to_lowercase()
}

/// The lexicographic code-point order on texts.
pub open spec fn lex_le(a: Seq<char>, b: Seq<char>) -> bool
    decreases a.len(),
{
    if a.len() == 0 {
        true
    } else if b.len() == 0 {
        false
    } else if (a[0] as u32) < (b[0] as u32) {
        true
    } else if (a[0] as u32) > (b[0] as u32) {
        false
    } else {
        lex_le(a.drop_first(), b.drop_first())
    }
}

/// The text inserted into an already sorted list, after every entry that
/// orders no later than it.
pub open spec fn spec_insert_sorted(x: Seq<char>, s: Seq<Seq<char>>) -> Seq<Seq<char>>
    decreases s.len(),
{
    if s.len() == 0 {
        seq![x]
    } else if lex_le(s.last(), x) {
        s.push(x)
    } else {
        spec_insert_sorted(x, s.drop_last()).push(s.last())
    }
}

/// The stable ascending sort of a list of texts.
pub open spec fn spec_sorted_texts(s: Seq<Seq<char>>) -> Seq<Seq<char>>
    decreases s.len(),
{
    if s.len() == 0 {
        s
    } else {
        spec_insert_sorted(s.last(), spec_sorted_texts(s.drop_last()))
    }
}

/// Relies on itertools' sorted: a stable ascending sort by `Ord`, which
/// on strings is the lexicographic byte order, and UTF-8 byte order
/// agrees with code-point order.
#[verifier::external_body]
pub(crate) fn sorted_strings(v: Vec<String>) -> (r: Vec<String>)
    ensures
        views_of(r@) == spec_sorted_texts(views_of(v@)),
{
    v.into_iter().sorted().collect()
}

} // verus!
