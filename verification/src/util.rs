use vstd::prelude::*;
use vstd::string::StringExecFns;
use vstd::string::StrSliceExecFns;

verus! {

/// Four spaces for every level of indentation.
pub open spec fn spec_indent(level: nat) -> Seq<char> {
    Seq::new(4 * level, |i: int| ' ')
}

/// Returns the indentation prefix for the given level.
pub fn indent(level: usize) -> (r: String)
    ensures
        r@ == spec_indent(level as nat),
{
    let mut source = String::new();
    let mut i: usize = 0;
    while i < level
        invariant
            i <= level,
            source@ == spec_indent(i as nat),
        decreases level - i,
    {
        source.append("    ");
        proof {
            reveal_strlit("    ");
            assert(source@ =~= spec_indent((i + 1) as nat));
        }
        i = i + 1;
    }
    source
}

/// The indentation level one deeper, capped at the machine limit.
pub open spec fn spec_next_level(level: nat) -> nat {
    if level < usize::MAX {
        (level + 1) as nat
    } else {
        level
    }
}

/// Steps one indentation level deeper, capped at the machine limit.
pub fn next_level(level: usize) -> (r: usize)
    ensures
        r as nat == spec_next_level(level as nat),
{
    if level < usize::MAX {
        level + 1
    } else {
        level
    }
}

/// The pieces of a text cut at every line break, as `split('\n')` yields
/// them: an empty text has one empty piece, and a trailing break yields a
/// final empty piece.
pub open spec fn spec_split_lines(s: Seq<char>) -> Seq<Seq<char>>
    decreases s.len(),
{
    if s.len() == 0 {
        seq![Seq::<char>::empty()]
    } else if s.last() == '\n' {
        spec_split_lines(s.drop_last()).push(Seq::empty())
    } else {
        let rest = spec_split_lines(s.drop_last());
        rest.update(rest.len() - 1, rest.last().push(s.last()))
    }
}

/// The split never yields an empty list of pieces.
pub proof fn lemma_split_lines_nonempty(s: Seq<char>)
    ensures
        spec_split_lines(s).len() > 0,
    decreases s.len(),
{
    if s.len() > 0 {
        lemma_split_lines_nonempty(s.drop_last());
    }
}

/// Cuts a text at every line break.
pub fn split_lines(text: &str) -> (r: Vec<String>)
    ensures
        crate::element::views_of(r@) == spec_split_lines(text@),
{
    let mut pieces: Vec<String> = Vec::new();
    pieces.push(String::new());
    let n: usize = text.unicode_len();
    let mut i: usize = 0;
    proof {
        assert(crate::element::views_of(pieces@) =~~= spec_split_lines(text@.take(0)));
    }
    while i < n
        invariant
            n == text@.len(),
            i <= n,
            pieces@.len() > 0,
            crate::element::views_of(pieces@) == spec_split_lines(text@.take(i as int)),
        decreases n - i,
    {
        let c = text.get_char(i);
        proof {
            assert(text@.take(i + 1 as int).drop_last() =~= text@.take(i as int));
            assert(text@.take(i + 1 as int).last() == text@[i as int]);
        }
        if c == '\n' {
            pieces.push(String::new());
            proof {
                assert(crate::element::views_of(pieces@) =~~= spec_split_lines(
                    text@.take(i + 1 as int),
                ));
            }
        } else {
            let piece = text.substring_char(i, i + 1);
            let ghost old_pieces = pieces@;
            let mut tail = pieces.pop().unwrap();
            tail.append(piece);
            pieces.push(tail);
            proof {
                assert(piece@ =~= seq![text@[i as int]]);
                assert(pieces@ =~= old_pieces.drop_last().push(pieces@.last()));
                assert(crate::element::views_of(pieces@) =~~= spec_split_lines(
                    text@.take(i + 1 as int),
                ));
            }
        }
        i = i + 1;
    }
    proof {
        assert(text@.take(n as int) =~= text@);
    }
    pieces
}

/// Text of the generated-file banner around a timestamp line.
pub open spec fn spec_header(timestamp: Seq<char>) -> Seq<char> {
    "\nAutomatically generated on "@ + timestamp + ".\nDo _NOT_ edit!\n"@
}

/// Relies on chrono's Local::now and DelayedFormat: the local time rendered
/// as `%Y-%m-%d %H:%M:%S`.  The result depends on the clock, so nothing is
/// promised of it.
#[verifier::external_body]
fn current_time_string() -> String {
    format!("{}", chrono::offset::Local::now().format("%Y-%m-%d %H:%M:%S"))
}

/// Returns the generated-file banner.  Every part of the text but the
/// timestamp is fixed.
pub fn header() -> (r: String)
    ensures
        exists|timestamp: Seq<char>| r@ == spec_header(timestamp),
{
    let now = current_time_string();
    let mut source = String::new();
    source.append("\nAutomatically generated on ");
    source.append(now.as_str());
    source.append(".\nDo _NOT_ edit!\n");
    proof {
        assert(source@ == spec_header(now@));
    }
    source
}

} // verus!
