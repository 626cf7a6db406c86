use vstd::prelude::*;
use vstd::string::StringExecFns;
use crate::util::spec_indent;
use crate::util::spec_split_lines;

verus! {

/// A comment block in which every line carries the same start marker.
#[derive(Debug)]
pub struct SingleLineComment {
    pub start: String,
    pub text: String,
}

/// One rendered comment line: the marker alone for an empty piece, else
/// the marker, one space and the piece.
pub open spec fn spec_comment_line(ind: Seq<char>, marker: Seq<char>, piece: Seq<char>) -> Seq<
    char,
> {
    if piece.len() == 0 {
        ind + marker + "\n"@
    } else {
        ind + marker + " "@ + piece + "\n"@
    }
}

/// The pieces rendered one line each, all with the same marker.
pub open spec fn spec_comment_lines(pieces: Seq<Seq<char>>, ind: Seq<char>, marker: Seq<char>) -> Seq<
    char,
>
    decreases pieces.len(),
{
    if pieces.len() == 0 {
        Seq::empty()
    } else {
        spec_comment_lines(pieces.drop_last(), ind, marker) + spec_comment_line(
            ind,
            marker,
            pieces.last(),
        )
    }
}

impl Clone for SingleLineComment {
    fn clone(&self) -> (r: Self)
        ensures
            r == *self,
    {
        SingleLineComment { start: self.start.clone(), text: self.text.clone() }
    }
}

impl SingleLineComment {
    pub open spec fn spec_source_code(self, indent: nat) -> Seq<char> {
        if self.text@.len() == 0 {
            Seq::empty()
        } else {
            spec_comment_lines(spec_split_lines(self.text@), spec_indent(indent), self.start@)
        }
    }

    pub fn from(start: &str, text: &str) -> (r: SingleLineComment)
        ensures
            r.start@ == start@,
            r.text@ == text@,
    {
        SingleLineComment { start: String::from_str(start), text: String::from_str(text) }
    }

    pub fn add(&mut self, text: String)
        ensures
            final(self).start == old(self).start,
            final(self).text@ == old(self).text@ + text@,
    {
        self.text.append(text.as_str());
    }

    pub fn is_empty(&self) -> (r: bool)
        ensures
            r == (self.text@.len() == 0),
    {
        self.text.as_str().is_empty()
    }

    pub fn to_source_code(&self, indent: usize) -> (r: String)
        ensures
            r@ == self.spec_source_code(indent as nat),
    {
        let mut source = String::new();
        if self.text.as_str().is_empty() {
            return source;
        }
        let pieces = crate::util::split_lines(self.text.as_str());
        let indent_str = crate::util::indent(indent);
        let n: usize = pieces.len();
        let mut i: usize = 0;
        while i < n
            invariant
                n == pieces@.len(),
                i <= n,
                crate::element::views_of(pieces@) == spec_split_lines(self.text@),
                indent_str@ == spec_indent(indent as nat),
                source@ == spec_comment_lines(
                    spec_split_lines(self.text@).take(i as int),
                    spec_indent(indent as nat),
                    self.start@,
                ),
            decreases n - i,
        {
            source.append(indent_str.as_str());
            source.append(self.start.as_str());
            if !pieces[i].as_str().is_empty() {
                source.append(" ");
                source.append(pieces[i].as_str());
            }
            source.append("\n");
            proof {
                let all = spec_split_lines(self.text@);
                assert(all.take(i + 1 as int).drop_last() =~~= all.take(i as int));
                assert(all.take(i + 1 as int).last() == pieces@[i as int]@);
            }
            i = i + 1;
        }
        proof {
            let all = spec_split_lines(self.text@);
            assert(all.take(n as int) =~~= all);
        }
        source
    }
}

} // verus!
