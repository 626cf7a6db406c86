use vstd::prelude::*;
use vstd::string::StringExecFns;
use crate::util::spec_indent;
use crate::util::spec_split_lines;
use crate::comment::single_line_comment::spec_comment_line;

verus! {

/// A comment block with distinct start, continuation and end markers.
#[derive(Debug)]
pub struct MultiLineComment {
    pub start: String,
    pub line: String,
    pub end: String,
    pub text: String,
}

/// The pieces rendered one line each: the first with the start marker,
/// every later one with the continuation marker.
pub open spec fn spec_multi_comment_lines(
    pieces: Seq<Seq<char>>,
    ind: Seq<char>,
    start: Seq<char>,
    line: Seq<char>,
) -> Seq<char>
    decreases pieces.len(),
{
    if pieces.len() == 0 {
        Seq::empty()
    } else if pieces.len() == 1 {
        spec_comment_line(ind, start, pieces[0])
    } else {
        spec_multi_comment_lines(pieces.drop_last(), ind, start, line) + spec_comment_line(
            ind,
            line,
            pieces.last(),
        )
    }
}

impl Clone for MultiLineComment {
    fn clone(&self) -> (r: Self)
        ensures
            r == *self,
    {
        MultiLineComment {
            start: self.start.clone(),
            line: self.line.clone(),
            end: self.end.clone(),
            text: self.text.clone(),
        }
    }
}

impl MultiLineComment {
    pub open spec fn spec_source_code(self, indent: nat) -> Seq<char> {
        if self.text@.len() == 0 {
            Seq::empty()
        } else {
            spec_multi_comment_lines(
                spec_split_lines(self.text@),
                spec_indent(indent),
                self.start@,
                self.line@,
            ) + spec_indent(indent) + self.end@ + "\n"@
        }
    }

    pub fn from(start: &str, line: &str, end: &str, text: &str) -> (r: MultiLineComment)
        ensures
            r.start@ == start@,
            r.line@ == line@,
            r.end@ == end@,
            r.text@ == text@,
    {
        MultiLineComment {
            start: String::from_str(start),
            line: String::from_str(line),
            end: String::from_str(end),
            text: String::from_str(text),
        }
    }

    pub fn add(&mut self, text: String)
        ensures
            final(self).start == old(self).start,
            final(self).line == old(self).line,
            final(self).end == old(self).end,
            final(self).text@ == old(self).text@ + text@,
    {
        self.text.append(text.as_str());
    }

    pub fn to_source_code(&self, indent: usize) -> (r: String)
        ensures
            r@ == self.spec_source_code(indent as nat),
    {
        let mut source = String::new();
        if self.text.as_str().is_empty() {
            return source;
        }
        let pieces = crate::util::split_lines(self.text.as_str());
        let indent_str = crate::util::indent(indent);
        let n: usize = pieces.len();
        proof {
            crate::util::lemma_split_lines_nonempty(self.text@);
        }
        let mut i: usize = 0;
        while i < n
            invariant
                n == pieces@.len(),
                n > 0,
                i <= n,
                crate::element::views_of(pieces@) == spec_split_lines(self.text@),
                indent_str@ == spec_indent(indent as nat),
                source@ == spec_multi_comment_lines(
                    spec_split_lines(self.text@).take(i as int),
                    spec_indent(indent as nat),
                    self.start@,
                    self.line@,
                ),
            decreases n - i,
        {
            source.append(indent_str.as_str());
            if i == 0 {
                source.append(self.start.as_str());
            } else {
                source.append(self.line.as_str());
            }
            if !pieces[i].as_str().is_empty() {
                source.append(" ");
                source.append(pieces[i].as_str());
            }
            source.append("\n");
            proof {
                let all = spec_split_lines(self.text@);
                assert(all.take(i + 1 as int).drop_last() =~~= all.take(i as int));
                assert(all.take(i + 1 as int).last() == pieces@[i as int]@);
                assert(all.take(i + 1 as int)[0] == pieces@[0]@);
            }
            i = i + 1;
        }
        source.append(indent_str.as_str());
        source.append(self.end.as_str());
        source.append("\n");
        proof {
            let all = spec_split_lines(self.text@);
            assert(all.take(n as int) =~~= all);
        }
        source
    }
}

} // verus!
