use vstd::prelude::*;

verus! {

/// A comment in VHDL syntax: every line starts with `--`.
#[derive(Debug)]
pub struct SingleLineComment {
    pub comment: crate::comment::single_line_comment::SingleLineComment,
}

impl Clone for SingleLineComment {
    fn clone(&self) -> (r: Self)
        ensures
            r == *self,
    {
        SingleLineComment { comment: self.comment.clone() }
    }
}

impl SingleLineComment {
    pub open spec fn spec_source_code(self, indent: nat) -> Seq<char> {
        self.comment.spec_source_code(indent)
    }

    pub fn new() -> (r: SingleLineComment)
        ensures
            r.comment.start@ == "--"@,
            r.comment.text@ == Seq::<char>::empty(),
    {
        proof {
            reveal_strlit("");
        }
        SingleLineComment { comment: crate::comment::single_line_comment::SingleLineComment::from("--", "") }
    }

    pub fn new_with_text(text: &str) -> (r: SingleLineComment)
        ensures
            r.comment.start@ == "--"@,
            r.comment.text@ == text@,
    {
        SingleLineComment { comment: crate::comment::single_line_comment::SingleLineComment::from("--", text) }
    }

    pub fn is_empty(&self) -> (r: bool)
        ensures
            r == (self.comment.text@.len() == 0),
    {
        self.comment.is_empty()
    }

    pub fn to_source_code(&self, indent: usize) -> (r: String)
        ensures
            r@ == self.spec_source_code(indent as nat),
    {
        self.comment.to_source_code(indent)
    }
}

} // verus!
