use vstd::prelude::*;
use vstd::string::StringExecFns;

verus! {

/// A node of the design model that can render itself as source text at a
/// given indentation level.
pub trait Element {
    fn to_source_code(&self, indent: usize) -> String;
}

/// The views of a sequence of rendered parts.
pub open spec fn views_of(parts: Seq<String>) -> Seq<Seq<char>> {
    parts.map_values(|p: String| p@)
}

/// Text of a list of parts with the delimiter between two neighbours and
/// none trailing.
pub open spec fn spec_join(parts: Seq<Seq<char>>, delimiter: Seq<char>) -> Seq<char>
    decreases parts.len(),
{
    if parts.len() == 0 {
        Seq::empty()
    } else if parts.len() == 1 {
        parts[0]
    } else {
        spec_join(parts.drop_last(), delimiter) + delimiter + parts.last()
    }
}

/// Joins pre-rendered parts with a delimiter between neighbours, none
/// trailing.
pub fn to_source_code_list(parts: &Vec<String>, delimiter: &str) -> (r: String)
    ensures
        r@ == spec_join(views_of(parts@), delimiter@),
{
    let mut source = String::new();
    let n: usize = parts.len();
    let mut pos: usize = 0;
    while pos < n
        invariant
            n == parts@.len(),
            pos <= n,
            pos == 0 ==> source@ == Seq::<char>::empty(),
            pos > 0 ==> source@ == spec_join(views_of(parts@.take(pos as int)), delimiter@),
        decreases n - pos,
    {
        if pos > 0 {
            source.append(delimiter);
        }
        source.append(parts[pos].as_str());
        proof {
            let taken = views_of(parts@.take(pos + 1 as int));
            assert(taken.drop_last() =~= views_of(parts@.take(pos as int)));
            assert(taken.last() == parts@[pos as int]@);
        }
        pos = pos + 1;
    }
    proof {
        assert(parts@.take(n as int) =~= parts@);
    }
    source
}

/// Text of a keyword block: the keyword, an opening parenthesis, the
/// parts joined by `;` on indented lines, and a closing parenthesis.  An
/// empty list of parts renders as nothing at all.
pub open spec fn spec_keyword_block(keyword: Seq<char>, parts: Seq<Seq<char>>, level: nat) -> Seq<
    char,
> {
    if parts.len() == 0 {
        Seq::empty()
    } else {
        let inner = crate::util::spec_next_level(level);
        crate::util::spec_indent(level) + keyword + " (\n"@ + crate::util::spec_indent(inner)
            + spec_join(parts, ";\n"@ + crate::util::spec_indent(inner)) + "\n"@
            + crate::util::spec_indent(level) + ");\n"@
    }
}

/// Renders a keyword block around pre-rendered parts; an empty list
/// renders as nothing.
pub fn to_keyword_block(keyword: &str, parts: &Vec<String>, level: usize) -> (r: String)
    ensures
        r@ == spec_keyword_block(keyword@, views_of(parts@), level as nat),
{
    let mut source = String::new();
    if parts.len() == 0 {
        return source;
    }
    let level_str = crate::util::indent(level);
    let inner = crate::util::next_level(level);
    let inner_str = crate::util::indent(inner);
    let mut delimiter = String::from_str(";\n");
    delimiter.append(inner_str.as_str());
    let list = to_source_code_list(parts, delimiter.as_str());
    source.append(level_str.as_str());
    source.append(keyword);
    source.append(" (\n");
    source.append(inner_str.as_str());
    source.append(list.as_str());
    source.append("\n");
    source.append(level_str.as_str());
    source.append(");\n");
    source
}

} // verus!
