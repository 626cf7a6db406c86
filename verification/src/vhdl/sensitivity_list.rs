use vstd::prelude::*;
use vstd::string::StringExecFns;
use crate::element::views_of;
use crate::ordered_set::signal_set_contents;
use crate::text_util::spec_add_unique_all;
use crate::text_util::spec_push_unique;
use crate::util::spec_indent;

verus! {

/// Text of a sensitivity list: the names separated by a comma, a line
/// break and the indentation.
pub open spec fn spec_sensitivity_code(names: Seq<Seq<char>>, indent: nat) -> Seq<char>
    decreases names.len(),
{
    if names.len() == 0 {
        Seq::empty()
    } else if names.len() == 1 {
        names[0]
    } else {
        spec_sensitivity_code(names.drop_last(), indent) + ",\n"@ + spec_indent(indent)
            + names.last()
    }
}

/// The signals a process reacts to: an insertion-ordered set of names.
#[derive(Debug)]
pub struct SensitivityList {
    pub signals: linked_hash_set::LinkedHashSet<String>,
}

impl SensitivityList {
    /// The names in the set, oldest first.
    pub open spec fn model(self) -> Seq<Seq<char>> {
        signal_set_contents(self.signals)
    }

    pub fn new() -> (r: SensitivityList)
        ensures
            r.model() == Seq::<Seq<char>>::empty(),
    {
        SensitivityList { signals: crate::ordered_set::new_signal_set() }
    }

    pub fn new_with_signal(signal: &str) -> (r: SensitivityList)
        ensures
            r.model() =~~= seq![signal@],
    {
        let mut list = SensitivityList::new();
        list.add_signal(signal);
        list
    }

    pub fn new_with_list(list: Vec<String>) -> (r: SensitivityList)
        ensures
            r.model() == spec_add_unique_all(Seq::empty(), views_of(list@)),
    {
        let mut signals = SensitivityList::new();
        signals.add_list(list);
        signals
    }

    pub fn is_empty(&self) -> (r: bool)
        ensures
            r == (self.model().len() == 0),
    {
        crate::ordered_set::signal_set_is_empty(&self.signals)
    }

    /// Adds a name; one already present leaves the order unchanged.
    pub fn add_signal(&mut self, signal: &str)
        ensures
            final(self).model() == spec_push_unique(old(self).model(), signal@),
    {
        crate::ordered_set::signal_set_insert_if_absent(
            &mut self.signals,
            String::from_str(signal),
        );
    }

    /// Adds every name of the list, in order.
    pub fn add_list(&mut self, list: Vec<String>)
        ensures
            final(self).model() == spec_add_unique_all(old(self).model(), views_of(list@)),
    {
        let n: usize = list.len();
        let mut i: usize = 0;
        while i < n
            invariant
                n == list@.len(),
                i <= n,
                self.model() == spec_add_unique_all(old(self).model(), views_of(list@).take(i as int)),
            decreases n - i,
        {
            self.add_signal(list[i].as_str());
            proof {
                assert(views_of(list@).take(i + 1 as int).drop_last() =~~= views_of(list@).take(
                    i as int,
                ));
                assert(views_of(list@).take(i + 1 as int).last() == list@[i as int]@);
            }
            i = i + 1;
        }
        proof {
            assert(views_of(list@).take(n as int) =~~= views_of(list@));
        }
    }

    pub fn to_source_code(&self, indent: usize) -> (r: String)
        ensures
            r@ == spec_sensitivity_code(self.model(), indent as nat),
    {
        let mut source = String::new();
        let names = crate::ordered_set::signal_set_to_vec(&self.signals);
        let indent_str = crate::util::indent(indent);
        let n: usize = names.len();
        let mut i: usize = 0;
        while i < n
            invariant
                n == names@.len(),
                i <= n,
                views_of(names@) == self.model(),
                indent_str@ == spec_indent(indent as nat),
                source@ == spec_sensitivity_code(self.model().take(i as int), indent as nat),
            decreases n - i,
        {
            if i > 0 {
                source.append(",\n");
                source.append(indent_str.as_str());
            }
            source.append(names[i].as_str());
            proof {
                assert(self.model().take(i + 1 as int).drop_last() =~~= self.model().take(i as int));
                assert(self.model().take(i + 1 as int).last() == names@[i as int]@);
            }
            i = i + 1;
        }
        proof {
            assert(self.model().take(n as int) =~~= self.model());
        }
        source
    }
}

} // verus!
