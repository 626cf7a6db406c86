use vstd::prelude::*;
use vstd::string::StringExecFns;
use crate::vhdl::library::Library;
use crate::vhdl::library::spec_library_code;
use crate::vhdl::library_use::LibraryUse;
use crate::text_util::spec_sorted_texts;

verus! {

/// The plain value of one library entry: its name and its ordered
/// use-clauses.
pub type LibraryModel = (Seq<char>, Seq<(Seq<char>, Seq<char>, Seq<char>)>);

/// The names of the entries, in insertion order.
pub open spec fn spec_model_names(ms: Seq<LibraryModel>) -> Seq<Seq<char>> {
    ms.map_values(|m: LibraryModel| m.0)
}

/// The first entry carrying the given name.
pub open spec fn spec_find_model(ms: Seq<LibraryModel>, name: Seq<char>) -> LibraryModel
    decreases ms.len(),
{
    if ms.len() == 0 {
        arbitrary()
    } else if ms[0].0 == name {
        ms[0]
    } else {
        spec_find_model(ms.drop_first(), name)
    }
}

/// A list of use-clauses with one more clause folded in: a clause already
/// present leaves the list unchanged, a new one is appended.
pub open spec fn spec_insert_use(
    s: Seq<(Seq<char>, Seq<char>, Seq<char>)>,
    u: (Seq<char>, Seq<char>, Seq<char>),
) -> Seq<(Seq<char>, Seq<char>, Seq<char>)> {
    if s.contains(u) {
        s
    } else {
        s.push(u)
    }
}

/// The entries with the clause folded into the first entry of the given
/// name.
pub open spec fn spec_add_use_at(
    ms: Seq<LibraryModel>,
    name: Seq<char>,
    u: (Seq<char>, Seq<char>, Seq<char>),
) -> Seq<LibraryModel>
    decreases ms.len(),
{
    if ms.len() == 0 {
        ms
    } else if ms[0].0 == name {
        ms.update(0, (ms[0].0, spec_insert_use(ms[0].1, u)))
    } else {
        seq![ms[0]] + spec_add_use_at(ms.drop_first(), name, u)
    }
}

/// Text of the entries named by `names`, in that order, a blank line
/// after each.
pub open spec fn spec_libraries_code(
    ms: Seq<LibraryModel>,
    names: Seq<Seq<char>>,
    indent: nat,
) -> Seq<char>
    decreases names.len(),
{
    if names.len() == 0 {
        Seq::empty()
    } else {
        spec_libraries_code(ms, names.drop_last(), indent) + spec_library_code(
            spec_find_model(ms, names.last()),
            indent,
        ) + "\n"@
    }
}

/// The entries after one use-clause is folded in: the clause's library
/// entry is created at the end if missing, then the clause folded into
/// it.
pub open spec fn spec_after_library_use(
    ms: Seq<LibraryModel>,
    u: (Seq<char>, Seq<char>, Seq<char>),
) -> Seq<LibraryModel> {
    let grown = if spec_model_names(ms).contains(u.0) {
        ms
    } else {
        ms.push((u.0, Seq::empty()))
    };
    spec_add_use_at(grown, u.0, u)
}

/// Folding a use-clause in never changes the entry names.
pub proof fn lemma_add_use_at_preserves_names(
    ms: Seq<LibraryModel>,
    name: Seq<char>,
    u: (Seq<char>, Seq<char>, Seq<char>),
)
    ensures
        spec_model_names(spec_add_use_at(ms, name, u)) =~~= spec_model_names(ms),
    decreases ms.len(),
{
    let out = spec_add_use_at(ms, name, u);
    if ms.len() == 0 {
    } else if ms[0].0 == name {
        assert(out == ms.update(0, (ms[0].0, spec_insert_use(ms[0].1, u))));
    } else {
        lemma_add_use_at_preserves_names(ms.drop_first(), name, u);
        let rest = spec_add_use_at(ms.drop_first(), name, u);
        assert(out == seq![ms[0]] + rest);
        assert(spec_model_names(rest).len() == spec_model_names(ms.drop_first()).len());
        assert forall|k: int| 0 <= k < ms.len() implies spec_model_names(out)[k]
            == spec_model_names(ms)[k] by {
            if k == 0 {
                assert(out[0] == ms[0]);
            } else {
                assert(out[k] == rest[k - 1]);
                assert(spec_model_names(rest)[k - 1] == spec_model_names(ms.drop_first())[k - 1]);
                assert(ms.drop_first()[k - 1] == ms[k]);
            }
        }
    }
}

/// Folding the same use-clause in twice folds it in once.
pub proof fn lemma_add_use_at_twice(
    ms: Seq<LibraryModel>,
    name: Seq<char>,
    u: (Seq<char>, Seq<char>, Seq<char>),
)
    requires
        u.0 == name,
        spec_model_names(ms).contains(name),
    ensures
        spec_add_use_at(spec_add_use_at(ms, name, u), name, u) =~~= spec_add_use_at(ms, name, u),
    decreases ms.len(),
{
    let w = choose|w: int|
        0 <= w < spec_model_names(ms).len() && spec_model_names(ms)[w] == name;
    assert(ms[w].0 == name);
    if ms[0].0 == name {
        let iu = spec_insert_use(ms[0].1, u);
        assert(iu.contains(u)) by {
            if !ms[0].1.contains(u) {
                assert(iu[iu.len() - 1] == u);
            }
        }
        let once = spec_add_use_at(ms, name, u);
        assert(once[0] == (ms[0].0, iu));
        assert(spec_add_use_at(once, name, u) =~~= once.update(0, (once[0].0, iu)));
        assert(once.update(0, (once[0].0, iu)) =~~= once);
    } else {
        assert(ms.drop_first()[w - 1].0 == name);
        assert(spec_model_names(ms.drop_first())[w - 1] == name);
        lemma_add_use_at_twice(ms.drop_first(), name, u);
        let rest_once = spec_add_use_at(ms.drop_first(), name, u);
        let once = spec_add_use_at(ms, name, u);
        assert(once == seq![ms[0]] + rest_once);
        assert(once[0] == ms[0]);
        assert(once.drop_first() =~~= rest_once);
        assert(spec_add_use_at(once, name, u) == seq![once[0]] + spec_add_use_at(
            once.drop_first(),
            name,
            u,
        ));
        assert(spec_add_use_at(once.drop_first(), name, u) =~~= spec_add_use_at(
            rest_once,
            name,
            u,
        ));
    }
}

/// Folding the same use-clause into the whole list twice folds it in
/// once: the clause's entry exists after the first fold and the clause
/// is already present in it.
pub proof fn lemma_after_library_use_idempotent(
    ms: Seq<LibraryModel>,
    u: (Seq<char>, Seq<char>, Seq<char>),
)
    ensures
        spec_after_library_use(spec_after_library_use(ms, u), u) =~~= spec_after_library_use(
            ms,
            u,
        ),
{
    let grown = if spec_model_names(ms).contains(u.0) {
        ms
    } else {
        ms.push((u.0, Seq::empty()))
    };
    assert(spec_model_names(grown).contains(u.0)) by {
        if spec_model_names(ms).contains(u.0) {
            let w = choose|w: int|
                0 <= w < spec_model_names(ms).len() && spec_model_names(ms)[w] == u.0;
            assert(spec_model_names(grown)[w] == u.0);
        } else {
            assert(spec_model_names(grown)[grown.len() - 1] == u.0);
        }
    }
    let once = spec_after_library_use(ms, u);
    lemma_add_use_at_preserves_names(grown, u.0, u);
    assert(spec_model_names(once).contains(u.0)) by {
        let w = choose|w: int|
            0 <= w < spec_model_names(grown).len() && spec_model_names(grown)[w] == u.0;
        assert(spec_model_names(once)[w] == u.0);
    }
    lemma_add_use_at_twice(grown, u.0, u);
    assert(spec_after_library_use(once, u) == spec_add_use_at(once, u.0, u));
}

/// The library dependencies of a design unit: name-keyed entries kept in
/// insertion order and rendered sorted by name.
#[derive(Debug)]
pub struct LibraryList {
    pub libraries: Vec<Library>,
}

impl Clone for LibraryList {
    fn clone(&self) -> (r: Self)
        ensures
            r.spec_models() == self.spec_models(),
    {
        let mut libraries: Vec<Library> = Vec::new();
        let n: usize = self.libraries.len();
        let mut i: usize = 0;
        while i < n
            invariant
                n == self.libraries@.len(),
                i <= n,
                libraries@.len() == i as int,
                forall|k: int|
                    0 <= k < i ==> (#[trigger] libraries@[k]).model() == self.libraries@[k].model(),
            decreases n - i,
        {
            libraries.push(self.libraries[i].clone());
            i = i + 1;
        }
        let r = LibraryList { libraries };
        proof {
            assert(r.spec_models() =~~= self.spec_models());
        }
        r
    }
}

impl LibraryList {
    /// The entries as plain values, in insertion order.
    pub open spec fn spec_models(self) -> Seq<LibraryModel> {
        self.libraries@.map_values(|l: Library| l.model())
    }

    pub open spec fn spec_source_code(self, indent: nat) -> Seq<char> {
        if self.spec_models().len() == 0 {
            Seq::empty()
        } else {
            spec_libraries_code(
                self.spec_models(),
                spec_sorted_texts(spec_model_names(self.spec_models())),
                indent,
            )
        }
    }

    pub fn new() -> (r: LibraryList)
        ensures
            r.spec_models() == Seq::<LibraryModel>::empty(),
    {
        let r = LibraryList { libraries: Vec::new() };
        proof {
            assert(r.spec_models() =~~= Seq::<LibraryModel>::empty());
        }
        r
    }

    pub fn contains(&self, library_name: &str) -> (r: bool)
        ensures
            r == spec_model_names(self.spec_models()).contains(library_name@),
    {
        let n: usize = self.libraries.len();
        let mut i: usize = 0;
        while i < n
            invariant
                n == self.libraries@.len(),
                i <= n,
                forall|k: int| 0 <= k < i ==> self.libraries@[k].model().0 != library_name@,
            decreases n - i,
        {
            if crate::text_util::str_eq(self.libraries[i].get_name().as_str(), library_name) {
                proof {
                    assert(spec_model_names(self.spec_models())[i as int] == library_name@);
                }
                return true;
            }
            i = i + 1;
        }
        proof {
            assert forall|k: int| 0 <= k < spec_model_names(self.spec_models()).len() implies
                spec_model_names(self.spec_models())[k] != library_name@ by {
                assert(self.libraries@[k].model().0 != library_name@);
            }
        }
        false
    }

    /// Adds a library entry; one whose name is already present is a
    /// no-op.
    pub fn add_library(&mut self, library: Library)
        ensures
            final(self).spec_models() == if spec_model_names(old(self).spec_models()).contains(
                library.model().0,
            ) {
                old(self).spec_models()
            } else {
                old(self).spec_models().push(library.model())
            },
    {
        let present = self.contains(library.get_name().as_str());
        if !present {
            self.libraries.push(library);
            proof {
                assert(self.spec_models() =~~= old(self).spec_models().push(library.model()));
            }
        }
    }

    /// Folds a use-clause into the entry of its library, creating that
    /// entry at the end if it is missing.
    pub fn add_library_use(&mut self, library_use: LibraryUse)
        ensures
            final(self).spec_models() == spec_after_library_use(
                old(self).spec_models(),
                library_use.model(),
            ),
    {
        let name = library_use.get_library_name().clone();
        let ghost ms0 = self.spec_models();
        self.add_library(Library::new(name.as_str()));
        let ghost grown = self.spec_models();
        let n: usize = self.libraries.len();
        let mut i: usize = 0;
        while i < n
            invariant
                n == self.libraries@.len(),
                grown == self.spec_models(),
                ms0 == old(self).spec_models(),
                name@ == library_use.model().0,
                grown == if spec_model_names(ms0).contains(library_use.model().0) {
                    ms0
                } else {
                    ms0.push((library_use.model().0, Seq::empty()))
                },
                i <= n,
                forall|k: int| 0 <= k < i ==> self.libraries@[k].model().0 != name@,
            decreases n - i,
        {
            if crate::text_util::str_eq(self.libraries[i].get_name().as_str(), name.as_str()) {
                let ghost pre = self.spec_models();
                let ghost libs_pre = self.libraries@;
                self.libraries[i].add_use(library_use);
                proof {
                    assert forall|k: int| 0 <= k < i implies pre[k].0 != name@ by {
                        assert(pre[k] == libs_pre[k].model());
                    }
                    assert(pre[i as int].0 == name@);
                    assert(self.spec_models() =~~= pre.update(
                        i as int,
                        (pre[i as int].0, spec_insert_use(pre[i as int].1, library_use.model())),
                    ));
                    lemma_add_use_at_found(pre, name@, library_use.model(), i as int);
                }
                return ;
            }
            i = i + 1;
        }
        proof {
            // `add_library` has put an entry of this name into the list,
            // so the scan cannot run off its end.
            if spec_model_names(ms0).contains(name@) {
                let v = choose|v: int|
                    0 <= v < spec_model_names(ms0).len() && spec_model_names(ms0)[v] == name@;
                assert(spec_model_names(grown)[v] == name@);
            } else {
                assert(grown == ms0.push((name@, Seq::empty())));
                assert(spec_model_names(grown)[grown.len() - 1] == name@);
            }
            assert(spec_model_names(grown).contains(name@));
            let w = choose|w: int|
                0 <= w < spec_model_names(grown).len() && spec_model_names(grown)[w] == name@;
            assert(self.libraries@[w].model().0 == name@);
            assert(false);
        }
    }

    pub fn to_source_code(&self, indent: usize) -> (r: String)
        ensures
            r@ == self.spec_source_code(indent as nat),
    {
        let mut source = String::new();
        if self.libraries.len() == 0 {
            return source;
        }
        let mut names: Vec<String> = Vec::new();
        let n: usize = self.libraries.len();
        let mut i: usize = 0;
        while i < n
            invariant
                n == self.libraries@.len(),
                i <= n,
                names@.len() == i as int,
                forall|k: int| 0 <= k < i ==> (#[trigger] names@[k])@ == self.libraries@[k].model().0,
            decreases n - i,
        {
            names.push(self.libraries[i].get_name().clone());
            i = i + 1;
        }
        proof {
            assert(crate::element::views_of(names@) =~~= spec_model_names(self.spec_models()));
        }
        let sorted = crate::text_util::sorted_strings(names);
        let ghost sorted_names = spec_sorted_texts(spec_model_names(self.spec_models()));
        let m: usize = sorted.len();
        proof {
            assert(crate::element::views_of(sorted@).len() == sorted_names.len());
        }
        let mut j: usize = 0;
        while j < m
            invariant
                m == sorted@.len(),
                j <= m,
                crate::element::views_of(sorted@) == sorted_names,
                sorted_names == spec_sorted_texts(spec_model_names(self.spec_models())),
                source@ == spec_libraries_code(
                    self.spec_models(),
                    sorted_names.take(j as int),
                    indent as nat,
                ),
            decreases m - j,
        {
            let entry = self.find_library(&sorted[j]);
            match entry {
                Some(lib) => {
                    let text = lib.to_source_code(indent);
                    source.append(text.as_str());
                    source.append("\n");
                },
                None => {
                    // The sorted names are a rearrangement of the entry
                    // names, so each one is found.
                    proof {
                        let t = sorted@[j as int]@;
                        assert(sorted_names[j as int] == t);
                        assert(sorted_names.contains(t));
                        lemma_sorted_texts_membership(spec_model_names(self.spec_models()));
                        assert(spec_sorted_texts(spec_model_names(self.spec_models())).contains(t));
                        assert(spec_model_names(self.spec_models()).contains(t));
                        let w = choose|w: int|
                            0 <= w < spec_model_names(self.spec_models()).len()
                                && spec_model_names(self.spec_models())[w] == t;
                        assert(spec_model_names(self.spec_models())[w] == self.libraries@[w].model().0);
                        assert(false);
                    }
                },
            }
            proof {
                assert(sorted_names.take(j + 1 as int).drop_last() =~~= sorted_names.take(j as int));
            }
            j = j + 1;
        }
        proof {
            assert(sorted_names.take(m as int) =~~= sorted_names);
        }
        source
    }

    /// The first entry of the given name, if any, together with the proof
    /// that it renders as the first matching model.
    fn find_library(&self, name: &String) -> (r: Option<&Library>)
        ensures
            match r {
                Some(lib) => spec_model_names(self.spec_models()).contains(name@) && lib.model()
                    == spec_find_model(self.spec_models(), name@),
                None => !spec_model_names(self.spec_models()).contains(name@),
            },
    {
        let n: usize = self.libraries.len();
        let mut i: usize = 0;
        while i < n
            invariant
                n == self.libraries@.len(),
                i <= n,
                forall|k: int| 0 <= k < i ==> self.libraries@[k].model().0 != name@,
            decreases n - i,
        {
            if crate::text_util::str_eq(self.libraries[i].get_name().as_str(), name.as_str()) {
                proof {
                    lemma_find_model_at(self.spec_models(), name@, i as int);
                    assert(spec_model_names(self.spec_models())[i as int] == name@);
                }
                return Some(&self.libraries[i]);
            }
            i = i + 1;
        }
        proof {
            assert forall|k: int| 0 <= k < spec_model_names(self.spec_models()).len() implies
                spec_model_names(self.spec_models())[k] != name@ by {
                assert(self.libraries@[k].model().0 != name@);
            }
        }
        None
    }
}

/// Folding a clause into the first entry of a name updates exactly that
/// entry.
proof fn lemma_add_use_at_found(
    ms: Seq<LibraryModel>,
    name: Seq<char>,
    u: (Seq<char>, Seq<char>, Seq<char>),
    i: int,
)
    requires
        0 <= i < ms.len(),
        ms[i].0 == name,
        forall|k: int| 0 <= k < i ==> ms[k].0 != name,
    ensures
        spec_add_use_at(ms, name, u) =~~= ms.update(i, (ms[i].0, spec_insert_use(ms[i].1, u))),
    decreases ms.len(),
{
    if i == 0 {
    } else {
        lemma_add_use_at_found(ms.drop_first(), name, u, i - 1);
        assert(spec_add_use_at(ms, name, u) =~~= seq![ms[0]] + spec_add_use_at(
            ms.drop_first(),
            name,
            u,
        ));
        assert(seq![ms[0]] + ms.drop_first().update(
            i - 1,
            (ms[i].0, spec_insert_use(ms[i].1, u)),
        ) =~~= ms.update(i, (ms[i].0, spec_insert_use(ms[i].1, u))));
    }
}

/// The first matching entry is the one at the first matching index.
proof fn lemma_find_model_at(ms: Seq<LibraryModel>, name: Seq<char>, i: int)
    requires
        0 <= i < ms.len(),
        ms[i].0 == name,
        forall|k: int| 0 <= k < i ==> ms[k].0 != name,
    ensures
        spec_find_model(ms, name) == ms[i],
    decreases ms.len(),
{
    if i > 0 {
        lemma_find_model_at(ms.drop_first(), name, i - 1);
    }
}

/// Sorting keeps membership: the sorted list holds exactly the given
/// texts.
proof fn lemma_insert_sorted_membership(x: Seq<char>, s: Seq<Seq<char>>)
    ensures
        forall|t: Seq<char>|
            #[trigger] crate::text_util::spec_insert_sorted(x, s).contains(t) <==> (s.contains(t)
                || t == x),
    decreases s.len(),
{
    let out = crate::text_util::spec_insert_sorted(x, s);
    if s.len() == 0 {
        assert(out =~~= seq![x]);
        assert(out[0] == x);
        assert(out.contains(x));
        assert forall|t: Seq<char>| #[trigger] out.contains(t) implies (s.contains(t) || t == x) by {
            let w = choose|w: int| 0 <= w < out.len() && out[w] == t;
            assert(out[0] == x);
        }
    } else if crate::text_util::lex_le(s.last(), x) {
        assert(out =~~= s.push(x));
        assert forall|t: Seq<char>| (s.contains(t) || t == x) implies #[trigger] out.contains(t) by {
            if t == x {
                assert(out[out.len() - 1] == x);
            } else {
                let w = choose|w: int| 0 <= w < s.len() && s[w] == t;
                assert(out[w] == t);
            }
        }
        assert forall|t: Seq<char>| #[trigger] out.contains(t) implies (s.contains(t) || t == x) by {
            let w = choose|w: int| 0 <= w < out.len() && out[w] == t;
            if w < s.len() {
                assert(s[w] == t);
            }
        }
    } else {
        lemma_insert_sorted_membership(x, s.drop_last());
        let inner = crate::text_util::spec_insert_sorted(x, s.drop_last());
        assert(out =~~= inner.push(s.last()));
        assert forall|t: Seq<char>| (s.contains(t) || t == x) implies #[trigger] out.contains(t) by {
            if t == x || s.drop_last().contains(t) {
                assert(inner.contains(t));
                let w = choose|w: int| 0 <= w < inner.len() && inner[w] == t;
                assert(out[w] == t);
            } else {
                let w = choose|w: int| 0 <= w < s.len() && s[w] == t;
                if w < s.len() - 1 {
                    assert(s.drop_last()[w] == t);
                }
                assert(out[out.len() - 1] == s.last());
                assert(out[out.len() - 1] == t);
            }
        }
        assert forall|t: Seq<char>| #[trigger] out.contains(t) implies (s.contains(t) || t == x) by {
            let w = choose|w: int| 0 <= w < out.len() && out[w] == t;
            if w < inner.len() {
                assert(inner[w] == t);
                assert(inner.contains(t));
                if s.drop_last().contains(t) {
                    let v = choose|v: int| 0 <= v < s.drop_last().len() && s.drop_last()[v] == t;
                    assert(s[v] == t);
                    assert(s.contains(t));
                }
            } else {
                assert(s[s.len() - 1] == t);
                assert(s.contains(t));
            }
        }
    }
}

/// The stable sort of a list of texts holds exactly the given texts.
pub proof fn lemma_sorted_texts_membership(s: Seq<Seq<char>>)
    ensures
        forall|t: Seq<char>| #[trigger]
            spec_sorted_texts(s).contains(t) <==> s.contains(t),
    decreases s.len(),
{
    if s.len() > 0 {
        lemma_sorted_texts_membership(s.drop_last());
        lemma_insert_sorted_membership(s.last(), spec_sorted_texts(s.drop_last()));
        assert forall|t: Seq<char>| s.contains(t) implies #[trigger]
            spec_sorted_texts(s).contains(t) by {
            let w = choose|w: int| 0 <= w < s.len() && s[w] == t;
            if w < s.len() - 1 {
                assert(s.drop_last()[w] == t);
            }
        }
        assert forall|t: Seq<char>| #[trigger] spec_sorted_texts(s).contains(t) implies s.contains(
            t,
        ) by {
            if s.drop_last().contains(t) {
                let w = choose|w: int| 0 <= w < s.drop_last().len() && s.drop_last()[w] == t;
                assert(s[w] == t);
            } else {
                assert(s[s.len() - 1] == t);
            }
        }
    }
}

} // verus!
