//! The parameter map: each name with the values supplied for it.

use crate::pairs::grouped;
use crate::pairs::lemma_grouped_push;
use crate::pairs::listed;
use crate::pairs::no_empty_list;
use crate::pairs::Params;
use crate::text::same_text;
use vstd::prelude::*;

verus! {

/// The entries of a map: each name once, with its values.
type Entries = Seq<(String, Vec<String>)>;

/// No two entries carry the same name, and every entry has a value.
spec fn well_kept(entries: Entries) -> bool {
    &&& forall|i: int, j: int|
        0 <= i < j < entries.len() ==> (#[trigger] entries[i]).0@ != (#[trigger] entries[j]).0@
    &&& forall|i: int| 0 <= i < entries.len() ==> (#[trigger] entries[i]).1@.len() > 0
}

/// Whether an entry carries `name`.
spec fn holds(entries: Entries, name: Seq<char>) -> bool {
    exists|i: int| 0 <= i < entries.len() && (#[trigger] entries[i]).0@ == name
}

/// The place of the entry that carries `name`.
spec fn slot(entries: Entries, name: Seq<char>) -> int {
    choose|i: int| 0 <= i < entries.len() && (#[trigger] entries[i]).0@ == name
}

/// The mapping that the entries stand for.
spec fn model(entries: Entries) -> Params {
    Map::new(
        |name: Seq<char>| holds(entries, name),
        |name: Seq<char>| entries[slot(entries, name)].1.deep_view(),
    )
}

/// With distinct names, the entry at `i` is the one found under its name.
proof fn lemma_slot(entries: Entries, i: int)
    requires
        well_kept(entries),
        0 <= i < entries.len(),
    ensures
        holds(entries, entries[i].0@),
        slot(entries, entries[i].0@) == i,
        model(entries).contains_key(entries[i].0@),
        model(entries)[entries[i].0@] == entries[i].1.deep_view(),
{
}

/// A new entry under a fresh name adds that name to the mapping.
proof fn lemma_model_push(entries: Entries, entry: (String, Vec<String>))
    requires
        well_kept(entries),
        !holds(entries, entry.0@),
        entry.1@.len() > 0,
    ensures
        well_kept(entries.push(entry)),
        model(entries.push(entry)) == model(entries).insert(entry.0@, entry.1.deep_view()),
{
    let more = entries.push(entry);
    let want = model(entries).insert(entry.0@, entry.1.deep_view());
    assert(well_kept(more));
    assert forall|name: Seq<char>| holds(more, name) <==> want.contains_key(name) by {
        if holds(entries, name) {
            assert(more[slot(entries, name)].0@ == name);
        }
        if name == entry.0@ {
            assert(more[entries.len() as int].0@ == name);
        }
    }
    assert forall|name: Seq<char>| holds(more, name) implies model(more)[name] == want[name] by {
        let i = slot(more, name);
        lemma_slot(more, i);
        if i < entries.len() {
            lemma_slot(entries, i);
        }
    }
}

/// New values in the entry at `i` replace the list of its name.
proof fn lemma_model_update(entries: Entries, i: int, entry: (String, Vec<String>))
    requires
        well_kept(entries),
        0 <= i < entries.len(),
        entry.0@ == entries[i].0@,
        entry.1@.len() > 0,
    ensures
        well_kept(entries.update(i, entry)),
        model(entries.update(i, entry)) == model(entries).insert(entry.0@, entry.1.deep_view()),
{
    let next = entries.update(i, entry);
    let want = model(entries).insert(entry.0@, entry.1.deep_view());
    assert(well_kept(next));
    assert forall|name: Seq<char>| holds(next, name) <==> want.contains_key(name) by {
        if holds(entries, name) {
            assert(next[slot(entries, name)].0@ == name);
        }
    }
    assert forall|name: Seq<char>| holds(next, name) implies model(next)[name] == want[name] by {
        let a = slot(next, name);
        lemma_slot(next, a);
        if a != i {
            lemma_slot(entries, a);
        }
    }
}

/// Without the entry at `i`, its name is absent and the others stay.
proof fn lemma_model_remove(entries: Entries, i: int)
    requires
        well_kept(entries),
        0 <= i < entries.len(),
    ensures
        well_kept(entries.remove(i)),
        model(entries.remove(i)) == model(entries).remove(entries[i].0@),
{
    let less = entries.remove(i);
    let want = model(entries).remove(entries[i].0@);
    assert(well_kept(less));
    assert forall|name: Seq<char>| holds(less, name) <==> want.contains_key(name) by {
        if holds(entries, name) && name != entries[i].0@ {
            let a = slot(entries, name);
            assert(less[if a < i { a } else { a - 1 }] == entries[a]);
        }
    }
    assert forall|name: Seq<char>| holds(less, name) implies model(less)[name] == want[name] by {
        let a = slot(less, name);
        lemma_slot(less, a);
        lemma_slot(entries, if a < i { a } else { a + 1 });
    }
}

/// Well-kept entries stand for as many names as there are entries.
proof fn lemma_model_len(entries: Entries)
    requires
        well_kept(entries),
    ensures
        model(entries).dom().finite(),
        model(entries).dom().len() == entries.len(),
    decreases entries.len(),
{
    if entries.len() == 0 {
        assert(model(entries).dom() =~= Set::<Seq<char>>::empty());
    } else {
        let front = entries.drop_last();
        let last = entries.last();
        assert(entries == front.push(last));
        assert(well_kept(front));
        assert(!holds(front, last.0@));
        lemma_model_len(front);
        lemma_model_push(front, last);
    }
}

/// The parameters of one request: each name with the values supplied for
/// it, in the order in which they were supplied.  A name is held once, and
/// never with an empty list.
#[derive(Debug)]
pub struct QueryMap {
    entries: Vec<(String, Vec<String>)>,
}

impl View for QueryMap {
    type V = Params;

    closed spec fn view(&self) -> Params {
        model(self.entries@)
    }
}

impl Default for QueryMap {
    fn default() -> (r: QueryMap)
        ensures
            r@ == Params::empty(),
    {
        QueryMap::new()
    }
}

impl QueryMap {
    #[verifier::type_invariant]
    spec fn kept(&self) -> bool {
        well_kept(self.entries@)
    }

    /// A map without parameters.
    pub fn new() -> (r: QueryMap)
        ensures
            r@ == Params::empty(),
    {
        QueryMap { entries: Vec::new() }
    }

    /// The place of the entry that carries `name`, if there is one.
    fn position(&self, name: &str) -> (r: Option<usize>)
        ensures
            match r {
                Some(i) => i < self.entries@.len() && self.entries@[i as int].0@ == name@,
                None => !holds(self.entries@, name@),
            },
    {
        let mut i: usize = 0;
        while i < self.entries.len()
            invariant
                0 <= i <= self.entries@.len(),
                forall|j: int| 0 <= j < i ==> (#[trigger] self.entries@[j]).0@ != name@,
            decreases self.entries@.len() - i,
        {
            if same_text(self.entries[i].0.as_str(), name) {
                return Some(i);
            }
            i = i + 1;
        }
        None
    }

    /// Tells whether `name` was supplied.
    pub fn contains_key(&self, name: &str) -> (r: bool)
        ensures
            r == self@.contains_key(name@),
    {
        proof {
            use_type_invariant(self);
        }
        match self.position(name) {
            Some(i) => {
                proof {
                    lemma_slot(self.entries@, i as int);
                }
                true
            },
            None => false,
        }
    }

    /// The values supplied for `name`, in their order; `None` where the name
    /// was not supplied.  A list that is handed out is never empty.
    pub fn get(&self, name: &str) -> (r: Option<&Vec<String>>)
        ensures
            match r {
                Some(list) => self@.contains_key(name@) && list.deep_view() == self@[name@]
                    && list@.len() > 0,
                None => !self@.contains_key(name@),
            },
    {
        proof {
            use_type_invariant(self);
        }
        match self.position(name) {
            Some(i) => {
                proof {
                    lemma_slot(self.entries@, i as int);
                }
                Some(&self.entries[i].1)
            },
            None => None,
        }
    }

    /// Tells whether no parameter was supplied.
    pub fn is_empty(&self) -> (r: bool)
        ensures
            r == (self@ == Params::empty()),
    {
        proof {
            use_type_invariant(self);
            if self.entries@.len() > 0 {
                lemma_slot(self.entries@, 0);
            } else {
                assert(self@ =~= Params::empty());
            }
        }
        self.entries.len() == 0
    }

    /// Puts `values` under `name` in place of what was there.  With no
    /// values the name is taken out: an empty list is never held.
    pub fn insert(&mut self, name: String, values: Vec<String>)
        ensures
            final(self)@ == if values@.len() == 0 {
                old(self)@.remove(name@)
            } else {
                old(self)@.insert(name@, values.deep_view())
            },
    {
        proof {
            use_type_invariant(&*self);
        }
        let found = self.position(name.as_str());
        let mut entries: Vec<(String, Vec<String>)> = Vec::new();
        std::mem::swap(&mut entries, &mut self.entries);
        let ghost before = entries@;
        match found {
            Some(i) => {
                if values.len() == 0 {
                    proof {
                        lemma_model_remove(before, i as int);
                    }
                    entries.remove(i);
                } else {
                    proof {
                        lemma_model_update(before, i as int, (name, values));
                    }
                    entries.set(i, (name, values));
                }
            },
            None => {
                if values.len() > 0 {
                    proof {
                        lemma_model_push(before, (name, values));
                    }
                    entries.push((name, values));
                }
            },
        }
        self.entries = entries;
    }

    /// Adds `value` to the end of the values of `name`, which becomes
    /// present if it was not.
    pub fn append(&mut self, name: String, value: String)
        ensures
            final(self)@ == old(self)@.insert(name@, listed(old(self)@, name@).push(value@)),
    {
        proof {
            use_type_invariant(&*self);
        }
        let found = self.position(name.as_str());
        let mut entries: Vec<(String, Vec<String>)> = Vec::new();
        std::mem::swap(&mut entries, &mut self.entries);
        let ghost before = entries@;
        match found {
            Some(i) => {
                let (held, mut list) = entries.remove(i);
                let ghost old_list = list;
                list.push(value);
                proof {
                    lemma_slot(before, i as int);
                    assert(list.deep_view() =~= old_list.deep_view().push(value@));
                    lemma_model_update(before, i as int, (held, list));
                }
                entries.insert(i, (held, list));
                assert(entries@ =~= before.update(i as int, (held, list)));
            },
            None => {
                let mut list: Vec<String> = Vec::new();
                list.push(value);
                proof {
                    assert(list.deep_view() =~= Seq::<Seq<char>>::empty().push(value@));
                    lemma_model_push(before, (name, list));
                }
                entries.push((name, list));
            },
        }
        self.entries = entries;
    }

    /// The number of names that were supplied.
    pub fn len(&self) -> (r: usize)
        ensures
            self@.dom().finite(),
            r == self@.dom().len(),
    {
        proof {
            use_type_invariant(self);
            lemma_model_len(self.entries@);
        }
        self.entries.len()
    }

    /// The names that were supplied, each once, in no order that callers
    /// may rely on.
    pub fn keys(&self) -> (r: Vec<String>)
        ensures
            r.deep_view().no_duplicates(),
            forall|name: Seq<char>| r.deep_view().contains(name) <==> self@.contains_key(name),
    {
        proof {
            use_type_invariant(self);
        }
        let mut out: Vec<String> = Vec::new();
        let mut i: usize = 0;
        while i < self.entries.len()
            invariant
                0 <= i <= self.entries@.len(),
                out@.len() == i,
                forall|j: int| 0 <= j < i ==> (#[trigger] out@[j])@ == self.entries@[j].0@,
            decreases self.entries@.len() - i,
        {
            out.push(self.entries[i].0.clone());
            i = i + 1;
        }
        proof {
            let names = out.deep_view();
            assert forall|name: Seq<char>| self@.contains_key(name) implies names.contains(
                name,
            ) by {
                assert(names[slot(self.entries@, name)] == name);
            }
        }
        out
    }

    /// Groups decoded pairs by name: each name is held with the values of
    /// its pairs, in the order of the pairs.
    pub fn from_pairs(pairs: &[(String, String)]) -> (r: QueryMap)
        ensures
            r@ == grouped(pairs.deep_view()),
            no_empty_list(r@),
    {
        let mut map = QueryMap::new();
        let mut i: usize = 0;
        while i < pairs.len()
            invariant
                0 <= i <= pairs@.len(),
                map@ == grouped(pairs.deep_view().take(i as int)),
            decreases pairs@.len() - i,
        {
            let name = pairs[i].0.clone();
            let value = pairs[i].1.clone();
            proof {
                let seen = pairs.deep_view().take(i as int);
                lemma_grouped_push(seen, (name@, value@));
                assert(pairs.deep_view().take(i + 1) =~= seen.push((name@, value@)));
            }
            map.append(name, value);
            i = i + 1;
        }
        proof {
            assert(pairs.deep_view().take(i as int) =~= pairs.deep_view());
            use_type_invariant(&map);
        }
        map
    }
}

} // verus!
