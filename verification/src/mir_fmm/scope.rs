use vstd::prelude::*;

use crate::mir::types::{SpecType, Type};
use crate::mir_fmm::layout::Address;

verus! {

/// What a name in the scope of a compiled function body stands for.
#[derive(Clone, Debug, PartialEq, Eq)]
pub enum Binding {
    /// The variable that the caller gave at this index (a global function or
    /// a variable of an enclosing scope).
    Given(usize),
    /// A free variable: a new reference to the value loaded from the address.
    FreeVariable(Address, Type),
    /// The closure of the function itself, for recursive calls.
    Closure,
    /// The argument of the function definition at this index.
    Argument(usize),
}

pub ghost enum SpecBinding {
    Given(int),
    FreeVariable(Address, SpecType),
    Closure,
    Argument(int),
}

impl View for Binding {
    type V = SpecBinding;

    open spec fn view(&self) -> SpecBinding {
        match self {
            Binding::Given(i) => SpecBinding::Given(*i as int),
            Binding::FreeVariable(address, type_) => SpecBinding::FreeVariable(*address, type_@),
            Binding::Closure => SpecBinding::Closure,
            Binding::Argument(i) => SpecBinding::Argument(*i as int),
        }
    }
}

/// Whether no name occurs twice among the entries.
pub open spec fn distinct_names(s: Seq<(String, Binding)>) -> bool {
    forall|i: int, j: int|
        0 <= i < s.len() && 0 <= j < s.len() && i != j ==> #[trigger] s[i].0@ != #[trigger] s[j].0@
}

/// The map from names to bindings that a sequence of entries stands for.
pub open spec fn entries_map(s: Seq<(String, Binding)>) -> Map<Seq<char>, SpecBinding> {
    Map::new(
        |k: Seq<char>| exists|j: int| 0 <= j < s.len() && #[trigger] s[j].0@ == k,
        |k: Seq<char>| s[choose|j: int| 0 <= j < s.len() && #[trigger] s[j].0@ == k].1@,
    )
}

/// In a scope's entries, where no name occurs twice, each entry's name is bound to
/// its binding, and only the entries' names are bound.
pub proof fn law_entries_map_finds_each_entry(s: Seq<(String, Binding)>, j: int)
    requires
        distinct_names(s),
        0 <= j < s.len(),
    ensures
        entries_map(s).dom().contains(s[j].0@),
        entries_map(s)[s[j].0@] == s[j].1@,
        forall|k: Seq<char>|
            #[trigger] entries_map(s).dom().contains(k) <==> exists|i: int| 0 <= i < s.len() && #[trigger] s[i].0@ == k,
{
    let k = s[j].0@;
    assert(exists|i: int| 0 <= i < s.len() && #[trigger] s[i].0@ == k);
    let c = choose|i: int| 0 <= i < s.len() && #[trigger] s[i].0@ == k;
    assert(c == j);
}

/// A scope: a finite map from names to bindings, kept as a list of entries
/// in which no name occurs twice.  Binding a name again replaces its entry.
#[derive(Debug)]
pub struct Scope {
    entries: Vec<(String, Binding)>,
}

impl View for Scope {
    type V = Map<Seq<char>, SpecBinding>;

    closed spec fn view(&self) -> Map<Seq<char>, SpecBinding> {
        entries_map(self.entries@)
    }
}

impl Scope {
    #[verifier::type_invariant]
    closed spec fn names_are_distinct(self) -> bool {
        distinct_names(self.entries@)
    }

    pub fn new() -> (r: Scope)
        ensures
            r@ == Map::<Seq<char>, SpecBinding>::empty(),
    {
        let r = Scope { entries: Vec::new() };
        assert(r@ =~= Map::<Seq<char>, SpecBinding>::empty());
        r
    }

    /// Binds `name` to `binding`, replacing any binding of `name`.
    pub fn insert(&mut self, name: String, binding: Binding)
        ensures
            final(self)@ == old(self)@.insert(name@, binding@),
    {
        proof {
            use_type_invariant(&*self);
        }
        let ghost old_entries = self.entries@;
        let n = self.entries.len();
        let mut j: usize = 0;
        while j < n
            invariant
                n == self.entries.len(),
                self.entries@ == old_entries,
                j <= n,
                forall|i: int| 0 <= i < j ==> #[trigger] old_entries[i].0@ != name@,
            ensures
                j <= n,
                j < n ==> old_entries[j as int].0@ == name@,
                forall|i: int| 0 <= i < j ==> #[trigger] old_entries[i].0@ != name@,
            decreases n - j,
        {
            if self.entries[j].0 == name {
                break;
            }
            j = j + 1;
        }
        let mut entries: Vec<(String, Binding)> = Vec::new();
        std::mem::swap(&mut entries, &mut self.entries);
        if j < n {
            entries.set(j, (name, binding));
        } else {
            entries.push((name, binding));
        }
        proof {
            let s = entries@;
            assert(distinct_names(s)) by {
                assert forall|a: int, b: int|
                    0 <= a < s.len() && 0 <= b < s.len() && a != b implies #[trigger] s[a].0@
                    != #[trigger] s[b].0@ by {
                    if a != j && b != j {
                        assert(s[a] == old_entries[a] && s[b] == old_entries[b]);
                    }
                }
            }
        }
        self.entries = entries;
        proof {
            let s = self.entries@;
            let m = old(self)@.insert(name@, binding@);
            assert forall|k: Seq<char>| #[trigger] entries_map(s).dom().contains(k) <==> m.dom().contains(k) by {
                if entries_map(s).dom().contains(k) {
                    let i = choose|i: int| 0 <= i < s.len() && #[trigger] s[i].0@ == k;
                    if i != j {
                        assert(old_entries[i].0@ == k);
                    }
                }
                if old(self)@.dom().contains(k) {
                    let i = choose|i: int| 0 <= i < old_entries.len() && #[trigger] old_entries[i].0@ == k;
                    if i != j {
                        assert(s[i].0@ == k);
                    } else {
                        assert(s[j as int].0@ == k);
                    }
                }
                if k == name@ {
                    assert(s[j as int].0@ == k);
                }
            }
            assert forall|k: Seq<char>| #[trigger] entries_map(s).dom().contains(k) implies entries_map(s)[k] == m[k] by {
                let i = choose|i: int| 0 <= i < s.len() && #[trigger] s[i].0@ == k;
                law_entries_map_finds_each_entry(s, i);
                if i != j {
                    assert(s[i] == old_entries[i]);
                    law_entries_map_finds_each_entry(old_entries, i);
                }
            }
            assert(entries_map(s) =~= m);
        }
    }

    /// The binding of `name`, if it is bound.
    pub fn get(&self, name: &str) -> (r: Option<&Binding>)
        ensures
            match r {
                Some(b) => self@.dom().contains(name@) && self@[name@] == b@,
                None => !self@.dom().contains(name@),
            },
    {
        proof {
            use_type_invariant(self);
        }
        let key = name.to_owned();
        let n = self.entries.len();
        let mut j: usize = 0;
        while j < n
            invariant
                n == self.entries.len(),
                key@ == name@,
                distinct_names(self.entries@),
                j <= n,
                forall|i: int| 0 <= i < j ==> #[trigger] self.entries@[i].0@ != name@,
            decreases n - j,
        {
            if self.entries[j].0 == key {
                proof {
                    law_entries_map_finds_each_entry(self.entries@, j as int);
                }
                return Some(&self.entries[j].1);
            }
            j = j + 1;
        }
        assert(!self@.dom().contains(name@));
        None
    }

    /// The entries of the scope, each name once.
    pub fn entries(&self) -> (r: &[(String, Binding)])
        ensures
            entries_map(r@) == self@,
            distinct_names(r@),
    {
        proof {
            use_type_invariant(self);
        }
        self.entries.as_slice()
    }
}

} // verus!
