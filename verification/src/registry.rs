//! dyld-equivalent symbol resolution.
//!
//! An image's imports are resolved against a registry of this project's
//! own shim implementations (`libSystem` replacements, ...). This answers
//! "can every import be satisfied, and with what"; missing symbols are
//! reported, never guessed.
use vstd::prelude::*;
use crate::format::Import;
use crate::text::{owned, str_eq};

verus! {

/// Maps symbol names to the address of this project's own implementation.
#[derive(Debug)]
pub struct Registry {
    symbols: Vec<(String, u64)>,
}

impl Registry {
    #[verifier::type_invariant]
    spec fn names_distinct(self) -> bool {
        forall|i: int, j: int|
            0 <= i < j < self.symbols@.len() ==> #[trigger] self.symbols@[i].0@
                != #[trigger] self.symbols@[j].0@
    }

    spec fn holds(self, name: Seq<char>) -> bool {
        exists|i: int| 0 <= i < self.symbols@.len() && #[trigger] self.symbols@[i].0@ == name
    }

    spec fn slot_of(self, name: Seq<char>) -> int {
        choose|i: int| 0 <= i < self.symbols@.len() && #[trigger] self.symbols@[i].0@ == name
    }

    /// The symbols defined so far, by name.
    pub closed spec fn view(&self) -> Map<Seq<char>, u64> {
        Map::new(|name: Seq<char>| self.holds(name), |name: Seq<char>| self.symbols@[self.slot_of(name)].1)
    }

    /// With distinct names, slot `i` is the one that holds its name.
    proof fn lemma_slot(self, i: int)
        requires
            self.names_distinct(),
            0 <= i < self.symbols@.len(),
        ensures
            self@.contains_key(self.symbols@[i].0@),
            self@[self.symbols@[i].0@] == self.symbols@[i].1,
    {
        let name = self.symbols@[i].0@;
        assert(self.holds(name));
        let j = self.slot_of(name);
        if i < j {
            assert(self.symbols@[i].0@ != self.symbols@[j].0@);
        } else if j < i {
            assert(self.symbols@[j].0@ != self.symbols@[i].0@);
        }
    }

    pub fn new() -> (r: Self)
        ensures
            r@ == Map::<Seq<char>, u64>::empty(),
    {
        let r = Registry { symbols: Vec::new() };
        assert(r@ =~= Map::<Seq<char>, u64>::empty());
        r
    }

    /// The slot that holds `name`, if any.
    fn find(&self, name: &str) -> (r: Option<usize>)
        ensures
            match r {
                Some(i) => i < self.symbols@.len() && self.symbols@[i as int].0@ == name@,
                None => !self@.contains_key(name@),
            },
    {
        let mut i: usize = 0;
        while i < self.symbols.len()
            invariant
                i <= self.symbols@.len(),
                forall|j: int| 0 <= j < i ==> self.symbols@[j].0@ != name@,
            decreases self.symbols@.len() - i,
        {
            if str_eq(self.symbols[i].0.as_str(), name) {
                return Some(i);
            }
            i = i + 1;
        }
        None
    }

    /// The address registered under `name`, if any.
    pub fn lookup(&self, name: &str) -> (r: Option<u64>)
        ensures
            r == (if self@.contains_key(name@) {
                Some(self@[name@])
            } else {
                None
            }),
    {
        proof {
            use_type_invariant(self);
        }
        match self.find(name) {
            Some(i) => {
                proof {
                    self.lemma_slot(i as int);
                }
                Some(self.symbols[i].1)
            },
            None => None,
        }
    }

    /// Registers `addr` under `name`, replacing any earlier address.
    pub fn define(&mut self, name: &str, addr: u64) -> (r: &mut Self)
        ensures
            r@ == old(self)@.insert(name@, addr),
            *final(self) == *final(r),
    {
        proof {
            use_type_invariant(&*self);
        }
        let ghost before = *self;
        let found = self.find(name);
        let mut symbols: Vec<(String, u64)> = Vec::new();
        std::mem::swap(&mut symbols, &mut self.symbols);
        match found {
            Some(i) => {
                symbols.set(i, (owned(name), addr));
                proof {
                    assert forall|a: int, b: int|
                        0 <= a < b < symbols@.len() implies #[trigger] symbols@[a].0@
                        != #[trigger] symbols@[b].0@ by {
                        if a != i && b != i {
                            assert(before.symbols@[a] == symbols@[a]);
                            assert(before.symbols@[b] == symbols@[b]);
                        } else if a == i {
                            assert(before.symbols@[b] == symbols@[b]);
                        } else {
                            assert(before.symbols@[a] == symbols@[a]);
                        }
                    }
                }
                self.symbols = symbols;
                proof {
                    assert forall|k: int|
                        0 <= k < self.symbols@.len() && k != i implies #[trigger] self.symbols@[k]
                        == before.symbols@[k] by {}
                    self.lemma_slot(i as int);
                    assert forall|n: Seq<char>| #[trigger]
                        self@.contains_key(n) == before@.insert(name@, addr).contains_key(n) by {
                        if n != name@ && self.holds(n) {
                            let k = self.slot_of(n);
                            assert(before.symbols@[k].0@ == n);
                        }
                        if n != name@ && before.holds(n) {
                            let k = before.slot_of(n);
                            assert(self.symbols@[k].0@ == n);
                        }
                    }
                    assert forall|n: Seq<char>| #[trigger] self@.contains_key(n) && n != name@ implies
                        self@[n] == before@[n] by {
                        let k = before.slot_of(n);
                        assert(self.symbols@[k].0@ == n);
                        self.lemma_slot(k);
                        before.lemma_slot(k);
                    }
                    assert(self@ =~= before@.insert(name@, addr));
                }
            },
            None => {
                symbols.push((owned(name), addr));
                proof {
                    let last = symbols@.len() - 1;
                    assert forall|a: int, b: int|
                        0 <= a < b < symbols@.len() implies #[trigger] symbols@[a].0@
                        != #[trigger] symbols@[b].0@ by {
                        assert(before.symbols@[a] == symbols@[a]);
                        if b == last {
                            if symbols@[a].0@ == name@ {
                                assert(before.holds(name@));
                            }
                        } else {
                            assert(before.symbols@[b] == symbols@[b]);
                        }
                    }
                }
                self.symbols = symbols;
                proof {
                    let last = self.symbols@.len() - 1;
                    assert(forall|k: int| 0 <= k < last ==> #[trigger] self.symbols@[k] == before.symbols@[k]);
                    assert(forall|k: int| 0 <= k < last ==> self.symbols@[k].0@ != name@) by {
                        assert forall|k: int| 0 <= k < last implies self.symbols@[k].0@ != name@ by {
                            if self.symbols@[k].0@ == name@ {
                                assert(before.holds(name@));
                            }
                        }
                    }
                    self.lemma_slot(last);
                    assert forall|n: Seq<char>| #[trigger]
                        self@.contains_key(n) == before@.insert(name@, addr).contains_key(n) by {
                        if n != name@ && self.holds(n) {
                            let k = self.slot_of(n);
                            assert(before.symbols@[k].0@ == n);
                        }
                        if n != name@ && before.holds(n) {
                            let k = before.slot_of(n);
                            assert(self.symbols@[k].0@ == n);
                        }
                    }
                    assert forall|n: Seq<char>| #[trigger] self@.contains_key(n) && n != name@ implies
                        self@[n] == before@[n] by {
                        let k = before.slot_of(n);
                        assert(self.symbols@[k].0@ == n);
                        self.lemma_slot(k);
                        before.lemma_slot(k);
                    }
                    assert(self@ =~= before@.insert(name@, addr));
                }
            },
        }
        self
    }

    pub fn is_defined(&self, name: &str) -> (r: bool)
        ensures
            r == self@.contains_key(name@),
    {
        self.lookup(name).is_some()
    }

    /// Attempts to resolve every import against this registry. Missing
    /// symbols are reported, not silently ignored or guessed at: a
    /// partially-resolved image should not be run.
    pub fn resolve(&self, imports: &[Import]) -> (r: ResolveReport)
        ensures
            r.resolved_model() == spec_resolved(self@, imports_names(imports@)),
            r.missing_model() == spec_missing(self@, imports_names(imports@)),
    {
        let mut resolved: Vec<(String, u64)> = Vec::with_capacity(imports.len());
        let mut missing: Vec<String> = Vec::new();
        let ghost names = imports_names(imports@);
        let mut i: usize = 0;
        while i < imports.len()
            invariant
                i <= imports@.len(),
                names == imports_names(imports@),
                pairs_model(resolved@) == spec_resolved(self@, names.take(i as int)),
                strings_of(missing@) == spec_missing(self@, names.take(i as int)),
            decreases imports@.len() - i,
        {
            let import = &imports[i];
            assert(names.take(i + 1).drop_last() =~= names.take(i as int));
            assert(names.take(i + 1).last() == import.name@);
            match self.lookup(import.name.as_str()) {
                Some(addr) => {
                    let ghost before = pairs_model(resolved@);
                    resolved.push((import.name.clone(), addr));
                    assert(pairs_model(resolved@) =~= before.push((import.name@, addr)));
                },
                None => {
                    let ghost before = strings_of(missing@);
                    missing.push(import.name.clone());
                    assert(strings_of(missing@) =~= before.push(import.name@));
                },
            }
            i = i + 1;
        }
        assert(names.take(imports@.len() as int) =~= names);
        ResolveReport { resolved, missing }
    }
}

impl Default for Registry {
    fn default() -> (r: Self)
        ensures
            r@ == Map::<Seq<char>, u64>::empty(),
    {
        Registry::new()
    }
}

/// The names of `imports`, in order.
pub open spec fn imports_names(imports: Seq<Import>) -> Seq<Seq<char>> {
    imports.map_values(|i: Import| i@)
}

pub open spec fn pairs_model(v: Seq<(String, u64)>) -> Seq<(Seq<char>, u64)> {
    v.map_values(|p: (String, u64)| (p.0@, p.1))
}

pub open spec fn strings_of(v: Seq<String>) -> Seq<Seq<char>> {
    v.map_values(|s: String| s@)
}

/// The imports among `names` that `symbols` defines, each with its
/// address, in import order.
pub open spec fn spec_resolved(symbols: Map<Seq<char>, u64>, names: Seq<Seq<char>>) -> Seq<
    (Seq<char>, u64),
>
    decreases names.len(),
{
    if names.len() == 0 {
        seq![]
    } else {
        let earlier = spec_resolved(symbols, names.drop_last());
        if symbols.contains_key(names.last()) {
            earlier.push((names.last(), symbols[names.last()]))
        } else {
            earlier
        }
    }
}

/// The imports among `names` that `symbols` does not define, in import
/// order.
pub open spec fn spec_missing(symbols: Map<Seq<char>, u64>, names: Seq<Seq<char>>) -> Seq<
    Seq<char>,
>
    decreases names.len(),
{
    if names.len() == 0 {
        seq![]
    } else {
        let earlier = spec_missing(symbols, names.drop_last());
        if symbols.contains_key(names.last()) {
            earlier
        } else {
            earlier.push(names.last())
        }
    }
}

/// Resolution reports every import exactly once, in import order: an
/// import that the registry defines is resolved to its registered address,
/// and one that it does not define is reported missing, never guessed.
pub proof fn law_resolution_partitions_imports(
    symbols: Map<Seq<char>, u64>,
    names: Seq<Seq<char>>,
)
    ensures
        spec_resolved(symbols, names).len() + spec_missing(symbols, names).len() == names.len(),
        forall|i: int|
            0 <= i < spec_resolved(symbols, names).len() ==> symbols.contains_key(
                #[trigger] spec_resolved(symbols, names)[i].0,
            ) && symbols[spec_resolved(symbols, names)[i].0] == spec_resolved(symbols, names)[i].1
                && names.contains(spec_resolved(symbols, names)[i].0),
        forall|i: int|
            0 <= i < spec_missing(symbols, names).len() ==> !symbols.contains_key(
                #[trigger] spec_missing(symbols, names)[i],
            ) && names.contains(spec_missing(symbols, names)[i]),
    decreases names.len(),
{
    if names.len() > 0 {
        let rest = names.drop_last();
        law_resolution_partitions_imports(symbols, rest);
        assert forall|x: Seq<char>| rest.contains(x) implies names.contains(x) by {
            let k = choose|k: int| 0 <= k < rest.len() && rest[k] == x;
            assert(names[k] == x);
        }
        assert(names[names.len() - 1] == names.last());
    }
}

/// An image is fully resolved exactly when the registry defines every one
/// of its imports.
pub proof fn law_fully_resolved_iff_all_defined(symbols: Map<Seq<char>, u64>, names: Seq<Seq<char>>)
    ensures
        (spec_missing(symbols, names).len() == 0) <==> (forall|i: int|
            0 <= i < names.len() ==> symbols.contains_key(#[trigger] names[i])),
    decreases names.len(),
{
    if names.len() > 0 {
        let rest = names.drop_last();
        law_fully_resolved_iff_all_defined(symbols, rest);
        if spec_missing(symbols, names).len() == 0 {
            assert forall|i: int| 0 <= i < names.len() implies symbols.contains_key(
                #[trigger] names[i],
            ) by {
                if i < names.len() - 1 {
                    assert(rest[i] == names[i]);
                }
            }
        } else if forall|i: int| 0 <= i < names.len() ==> symbols.contains_key(#[trigger] names[i]) {
            assert(symbols.contains_key(names[names.len() - 1]));
            assert forall|i: int| 0 <= i < rest.len() implies symbols.contains_key(
                #[trigger] rest[i],
            ) by {
                assert(symbols.contains_key(names[i]));
            }
        }
    }
}

/// After a symbol is defined, looking it up gives the address it was
/// defined with, and every other symbol keeps its address.
pub proof fn law_lookup_after_define(
    symbols: Map<Seq<char>, u64>,
    name: Seq<char>,
    addr: u64,
    other: Seq<char>,
)
    ensures
        symbols.insert(name, addr).contains_key(name),
        symbols.insert(name, addr)[name] == addr,
        other != name ==> symbols.insert(name, addr).contains_key(other) == symbols.contains_key(
            other,
        ),
        other != name && symbols.contains_key(other) ==> symbols.insert(name, addr)[other]
            == symbols[other],
{
}

#[derive(Debug, Clone, PartialEq, Eq)]
pub struct ResolveReport {
    pub resolved: Vec<(String, u64)>,
    pub missing: Vec<String>,
}

impl ResolveReport {
    /// The resolved imports, names taken as characters.
    pub open spec fn resolved_model(&self) -> Seq<(Seq<char>, u64)> {
        pairs_model(self.resolved@)
    }

    /// The missing imports, names taken as characters.
    pub open spec fn missing_model(&self) -> Seq<Seq<char>> {
        strings_of(self.missing@)
    }

    pub fn is_fully_resolved(&self) -> (r: bool)
        ensures
            r == (self.missing@.len() == 0),
    {
        self.missing.len() == 0
    }
}

} // verus!
