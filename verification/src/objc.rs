//! The Objective-C object, class and dispatch model: class hierarchies,
//! method tables, ivar layout, and `objc_msgSend`'s lookup, including
//! Objective-C's rule that a message to `nil` is legal and yields nil.
//!
//! Method tables keep one entry per selector; a lookup finds the first
//! entry for a selector, and adding a method for a selector that already
//! has one replaces that entry in place.
use std::sync::Arc;
use vstd::prelude::*;
use crate::text::{owned, str_eq};

verus! {

/// A selector: a method name like `init` or `setValue:forKey:`.
#[derive(Debug, Hash)]
pub struct Sel(String);

impl View for Sel {
    type V = Seq<char>;

    closed spec fn view(&self) -> Seq<char> {
        self.0@
    }
}

impl Sel {
    pub fn new(name: &str) -> (s: Self)
        ensures
            s@ == name@,
    {
        Sel(owned(name))
    }

    pub fn name(&self) -> (r: &str)
        ensures
            r@ == self@,
    {
        self.0.as_str()
    }

    /// A selector with the same name.
    fn duplicate(&self) -> (r: Self)
        ensures
            r@ == self@,
    {
        Sel(self.0.clone())
    }
}

impl Clone for Sel {
    fn clone(&self) -> (r: Self)
        ensures
            r@ == self@,
    {
        Sel(self.0.clone())
    }
}

impl PartialEq for Sel {
    fn eq(&self, other: &Self) -> (r: bool) {
        self.0 == other.0
    }
}

impl vstd::std_specs::cmp::PartialEqSpecImpl for Sel {
    open spec fn obeys_eq_spec() -> bool {
        true
    }

    open spec fn eq_spec(&self, other: &Self) -> bool {
        self@ == other@
    }
}

impl Eq for Sel {

}

impl From<&str> for Sel {
    fn from(s: &str) -> (r: Self)
        ensures
            r@ == s@,
    {
        Sel::new(s)
    }
}

/// A selector's characters are not a value that a spec function can build
/// a `Sel` from, so `from` is specified by its own `ensures` instead.
impl vstd::std_specs::convert::FromSpecImpl<&str> for Sel {
    open spec fn obeys_from_spec() -> bool {
        false
    }

    open spec fn from_spec(s: &str) -> Self {
        arbitrary()
    }
}

/// A resolved method implementation: an address whose meaning is up to
/// whoever fills the method table.
#[derive(Debug, Clone, Copy, PartialEq, Eq, Structural)]
pub struct Imp(pub u64);

#[derive(Debug, Clone)]
pub struct IvarDecl {
    pub name: String,
    pub offset: usize,
    pub size: usize,
}

/// The index of the first entry of `table` at or after `from` whose
/// selector is `sel`.
pub open spec fn first_entry(table: Seq<(Seq<char>, Imp)>, sel: Seq<char>, from: int) -> Option<
    int,
>
    decreases table.len() - from,
{
    if from < 0 || from >= table.len() {
        None
    } else if table[from].0 == sel {
        Some(from)
    } else {
        first_entry(table, sel, from + 1)
    }
}

/// The implementation that `table` gives for `sel`.
pub open spec fn table_get(table: Seq<(Seq<char>, Imp)>, sel: Seq<char>) -> Option<Imp> {
    match first_entry(table, sel, 0) {
        Some(i) => Some(table[i].1),
        None => None,
    }
}

/// Two tables whose selectors agree on where `sel` occurs from `from` on
/// find the same first entry for it.
proof fn lemma_first_entry_agree(
    t1: Seq<(Seq<char>, Imp)>,
    t2: Seq<(Seq<char>, Imp)>,
    sel: Seq<char>,
    from: int,
)
    requires
        0 <= from,
        t1.len() == t2.len(),
        forall|j: int| from <= j < t1.len() ==> ((#[trigger] t1[j].0 == sel) == (t2[j].0 == sel)),
    ensures
        first_entry(t1, sel, from) == first_entry(t2, sel, from),
    decreases t1.len() - from,
{
    if from < t1.len() {
        lemma_first_entry_agree(t1, t2, sel, from + 1);
    }
}

/// Entries before `mid` that do not hold `sel` are skipped.
proof fn lemma_first_entry_skip(t: Seq<(Seq<char>, Imp)>, sel: Seq<char>, from: int, mid: int)
    requires
        0 <= from <= mid <= t.len(),
        forall|j: int| from <= j < mid ==> #[trigger] t[j].0 != sel,
    ensures
        first_entry(t, sel, from) == first_entry(t, sel, mid),
    decreases mid - from,
{
    if from < mid {
        lemma_first_entry_skip(t, sel, from + 1, mid);
    }
}

/// Appending an entry for a selector does not change what the table gives
/// for the others, and gives the appended one when it was absent.
proof fn lemma_table_push(t: Seq<(Seq<char>, Imp)>, sel: Seq<char>, imp: Imp, other: Seq<char>)
    ensures
        first_entry(t, other, 0) is Some ==> table_get(t.push((sel, imp)), other) == table_get(
            t,
            other,
        ),
        other != sel ==> table_get(t.push((sel, imp)), other) == table_get(t, other),
        first_entry(t, sel, 0) is None ==> table_get(t.push((sel, imp)), sel) == Some(imp),
{
    let t2 = t.push((sel, imp));
    assert forall|j: int| 0 <= j < t.len() implies #[trigger] t2[j] == t[j] by {}
    lemma_first_entry_prefix(t, t2, other, 0);
    lemma_first_entry_prefix(t, t2, sel, 0);
    if let Some(i) = first_entry(t, other, 0) {
        lemma_first_entry_in_range(t, other, 0);
        assert(t2[i] == t[i]);
    }
}

/// A first entry lies in the table.
proof fn lemma_first_entry_in_range(t: Seq<(Seq<char>, Imp)>, sel: Seq<char>, from: int)
    ensures
        first_entry(t, sel, from) matches Some(i) ==> from <= i < t.len() && t[i].0 == sel,
    decreases t.len() - from,
{
    if 0 <= from < t.len() {
        lemma_first_entry_in_range(t, sel, from + 1);
    }
}

/// Extending a table keeps the first entries it already had, and finds an
/// absent selector only in the extension.
proof fn lemma_first_entry_prefix(
    t: Seq<(Seq<char>, Imp)>,
    t2: Seq<(Seq<char>, Imp)>,
    sel: Seq<char>,
    from: int,
)
    requires
        0 <= from <= t.len(),
        t2.len() == t.len() + 1,
        forall|j: int| 0 <= j < t.len() ==> #[trigger] t2[j] == t[j],
    ensures
        first_entry(t, sel, from) is Some ==> first_entry(t2, sel, from) == first_entry(
            t,
            sel,
            from,
        ),
        first_entry(t, sel, from) is None ==> first_entry(t2, sel, from) == (if t2[t.len() as int].0
            == sel {
            Some(t.len() as int)
        } else {
            None::<int>
        }),
    decreases t.len() - from,
{
    if from < t.len() {
        lemma_first_entry_prefix(t, t2, sel, from + 1);
    } else {
        let n = t.len() as int;
        if from + 1 <= t2.len() {
            assert(first_entry(t2, sel, n + 1) is None);
        }
    }
}

pub struct Class {
    pub name: String,
    pub superclass: Option<Arc<Class>>,
    instance_size: usize,
    methods: Vec<(Sel, Imp)>,
    ivars: Vec<IvarDecl>,
}

/// The instance size of the superclass that a class's own ivars follow.
pub open spec fn base_size(superclass: Option<Arc<Class>>) -> int {
    match superclass {
        Some(s) => s.spec_instance_size() as int,
        None => 0,
    }
}

/// `ivars` are laid out one after another from `base`, ending at `end`.
pub open spec fn ivars_packed(ivars: Seq<IvarDecl>, base: int, end: int) -> bool
    decreases ivars.len(),
{
    if ivars.len() == 0 {
        base == end
    } else {
        &&& ivars_packed(ivars.drop_last(), base, ivars.last().offset as int)
        &&& ivars.last().offset + ivars.last().size == end
    }
}

impl Class {
    /// The class's name.
    pub closed spec fn spec_name(&self) -> Seq<char> {
        self.name@
    }

    /// The class's superclass.
    pub closed spec fn spec_superclass(&self) -> Option<Arc<Class>> {
        self.superclass
    }

    /// The size of an instance: inherited ivars plus the class's own.
    pub closed spec fn spec_instance_size(&self) -> usize {
        self.instance_size
    }

    /// The method table declared directly on this class, selectors taken
    /// as characters.
    pub closed spec fn method_table(&self) -> Seq<(Seq<char>, Imp)> {
        self.methods@.map_values(|m: (Sel, Imp)| (m.0@, m.1))
    }

    /// The ivars declared directly on this class.
    pub closed spec fn ivars_model(&self) -> Seq<IvarDecl> {
        self.ivars@
    }

    /// The class's own ivars follow its superclass's one after another
    /// and end at its instance size.
    pub closed spec fn layout_ok(&self) -> bool {
        ivars_packed(self.ivars_model(), base_size(self.superclass), self.spec_instance_size() as int)
    }

    /// A root class (like `NSObject`) with no superclass.
    pub fn root(name: &str) -> (c: Self)
        ensures
            c.spec_name() == name@,
            c.spec_superclass() is None,
            c.spec_instance_size() == 0,
            c.method_table() == Seq::<(Seq<char>, Imp)>::empty(),
            c.ivars_model() == Seq::<IvarDecl>::empty(),
            c.layout_ok(),
    {
        let c = Class {
            name: owned(name),
            superclass: None,
            instance_size: 0,
            methods: Vec::new(),
            ivars: Vec::new(),
        };
        assert(c.method_table() =~= Seq::<(Seq<char>, Imp)>::empty());
        c
    }

    pub fn derive(name: &str, superclass: Arc<Class>) -> (c: Self)
        ensures
            c.spec_name() == name@,
            c.spec_superclass() == Some(superclass),
            c.spec_instance_size() == superclass.spec_instance_size(),
            c.method_table() == Seq::<(Seq<char>, Imp)>::empty(),
            c.ivars_model() == Seq::<IvarDecl>::empty(),
            c.layout_ok(),
    {
        let instance_size = superclass.instance_size;
        let c = Class {
            name: owned(name),
            superclass: Some(superclass),
            instance_size,
            methods: Vec::new(),
            ivars: Vec::new(),
        };
        assert(c.method_table() =~= Seq::<(Seq<char>, Imp)>::empty());
        c
    }

    /// The index of the first entry for `sel` in this class's own table.
    fn find_method(&self, sel: &str) -> (r: Option<usize>)
        ensures
            match r {
                Some(i) => i < self.methods@.len() && first_entry(self.method_table(), sel@, 0)
                    == Some(i as int),
                None => first_entry(self.method_table(), sel@, 0) is None,
            },
    {
        let ghost t = self.method_table();
        let mut i: usize = 0;
        while i < self.methods.len()
            invariant
                t == self.method_table(),
                i <= self.methods@.len(),
                forall|j: int| 0 <= j < i ==> #[trigger] t[j].0 != sel@,
            decreases self.methods@.len() - i,
        {
            if str_eq(self.methods[i].0.name(), sel) {
                proof {
                    lemma_first_entry_skip(t, sel@, 0, i as int);
                }
                return Some(i);
            }
            i = i + 1;
        }
        proof {
            lemma_first_entry_skip(t, sel@, 0, i as int);
        }
        None
    }

    /// Adds `imp` as this class's own implementation of `sel`, replacing
    /// the one it had.
    pub fn add_method(&mut self, sel: &str, imp: Imp) -> (r: &mut Self)
        ensures
            r.spec_name() == old(self).spec_name(),
            r.spec_superclass() == old(self).spec_superclass(),
            r.spec_instance_size() == old(self).spec_instance_size(),
            r.ivars_model() == old(self).ivars_model(),
            table_get(r.method_table(), sel@) == Some(imp),
            forall|other: Seq<char>|
                other != sel@ ==> #[trigger] table_get(r.method_table(), other) == table_get(
                    old(self).method_table(),
                    other,
                ),
            *final(self) == *final(r),
    {
        let ghost t = self.method_table();
        match self.find_method(sel) {
            Some(i) => {
                self.methods.set(i, (Sel::new(sel), imp));
                proof {
                    let t2 = self.method_table();
                    assert(t2 =~= t.update(i as int, (sel@, imp)));
                    lemma_first_entry_in_range(t, sel@, 0);
                    assert forall|other: Seq<char>| other != sel@ implies #[trigger] table_get(
                        t2,
                        other,
                    ) == table_get(t, other) by {
                        assert forall|j: int| 0 <= j < t.len() implies ((#[trigger] t[j].0 == other)
                            == (t2[j].0 == other)) by {
                            if j == i {
                                assert(t[j].0 == sel@);
                            }
                        }
                        lemma_first_entry_agree(t, t2, other, 0);
                        lemma_first_entry_in_range(t, other, 0);
                    }
                    lemma_first_entry_agree(t, t2, sel@, 0);
                }
            },
            None => {
                self.methods.push((Sel::new(sel), imp));
                proof {
                    let t2 = self.method_table();
                    assert(t2 =~= t.push((sel@, imp)));
                    assert forall|other: Seq<char>| other != sel@ implies #[trigger] table_get(
                        t2,
                        other,
                    ) == table_get(t, other) by {
                        lemma_table_push(t, sel@, imp, other);
                    }
                    lemma_table_push(t, sel@, imp, sel@);
                }
            },
        }
        self
    }

    /// Appends an ivar after whatever this class (or its superclasses)
    /// already declared, growing the instance size to match: a simplified
    /// stand-in for the ABI's per-type alignment rules.
    pub fn add_ivar(&mut self, name: &str, size: usize) -> (r: &mut Self)
        requires
            old(self).spec_instance_size() + size <= usize::MAX,
        ensures
            r.spec_name() == old(self).spec_name(),
            r.spec_superclass() == old(self).spec_superclass(),
            r.method_table() == old(self).method_table(),
            r.spec_instance_size() == old(self).spec_instance_size() + size,
            r.ivars_model().len() == old(self).ivars_model().len() + 1,
            r.ivars_model().drop_last() == old(self).ivars_model(),
            r.ivars_model().last().name@ == name@,
            r.ivars_model().last().offset == old(self).spec_instance_size(),
            r.ivars_model().last().size == size,
            old(self).layout_ok() ==> r.layout_ok(),
            *final(self) == *final(r),
    {
        let offset = self.instance_size;
        self.ivars.push(IvarDecl { name: owned(name), offset, size });
        self.instance_size = self.instance_size + size;
        assert(self.ivars@.drop_last() =~= old(self).ivars@);
        self
    }

    /// The public `name` field: the name that the contracts speak of.
    pub fn name(&self) -> (r: &String)
        ensures
            r@ == self.spec_name(),
    {
        &self.name
    }

    /// The public `superclass` field: the superclass that the contracts
    /// speak of.
    pub fn superclass(&self) -> (r: &Option<Arc<Class>>)
        ensures
            *r == self.spec_superclass(),
    {
        &self.superclass
    }

    pub fn instance_size(&self) -> (r: usize)
        ensures
            r == self.spec_instance_size(),
    {
        self.instance_size
    }

    /// All ivars declared directly on this class (not inherited ones).
    pub fn own_ivars(&self) -> (r: &[IvarDecl])
        ensures
            r@ == self.ivars_model(),
    {
        self.ivars.as_slice()
    }

    /// Whether `self` is `other` or a (possibly indirect) subclass of it:
    /// what `-isKindOfClass:` is built on.
    pub fn is_kind_of(&self, other: &str) -> (r: bool)
        ensures
            r == spec_is_kind_of(*self, other@),
        decreases *self,
    {
        if str_eq(self.name.as_str(), other) {
            return true;
        }
        match &self.superclass {
            Some(sup) => sup.is_kind_of(other),
            None => false,
        }
    }

    /// The core of `objc_msgSend`'s dispatch logic: look for `sel` on this
    /// class, then walk up the superclass chain.
    pub fn resolve(&self, sel: &Sel) -> (r: Option<Imp>)
        ensures
            r == spec_resolve(*self, sel@),
        decreases *self,
    {
        if let Some(i) = self.find_method(sel.name()) {
            return Some(self.methods[i].1);
        }
        match &self.superclass {
            Some(s) => s.resolve(sel),
            None => None,
        }
    }
}

/// Whether `c` is named `name` or has a (possibly indirect) superclass of
/// that name.
pub closed spec fn spec_is_kind_of(c: Class, name: Seq<char>) -> bool
    decreases c,
{
    if c.name@ == name {
        true
    } else {
        match c.superclass {
            Some(s) => spec_is_kind_of(*s, name),
            None => false,
        }
    }
}

/// The implementation of `sel` for instances of `c`: the class's own, or
/// else the nearest superclass's.
pub closed spec fn spec_resolve(c: Class, sel: Seq<char>) -> Option<Imp>
    decreases c,
{
    match table_get(c.method_table(), sel) {
        Some(imp) => Some(imp),
        None => match c.superclass {
            Some(s) => spec_resolve(*s, sel),
            None => None,
        },
    }
}


/// The total size of `ivars`.
pub open spec fn sum_sizes(ivars: Seq<IvarDecl>) -> int
    decreases ivars.len(),
{
    if ivars.len() == 0 {
        0
    } else {
        sum_sizes(ivars.drop_last()) + ivars.last().size
    }
}

proof fn lemma_packed_offsets(ivars: Seq<IvarDecl>, base: int, end: int)
    requires
        ivars_packed(ivars, base, end),
    ensures
        end == base + sum_sizes(ivars),
        forall|i: int|
            0 <= i < ivars.len() ==> (#[trigger] ivars[i]).offset == base + sum_sizes(
                ivars.take(i),
            ),
    decreases ivars.len(),
{
    if ivars.len() > 0 {
        let rest = ivars.drop_last();
        lemma_packed_offsets(rest, base, ivars.last().offset as int);
        assert forall|i: int| 0 <= i < ivars.len() implies (#[trigger] ivars[i]).offset == base
            + sum_sizes(ivars.take(i)) by {
            if i < ivars.len() - 1 {
                assert(rest[i] == ivars[i]);
                assert(rest.take(i) =~= ivars.take(i));
            } else {
                assert(ivars.take(i) =~= rest);
            }
        }
    }
}

/// Ivar offsets accumulate across inheritance: in a class laid out by
/// [`Class::root`], [`Class::derive`] and [`Class::add_ivar`], each own
/// ivar starts where the superclass's instance ends plus the sizes of the
/// own ivars before it, and the instance size is the superclass's plus the
/// sizes of all own ivars.
pub proof fn law_ivar_offsets_accumulate(c: Class)
    requires
        c.layout_ok(),
    ensures
        c.spec_instance_size() == base_size(c.spec_superclass()) + sum_sizes(c.ivars_model()),
        forall|i: int|
            0 <= i < c.ivars_model().len() ==> (#[trigger] c.ivars_model()[i]).offset == base_size(
                c.spec_superclass(),
            ) + sum_sizes(c.ivars_model().take(i)),
{
    lemma_packed_offsets(
        c.ivars_model(),
        base_size(c.spec_superclass()),
        c.spec_instance_size() as int,
    );
}

/// Dispatch looks at the class's own methods first, so an override
/// shadows the superclass's implementation; only a selector the class does
/// not implement itself is looked up in its superclass, and a root class
/// that does not implement it does not respond to it.
pub proof fn law_own_method_shadows_inherited(c: Class, sel: Seq<char>)
    ensures
        table_get(c.method_table(), sel) matches Some(imp) ==> spec_resolve(c, sel) == Some(imp),
        table_get(c.method_table(), sel) is None ==> spec_resolve(c, sel) == match c.spec_superclass() {
            Some(s) => spec_resolve(*s, sel),
            None => None,
        },
{
}

/// A class is a kind of itself, and a kind of whatever its superclass is
/// a kind of, and of nothing else.
pub proof fn law_is_kind_of_follows_the_hierarchy(c: Class, name: Seq<char>)
    ensures
        spec_is_kind_of(c, c.spec_name()),
        spec_is_kind_of(c, name) == (name == c.spec_name() || match c.spec_superclass() {
            Some(s) => spec_is_kind_of(*s, name),
            None => false,
        }),
{
}

pub struct Object {
    pub class: Arc<Class>,
    pub ivars: Vec<u8>,
}

impl Object {
    /// A new instance of `class`, its ivar storage zero-filled.
    pub fn new(class: Arc<Class>) -> (o: Self)
        ensures
            o.class == class,
            o.ivars@ == Seq::new(class.spec_instance_size() as nat, |i: int| 0u8),
    {
        let size = class.instance_size();
        let mut ivars: Vec<u8> = Vec::with_capacity(size);
        let mut i: usize = 0;
        while i < size
            invariant
                i <= size,
                ivars@ == Seq::new(i as nat, |k: int| 0u8),
            decreases size - i,
        {
            ivars.push(0u8);
            i = i + 1;
            assert(ivars@ =~= Seq::new(i as nat, |k: int| 0u8));
        }
        Object { class, ivars }
    }
}

#[derive(Debug, Clone, PartialEq, Eq)]
pub struct DoesNotRespond {
    pub class: String,
    pub sel: Sel,
}

/// The `objc_msgSend` dispatch decision: given a receiver (or `None` for
/// a `nil` receiver) and a selector, what to call.
///
/// A message to `nil` is legal and evaluates to nil/0/false, not a crash:
/// a `None` receiver yields `Ok(None)` without any method lookup.
pub fn objc_msg_send(receiver: Option<&Object>, sel: &Sel) -> (r: Result<Option<Imp>, DoesNotRespond>)
    ensures
        match receiver {
            None => r == Ok::<Option<Imp>, DoesNotRespond>(None),
            Some(obj) => match spec_resolve(*obj.class, sel@) {
                Some(imp) => r == Ok::<Option<Imp>, DoesNotRespond>(Some(imp)),
                None => r matches Err(e) && e.class@ == obj.class.spec_name() && e.sel@ == sel@,
            },
        },
{
    let receiver = match receiver {
        Some(obj) => obj,
        None => return Ok(None),
    };
    match receiver.class.resolve(sel) {
        Some(imp) => Ok(Some(imp)),
        None => Err(DoesNotRespond { class: receiver.class.name.clone(), sel: sel.duplicate() }),
    }
}

} // verus!
