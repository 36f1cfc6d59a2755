use crate::object::{render_datum, Datum, Object};
use vstd::prelude::*;

verus! {

/// The map that a sequence of bindings with distinct keys stands for.
pub open spec fn assoc_map(b: Seq<(Datum, Datum)>) -> Map<Datum, Datum> {
    Map::new(
        |k: Datum| exists|i: int| 0 <= i < b.len() && b[i].0 == k,
        |k: Datum| b[choose|i: int| 0 <= i < b.len() && b[i].0 == k].1,
    )
}

pub open spec fn distinct_keys(b: Seq<(Datum, Datum)>) -> bool {
    forall|i: int, j: int| 0 <= i < j < b.len() ==> b[i].0 != b[j].0
}

/// The printed form of a sequence of bindings: ` key => value; ` for each.
pub open spec fn dump_bindings(b: Seq<(Datum, Datum)>) -> Seq<char>
    decreases b.len(),
{
    if b.len() == 0 {
        Seq::empty()
    } else {
        let last = b.last();
        dump_bindings(b.drop_last()) + " "@ + render_datum(last.0) + " => "@ + render_datum(last.1)
            + "; "@
    }
}

/// A table from symbols to objects, as the locals and the globals of the
/// interpreter are. Keys are unique; the order of insertion is kept.
pub struct ObjectMap {
    entries: Vec<(Object, Object)>,
}

impl ObjectMap {
    /// The bindings, in the order in which their keys were first inserted.
    pub closed spec fn bindings(&self) -> Seq<(Datum, Datum)> {
        self.entries@.map_values(|e: (Object, Object)| (e.0@, e.1@))
    }

    #[verifier::type_invariant]
    spec fn keys_unique(self) -> bool {
        distinct_keys(self.bindings())
    }

    pub fn new() -> (r: ObjectMap)
        ensures
            r@ == Map::<Datum, Datum>::empty(),
            r.bindings().len() == 0,
    {
        let r = ObjectMap { entries: Vec::new() };
        assert(r@ =~= Map::<Datum, Datum>::empty());
        r
    }

    pub fn len(&self) -> (r: usize)
        ensures
            r == self.bindings().len(),
    {
        self.entries.len()
    }

    /// The index of the binding of `key`, if any.
    fn find(&self, key: &Object) -> (r: Option<usize>)
        ensures
            match r {
                Some(i) => i < self.bindings().len() && self.bindings()[i as int].0 == key@,
                None => forall|i: int|
                    0 <= i < self.bindings().len() ==> self.bindings()[i].0 != key@,
            },
    {
        let mut i: usize = 0;
        while i < self.entries.len()
            invariant
                i <= self.entries@.len(),
                forall|j: int| 0 <= j < i ==> self.bindings()[j].0 != key@,
            decreases self.entries@.len() - i,
        {
            if self.entries[i].0.same(key) {
                return Some(i);
            }
            i = i + 1;
        }
        None
    }

    pub fn contains_key(&self, key: &Object) -> (r: bool)
        ensures
            r == self@.contains_key(key@),
    {
        let found = self.find(key);
        proof {
            if let Some(i) = found {
                assert(0 <= i < self.bindings().len() && self.bindings()[i as int].0 == key@);
            }
        }
        found.is_some()
    }

    pub fn get(&self, key: &Object) -> (r: Option<&Object>)
        ensures
            match r {
                Some(v) => self@.contains_key(key@) && v@ == self@[key@],
                None => !self@.contains_key(key@),
            },
    {
        proof {
            use_type_invariant(self);
        }
        match self.find(key) {
            Some(i) => {
                proof {
                    let b = self.bindings();
                    assert(0 <= i < b.len() && b[i as int].0 == key@);
                    let c = choose|j: int| 0 <= j < b.len() && b[j].0 == key@;
                    assert(c == i);
                }
                Some(&self.entries[i].1)
            },
            None => None,
        }
    }

    /// Binds `key` to `value`, replacing an earlier binding of `key`.
    pub fn insert(&mut self, key: Object, value: Object)
        ensures
            final(self)@ == old(self)@.insert(key@, value@),
    {
        proof {
            use_type_invariant(&*self);
        }
        let ghost kv = key@;
        let ghost vv = value@;
        let ghost b0 = self.bindings();
        let found = self.find(&key);
        let mut taken = ObjectMap::new();
        core::mem::swap(self, &mut taken);
        proof {
            use_type_invariant(&taken);
        }
        let ObjectMap { entries: mut entries } = taken;
        match found {
            Some(i) => {
                entries.set(i, (key, value));
                proof {
                    let b1 = entries@.map_values(|e: (Object, Object)| (e.0@, e.1@));
                    assert(b1 =~= b0.update(i as int, (kv, vv)));
                    assert forall|j: int| 0 <= j < b1.len() implies b1[j].0 == b0[j].0 by {}
                    assert(distinct_keys(b1));
                }
                *self = ObjectMap { entries };
                proof {
                    let b1 = self.bindings();
                    assert(b1 =~= b0.update(i as int, (kv, vv)));
                    assert forall|k: Datum| #[trigger]
                        self@.contains_key(k) == old(self)@.insert(kv, vv).contains_key(k) by {
                        if k != kv {
                            if old(self)@.contains_key(k) {
                                let j = choose|j: int| 0 <= j < b0.len() && b0[j].0 == k;
                                assert(b1[j].0 == k);
                            }
                        } else {
                            assert(b1[i as int].0 == k);
                        }
                    }
                    assert forall|k: Datum| #[trigger]
                        self@.contains_key(k) implies self@[k] == old(self)@.insert(kv, vv)[k] by {
                        let j1 = choose|j: int| 0 <= j < b1.len() && b1[j].0 == k;
                        if k != kv {
                            let j0 = choose|j: int| 0 <= j < b0.len() && b0[j].0 == k;
                            assert(j1 != i);
                            assert(b0[j1].0 == k);
                            assert(j0 == j1);
                        } else {
                            assert(j1 == i);
                        }
                    }
                    assert(self@ =~= old(self)@.insert(kv, vv));
                }
            },
            None => {
                entries.push((key, value));
                proof {
                    let b1 = entries@.map_values(|e: (Object, Object)| (e.0@, e.1@));
                    assert(b1 =~= b0.push((kv, vv)));
                    assert(distinct_keys(b1));
                }
                *self = ObjectMap { entries };
                proof {
                    let b1 = self.bindings();
                    assert(b1 =~= b0.push((kv, vv)));
                    assert forall|k: Datum| #[trigger]
                        self@.contains_key(k) == old(self)@.insert(kv, vv).contains_key(k) by {
                        if k != kv {
                            if old(self)@.contains_key(k) {
                                let j = choose|j: int| 0 <= j < b0.len() && b0[j].0 == k;
                                assert(b1[j].0 == k);
                            }
                        } else {
                            assert(b1[b0.len() as int].0 == k);
                        }
                    }
                    assert forall|k: Datum| #[trigger]
                        self@.contains_key(k) implies self@[k] == old(self)@.insert(kv, vv)[k] by {
                        let j1 = choose|j: int| 0 <= j < b1.len() && b1[j].0 == k;
                        if k != kv {
                            let j0 = choose|j: int| 0 <= j < b0.len() && b0[j].0 == k;
                            assert(j1 != b0.len());
                            assert(b0[j1].0 == k);
                            assert(j0 == j1);
                        } else {
                            assert(j1 == b0.len());
                        }
                    }
                    assert(self@ =~= old(self)@.insert(kv, vv));
                }
            },
        }
    }

    /// The keys, in the order of their first insertion.
    pub fn keys(&self) -> (r: Vec<Object>)
        ensures
            r@.len() == self.bindings().len(),
            forall|i: int| 0 <= i < r@.len() ==> r@[i]@ == self.bindings()[i].0,
    {
        let mut r: Vec<Object> = Vec::new();
        let mut i: usize = 0;
        while i < self.entries.len()
            invariant
                i <= self.entries@.len(),
                r@.len() == i,
                forall|j: int| 0 <= j < i ==> r@[j]@ == self.bindings()[j].0,
            decreases self.entries@.len() - i,
        {
            r.push(self.entries[i].0.duplicate());
            i = i + 1;
        }
        r
    }

    /// The printed form of the table: ` key => value; ` for each binding.
    pub fn dump(&self) -> (r: String)
        ensures
            r@ == dump_bindings(self.bindings()),
    {
        let mut accum = String::new();
        let mut i: usize = 0;
        while i < self.entries.len()
            invariant
                i <= self.entries@.len(),
                accum@ == dump_bindings(self.bindings().subrange(0, i as int)),
            decreases self.entries@.len() - i,
        {
            let k = self.entries[i].0.render();
            let v = self.entries[i].1.render();
            accum.append(" ");
            accum.append(k.as_str());
            accum.append(" => ");
            accum.append(v.as_str());
            accum.append("; ");
            proof {
                let b = self.bindings();
                assert(b.subrange(0, i + 1).drop_last() =~= b.subrange(0, i as int));
            }
            i = i + 1;
        }
        proof {
            assert(self.bindings().subrange(0, i as int) =~= self.bindings());
        }
        accum
    }
}

impl View for ObjectMap {
    type V = Map<Datum, Datum>;

    closed spec fn view(&self) -> Map<Datum, Datum> {
        assoc_map(self.bindings())
    }
}

/// A set of names, as the interpreter keeps those of user functions and macros.
pub struct NameSet {
    names: Vec<String>,
}

impl View for NameSet {
    type V = Set<Seq<char>>;

    closed spec fn view(&self) -> Set<Seq<char>> {
        self.names@.map_values(|s: String| s@).to_set()
    }
}

impl NameSet {
    pub fn new() -> (r: NameSet)
        ensures
            r@ == Set::<Seq<char>>::empty(),
    {
        let r = NameSet { names: Vec::new() };
        assert(r@ =~= Set::<Seq<char>>::empty());
        r
    }

    pub fn contains(&self, name: &str) -> (r: bool)
        ensures
            r == self@.contains(name@),
    {
        let s = name.to_string();
        let mut i: usize = 0;
        while i < self.names.len()
            invariant
                i <= self.names@.len(),
                s@ == name@,
                forall|j: int| 0 <= j < i ==> self.names@[j]@ != name@,
            decreases self.names@.len() - i,
        {
            if self.names[i] == s {
                proof {
                    let v = self.names@.map_values(|s: String| s@);
                    assert(v[i as int] == name@);
                }
                return true;
            }
            i = i + 1;
        }
        proof {
            let v = self.names@.map_values(|s: String| s@);
            if v.to_set().contains(name@) {
                let j = choose|j: int| 0 <= j < v.len() && v[j] == name@;
                assert(self.names@[j]@ == name@);
            }
        }
        false
    }

    pub fn insert(&mut self, name: String)
        ensures
            final(self)@ == old(self)@.insert(name@),
    {
        if !self.contains(name.as_str()) {
            let ghost v0 = self.names@.map_values(|s: String| s@);
            let ghost n = name@;
            self.names.push(name);
            proof {
                let v1 = self.names@.map_values(|s: String| s@);
                assert(v1 =~= v0.push(n));
                assert forall|x: Seq<char>|
                    v1.to_set().contains(x) == v0.to_set().insert(n).contains(x) by {
                    if v0.contains(x) {
                        let j = choose|j: int| 0 <= j < v0.len() && v0[j] == x;
                        assert(v1[j] == x);
                    }
                    if v1.contains(x) {
                        let j = choose|j: int| 0 <= j < v1.len() && v1[j] == x;
                        if j < v0.len() {
                            assert(v0[j] == x);
                        }
                    }
                    assert(v1[v0.len() as int] == n);
                }
                assert(v1.to_set() =~= v0.to_set().insert(n));
            }
        } else {
            assert(self@ =~= old(self)@.insert(name@));
        }
    }

    /// The names, in the order of their insertion.
    pub fn names(&self) -> (r: Vec<String>)
        ensures
            r@.map_values(|s: String| s@).to_set() == self@,
    {
        let mut r: Vec<String> = Vec::new();
        let mut i: usize = 0;
        while i < self.names.len()
            invariant
                i <= self.names@.len(),
                r@.len() == i,
                forall|j: int| 0 <= j < i ==> r@[j]@ == self.names@[j]@,
            decreases self.names@.len() - i,
        {
            r.push(self.names[i].clone());
            i = i + 1;
        }
        proof {
            let a = r@.map_values(|s: String| s@);
            let b = self.names@.map_values(|s: String| s@);
            assert(a =~= b);
        }
        r
    }
}

} // verus!
