use crate::error::BelError;
use crate::object::{list_items, nil, result_view, t_object, nil_object, truth, Datum, Object};
use vstd::prelude::*;

verus! {

/// The built-in functions. Each receives the list of its evaluated arguments.
#[derive(Debug, Clone, Copy, PartialEq, Eq, Structural)]
pub enum Primitive {
    Id,
    Car,
    Cdr,
}

/// What a primitive returns for a list of evaluated arguments.
pub open spec fn apply_prim(p: Primitive, args: Datum) -> Result<Datum, BelError> {
    match p {
        Primitive::Id => match list_items(args) {
            None => Err(BelError::MalformedList),
            Some(s) => if s.len() != 2 {
                Err(BelError::ArityMismatch)
            } else if s[0] is Sym && s[0] == s[1] {
                Ok(truth())
            } else {
                Ok(nil())
            },
        },
        Primitive::Car => match args {
            Datum::Cons(h, _) => Ok(*h),
            _ => Err(BelError::TypeMismatch),
        },
        Primitive::Cdr => match args {
            Datum::Cons(_, t) => Ok(*t),
            _ => Err(BelError::TypeMismatch),
        },
    }
}

/// The names under which the built-in functions are registered.
pub open spec fn builtin_primitives() -> Map<Seq<char>, Primitive> {
    map!["id"@ => Primitive::Id, "car"@ => Primitive::Car, "cdr"@ => Primitive::Cdr]
}

/// The registry of primitives, by name.
pub struct Primitives {
    entries: Vec<(String, Primitive)>,
}

impl Primitives {
    closed spec fn named(&self) -> Seq<(Seq<char>, Primitive)> {
        self.entries@.map_values(|e: (String, Primitive)| (e.0@, e.1))
    }

    #[verifier::type_invariant]
    spec fn names_unique(self) -> bool {
        forall|i: int, j: int| 0 <= i < j < self.named().len() ==> self.named()[i].0 != self.named()[j].0
    }

    /// The primitive registered under `name`, if any.
    pub fn lookup(&self, name: &str) -> (r: Option<Primitive>)
        ensures
            match r {
                Some(p) => self@.contains_key(name@) && self@[name@] == p,
                None => !self@.contains_key(name@),
            },
    {
        proof {
            use_type_invariant(self);
        }
        let s = name.to_string();
        let mut i: usize = 0;
        while i < self.entries.len()
            invariant
                i <= self.entries@.len(),
                s@ == name@,
                forall|j: int| 0 <= j < i ==> self.named()[j].0 != name@,
            decreases self.entries@.len() - i,
        {
            if self.entries[i].0 == s {
                proof {
                    use_type_invariant(self);
                    let b = self.named();
                    assert(b[i as int].0 == name@);
                    let c = choose|j: int| 0 <= j < b.len() && b[j].0 == name@;
                    assert(b[c].0 == name@);
                    if c < i {
                        assert(b[c].0 != name@);
                    } else if c > i {
                        assert(b[i as int].0 != b[c].0);
                    }
                    assert(c == i);
                }
                return Some(self.entries[i].1);
            }
            i = i + 1;
        }
        None
    }

    /// The registered names, in the order of registration.
    pub fn names(&self) -> (r: Vec<String>)
        ensures
            forall|k: Seq<char>| self@.contains_key(k) <==> exists|i: int| 0 <= i < r@.len() && r@[i]@ == k,
    {
        let mut r: Vec<String> = Vec::new();
        let mut i: usize = 0;
        while i < self.entries.len()
            invariant
                i <= self.entries@.len(),
                r@.len() == i,
                forall|j: int| 0 <= j < i ==> r@[j]@ == self.named()[j].0,
            decreases self.entries@.len() - i,
        {
            r.push(self.entries[i].0.clone());
            i = i + 1;
        }
        proof {
            assert forall|k: Seq<char>| self@.contains_key(k) implies exists|i: int| 0 <= i < r@.len() && r@[i]@ == k by {
                let j = choose|j: int| 0 <= j < self.named().len() && self.named()[j].0 == k;
                assert(r@[j]@ == k);
            }
            assert forall|k: Seq<char>| (exists|i: int| 0 <= i < r@.len() && r@[i]@ == k) implies self@.contains_key(k) by {
                let j = choose|i: int| 0 <= i < r@.len() && r@[i]@ == k;
                assert(self.named()[j].0 == k);
            }
        }
        r
    }
}

impl View for Primitives {
    type V = Map<Seq<char>, Primitive>;

    closed spec fn view(&self) -> Map<Seq<char>, Primitive> {
        let b = self.named();
        Map::new(
            |k: Seq<char>| exists|i: int| 0 <= i < b.len() && b[i].0 == k,
            |k: Seq<char>| b[choose|i: int| 0 <= i < b.len() && b[i].0 == k].1,
        )
    }
}

/// The registry of the built-in primitives: `id`, `car` and `cdr`.
pub fn load_primatives() -> (r: Primitives)
    ensures
        r@ == builtin_primitives(),
{
    let mut entries: Vec<(String, Primitive)> = Vec::new();
    entries.push(("id".to_string(), Primitive::Id));
    entries.push(("car".to_string(), Primitive::Car));
    entries.push(("cdr".to_string(), Primitive::Cdr));
    proof {
        reveal_strlit("id");
        reveal_strlit("car");
        reveal_strlit("cdr");
        let b = entries@.map_values(|e: (String, Primitive)| (e.0@, e.1));
        assert(b[0].0 == "id"@ && b[1].0 == "car"@ && b[2].0 == "cdr"@);
        assert(b[0].0.len() == 2 && b[1].0.len() == 3);
        assert(b[1].0[1] != b[2].0[1]);
        assert(b[0].0 != b[2].0);
    }
    let r = Primitives { entries };
    proof {
        let b = r.named();
        assert(b[0] == ("id"@, Primitive::Id));
        assert(b[1] == ("car"@, Primitive::Car));
        assert(b[2] == ("cdr"@, Primitive::Cdr));
        assert forall|k: Seq<char>| #[trigger] r@.contains_key(k) == builtin_primitives().contains_key(k) by {
            if k == "id"@ {
                assert(b[0].0 == k);
            }
            if k == "car"@ {
                assert(b[1].0 == k);
            }
            if k == "cdr"@ {
                assert(b[2].0 == k);
            }
        }
        assert forall|k: Seq<char>| #[trigger] r@.contains_key(k) implies r@[k] == builtin_primitives()[k] by {
            let c = choose|i: int| 0 <= i < b.len() && b[i].0 == k;
            assert(0 <= c < 3);
        }
        assert(r@ =~= builtin_primitives());
    }
    r
}

/// `t` when the argument list holds two symbols of the same name, else `nil`.
pub fn id(params: &Object) -> (r: Result<Object, BelError>)
    ensures
        result_view(r) == apply_prim(Primitive::Id, params@),
{
    let p_v = params.to_vec()?;
    if p_v.len() != 2 {
        return Err(BelError::ArityMismatch);
    }
    let ghost s = list_items(params@)->Some_0;
    assert(s[0] == p_v@[0]@ && s[1] == p_v@[1]@);
    let mut result = nil_object();
    if let Object::Symbol(lhs) = &p_v[0] {
        if let Object::Symbol(rhs) = &p_v[1] {
            if *lhs == *rhs {
                result = t_object();
            }
        }
    }
    Ok(result)
}

/// The first of the arguments.
pub fn car(params: &Object) -> (r: Result<Object, BelError>)
    ensures
        result_view(r) == apply_prim(Primitive::Car, params@),
{
    let (car, _) = params.extract_pair()?;
    Ok(car)
}

/// The list of the arguments after the first.
pub fn cdr(params: &Object) -> (r: Result<Object, BelError>)
    ensures
        result_view(r) == apply_prim(Primitive::Cdr, params@),
{
    let (_, cdr) = params.extract_pair()?;
    Ok(cdr)
}

/// Applies a primitive to the list of its evaluated arguments.
pub fn apply_primitive(p: Primitive, args: &Object) -> (r: Result<Object, BelError>)
    ensures
        result_view(r) == apply_prim(p, args@),
{
    match p {
        Primitive::Id => id(args),
        Primitive::Car => car(args),
        Primitive::Cdr => cdr(args),
    }
}

} // verus!
