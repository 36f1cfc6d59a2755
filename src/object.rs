use crate::error::BelError;
use vstd::prelude::*;

verus! {

/// The mathematical value of an [`Object`]: names are character sequences.
pub enum Datum {
    Sym(Seq<char>),
    Cons(Box<Datum>, Box<Datum>),
    Chr(Seq<char>),
    Stream,
}

/// Bel has four fundamental data types: symbols, pairs, characters and
/// streams. Instances of the four fundamental types are called objects.
#[derive(Debug)]
pub enum Object {
    Symbol(String),
    Pair(Box<(Object, Object)>),
    Char(String),
    Stream,
}

impl Object {
    pub open spec fn model(self) -> Datum
        decreases self,
    {
        match self {
            Object::Symbol(s) => Datum::Sym(s@),
            Object::Pair(p) => Datum::Cons(Box::new(p.0.model()), Box::new(p.1.model())),
            Object::Char(s) => Datum::Chr(s@),
            Object::Stream => Datum::Stream,
        }
    }
}

impl View for Object {
    type V = Datum;

    open spec fn view(&self) -> Datum {
        self.model()
    }
}

/// The symbol `nil`: the empty list and the false value.
pub open spec fn nil() -> Datum {
    Datum::Sym("nil"@)
}

/// The symbol `t`, the conventional true value.
pub open spec fn truth() -> Datum {
    Datum::Sym("t"@)
}

pub open spec fn sym(name: Seq<char>) -> Datum {
    Datum::Sym(name)
}

pub open spec fn cons(a: Datum, b: Datum) -> Datum {
    Datum::Cons(Box::new(a), Box::new(b))
}

/// The models of a sequence of objects.
pub open spec fn views(v: Seq<Object>) -> Seq<Datum> {
    v.map_values(|o: Object| o@)
}

/// The model of an evaluation result.
pub open spec fn result_view(r: Result<Object, BelError>) -> Result<Datum, BelError> {
    match r {
        Ok(o) => Ok(o@),
        Err(e) => Err(e),
    }
}

/// The elements of a proper list, or `None` when the chain of pairs ends in
/// something other than `nil`.
pub open spec fn list_items(d: Datum) -> Option<Seq<Datum>>
    decreases d,
{
    match d {
        Datum::Cons(h, t) => match list_items(*t) {
            Some(s) => Some(seq![*h] + s),
            None => None,
        },
        _ => if d == nil() {
            Some(Seq::empty())
        } else {
            None
        },
    }
}

/// The proper list whose elements are `s`, in order.
pub open spec fn list_of(s: Seq<Datum>) -> Datum
    decreases s.len(),
{
    if s.len() == 0 {
        nil()
    } else {
        cons(s[0], list_of(s.drop_first()))
    }
}

/// The name of a datum's variant, as the `type` special form reports it.
pub open spec fn variant_name(d: Datum) -> Seq<char> {
    match d {
        Datum::Sym(_) => "symbol"@,
        Datum::Cons(_, _) => "pair"@,
        Datum::Chr(_) => "char"@,
        Datum::Stream => "stream"@,
    }
}

/// The printed form of a datum: a pair prints as `(head . tail)`.
pub open spec fn render_datum(d: Datum) -> Seq<char>
    decreases d,
{
    match d {
        Datum::Sym(n) => n,
        Datum::Cons(h, t) => "("@ + render_datum(*h) + " . "@ + render_datum(*t) + ")"@,
        Datum::Chr(c) => "c("@ + c + ")"@,
        Datum::Stream => "stream"@,
    }
}

/// A list is either nil or a pair.
pub open spec fn is_list_head(d: Datum) -> bool {
    d == nil() || d is Cons
}

/// Converting a sequence to a list and back gives the sequence.
pub proof fn lemma_list_round_trip(s: Seq<Datum>)
    ensures
        list_items(list_of(s)) == Some(s),
    decreases s.len(),
{
    if s.len() > 0 {
        lemma_list_round_trip(s.drop_first());
        assert(seq![s[0]] + s.drop_first() =~= s);
    }
}

/// A proper list is the list of its elements.
pub proof fn lemma_items_determine_list(d: Datum)
    requires
        list_items(d) is Some,
    ensures
        list_of(list_items(d)->Some_0) == d,
    decreases d,
{
    if let Datum::Cons(h, t) = d {
        lemma_items_determine_list(*t);
        let s = list_items(d)->Some_0;
        assert(s.drop_first() =~= list_items(*t)->Some_0);
    }
}

/// A symbol whose name is `name`.
pub fn symbol(name: &str) -> (r: Object)
    ensures
        r@ == sym(name@),
{
    Object::Symbol(name.to_string())
}

/// The symbol `nil`.
pub fn nil_object() -> (r: Object)
    ensures
        r@ == nil(),
{
    symbol("nil")
}

/// The symbol `t`.
pub fn t_object() -> (r: Object)
    ensures
        r@ == truth(),
{
    symbol("t")
}

/// A pair of two objects.
pub fn pair(a: Object, b: Object) -> (r: Object)
    ensures
        r@ == cons(a@, b@),
{
    Object::Pair(Box::new((a, b)))
}

impl Object {
    /// A copy of the object, with the same model.
    pub fn duplicate(&self) -> (r: Object)
        ensures
            r@ == self@,
        decreases self,
    {
        match self {
            Object::Symbol(s) => Object::Symbol(s.clone()),
            Object::Pair(p) => {
                let a = p.0.duplicate();
                let b = p.1.duplicate();
                Object::Pair(Box::new((a, b)))
            },
            Object::Char(c) => Object::Char(c.clone()),
            Object::Stream => Object::Stream,
        }
    }

    /// Structural equality.
    pub fn same(&self, other: &Object) -> (r: bool)
        ensures
            r == (self@ == other@),
        decreases self,
    {
        match (self, other) {
            (Object::Symbol(a), Object::Symbol(b)) => *a == *b,
            (Object::Char(a), Object::Char(b)) => *a == *b,
            (Object::Stream, Object::Stream) => true,
            (Object::Pair(p), Object::Pair(q)) => p.0.same(&q.0) && p.1.same(&q.1),
            _ => false,
        }
    }

    pub fn is_symbol(&self, name: &str) -> (r: bool)
        ensures
            r == (self@ == sym(name@)),
    {
        match self {
            Object::Symbol(n) => *n == name.to_string(),
            _ => false,
        }
    }

    pub fn is_nil(&self) -> (r: bool)
        ensures
            r == (self@ == nil()),
    {
        self.is_symbol("nil")
    }

    /// Anything other than `nil` is true.
    pub fn is_true(&self) -> (r: bool)
        ensures
            r == (self@ != nil()),
    {
        !self.is_nil()
    }

    /// Whether the object is the pair `(o1 . o2)`.
    pub fn is_pair(&self, o1: Object, o2: Object) -> (r: bool)
        ensures
            r == (self@ == cons(o1@, o2@)),
    {
        match self {
            Object::Pair(p) => p.0.same(&o1) && p.1.same(&o2),
            _ => false,
        }
    }

    /// The two sides of a pair; any other object is a type mismatch.
    pub fn extract_pair(&self) -> (r: Result<(Object, Object), BelError>)
        ensures
            match self@ {
                Datum::Cons(h, t) => r matches Ok(p) && p.0@ == *h && p.1@ == *t,
                _ => r == Err::<(Object, Object), BelError>(BelError::TypeMismatch),
            },
    {
        match self {
            Object::Pair(p) => Ok((p.0.duplicate(), p.1.duplicate())),
            _ => Err(BelError::TypeMismatch),
        }
    }

    /// The elements of a proper list, in order.
    pub fn to_vec(&self) -> (r: Result<Vec<Object>, BelError>)
        ensures
            match list_items(self@) {
                Some(s) => r matches Ok(v) && views(v@) == s,
                None => r == Err::<Vec<Object>, BelError>(BelError::MalformedList),
            },
    {
        let mut accum: Vec<Object> = Vec::new();
        let mut list: &Object = self;
        loop
            invariant
                list_items(self@) == match list_items(list@) {
                    Some(s) => Some(views(accum@) + s),
                    None => None::<Seq<Datum>>,
                },
            decreases list@,
        {
            match list {
                Object::Pair(p) => {
                    let ghost before = views(accum@);
                    accum.push(p.0.duplicate());
                    proof {
                        assert(views(accum@) =~= before.push(p.0@));
                        if let Some(s) = list_items(p.1@) {
                            assert(before + (seq![p.0@] + s) =~= views(accum@) + s);
                        }
                    }
                    list = &p.1;
                },
                _ => {
                    if list.is_nil() {
                        proof {
                            assert(views(accum@) + Seq::<Datum>::empty() =~= views(accum@));
                        }
                        return Ok(accum);
                    } else {
                        return Err(BelError::MalformedList);
                    }
                },
            }
        }
    }

    /// The name of the object's variant.
    pub fn t(&self) -> (r: String)
        ensures
            r@ == variant_name(self@),
    {
        match self {
            Object::Symbol(_) => "symbol".to_string(),
            Object::Pair(_) => "pair".to_string(),
            Object::Char(_) => "char".to_string(),
            Object::Stream => "stream".to_string(),
        }
    }

    /// The printed form of the object.
    pub fn render(&self) -> (r: String)
        ensures
            r@ == render_datum(self@),
        decreases self,
    {
        match self {
            Object::Symbol(n) => n.clone(),
            Object::Pair(p) => {
                let mut s = "(".to_string();
                let h = p.0.render();
                let t = p.1.render();
                s.append(h.as_str());
                s.append(" . ");
                s.append(t.as_str());
                s.append(")");
                s
            },
            Object::Char(c) => {
                let mut s = "c(".to_string();
                s.append(c.as_str());
                s.append(")");
                s
            },
            Object::Stream => "stream".to_string(),
        }
    }
}

impl PartialEq for Object {
    fn eq(&self, other: &Object) -> (r: bool) {
        self.same(other)
    }
}

impl vstd::std_specs::cmp::PartialEqSpecImpl for Object {
    open spec fn obeys_eq_spec() -> bool {
        true
    }

    open spec fn eq_spec(&self, other: &Object) -> bool {
        self@ == other@
    }
}

/// Puts an object at the head of a list.
pub fn join(obj: Object, list: Object) -> (r: Result<Object, BelError>)
    ensures
        is_list_head(list@) ==> (r matches Ok(o) && o@ == cons(obj@, list@)),
        !is_list_head(list@) ==> r == Err::<Object, BelError>(BelError::MalformedList),
{
    if list.is_nil() {
        Ok(Object::Pair(Box::new((obj, list))))
    } else if let Object::Pair(_) = list {
        Ok(Object::Pair(Box::new((obj, list))))
    } else {
        Err(BelError::MalformedList)
    }
}

/// The proper list of the vector's elements, in order.
pub fn from_vec(v: Vec<Object>) -> (r: Result<Object, BelError>)
    ensures
        r matches Ok(o) && o@ == list_of(views(v@)),
{
    let mut v = v;
    let ghost orig = views(v@);
    let mut obj_accum: Object = nil_object();
    while v.len() > 0
        invariant
            views(v@) == orig.subrange(0, v@.len() as int),
            obj_accum@ == list_of(orig.subrange(v@.len() as int, orig.len() as int)),
            v@.len() <= orig.len(),
        decreases v.len(),
    {
        let ghost n = v@.len();
        let ghost old_v = views(v@);
        let obj = v.pop().unwrap();
        proof {
            assert(old_v[v@.len() as int] == obj@);
            assert(orig[v@.len() as int] == obj@);
            assert(views(v@) =~= orig.subrange(0, v@.len() as int));
            assert(orig.subrange(v@.len() as int, orig.len() as int).drop_first() =~= orig.subrange(
                n as int,
                orig.len() as int,
            ));
            assert(orig.subrange(v@.len() as int, orig.len() as int)[0] == obj@);
        }
        obj_accum = Object::Pair(Box::new((obj, obj_accum)));
    }
    proof {
        assert(orig.subrange(0, orig.len() as int) =~= orig);
    }
    Ok(obj_accum)
}

} // verus!
