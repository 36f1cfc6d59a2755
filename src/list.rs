use crate::error::BelError;
use crate::object::{nil, render_datum, Datum, Object};
use vstd::prelude::*;

verus! {

/// The number of nodes of a datum; pairs count one each.
pub open spec fn size(d: Datum) -> nat
    decreases d,
{
    match d {
        Datum::Cons(h, t) => 1 + size(*h) + size(*t),
        _ => 1,
    }
}

/// The text that `format_list` writes for the elements of a list, each
/// preceded by a space, nested lists in parentheses; `None` when the list or
/// a nested list is malformed.
pub open spec fn list_text(d: Datum) -> Option<Seq<char>>
    decreases d,
{
    match d {
        Datum::Cons(h, t) => {
            let e = match *h {
                Datum::Cons(_, _) => match list_text(*h) {
                    Some(s) => Some("("@ + s + " )"@),
                    None => None,
                },
                _ => Some(render_datum(*h)),
            };
            match (e, list_text(*t)) {
                (Some(a), Some(b)) => Some(" "@ + a + b),
                _ => None,
            }
        },
        _ => if d == nil() {
            Some(Seq::empty())
        } else {
            None
        },
    }
}

/// A cursor that yields the elements of a list one at a time, and fails on a
/// tail that is neither nil nor a pair.
#[derive(Debug)]
pub struct List {
    obj: Object,
}

impl View for List {
    type V = Datum;

    /// What is left of the list.
    closed spec fn view(&self) -> Datum {
        self.obj@
    }
}

impl List {
    pub fn new(obj: &Object) -> (r: List)
        ensures
            r@ == obj@,
    {
        List { obj: obj.duplicate() }
    }

    /// The next element, `None` at the end of the list, or an error when what
    /// is left is neither nil nor a pair.
    pub fn step(&mut self) -> (r: Result<Option<Object>, BelError>)
        ensures
            match old(self)@ {
                Datum::Cons(h, t) => (r matches Ok(Some(o)) && o@ == *h) && final(self)@ == *t,
                _ => final(self)@ == old(self)@ && if old(self)@ == nil() {
                    r matches Ok(None)
                } else {
                    r matches Err(BelError::MalformedList)
                },
            },
    {
        let mut taken = Object::Stream;
        core::mem::swap(&mut self.obj, &mut taken);
        match taken {
            Object::Pair(p) => {
                let (car, cdr) = *p;
                self.obj = cdr;
                Ok(Some(car))
            },
            other => {
                let end = other.is_nil();
                self.obj = other;
                if end {
                    Ok(None)
                } else {
                    Err(BelError::MalformedList)
                }
            },
        }
    }
}

/// Converts a list to a string: `( a b ( c ) )` for the list of `a`, `b` and
/// the list of `c`.
pub fn format_list(obj: &Object) -> (r: Result<String, BelError>)
    ensures
        match list_text(obj@) {
            Some(s) => r matches Ok(t) && t@ == "("@ + s + " )"@,
            None => r == Err::<String, BelError>(BelError::MalformedList),
        },
{
    let mut accum = String::new();
    match accum_list(&mut accum, obj) {
        Ok(()) => {
            assert(accum@ =~= "("@ + list_text(obj@)->Some_0 + " )"@);
            Ok(accum)
        },
        Err(e) => Err(e),
    }
}

fn accum_list(accum: &mut String, obj: &Object) -> (r: Result<(), BelError>)
    ensures
        match list_text(obj@) {
            Some(s) => r is Ok && final(accum)@ == old(accum)@ + "("@ + s + " )"@,
            None => r == Err::<(), BelError>(BelError::MalformedList),
        },
    decreases size(obj@),
{
    let mut list = List::new(obj);
    accum.append("(");
    let ghost start = accum@;
    loop
        invariant
            size(list@) <= size(obj@),
            list_text(obj@) == match list_text(list@) {
                Some(s) => Some(accum@.subrange(start.len() as int, accum@.len() as int) + s),
                None => None::<Seq<char>>,
            },
            start.len() <= accum@.len(),
            accum@.subrange(0, start.len() as int) == start,
            start == old(accum)@ + "("@,
        decreases size(list@),
    {
        let ghost before = accum@;
        let ghost cur = list@;
        match list.step() {
            Ok(Some(obj)) => {
                accum.append(" ");
                let ghost mid = accum@;
                if let Object::Pair(_) = obj {
                    match accum_list(accum, &obj) {
                        Ok(()) => {},
                        Err(e) => {
                            return Err(e);
                        },
                    }
                } else {
                    let text = obj.render();
                    accum.append(text.as_str());
                }
                proof {
                    let e = accum@.subrange(mid.len() as int, accum@.len() as int);
                    assert(accum@ =~= mid + e);
                    assert(mid =~= before + " "@);
                    assert(accum@.subrange(0, start.len() as int) =~= start);
                    if let Some(s) = list_text(list@) {
                        assert(before.subrange(start.len() as int, before.len() as int) + (" "@
                            + e + s) =~= accum@.subrange(start.len() as int, accum@.len() as int)
                            + s);
                    }
                }
            },
            Ok(None) => {
                accum.append(" )");
                proof {
                    assert(before =~= start + before.subrange(
                        start.len() as int,
                        before.len() as int,
                    ));
                    assert(before.subrange(start.len() as int, before.len() as int) + Seq::<
                        char,
                    >::empty() =~= before.subrange(start.len() as int, before.len() as int));
                }
                return Ok(());
            },
            Err(e) => {
                return Err(e);
            },
        }
    }
}

} // verus!
