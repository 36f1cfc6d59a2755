use crate::error::BelError;
use crate::object::{list_items, list_of, nil, render_datum, sym, Datum, Object};
use vstd::prelude::*;

verus! {

/// The closure literal `(lit clo nil params body)`.
pub open spec fn closure_literal(params: Datum, body: Datum) -> Datum {
    list_of(seq![sym("lit"@), sym("clo"@), nil(), params, body])
}

/// The parameters and the body of a closure literal: a proper list of five
/// elements that starts with `lit`, `clo` and `nil`.
pub open spec fn closure_parts(d: Datum) -> Option<(Datum, Datum)> {
    match list_items(d) {
        Some(s) => if s.len() == 5 && s[0] == sym("lit"@) && s[1] == sym("clo"@) && s[2] == nil() {
            Some((s[3], s[4]))
        } else {
            None
        },
        None => None,
    }
}

/// A user function, as read back from its closure literal.
pub struct Function {
    pub name: String,
    pub parameters: Object,
    pub body: Object,
}

/// Reads the closure literal `f_obj`, bound to `f_name`, back into its
/// parameters and body.
pub fn parse_function(f_name: &Object, f_obj: &Object) -> (r: Result<Function, BelError>)
    ensures
        match closure_parts(f_obj@) {
            Some(parts) => r matches Ok(f) && f.parameters@ == parts.0 && f.body@ == parts.1
                && f.name@ == render_datum(f_name@),
            None => r matches Err(BelError::MalformedFunction),
        },
{
    let items = match f_obj.to_vec() {
        Ok(v) => v,
        Err(_) => {
            return Err(BelError::MalformedFunction);
        },
    };
    if items.len() != 5 {
        return Err(BelError::MalformedFunction);
    }
    let ghost s = list_items(f_obj@)->Some_0;
    assert(s[0] == items@[0]@ && s[1] == items@[1]@ && s[2] == items@[2]@);
    assert(s[3] == items@[3]@ && s[4] == items@[4]@);
    if !items[0].is_symbol("lit") || !items[1].is_symbol("clo") || !items[2].is_nil() {
        return Err(BelError::MalformedFunction);
    }
    Ok(Function { name: f_name.render(), parameters: items[3].duplicate(), body: items[4].duplicate() })
}

} // verus!
