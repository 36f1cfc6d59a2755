use crate::env::{dump_bindings, NameSet, ObjectMap};
use crate::error::BelError;
use crate::functions::{closure_literal, closure_parts, parse_function};
use crate::list::size;
use crate::object::{
    cons, from_vec, lemma_list_round_trip, list_items, list_of, nil, nil_object, result_view, sym, symbol, truth,
    variant_name, views, Datum, Object,
};
use crate::primatives::{
    apply_prim, apply_primitive, builtin_primitives, load_primatives, Primitive, Primitives,
};
use vstd::prelude::*;

verus! {

/// How deeply evaluations may nest before `eval` gives up with
/// `RecursionLimitExceeded`.
pub const EVAL_DEPTH_LIMIT: u64 = 1000;

/// The state of an interpreter: its globals, its primitives, and the names of
/// the user functions and macros defined so far.
pub struct BelModel {
    pub globals: Map<Datum, Datum>,
    pub prims: Map<Seq<char>, Primitive>,
    pub functions: Set<Seq<char>>,
    pub macros: Set<Seq<char>>,
}

/// What a pair whose head is a symbol means, by the name of that symbol:
/// reserved forms first, then primitives, user functions and macros; any other
/// name makes the pair a list of data.
#[derive(Debug, Clone, Copy, PartialEq, Eq, Structural)]
pub enum Form {
    Assign,
    Define,
    DefineMacro,
    Conditional,
    Quotation,
    TypeOf,
    Prim(Primitive),
    Function,
    Macro,
    Data,
}

pub open spec fn form_of(st: BelModel, name: Seq<char>) -> Form {
    if name == "set"@ {
        Form::Assign
    } else if name == "def"@ {
        Form::Define
    } else if name == "mac"@ {
        Form::DefineMacro
    } else if name == "if"@ {
        Form::Conditional
    } else if name == "quote"@ {
        Form::Quotation
    } else if name == "type"@ {
        Form::TypeOf
    } else if st.prims.contains_key(name) {
        Form::Prim(st.prims[name])
    } else if st.functions.contains(name) {
        Form::Function
    } else if st.macros.contains(name) {
        Form::Macro
    } else {
        Form::Data
    }
}

/// The globals of a fresh interpreter: `nil`, `t`, `o` and `apply` bound to
/// themselves.
pub open spec fn initial_globals() -> Map<Datum, Datum> {
    map![
        nil() => nil(),
        truth() => truth(),
        sym("o"@) => sym("o"@),
        sym("apply"@) => sym("apply"@),
    ]
}

pub open spec fn initial_model() -> BelModel {
    BelModel {
        globals: initial_globals(),
        prims: builtin_primitives(),
        functions: Set::empty(),
        macros: Set::empty(),
    }
}

/// The value of a symbol: locals first, then globals.
pub open spec fn lookup_symbol(st: BelModel, locals: Map<Datum, Datum>, s: Datum) -> Result<
    Datum,
    BelError,
> {
    if locals.contains_key(s) {
        Ok(locals[s])
    } else if st.globals.contains_key(s) {
        Ok(st.globals[s])
    } else {
        Err(BelError::UnboundSymbol)
    }
}

/// Every item at an even index, where `set` expects a name, is a symbol.
pub open spec fn keys_are_symbols(s: Seq<Datum>) -> bool {
    forall|i: int| 0 <= i < s.len() && i % 2 == 0 ==> s[i] is Sym
}

/// The globals after `set` with the items `s`: each name bound to the item
/// after it, a last name without one bound to `nil`.
pub open spec fn bind_all(g: Map<Datum, Datum>, s: Seq<Datum>) -> Map<Datum, Datum>
    decreases s.len(),
{
    if s.len() == 0 {
        g
    } else if s.len() == 1 {
        g.insert(s[0], nil())
    } else {
        bind_all(g.insert(s[0], s[1]), s.subrange(2, s.len() as int))
    }
}

/// `(set s1 v1 s2 v2 ...)`: the new state and the result.
pub open spec fn set_form(st: BelModel, args: Datum) -> (BelModel, Result<Datum, BelError>) {
    match list_items(args) {
        None => (st, Err(BelError::MalformedList)),
        Some(s) => if keys_are_symbols(s) {
            (BelModel { globals: bind_all(st.globals, s), ..st }, Ok(nil()))
        } else {
            (st, Err(BelError::TypeMismatch))
        },
    }
}

/// The name and the closure literal that `(def name params body)` defines.
pub open spec fn closure_definition(args: Datum) -> Result<(Seq<char>, Datum), BelError> {
    match list_items(args) {
        None => Err(BelError::MalformedList),
        Some(s) => if s.len() != 3 {
            Err(BelError::ArityMismatch)
        } else {
            match s[0] {
                Datum::Sym(n) => Ok((n, closure_literal(s[1], s[2]))),
                _ => Err(BelError::TypeMismatch),
            }
        },
    }
}

/// `(def name params body)`.
pub open spec fn def_form(st: BelModel, args: Datum) -> (BelModel, Result<Datum, BelError>) {
    match closure_definition(args) {
        Err(e) => (st, Err(e)),
        Ok((n, c)) => (
            BelModel {
                globals: st.globals.insert(sym(n), c),
                functions: st.functions.insert(n),
                ..st
            },
            Ok(nil()),
        ),
    }
}

/// `(mac name params body)`.
pub open spec fn mac_form(st: BelModel, args: Datum) -> (BelModel, Result<Datum, BelError>) {
    match closure_definition(args) {
        Err(e) => (st, Err(e)),
        Ok((n, c)) => (
            BelModel {
                globals: st.globals.insert(sym(n), list_of(seq![sym("lit"@), sym("mac"@), c])),
                macros: st.macros.insert(n),
                ..st
            },
            Ok(nil()),
        ),
    }
}

/// `(quote x)`: `x` itself.
pub open spec fn quote_form(args: Datum) -> Result<Datum, BelError> {
    match args {
        Datum::Cons(x, t) => if *t == nil() {
            Ok(*x)
        } else {
            Err(BelError::TypeMismatch)
        },
        _ => Err(BelError::TypeMismatch),
    }
}

/// The locals of a call: parameter `p[i]` bound to argument `a[i]`, or to
/// `nil` where no argument is left; a later parameter of the same name wins.
pub open spec fn param_map(p: Seq<Datum>, a: Seq<Datum>, n: nat) -> Map<Datum, Datum>
    decreases n,
{
    if n == 0 || n > p.len() {
        Map::empty()
    } else {
        let i = n - 1;
        param_map(p, a, i as nat).insert(p[i], if i < a.len() { a[i] } else { nil() })
    }
}

/// The locals for calling a function with parameter list `params` on the list
/// of evaluated arguments `args`.
pub open spec fn bind_params(params: Datum, args: Datum) -> Result<Map<Datum, Datum>, BelError> {
    match (list_items(args), list_items(params)) {
        (Some(a), Some(p)) => if a.len() > p.len() {
            Err(BelError::ArityMismatch)
        } else if forall|i: int| 0 <= i < p.len() ==> p[i] is Sym {
            Ok(param_map(p, a, p.len()))
        } else {
            Err(BelError::TypeMismatch)
        },
        _ => Err(BelError::MalformedList),
    }
}

/// Evaluation of `exp` with the given locals, in state `st`, with at most
/// `f` nested evaluations of pairs: the state after it and the result.
pub open spec fn eval_in(st: BelModel, locals: Map<Datum, Datum>, exp: Datum, f: nat) -> (
    BelModel,
    Result<Datum, BelError>,
)
    decreases f, 0nat, 0nat,
{
    match exp {
        Datum::Sym(_) => (st, lookup_symbol(st, locals, exp)),
        Datum::Cons(h, t) => if f == 0 {
            (st, Err(BelError::RecursionLimitExceeded))
        } else {
            eval_pair_in(st, locals, *h, *t, (f - 1) as nat)
        },
        _ => (st, Err(BelError::NotImplemented)),
    }
}

/// Evaluation of the pair `(car . cdr)`.
pub open spec fn eval_pair_in(
    st: BelModel,
    locals: Map<Datum, Datum>,
    car: Datum,
    cdr: Datum,
    g: nat,
) -> (BelModel, Result<Datum, BelError>)
    decreases g, 3nat, 0nat,
{
    match car {
        Datum::Sym(name) => match form_of(st, name) {
            Form::Assign => set_form(st, cdr),
            Form::Define => def_form(st, cdr),
            Form::DefineMacro => mac_form(st, cdr),
            Form::Conditional => eval_if_in(st, locals, cdr, g),
            Form::Quotation => (st, quote_form(cdr)),
            Form::TypeOf => match cdr {
                Datum::Cons(x, t) => if *t == nil() {
                    let (st1, r) = eval_in(st, locals, *x, g);
                    (
                        st1,
                        match r {
                            Ok(v) => Ok(sym(variant_name(v))),
                            Err(e) => Err(e),
                        },
                    )
                } else {
                    (st, Err(BelError::ArityMismatch))
                },
                _ => (st, Err(BelError::ArityMismatch)),
            },
            Form::Prim(p) => {
                let (st1, r) = eval_list_in(st, locals, cdr, g);
                (
                    st1,
                    match r {
                        Ok(a) => apply_prim(p, a),
                        Err(e) => Err(e),
                    },
                )
            },
            Form::Function => {
                let (st1, r) = eval_list_in(st, locals, cdr, g);
                match r {
                    Ok(a) => apply_function_in(st1, name, a, g),
                    Err(e) => (st1, Err(e)),
                }
            },
            Form::Macro => (st, Err(BelError::NotImplemented)),
            Form::Data => eval_list_in(st, locals, cons(car, cdr), g),
        },
        _ => eval_list_in(st, locals, cons(car, cdr), g),
    }
}

/// `(if a1 a2 a3 a4 ... [an])`: the first consequent whose test is true, the
/// odd last item otherwise, or `nil`.
pub open spec fn eval_if_in(st: BelModel, locals: Map<Datum, Datum>, args: Datum, g: nat) -> (
    BelModel,
    Result<Datum, BelError>,
)
    decreases g, 2nat, size(args),
{
    match args {
        Datum::Cons(test, rest) => eval_if_rest_in(st, locals, *test, *rest, g),
        _ => if args == nil() {
            (st, Ok(nil()))
        } else {
            (st, Err(BelError::MalformedList))
        },
    }
}

/// The rest of an `if` after the item `test`.
pub open spec fn eval_if_rest_in(
    st: BelModel,
    locals: Map<Datum, Datum>,
    test: Datum,
    rest: Datum,
    g: nat,
) -> (BelModel, Result<Datum, BelError>)
    decreases g, 2nat, size(rest),
{
    match rest {
        Datum::Cons(then, more) => {
            let (st1, r) = eval_in(st, locals, test, g);
            match r {
                Err(e) => (st1, Err(e)),
                Ok(v) => if v != nil() {
                    eval_in(st1, locals, *then, g)
                } else {
                    eval_if_in(st1, locals, *more, g)
                },
            }
        },
        _ => if rest == nil() {
            eval_in(st, locals, test, g)
        } else {
            (st, Err(BelError::MalformedList))
        },
    }
}

/// Evaluation of each element of a list, in order: the list of the values.
pub open spec fn eval_list_in(st: BelModel, locals: Map<Datum, Datum>, l: Datum, g: nat) -> (
    BelModel,
    Result<Datum, BelError>,
)
    decreases g, 2nat, size(l),
{
    match l {
        Datum::Cons(h, t) => {
            let (st1, r) = eval_in(st, locals, *h, g);
            match r {
                Err(e) => (st1, Err(e)),
                Ok(v) => {
                    let (st2, r2) = eval_list_in(st1, locals, *t, g);
                    (
                        st2,
                        match r2 {
                            Ok(rest) => Ok(cons(v, rest)),
                            Err(e) => Err(e),
                        },
                    )
                },
            }
        },
        _ => if l == nil() {
            (st, Ok(nil()))
        } else {
            (st, Err(BelError::MalformedList))
        },
    }
}

/// A call of the user function `name` on the list of evaluated arguments.
pub open spec fn apply_function_in(st: BelModel, name: Seq<char>, args: Datum, g: nat) -> (
    BelModel,
    Result<Datum, BelError>,
)
    decreases g, 1nat, 0nat,
{
    if !st.globals.contains_key(sym(name)) {
        (st, Err(BelError::UnknownFunction))
    } else {
        match closure_parts(st.globals[sym(name)]) {
            None => (st, Err(BelError::MalformedFunction)),
            Some(parts) => match bind_params(parts.0, args) {
                Err(e) => (st, Err(e)),
                Ok(call_locals) => eval_in(st, call_locals, parts.1, g),
            },
        }
    }
}

/// A fresh, empty table of locals.
pub fn new_object_map() -> (r: ObjectMap)
    ensures
        r@ == Map::<Datum, Datum>::empty(),
{
    ObjectMap::new()
}

/// The printed form of a table: ` key => value; ` for each binding.
pub fn dump_object_map(om: &ObjectMap) -> (r: String)
    ensures
        r@ == dump_bindings(om.bindings()),
{
    om.dump()
}

/// The interpreter: its globals, its primitives, and the names of the user
/// functions and macros defined so far.
pub struct Bel {
    pub globals: ObjectMap,
    pub primatives: Primitives,
    pub function_names: NameSet,
    pub macro_names: NameSet,
}

impl View for Bel {
    type V = BelModel;

    open spec fn view(&self) -> BelModel {
        BelModel {
            globals: self.globals@,
            prims: self.primatives@,
            functions: self.function_names@,
            macros: self.macro_names@,
        }
    }
}

/// Whether `name` reads `lit`.
fn name_is(name: &String, lit: &str) -> (r: bool)
    ensures
        r == (name@ == lit@),
{
    *name == lit.to_string()
}

impl Bel {
    pub fn new() -> (r: Bel)
        ensures
            r@ == initial_model(),
    {
        let mut globals = ObjectMap::new();
        globals.insert(nil_object(), nil_object());
        globals.insert(symbol("t"), symbol("t"));
        globals.insert(symbol("o"), symbol("o"));
        globals.insert(symbol("apply"), symbol("apply"));
        let r = Bel {
            globals,
            primatives: load_primatives(),
            function_names: NameSet::new(),
            macro_names: NameSet::new(),
        };
        assert(r@.globals =~= initial_globals());
        r
    }

    /// What a pair headed by the symbol `name` means.
    pub fn classify(&self, name: &String) -> (r: Form)
        ensures
            r == form_of(self@, name@),
    {
        if name_is(name, "set") {
            Form::Assign
        } else if name_is(name, "def") {
            Form::Define
        } else if name_is(name, "mac") {
            Form::DefineMacro
        } else if name_is(name, "if") {
            Form::Conditional
        } else if name_is(name, "quote") {
            Form::Quotation
        } else if name_is(name, "type") {
            Form::TypeOf
        } else {
            match self.primatives.lookup(name.as_str()) {
                Some(p) => Form::Prim(p),
                None => if self.function_names.contains(name.as_str()) {
                    Form::Function
                } else if self.macro_names.contains(name.as_str()) {
                    Form::Macro
                } else {
                    Form::Data
                },
            }
        }
    }

    fn get_bound_object(&self, locals: &ObjectMap, name: &String) -> (r: Result<Object, BelError>)
        ensures
            result_view(r) == lookup_symbol(self@, locals@, sym(name@)),
    {
        let key = Object::Symbol(name.clone());
        match locals.get(&key) {
            Some(obj) => Ok(obj.duplicate()),
            None => match self.globals.get(&key) {
                Some(obj) => Ok(obj.duplicate()),
                None => Err(BelError::UnboundSymbol),
            },
        }
    }

    fn set(&mut self, args: &Object) -> (r: Result<Object, BelError>)
        ensures
            (final(self)@, result_view(r)) == set_form(old(self)@, args@),
    {
        let list = args.to_vec()?;
        let ghost s = views(list@);
        let n = list.len();
        let mut i: usize = 0;
        while i < n
            invariant
                n == list@.len(),
                s == views(list@),
                list_items(args@) == Some(s),
                i <= n,
                forall|j: int| 0 <= j < i && j % 2 == 0 ==> s[j] is Sym,
            decreases n - i,
        {
            if i % 2 == 0 {
                if let Object::Symbol(_) = &list[i] {
                } else {
                    assert(s[i as int] == list@[i as int]@);
                    assert(!(s[i as int] is Sym));
                    return Err(BelError::TypeMismatch);
                }
            }
            i = i + 1;
        }
        let ghost g0 = self.globals@;
        assert(s.subrange(0, n as int) =~= s);
        let mut k: usize = 0;
        while k < n
            invariant
                n == list@.len(),
                s == views(list@),
                list_items(args@) == Some(s),
                keys_are_symbols(s),
                k <= n,
                bind_all(self.globals@, s.subrange(k as int, n as int)) == bind_all(g0, s),
                self.primatives@ == old(self).primatives@,
                self.function_names@ == old(self).function_names@,
                self.macro_names@ == old(self).macro_names@,
            decreases n - k,
        {
            let ghost rest = s.subrange(k as int, n as int);
            let key = list[k].duplicate();
            if k + 1 < n {
                let val = list[k + 1].duplicate();
                self.globals.insert(key, val);
                assert(rest.subrange(2, rest.len() as int) =~= s.subrange(k + 2, n as int));
                k = k + 2;
            } else {
                self.globals.insert(key, nil_object());
                assert(s.subrange(n as int, n as int).len() == 0);
                k = n;
            }
        }
        Ok(nil_object())
    }

    /// Evaluates `exp` with the given locals: a symbol is looked up in the
    /// locals, then in the globals; a pair is a special form, a call or a list
    /// of data; characters and streams cannot be evaluated.
    pub fn eval(&mut self, locals: &ObjectMap, exp: &Object) -> (r: Result<Object, BelError>)
        ensures
            (final(self)@, result_view(r)) == eval_in(
                old(self)@,
                locals@,
                exp@,
                EVAL_DEPTH_LIMIT as nat,
            ),
    {
        self.eval_at(locals, exp, EVAL_DEPTH_LIMIT)
    }

    fn eval_at(&mut self, locals: &ObjectMap, exp: &Object, depth: u64) -> (r: Result<
        Object,
        BelError,
    >)
        ensures
            (final(self)@, result_view(r)) == eval_in(old(self)@, locals@, exp@, depth as nat),
        decreases depth, 0nat, 0nat,
    {
        match exp {
            Object::Symbol(name) => self.get_bound_object(locals, name),
            Object::Pair(p) => {
                if depth == 0 {
                    Err(BelError::RecursionLimitExceeded)
                } else {
                    self.eval_pair(locals, &p.0, &p.1, depth - 1)
                }
            },
            Object::Char(_) => Err(BelError::NotImplemented),
            Object::Stream => Err(BelError::NotImplemented),
        }
    }

    fn eval_pair(&mut self, locals: &ObjectMap, car: &Object, cdr: &Object, depth: u64) -> (r:
        Result<Object, BelError>)
        ensures
            (final(self)@, result_view(r)) == eval_pair_in(
                old(self)@,
                locals@,
                car@,
                cdr@,
                depth as nat,
            ),
        decreases depth, 3nat, 0nat,
    {
        match car {
            Object::Symbol(name) => match self.classify(name) {
                Form::Assign => self.set(cdr),
                Form::Define => self.def(cdr),
                Form::DefineMacro => self.mac(cdr),
                Form::Conditional => self.if_form(locals, cdr, depth),
                Form::Quotation => quote(cdr),
                Form::TypeOf => match cdr {
                    Object::Pair(p) => if p.1.is_nil() {
                        match self.eval_at(locals, &p.0, depth) {
                            Ok(v) => Ok(Object::Symbol(v.t())),
                            Err(e) => Err(e),
                        }
                    } else {
                        Err(BelError::ArityMismatch)
                    },
                    _ => Err(BelError::ArityMismatch),
                },
                Form::Prim(prim) => match self.evaluate_list(locals, cdr, depth) {
                    Ok(args) => apply_primitive(prim, &args),
                    Err(e) => Err(e),
                },
                Form::Function => match self.evaluate_list(locals, cdr, depth) {
                    Ok(args) => self.apply_function(name, &args, depth),
                    Err(e) => Err(e),
                },
                Form::Macro => Err(BelError::NotImplemented),
                Form::Data => self.evaluate_pair_as_list(locals, car, cdr, depth),
            },
            _ => self.evaluate_pair_as_list(locals, car, cdr, depth),
        }
    }

    /// Evaluates `(car . cdr)` as a list of data.
    fn evaluate_pair_as_list(&mut self, locals: &ObjectMap, car: &Object, cdr: &Object, depth: u64) -> (r:
        Result<Object, BelError>)
        ensures
            (final(self)@, result_view(r)) == eval_list_in(
                old(self)@,
                locals@,
                cons(car@, cdr@),
                depth as nat,
            ),
        decreases depth, 2nat, size(cons(car@, cdr@)),
    {
        let v = match self.eval_at(locals, car, depth) {
            Ok(v) => v,
            Err(e) => {
                return Err(e);
            },
        };
        match self.evaluate_list(locals, cdr, depth) {
            Ok(rest) => Ok(Object::Pair(Box::new((v, rest)))),
            Err(e) => Err(e),
        }
    }

    // An if expression with an odd number of arguments
    //  (if a1 a2 a3 a4 ... an)
    // is equivalent to
    //  if a1 then a2 else if a3 then a4 ... else an
    // and one with an even number of arguments has a final nil.
    fn if_form(&mut self, locals: &ObjectMap, args: &Object, depth: u64) -> (r: Result<
        Object,
        BelError,
    >)
        ensures
            (final(self)@, result_view(r)) == eval_if_in(old(self)@, locals@, args@, depth as nat),
        decreases depth, 2nat, size(args@),
    {
        let ghost st0 = self@;
        match args {
            Object::Pair(p) => match &p.1 {
                Object::Pair(q) => {
                    assert(eval_if_in(st0, locals@, args@, depth as nat) == eval_if_rest_in(
                        st0,
                        locals@,
                        p.0@,
                        p.1@,
                        depth as nat,
                    ));
                    assert(size(args@) == 1 + size(p.0@) + size(p.1@));
                    assert(size(p.1@) == 1 + size(q.0@) + size(q.1@));
                    let x = match self.eval_at(locals, &p.0, depth) {
                        Ok(x) => x,
                        Err(e) => {
                            return Err(e);
                        },
                    };
                    if x.is_true() {
                        self.eval_at(locals, &q.0, depth)
                    } else {
                        assert(size(q.1@) < size(args@));
                        self.if_form(locals, &q.1, depth)
                    }
                },
                rest => if rest.is_nil() {
                    assert(eval_if_in(st0, locals@, args@, depth as nat) == eval_if_rest_in(
                        st0,
                        locals@,
                        p.0@,
                        p.1@,
                        depth as nat,
                    ));
                    self.eval_at(locals, &p.0, depth)
                } else {
                    Err(BelError::MalformedList)
                },
            },
            _ => if args.is_nil() {
                Ok(nil_object())
            } else {
                Err(BelError::MalformedList)
            },
        }
    }

    /// Evaluates each element of the list `o`, in order, and returns the list
    /// of their values.
    fn evaluate_list(&mut self, locals: &ObjectMap, o: &Object, depth: u64) -> (r: Result<
        Object,
        BelError,
    >)
        ensures
            (final(self)@, result_view(r)) == eval_list_in(old(self)@, locals@, o@, depth as nat),
        decreases depth, 2nat, size(o@),
    {
        match o {
            Object::Pair(p) => {
                let v = match self.eval_at(locals, &p.0, depth) {
                    Ok(v) => v,
                    Err(e) => {
                        return Err(e);
                    },
                };
                match self.evaluate_list(locals, &p.1, depth) {
                    Ok(rest) => Ok(Object::Pair(Box::new((v, rest)))),
                    Err(e) => Err(e),
                }
            },
            _ => if o.is_nil() {
                Ok(nil_object())
            } else {
                Err(BelError::MalformedList)
            },
        }
    }

    /// Calls the user function bound to `f_name` on the list of evaluated
    /// arguments `args`.
    fn apply_function(&mut self, f_name: &String, args: &Object, depth: u64) -> (r: Result<
        Object,
        BelError,
    >)
        ensures
            (final(self)@, result_view(r)) == apply_function_in(
                old(self)@,
                f_name@,
                args@,
                depth as nat,
            ),
        decreases depth, 1nat, 0nat,
    {
        let key = Object::Symbol(f_name.clone());
        let function = match self.globals.get(&key) {
            Some(f) => match parse_function(&key, f) {
                Ok(function) => function,
                Err(e) => {
                    return Err(e);
                },
            },
            None => {
                return Err(BelError::UnknownFunction);
            },
        };
        let locals = match merge_args_with_params(args, &function.parameters) {
            Ok(l) => l,
            Err(e) => {
                return Err(e);
            },
        };
        self.eval_at(&locals, &function.body, depth)
    }

    // (def n p e) abbreviates (set n (lit clo nil p e))
    fn def(&mut self, args: &Object) -> (r: Result<Object, BelError>)
        ensures
            (final(self)@, result_view(r)) == def_form(old(self)@, args@),
    {
        let (name, body) = define_closure(args)?;
        self.globals.insert(Object::Symbol(name.clone()), body);
        self.function_names.insert(name);
        Ok(nil_object())
    }

    // (mac n p e) abbreviates (set n (lit mac (lit clo nil p e)))
    fn mac(&mut self, args: &Object) -> (r: Result<Object, BelError>)
        ensures
            (final(self)@, result_view(r)) == mac_form(old(self)@, args@),
    {
        let (name, body) = define_closure(args)?;
        let mut parts: Vec<Object> = Vec::new();
        parts.push(symbol("lit"));
        parts.push(symbol("mac"));
        parts.push(body);
        let ghost pv = views(parts@);
        let mac_body = from_vec(parts)?;
        assert(pv =~= seq![sym("lit"@), sym("mac"@), closure_definition(args@)->Ok_0.1]);
        self.globals.insert(Object::Symbol(name.clone()), mac_body);
        self.macro_names.insert(name);
        Ok(nil_object())
    }
}

impl Default for Bel {
    fn default() -> (r: Bel)
        ensures
            r@ == initial_model(),
    {
        Bel::new()
    }
}

/// The quote operator returns its argument without evaluating it.
pub fn quote(args: &Object) -> (r: Result<Object, BelError>)
    ensures
        result_view(r) == quote_form(args@),
{
    match args {
        Object::Pair(p) => if p.1.is_nil() {
            Ok(p.0.duplicate())
        } else {
            Err(BelError::TypeMismatch)
        },
        _ => Err(BelError::TypeMismatch),
    }
}

/// The name and the closure literal that `(def name params body)` defines.
pub fn define_closure(list: &Object) -> (r: Result<(String, Object), BelError>)
    ensures
        match closure_definition(list@) {
            Ok(d) => r matches Ok(p) && p.0@ == d.0 && p.1@ == d.1,
            Err(e) => r == Err::<(String, Object), BelError>(e),
        },
{
    let args = list.to_vec()?;
    if args.len() != 3 {
        return Err(BelError::ArityMismatch);
    }
    let ghost s = list_items(list@)->Some_0;
    assert(s[0] == args@[0]@ && s[1] == args@[1]@ && s[2] == args@[2]@);
    match &args[0] {
        Object::Symbol(name) => {
            let mut parts: Vec<Object> = Vec::new();
            parts.push(symbol("lit"));
            parts.push(symbol("clo"));
            parts.push(nil_object());
            parts.push(args[1].duplicate());
            parts.push(args[2].duplicate());
            let ghost pv = views(parts@);
            let body = from_vec(parts)?;
            assert(pv =~= seq![sym("lit"@), sym("clo"@), nil(), s[1], s[2]]);
            Ok((name.clone(), body))
        },
        _ => Err(BelError::TypeMismatch),
    }
}

/// The locals of a call: each parameter bound to its argument, or to `nil`
/// where the arguments run out.
pub fn merge_args_with_params(args: &Object, params: &Object) -> (r: Result<ObjectMap, BelError>)
    ensures
        match r {
            Ok(l) => bind_params(params@, args@) == Ok::<Map<Datum, Datum>, BelError>(l@),
            Err(e) => bind_params(params@, args@) == Err::<Map<Datum, Datum>, BelError>(e),
        },
{
    let args_v = args.to_vec()?;
    let params_v = params.to_vec()?;
    let ghost a = views(args_v@);
    let ghost p = views(params_v@);
    if args_v.len() > params_v.len() {
        return Err(BelError::ArityMismatch);
    }
    let n = params_v.len();
    let mut i: usize = 0;
    while i < n
        invariant
            n == params_v@.len(),
            p == views(params_v@),
            a == views(args_v@),
            list_items(params@) == Some(p),
            list_items(args@) == Some(a),
            a.len() <= p.len(),
            i <= n,
            forall|j: int| 0 <= j < i ==> p[j] is Sym,
        decreases n - i,
    {
        if let Object::Symbol(_) = &params_v[i] {
        } else {
            assert(p[i as int] == params_v@[i as int]@);
            assert(!(p[i as int] is Sym));

            return Err(BelError::TypeMismatch);
        }
        i = i + 1;
    }
    let mut locals = ObjectMap::new();
    let mut k: usize = 0;
    while k < n
        invariant
            n == params_v@.len(),
            p == views(params_v@),
            a == views(args_v@),
            list_items(params@) == Some(p),
            list_items(args@) == Some(a),
            a.len() <= p.len(),
            forall|j: int| 0 <= j < p.len() ==> p[j] is Sym,
            k <= n,
            locals@ == param_map(p, a, k as nat),
        decreases n - k,
    {
        let key = params_v[k].duplicate();
        if k < args_v.len() {
            locals.insert(key, args_v[k].duplicate());
        } else {
            locals.insert(key, nil_object());
        }
        k = k + 1;
    }
    Ok(locals)
}

/// A symbol bound in the locals evaluates to its local binding, whatever the
/// globals bind it to: locals shadow globals.
pub proof fn lemma_locals_shadow_globals(
    st: BelModel,
    locals: Map<Datum, Datum>,
    name: Seq<char>,
    f: nat,
)
    requires
        locals.contains_key(sym(name)),
        st.globals.contains_key(sym(name)),
    ensures
        eval_in(st, locals, sym(name), f) == (st, Ok::<Datum, BelError>(locals[sym(name)])),
{
}

/// Characters and streams cannot be evaluated: evaluating one always fails
/// with `NotImplemented` and leaves the state as it was.
pub proof fn lemma_char_and_stream_not_evaluable(
    st: BelModel,
    locals: Map<Datum, Datum>,
    exp: Datum,
    f: nat,
)
    requires
        exp is Chr || exp is Stream,
    ensures
        eval_in(st, locals, exp, f) == (st, Err::<Datum, BelError>(BelError::NotImplemented)),
{
}

/// A function called with more arguments than it has parameters fails with
/// `ArityMismatch`, and the state is left as it was.
pub proof fn lemma_extra_arguments_rejected(
    st: BelModel,
    name: Seq<char>,
    params: Datum,
    body: Datum,
    args: Datum,
    p: Seq<Datum>,
    a: Seq<Datum>,
    g: nat,
)
    requires
        st.globals.contains_key(sym(name)),
        closure_parts(st.globals[sym(name)]) == Some((params, body)),
        list_items(params) == Some(p),
        list_items(args) == Some(a),
        a.len() > p.len(),
    ensures
        apply_function_in(st, name, args, g) == (st, Err::<Datum, BelError>(
            BelError::ArityMismatch,
        )),
{
}

/// Parameters past the last argument are bound to `nil`.
pub proof fn lemma_param_map_unmatched(p: Seq<Datum>, a: Seq<Datum>, n: nat)
    requires
        n <= p.len(),
    ensures
        forall|i: int|
            a.len() <= i < n ==> param_map(p, a, n).contains_key(#[trigger] p[i]) && param_map(
                p,
                a,
                n,
            )[p[i]] == nil(),
    decreases n,
{
    if n > 0 {
        lemma_param_map_unmatched(p, a, (n - 1) as nat);
    }
}

/// A function called with no more arguments than it has parameters runs its
/// body with locals in which each parameter past the last argument is bound
/// to `nil`.
pub proof fn lemma_missing_arguments_bound_to_nil(
    st: BelModel,
    name: Seq<char>,
    params: Datum,
    body: Datum,
    args: Datum,
    p: Seq<Datum>,
    a: Seq<Datum>,
    g: nat,
)
    requires
        st.globals.contains_key(sym(name)),
        closure_parts(st.globals[sym(name)]) == Some((params, body)),
        list_items(params) == Some(p),
        list_items(args) == Some(a),
        a.len() <= p.len(),
        forall|i: int| 0 <= i < p.len() ==> p[i] is Sym,
    ensures
        apply_function_in(st, name, args, g) == eval_in(st, param_map(p, a, p.len()), body, g),
        forall|i: int|
            a.len() <= i < p.len() ==> param_map(p, a, p.len()).contains_key(#[trigger] p[i])
                && param_map(p, a, p.len())[p[i]] == nil(),
{
    lemma_param_map_unmatched(p, a, p.len());
}

/// A closure literal reads back as the parameters and body it was built from.
pub proof fn lemma_closure_literal_round_trip(params: Datum, body: Datum)
    ensures
        closure_parts(closure_literal(params, body)) == Some((params, body)),
{
    lemma_list_round_trip(seq![sym("lit"@), sym("clo"@), nil(), params, body]);
}

/// After `(def name params body)`, calling `name` on a list of evaluated
/// arguments binds the parameters to them and evaluates the body.
pub proof fn lemma_defined_function_applies(
    st: BelModel,
    name: Seq<char>,
    params: Datum,
    body: Datum,
    args: Datum,
    g: nat,
)
    ensures
        ({
            let st1 = def_form(st, list_of(seq![sym(name), params, body])).0;
            &&& st1.functions.contains(name)
            &&& apply_function_in(st1, name, args, g) == match bind_params(params, args) {
                Ok(m) => eval_in(st1, m, body, g),
                Err(e) => (st1, Err(e)),
            }
        }),
{
    lemma_list_round_trip(seq![sym(name), params, body]);
    lemma_closure_literal_round_trip(params, body);
}

/// After `(set name value)`, the symbol `name` evaluates to `value` where no
/// local binds it.
pub proof fn lemma_set_then_lookup(
    st: BelModel,
    locals: Map<Datum, Datum>,
    name: Seq<char>,
    value: Datum,
    f: nat,
)
    requires
        !locals.contains_key(sym(name)),
    ensures
        ({
            let (st1, r) = set_form(st, list_of(seq![sym(name), value]));
            &&& r == Ok::<Datum, BelError>(nil())
            &&& eval_in(st1, locals, sym(name), f) == (st1, Ok::<Datum, BelError>(value))
        }),
{
    let s = seq![sym(name), value];
    lemma_list_round_trip(s);
    assert(s.subrange(2, 2) =~= Seq::<Datum>::empty());
    let g1 = st.globals.insert(sym(name), value);
    assert(bind_all(g1, s.subrange(2, 2)) == g1);
    assert(bind_all(st.globals, s) == g1);
    assert(keys_are_symbols(s));
}

} // verus!
