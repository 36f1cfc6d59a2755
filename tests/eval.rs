use smolbel::error::BelError;
use smolbel::eval::{dump_object_map, merge_args_with_params, new_object_map, quote, Bel};
use smolbel::object::{from_vec, Object};
use smolbel::parser;

fn sym(name: &str) -> Object {
    Object::Symbol(name.to_string())
}

fn nil() -> Object {
    sym("nil")
}

fn pair(a: Object, b: Object) -> Object {
    Object::Pair(Box::new((a, b)))
}

fn run(bel: &mut Bel, text: &str) -> Result<Object, BelError> {
    let exp = parser::parse(text)?;
    bel.eval(&new_object_map(), &exp)
}

#[test]
fn can_get_object() -> Result<(), BelError> {
    let mut bel = Bel::new();
    let exp = parser::parse("t")?;
    let obj = bel.eval(&new_object_map(), &exp)?;
    assert_eq!(exp, obj);
    Ok(())
}

#[test]
fn can_set_object() -> Result<(), BelError> {
    let mut bel = Bel::new();
    let exp = parser::parse("(set a b)")?;
    let obj = bel.eval(&new_object_map(), &exp)?;
    assert!(obj.is_nil());

    let exp = parser::parse("a")?;
    let obj = bel.eval(&new_object_map(), &exp)?;
    assert_eq!(obj, sym("b"));
    Ok(())
}

#[test]
fn can_set_multiple() -> Result<(), BelError> {
    let mut bel = Bel::new();

    let parse_obj = parser::parse("(set a b c d e f)")?;
    let obj = bel.eval(&new_object_map(), &parse_obj)?;
    assert!(obj.is_nil());

    for (key, val) in &[
        ("a", "b".to_string()),
        ("c", "d".to_string()),
        ("e", "f".to_string()),
    ] {
        let parse_obj = parser::parse(key)?;
        let obj = bel.eval(&new_object_map(), &parse_obj)?;
        if let Object::Symbol(s) = obj {
            assert_eq!(&s, val);
        } else {
            panic!("unexpected object {:?}", obj);
        }
    }

    Ok(())
}

#[test]
fn can_set_multiple_with_default() -> Result<(), BelError> {
    let mut bel = Bel::new();

    let parse_obj = parser::parse("(set a b c d e)")?;
    let obj = bel.eval(&new_object_map(), &parse_obj)?;
    assert!(obj.is_nil());

    for (key, val) in &[
        ("a", "b".to_string()),
        ("c", "d".to_string()),
        ("e", "nil".to_string()),
    ] {
        let parse_obj = parser::parse(key)?;
        let obj = bel.eval(&new_object_map(), &parse_obj)?;
        if let Object::Symbol(s) = obj {
            assert_eq!(&s, val);
        } else {
            panic!("unexpected object {:?}", obj);
        }
    }

    Ok(())
}

#[test]
fn can_quote_object() -> Result<(), BelError> {
    let mut bel = Bel::new();

    let parse_obj = parser::parse("(set a b)")?;
    let obj = bel.eval(&new_object_map(), &parse_obj)?;
    assert!(obj.is_nil());

    let parse_obj = parser::parse("(quote a)")?;
    let obj = bel.eval(&new_object_map(), &parse_obj)?;
    if let Object::Symbol(s) = obj {
        assert_eq!(s, "a");
    } else {
        panic!("unexpected object {:?}", obj);
    }

    let parse_obj = parser::parse("(quote ( x ))")?;
    let obj = bel.eval(&new_object_map(), &parse_obj)?;
    assert_eq!(obj, pair(sym("x"), nil()));

    Ok(())
}

#[test]
fn can_def_a_function() -> Result<(), BelError> {
    let mut bel = Bel::new();

    let parse_obj = parser::parse(
        r#"(def xnox (x)
                (id x nil))
          "#,
    )?;
    let obj = bel.eval(&new_object_map(), &parse_obj)?;
    assert!(obj.is_nil());

    let parse_obj = parser::parse("(xnox nil)")?;
    let obj = bel.eval(&new_object_map(), &parse_obj)?;
    assert!(obj.is_true());

    let parse_obj = parser::parse("(xnox `a)")?;
    let obj = bel.eval(&new_object_map(), &parse_obj)?;
    assert!(obj.is_nil(), "{:?}", obj);

    Ok(())
}

#[test]
fn can_evaluate_if() -> Result<(), BelError> {
    let mut bel = Bel::new();

    let parse_obj = parser::parse("(if t 'a 'b)")?;
    let obj = bel.eval(&new_object_map(), &parse_obj)?;
    assert!(obj.is_symbol("a"));

    let parse_obj = parser::parse("(if nil 'a 'b)")?;
    let obj = bel.eval(&new_object_map(), &parse_obj)?;
    assert!(obj.is_symbol("b"));

    let parse_obj = parser::parse("(if nil 'a)")?;
    let obj = bel.eval(&new_object_map(), &parse_obj)?;
    assert!(obj.is_nil());

    let parse_obj = parser::parse("(if nil 'a nil 'b 'c)")?;
    let obj = bel.eval(&new_object_map(), &parse_obj)?;
    assert!(obj.is_symbol("c"));

    let parse_obj = parser::parse("(if (id nil nil) 'a 'b)")?;
    let obj = bel.eval(&new_object_map(), &parse_obj)?;
    assert!(obj.is_symbol("a"));

    Ok(())
}

#[test]
fn can_recurse_function() -> Result<(), BelError> {
    let mut bel = Bel::new();

    let parse_obj = parser::parse(
        r#"(def rrr (xs)
                       (if nil      t
                           (cdr xs))
          "#,
    )?;
    let obj = bel.eval(&new_object_map(), &parse_obj)?;
    assert!(obj.is_nil());

    let parse_obj = parser::parse("(rrr nil)")?;
    let obj = bel.eval(&new_object_map(), &parse_obj)?;
    assert!(obj.is_nil());

    let parse_obj = parser::parse("(rrr ('a))")?;
    let obj = bel.eval(&new_object_map(), &parse_obj)?;
    assert!(obj.is_nil());

    let parse_obj = parser::parse("(rrr ('a 'b 'c))")?;
    let obj = bel.eval(&new_object_map(), &parse_obj)?;
    assert!(obj.is_nil());

    Ok(())
}

#[test]
fn can_merge_args_with_params() -> Result<(), BelError> {
    let args = from_vec(vec![sym("a")])?;
    let params = from_vec(vec![sym("x")])?;
    let locals = merge_args_with_params(&args, &params)?;
    assert!(locals.contains_key(&sym("x")));
    assert!(locals.get(&sym("x")) == Some(&sym("a")));

    let l1 = from_vec(vec![sym("a")])?;
    let args = from_vec(vec![sym("no"), l1])?;
    let params = from_vec(vec![sym("f"), sym("xs")])?;
    let locals = merge_args_with_params(&args, &params)?;
    assert!(locals.contains_key(&sym("f")));
    assert!(locals.get(&sym("f")) == Some(&sym("no")));
    assert!(locals.contains_key(&sym("xs")));
    assert!(locals.get(&sym("xs")) == Some(&pair(sym("a"), nil())));

    Ok(())
}

#[test]
fn locals_shadow_globals() -> Result<(), BelError> {
    let mut bel = Bel::new();
    run(&mut bel, "(set x g)")?;
    let mut locals = new_object_map();
    locals.insert(sym("x"), sym("l"));
    assert_eq!(bel.eval(&locals, &sym("x"))?, sym("l"));
    assert_eq!(bel.eval(&new_object_map(), &sym("x"))?, sym("g"));
    Ok(())
}

#[test]
fn self_evaluating_atoms() -> Result<(), BelError> {
    let mut bel = Bel::new();
    assert_eq!(run(&mut bel, "t")?, sym("t"));
    assert_eq!(run(&mut bel, "nil")?, nil());
    assert_eq!(run(&mut bel, "o")?, sym("o"));
    assert_eq!(run(&mut bel, "apply")?, sym("apply"));
    Ok(())
}

#[test]
fn unbound_symbol_is_an_error() {
    let mut bel = Bel::new();
    assert_eq!(run(&mut bel, "zzz"), Err(BelError::UnboundSymbol));
}

#[test]
fn set_needs_symbols_as_names() -> Result<(), BelError> {
    let mut bel = Bel::new();
    assert_eq!(run(&mut bel, "(set (a) b)"), Err(BelError::TypeMismatch));
    assert_eq!(run(&mut bel, "(set a b (c) d)"), Err(BelError::TypeMismatch));
    // nothing was bound by the failed set
    assert_eq!(run(&mut bel, "a"), Err(BelError::UnboundSymbol));
    Ok(())
}

#[test]
fn quote_needs_one_argument() {
    let mut bel = Bel::new();
    assert_eq!(run(&mut bel, "(quote a b)"), Err(BelError::TypeMismatch));
    assert_eq!(run(&mut bel, "(quote)"), Err(BelError::TypeMismatch));
}

#[test]
fn quote_function_direct() -> Result<(), BelError> {
    assert_eq!(quote(&parser::parse("(a)")?)?, sym("a"));
    assert_eq!(quote(&parser::parse("(a b)")?), Err(BelError::TypeMismatch));
    Ok(())
}

#[test]
fn type_names_the_variant() -> Result<(), BelError> {
    let mut bel = Bel::new();
    assert_eq!(run(&mut bel, "(type 'a)")?, sym("symbol"));
    assert_eq!(run(&mut bel, "(type '(a))")?, sym("pair"));
    assert_eq!(run(&mut bel, "(type 'a 'b)"), Err(BelError::ArityMismatch));
    Ok(())
}

#[test]
fn extra_arguments_are_rejected() -> Result<(), BelError> {
    let mut bel = Bel::new();
    run(&mut bel, "(def one (x) x)")?;
    assert_eq!(run(&mut bel, "(one 'a 'b)"), Err(BelError::ArityMismatch));
    Ok(())
}

#[test]
fn missing_arguments_bind_to_nil() -> Result<(), BelError> {
    let mut bel = Bel::new();
    run(&mut bel, "(def second (x y) y)")?;
    assert_eq!(run(&mut bel, "(second 'a)")?, nil());
    assert_eq!(run(&mut bel, "(second 'a 'b)")?, sym("b"));
    Ok(())
}

#[test]
fn characters_and_streams_are_not_evaluated() {
    let mut bel = Bel::new();
    let c = Object::Char("a".to_string());
    assert_eq!(bel.eval(&new_object_map(), &c), Err(BelError::NotImplemented));
    assert_eq!(
        bel.eval(&new_object_map(), &Object::Stream),
        Err(BelError::NotImplemented)
    );
}

#[test]
fn macros_cannot_be_applied() -> Result<(), BelError> {
    let mut bel = Bel::new();
    assert!(run(&mut bel, "(mac m (x) x)")?.is_nil());
    assert!(bel.macro_names.contains("m"));
    assert_eq!(run(&mut bel, "(m 'a)"), Err(BelError::NotImplemented));
    assert_eq!(
        run(&mut bel, "m")?,
        parser::parse("(lit mac (lit clo nil (x) x))")?
    );
    Ok(())
}

#[test]
fn def_binds_closure_literal() -> Result<(), BelError> {
    let mut bel = Bel::new();
    run(&mut bel, "(def f (x) x)")?;
    assert!(bel.function_names.contains("f"));
    assert_eq!(run(&mut bel, "f")?, parser::parse("(lit clo nil (x) x)")?);
    assert_eq!(run(&mut bel, "(def f (x))"), Err(BelError::ArityMismatch));
    assert_eq!(run(&mut bel, "(def (f) (x) x)"), Err(BelError::TypeMismatch));
    Ok(())
}

#[test]
fn rebound_function_is_malformed() -> Result<(), BelError> {
    let mut bel = Bel::new();
    run(&mut bel, "(def f (x) x)")?;
    run(&mut bel, "(set f g)")?;
    assert_eq!(run(&mut bel, "(f 'a)"), Err(BelError::MalformedFunction));
    Ok(())
}

#[test]
fn data_lists_evaluate_each_element_in_order() -> Result<(), BelError> {
    let mut bel = Bel::new();
    assert_eq!(run(&mut bel, "(t nil 'a)")?, parser::parse("(t nil a)")?);
    assert_eq!(run(&mut bel, "('a 'b 'c)")?, parser::parse("(a b c)")?);
    Ok(())
}

#[test]
fn deep_recursion_hits_the_limit() -> Result<(), BelError> {
    let mut bel = Bel::new();
    run(&mut bel, "(def loop (x) (loop x))")?;
    assert_eq!(
        run(&mut bel, "(loop 'a)"),
        Err(BelError::RecursionLimitExceeded)
    );
    Ok(())
}

#[test]
fn dump_lists_bindings() {
    let mut m = new_object_map();
    m.insert(sym("a"), sym("b"));
    assert_eq!(dump_object_map(&m), " a => b; ");
    m.insert(sym("a"), sym("c"));
    assert_eq!(dump_object_map(&m), " a => c; ");
    assert_eq!(m.len(), 1);
}

#[test]
fn unknown_function_name_is_an_error() -> Result<(), BelError> {
    let mut bel = Bel::new();
    bel.function_names.insert("ghost".to_string());
    assert_eq!(run(&mut bel, "(ghost 'a)"), Err(BelError::UnknownFunction));
    Ok(())
}

#[test]
fn default_interpreter_matches_new() -> Result<(), BelError> {
    let mut bel = Bel::default();
    assert_eq!(run(&mut bel, "t")?, sym("t"));
    assert_eq!(bel.globals.len(), 4);
    Ok(())
}
