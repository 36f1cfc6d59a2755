use smolbel::error::BelError;
use smolbel::parser;
use smolbel::primatives::{car, cdr, id, load_primatives, Primitive};

#[test]
fn can_check_id() -> Result<(), BelError> {
    let params = parser::parse("(a a)")?;
    let ans = id(&params)?;
    assert!(ans.is_true());

    let params = parser::parse("(a b)")?;
    let ans = id(&params)?;
    assert!(!ans.is_true());

    Ok(())
}

#[test]
fn id_needs_two_arguments() -> Result<(), BelError> {
    assert_eq!(id(&parser::parse("(a)")?), Err(BelError::ArityMismatch));
    assert_eq!(id(&parser::parse("(a a a)")?), Err(BelError::ArityMismatch));
    Ok(())
}

#[test]
fn id_of_pairs_is_nil() -> Result<(), BelError> {
    assert!(id(&parser::parse("((a) (a))")?)?.is_nil());
    Ok(())
}

#[test]
fn car_and_cdr_of_argument_list() -> Result<(), BelError> {
    let args = parser::parse("(a b c)")?;
    assert!(car(&args)?.is_symbol("a"));
    assert_eq!(cdr(&args)?, parser::parse("(b c)")?);
    assert_eq!(car(&parser::parse("()")?), Err(BelError::TypeMismatch));
    Ok(())
}

#[test]
fn registry_holds_builtins() {
    let prims = load_primatives();
    assert_eq!(prims.lookup("id"), Some(Primitive::Id));
    assert_eq!(prims.lookup("car"), Some(Primitive::Car));
    assert_eq!(prims.lookup("cdr"), Some(Primitive::Cdr));
    assert_eq!(prims.lookup("cons"), None);
    assert_eq!(prims.names().len(), 3);
}
