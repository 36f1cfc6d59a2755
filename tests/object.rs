use smolbel::error::BelError;
use smolbel::object::{from_vec, join, Object};

fn sym(name: &str) -> Object {
    Object::Symbol(name.to_string())
}

fn nil() -> Object {
    sym("nil")
}

fn pair(a: Object, b: Object) -> Object {
    Object::Pair(Box::new((a, b)))
}

#[test]
fn can_join_list() -> Result<(), BelError> {
    // (join nil nil)
    let list = join(nil(), nil())?;
    assert!(list.is_pair(nil(), nil()));
    let v = list.to_vec()?;
    assert_eq!(v, vec![nil()]);

    // (join a nil)
    let list = join(sym("a"), nil())?;
    assert!(list.is_pair(sym("a"), nil()));
    let v = list.to_vec()?;
    assert_eq!(v, vec![sym("a")]);

    // (join b (a))
    let list = join(sym("b"), list)?;
    assert!(list.is_pair(sym("b"), pair(sym("a"), nil())));
    let v = list.to_vec()?;
    assert_eq!(v, vec![sym("b"), sym("a")]);

    Ok(())
}

#[test]
fn can_build_list_from_vec() -> Result<(), BelError> {
    let o = from_vec(vec![])?;
    assert!(o.is_nil());
    assert_eq!(o.to_vec()?, vec![]);

    let o = from_vec(vec![nil()])?;
    assert_eq!(o, pair(nil(), nil()));
    assert_eq!(o.to_vec()?, vec![nil()]);

    let o = from_vec(vec![nil(), nil()])?;
    assert_eq!(o, pair(nil(), pair(nil(), nil())));
    assert_eq!(o.to_vec()?, vec![nil(), nil()]);

    Ok(())
}

#[test]
fn join_onto_non_list_is_malformed() {
    assert_eq!(join(sym("a"), sym("b")), Err(BelError::MalformedList));
    assert_eq!(join(sym("a"), Object::Stream), Err(BelError::MalformedList));
}

#[test]
fn to_vec_of_improper_list_is_malformed() {
    let improper = pair(sym("a"), sym("b"));
    assert_eq!(improper.to_vec(), Err(BelError::MalformedList));
    assert_eq!(sym("a").to_vec(), Err(BelError::MalformedList));
}

#[test]
fn vector_list_round_trip() -> Result<(), BelError> {
    let v = vec![
        sym("a"),
        pair(sym("b"), nil()),
        Object::Char("c".to_string()),
        Object::Stream,
        nil(),
    ];
    let list = from_vec(v)?;
    let back = list.to_vec()?;
    assert_eq!(
        back,
        vec![
            sym("a"),
            pair(sym("b"), nil()),
            Object::Char("c".to_string()),
            Object::Stream,
            nil(),
        ]
    );
    Ok(())
}

#[test]
fn extract_pair_gives_both_sides() {
    let p = pair(sym("a"), sym("b"));
    assert_eq!(p.extract_pair(), Ok((sym("a"), sym("b"))));
    assert_eq!(sym("a").extract_pair(), Err(BelError::TypeMismatch));
}

#[test]
fn variant_names() {
    assert_eq!(sym("a").t(), "symbol");
    assert_eq!(pair(sym("a"), nil()).t(), "pair");
    assert_eq!(Object::Char("x".to_string()).t(), "char");
    assert_eq!(Object::Stream.t(), "stream");
}

#[test]
fn truth_and_nil() {
    assert!(nil().is_nil());
    assert!(!nil().is_true());
    assert!(sym("t").is_true());
    assert!(pair(nil(), nil()).is_true());
    assert!(sym("a").is_symbol("a"));
    assert!(!sym("a").is_symbol("b"));
}

#[test]
fn render_pairs_and_atoms() {
    assert_eq!(pair(sym("a"), nil()).render(), "(a . nil)");
    assert_eq!(Object::Char("x".to_string()).render(), "c(x)");
    assert_eq!(Object::Stream.render(), "stream");
}

#[test]
fn structural_equality() {
    assert_eq!(pair(sym("a"), sym("b")), pair(sym("a"), sym("b")));
    assert_ne!(pair(sym("a"), sym("b")), pair(sym("b"), sym("a")));
    assert_ne!(sym("a"), Object::Char("a".to_string()));
    assert_eq!(pair(sym("a"), sym("b")).duplicate(), pair(sym("a"), sym("b")));
}
