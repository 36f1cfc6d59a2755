use smolbel::error::BelError;
use smolbel::object::Object;
use smolbel::parser::{
    consume_char, consume_parens, consume_quote, consume_symbol, consume_whitespace,
    dispatch_char, parse,
};

fn sym(name: &str) -> Object {
    Object::Symbol(name.to_string())
}

fn nil() -> Object {
    sym("nil")
}

fn pair(a: Object, b: Object) -> Object {
    Object::Pair(Box::new((a, b)))
}

#[test]
fn can_consume_symbol() -> Result<(), BelError> {
    let parse_state = consume_symbol("")?;
    assert!(parse_state.remainder.is_empty());
    assert!(parse_state.obj.is_none());

    let parse_state = consume_symbol("a")?;
    assert!(parse_state.remainder.is_empty());
    assert!(parse_state.obj.unwrap().is_symbol("a"));

    let parse_state = consume_whitespace("(")?;
    assert_eq!(parse_state.remainder, "(");
    assert!(parse_state.obj.is_none());

    Ok(())
}

#[test]
fn can_consume_whitespacel() -> Result<(), BelError> {
    let parse_state = consume_whitespace("")?;
    assert!(parse_state.remainder.is_empty());
    assert!(parse_state.obj.is_none());

    let parse_state = consume_whitespace("a")?;
    assert_eq!(parse_state.remainder, "a");
    assert!(parse_state.obj.is_none());

    let parse_state = consume_whitespace("    (")?;
    assert_eq!(parse_state.remainder, "(");
    assert!(parse_state.obj.is_none());

    Ok(())
}

#[test]
fn can_consume_parens() -> Result<(), BelError> {
    let parse_state = consume_parens("()")?;
    assert!(parse_state.remainder.is_empty());
    assert!(parse_state.obj.unwrap().is_nil());

    let parse_state = consume_parens("( a )")?;
    assert!(
        parse_state.remainder.is_empty(),
        "remainder.is_empty() {:?}",
        parse_state.remainder
    );
    assert_eq!(parse_state.obj.unwrap().to_vec()?, vec![sym("a")]);

    let parse_state = consume_parens("( a b )")?;
    assert!(
        parse_state.remainder.is_empty(),
        "remainder.is_empty() {:?}",
        parse_state.remainder
    );
    assert_eq!(parse_state.obj.unwrap().to_vec()?, vec![sym("a"), sym("b")]);

    let parse_state = consume_parens("( a b (c d))")?;
    assert!(
        parse_state.remainder.is_empty(),
        "remainder.is_empty() {:?}",
        parse_state.remainder
    );
    assert_eq!(
        parse_state.obj.unwrap().to_vec()?,
        vec![sym("a"), sym("b"), pair(sym("c"), pair(sym("d"), nil()))]
    );

    let parse_state = consume_parens("( a nil )")?;
    assert!(
        parse_state.remainder.is_empty(),
        "remainder.is_empty() {:?}",
        parse_state.remainder
    );
    assert_eq!(parse_state.obj.unwrap(), pair(sym("a"), pair(nil(), nil())));

    Ok(())
}

#[test]
fn can_consume_quote() -> Result<(), BelError> {
    let parse_state = consume_quote("`a")?;
    assert!(parse_state.remainder.is_empty());
    assert_eq!(
        parse_state.obj.unwrap().to_vec()?,
        vec![sym("quote"), sym("a")]
    );

    let parse_state = consume_quote("`(a)")?;
    assert!(parse_state.remainder.is_empty());
    assert_eq!(
        parse_state.obj.unwrap().to_vec()?,
        vec![sym("quote"), pair(sym("a"), nil())]
    );

    Ok(())
}

#[test]
fn can_parse_list_of_nil() -> Result<(), BelError> {
    let obj = parse("()")?;
    assert!(obj.is_nil(), "obj.is_nil() {:?}", obj);

    let obj = parse("(nil)")?;
    assert_eq!(obj, pair(nil(), nil()));

    Ok(())
}

#[test]
fn parse_empty_text_is_nil() -> Result<(), BelError> {
    assert!(parse("")?.is_nil());
    assert!(parse("  \n\t ")?.is_nil());
    Ok(())
}

#[test]
fn parse_rejects_two_forms() {
    assert_eq!(parse("a b"), Err(BelError::ParseError));
    assert_eq!(parse("(a) (b)"), Err(BelError::ParseError));
}

#[test]
fn apostrophe_quotes() -> Result<(), BelError> {
    assert_eq!(parse("'a")?, pair(sym("quote"), pair(sym("a"), nil())));
    assert!(matches!(consume_quote("'"), Err(BelError::ParseError)));
    assert!(matches!(consume_quote("a"), Err(BelError::ParseError)));
    Ok(())
}

#[test]
fn parse_leaves_remainder_after_symbol() -> Result<(), BelError> {
    let state = consume_symbol("abc def")?;
    assert_eq!(state.remainder, " def");
    assert_eq!(state.obj, Some(sym("abc")));
    let state = dispatch_char("  x)")?;
    assert_eq!(state.remainder, ")");
    assert_eq!(state.obj, Some(sym("x")));
    Ok(())
}

#[test]
fn backslash_reads_a_character() -> Result<(), BelError> {
    let state = consume_char("\\a b")?;
    assert_eq!(state.obj, Some(Object::Char("a".to_string())));
    assert_eq!(state.remainder, " b");
    assert_eq!(parse("\\x")?, Object::Char("x".to_string()));
    Ok(())
}

#[test]
fn unclosed_list_ends_with_text() -> Result<(), BelError> {
    assert_eq!(parse("(a (b)")?, parse("(a (b))")?);
    Ok(())
}

#[test]
fn unicode_whitespace_separates() -> Result<(), BelError> {
    let state = consume_whitespace("\u{3000}\u{85}\t a")?;
    assert_eq!(state.remainder, "a");
    assert_eq!(parse("(a\u{2003}b)")?, parse("(a b)")?);
    Ok(())
}
