use smolbel::error::BelError;
use smolbel::eval::Bel;
use smolbel::loader::split_blocks;
use smolbel::object::Object;
use smolbel::parser;

fn lines(text: &[&str]) -> Vec<String> {
    text.iter().map(|l| l.to_string()).collect()
}

#[test]
fn blocks_end_at_empty_lines() {
    let src = lines(&[
        "; a comment",
        "(def no (x)",
        "  (id x nil))",
        "",
        "",
        "(set a b)",
        "",
        "(set c d)",
    ]);
    let blocks = split_blocks(&src);
    assert_eq!(
        blocks,
        vec!["(def no (x)\n  (id x nil))\n".to_string(), "(set a b)\n".to_string()]
    );
}

#[test]
fn byte_order_mark_line_is_passed_over() {
    let src = lines(&["\u{feff}header", "(set a b)", ""]);
    assert_eq!(split_blocks(&src), vec!["(set a b)\n".to_string()]);
}

#[test]
fn load_lines_evaluates_blocks() -> Result<(), BelError> {
    let mut bel = Bel::new();
    let src = lines(&["(def no (x)", "  (id x nil))", "", "(set a b)", ""]);
    let n = bel.load_lines(&src, None).map_err(|e| e.error)?;
    assert_eq!(n, 2);
    let exp = parser::parse("(no nil)")?;
    assert!(bel.eval(&smolbel::eval::new_object_map(), &exp)?.is_true());
    let exp = parser::parse("a")?;
    assert_eq!(
        bel.eval(&smolbel::eval::new_object_map(), &exp)?,
        Object::Symbol("b".to_string())
    );
    Ok(())
}

#[test]
fn load_stops_at_limit() -> Result<(), BelError> {
    let mut bel = Bel::new();
    let src = lines(&["(set a b)", "", "(set c d)", ""]);
    let n = bel.load_lines(&src, Some(1)).map_err(|e| e.error)?;
    assert_eq!(n, 1);
    let exp = parser::parse("c")?;
    assert_eq!(
        bel.eval(&smolbel::eval::new_object_map(), &exp),
        Err(BelError::UnboundSymbol)
    );
    Ok(())
}

#[test]
fn load_reports_failing_block() {
    let mut bel = Bel::new();
    let src = lines(&["(set a b)", "", "zzz", ""]);
    let err = bel.load_lines(&src, None).unwrap_err();
    assert_eq!(err.block, "zzz\n");
    assert_eq!(err.error, BelError::UnboundSymbol);
}
