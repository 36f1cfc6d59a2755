use smolbel::error::BelError;
use smolbel::list::{format_list, List};
use smolbel::object::Object;

fn sym(name: &str) -> Object {
    Object::Symbol(name.to_string())
}

fn pair(a: Object, b: Object) -> Object {
    Object::Pair(Box::new((a, b)))
}

#[test]
fn list_cursor_steps_through_elements() {
    let l = pair(sym("a"), pair(sym("b"), sym("nil")));
    let mut cursor = List::new(&l);
    assert_eq!(cursor.step(), Ok(Some(sym("a"))));
    assert_eq!(cursor.step(), Ok(Some(sym("b"))));
    assert_eq!(cursor.step(), Ok(None));
    assert_eq!(cursor.step(), Ok(None));
}

#[test]
fn list_cursor_fails_on_improper_tail() {
    let l = pair(sym("a"), sym("b"));
    let mut cursor = List::new(&l);
    assert_eq!(cursor.step(), Ok(Some(sym("a"))));
    assert_eq!(cursor.step(), Err(BelError::MalformedList));
}

#[test]
fn format_nested_list() {
    let inner = pair(sym("c"), sym("nil"));
    let l = pair(sym("a"), pair(sym("b"), pair(inner, sym("nil"))));
    assert_eq!(format_list(&l), Ok("( a b ( c ) )".to_string()));
    assert_eq!(format_list(&sym("nil")), Ok("( )".to_string()));
    assert_eq!(format_list(&sym("a")), Err(BelError::MalformedList));
}
