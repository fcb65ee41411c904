use static_templater::template_ast::{RustExpr, RustExprError, RustExprValue};
use static_templater::translate::Expr;

fn ident(name: &str) -> RustExpr {
    RustExpr::Value(RustExprValue::Ident(name.to_string()))
}

fn attr(inner: RustExpr, name: &str) -> RustExpr {
    RustExpr::GetAttribute(Box::new(inner), name.to_string())
}

#[test]
fn concat_prefixes_an_identifier() {
    let base = ident("a");
    let r = base.concat_as_get_attribute(Box::new(ident("b"))).ok().unwrap();
    assert_eq!(format!("{:?}", r), r#"GetAttribute(Value(Ident("a")), "b")"#);
}

#[test]
fn concat_prefixes_the_root_of_a_chain() {
    let base = attr(ident("a"), "x");
    let r = base
        .concat_as_get_attribute(Box::new(attr(attr(ident("b"), "c"), "d")))
        .ok()
        .unwrap();
    assert_eq!(
        format!("{:?}", r),
        r#"GetAttribute(GetAttribute(GetAttribute(GetAttribute(Value(Ident("a")), "x"), "b"), "c"), "d")"#
    );
}

#[test]
fn concat_refuses_a_literal() {
    let base = ident("a");
    let lit = RustExpr::Value(RustExprValue::IntLiteral(3));
    match base.concat_as_get_attribute(Box::new(lit)) {
        Ok(_) => panic!("a literal is no attribute"),
        Err(e) => assert_eq!(e.description(), "lolwut"),
    }
    let item = RustExpr::GetItem(Box::new(ident("m")), RustExprValue::IntLiteral(1));
    assert!(base.concat_as_get_attribute(Box::new(attr(item, "f"))).is_err());
}

#[test]
fn error_keeps_its_message() {
    let e = RustExprError::new("bad template".to_string());
    assert_eq!(e.description(), "bad template");
}

#[test]
fn duplicate_is_equal() {
    let e = RustExpr::GetItem(Box::new(attr(ident("a"), "b")), RustExprValue::FloatLiteral("2.72".to_string()));
    assert_eq!(format!("{:?}", e.duplicate()), format!("{:?}", e));
}

#[test]
fn translate_pieces_are_text_or_code() {
    let pieces = vec![Expr::ExprText("a".to_string()), Expr::ExprRustCode("x + 1".to_string())];
    let copy = pieces.clone();
    assert_eq!(format!("{:?}", copy), r#"[ExprText("a"), ExprRustCode("x + 1")]"#);
}

#[test]
fn concat_is_associative() {
    let a = ident("a");
    let b = attr(ident("b"), "c");
    let c = attr(ident("d"), "e");
    let bc = b.concat_as_get_attribute(Box::new(attr(ident("d"), "e"))).ok().unwrap();
    let left = a.concat_as_get_attribute(bc).ok().unwrap();
    let ab = a.concat_as_get_attribute(Box::new(attr(ident("b"), "c"))).ok().unwrap();
    let right = ab.concat_as_get_attribute(Box::new(c)).ok().unwrap();
    assert_eq!(format!("{:?}", left), format!("{:?}", right));
    assert_eq!(
        format!("{:?}", left),
        r#"GetAttribute(GetAttribute(GetAttribute(GetAttribute(Value(Ident("a")), "b"), "c"), "d"), "e")"#
    );
}
