use static_templater::ast_generator::{make, make_template_variables, shows_only_variables};
use static_templater::options::{DefinedType, Span};
use static_templater::template_ast::{RustExpr, RustExprValue, TemplateAST, TemplateExpr};

fn text(s: &str) -> TemplateExpr {
    TemplateExpr::Text(s.to_string())
}

fn show(e: RustExpr) -> TemplateExpr {
    TemplateExpr::Show(Box::new(e))
}

fn ident(name: &str) -> RustExpr {
    RustExpr::Value(RustExprValue::Ident(name.to_string()))
}

fn attr(inner: RustExpr, name: &str) -> RustExpr {
    RustExpr::GetAttribute(Box::new(inner), name.to_string())
}

fn sp() -> Span {
    Span { lo: 10, hi: 20 }
}

#[test]
fn syntax_error_is_reported_at_the_module() {
    match make(sp(), Err("unexpected end".to_string()), &Vec::new()) {
        Ok(_) => panic!("a syntax error gives no items"),
        Err((s, msg)) => {
            assert_eq!((s.lo, s.hi), (10, 20));
            assert_eq!(msg, "Syntax error: unexpected end");
        },
    }
}

#[test]
fn one_variable_shown_between_texts() {
    let tree = TemplateAST { children: vec![text("Text "), show(ident("value")), text(" text")] };
    let items = make(sp(), Ok(tree), &Vec::new()).ok().unwrap();
    assert_eq!(items.struct_name, "Context");
    assert_eq!(items.method_name, "render");
    assert_eq!(
        format!("{:?}", items.context_generics),
        r#"[GenericParam { name: "ValueType", bound: ToString }]"#
    );
    assert_eq!(
        format!("{:?}", items.context_fields),
        r#"[ContextField { name: "value", ty: Param("ValueType") }]"#
    );
    assert_eq!(
        format!("{:?}", items.render_statements),
        r#"[PushText("Text "), PushShow(Field(Ident("self"), "value")), PushText(" text")]"#
    );
}

#[test]
fn attributes_of_an_aliased_variable() {
    let tree = TemplateAST {
        children: vec![
            show(attr(ident("obj"), "foo")),
            text(" --- "),
            show(attr(attr(ident("obj"), "bar"), "baz")),
            text(" --- "),
            show(attr(attr(attr(ident("obj"), "bar"), "herp"), "derp")),
        ],
    };
    let defined = vec![DefinedType {
        name: "ObjType".to_string(),
        type_params: vec!["X".to_string(), "Y".to_string(), "Z".to_string()],
    }];
    let items = make(sp(), Ok(tree), &defined).ok().unwrap();
    assert_eq!(items.struct_name, "Context");
    assert_eq!(items.method_name, "render");
    assert_eq!(
        format!("{:?}", items.context_generics),
        concat_strs(&[
            r#"[GenericParam { name: "ObjTypeXTrait", bound: AliasParam("ObjType", "X") }, "#,
            r#"GenericParam { name: "ObjTypeYTrait", bound: AliasParam("ObjType", "Y") }, "#,
            r#"GenericParam { name: "ObjTypeZTrait", bound: AliasParam("ObjType", "Z") }]"#,
        ])
    );
    assert_eq!(
        format!("{:?}", items.context_fields),
        r#"[ContextField { name: "obj", ty: AliasPath("ObjType", ["ObjTypeXTrait", "ObjTypeYTrait", "ObjTypeZTrait"]) }]"#
    );
    assert_eq!(
        format!("{:?}", items.render_statements),
        concat_strs(&[
            r#"[PushShow(Field(Field(Ident("self"), "obj"), "foo")), PushText(" --- "), "#,
            r#"PushShow(Field(Field(Field(Ident("self"), "obj"), "bar"), "baz")), PushText(" --- "), "#,
            r#"PushShow(Field(Field(Field(Field(Ident("self"), "obj"), "bar"), "herp"), "derp"))]"#,
        ])
    );
}

fn concat_strs(parts: &[&str]) -> String {
    parts.concat()
}

#[test]
fn variables_in_order_of_first_use() {
    let children = vec![
        show(ident("user_name")),
        show(attr(ident("time"), "hour")),
        text("x"),
        show(ident("user_name")),
    ];
    let defined = vec![DefinedType { name: "TimeType".to_string(), type_params: vec![] }];
    let vars = make_template_variables(&children, &defined);
    assert_eq!(
        format!("{:?}", vars),
        concat_strs(&[
            r#"[TemplateVariable { name: "user_name", type_: Traits([["std", "string", "ToString"]]) }, "#,
            r#"TemplateVariable { name: "time", type_: Type(DefinedType { name: "TimeType", type_params: [] }) }]"#,
        ])
    );
}

#[test]
fn only_variable_chains_can_be_shown() {
    let good = TemplateAST { children: vec![text("a"), show(attr(ident("x"), "y"))] };
    assert!(shows_only_variables(&good));
    let literal = TemplateAST { children: vec![show(RustExpr::Value(RustExprValue::IntLiteral(3)))] };
    assert!(!shows_only_variables(&literal));
    let item = TemplateAST {
        children: vec![show(RustExpr::GetItem(Box::new(ident("m")), RustExprValue::IntLiteral(1)))],
    };
    assert!(!shows_only_variables(&item));
}
