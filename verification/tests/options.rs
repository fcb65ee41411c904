use static_templater::options::{
    module_items, ConstExpr, ItemNode, ModuleItem, OptionsScanner, ScanStep, Span, _str_literal_value,
};

fn span(lo: u32, hi: u32) -> Span {
    Span { lo, hi }
}

fn item(name: &str, node: ItemNode, sp: Span) -> ModuleItem {
    ModuleItem { ident: name.to_string(), node, span: sp }
}

fn str_const(value: &str, sp: Span) -> ItemNode {
    ItemNode::Const(ConstExpr::StrLit { value: value.to_string(), span: sp })
}

fn alias(params: &[&str]) -> ItemNode {
    ItemNode::Ty { type_params: params.iter().map(|p| p.to_string()).collect() }
}

#[test]
fn source_const_and_aliases_are_read() {
    let sp = span(0, 100);
    let mut scan = OptionsScanner::new();
    assert!(matches!(scan.scan_item(sp, &item("ObjType", alias(&["X"]), span(1, 2))), ScanStep::Continue));
    assert!(matches!(
        scan.scan_item(sp, &item("SOURCE", str_const("Text {{ value }} text", span(3, 4)), span(3, 9))),
        ScanStep::Continue
    ));
    assert!(matches!(scan.scan_item(sp, &item("OTHER", str_const("x", span(5, 6)), span(5, 9))), ScanStep::Continue));
    assert!(matches!(scan.scan_item(sp, &item("ObjType", alias(&["Y", "Z"]), span(7, 8))), ScanStep::Continue));
    assert!(matches!(scan.scan_item(sp, &item("helper", ItemNode::Other, span(9, 10))), ScanStep::Continue));
    let options = scan.finish(sp).ok().unwrap();
    assert_eq!(options.source, "Text {{ value }} text");
    assert_eq!(options.defined_types.len(), 1);
    assert_eq!(options.defined_types[0].name, "ObjType");
    assert_eq!(options.defined_types[0].type_params, vec!["Y".to_string(), "Z".to_string()]);
}

#[test]
fn source_file_asks_for_a_read() {
    let sp = span(0, 100);
    let mut scan = OptionsScanner::new();
    match scan.scan_item(sp, &item("SOURCE_FILE", str_const("data/test.rs.html", span(3, 4)), span(3, 9))) {
        ScanStep::ReadFile(path) => assert_eq!(path, "data/test.rs.html"),
        other => panic!("unexpected {:?}", other),
    }
    scan.source_read("read text".to_string());
    let options = scan.finish(sp).ok().unwrap();
    assert_eq!(options.source, "read text");
}

#[test]
fn second_source_is_refused() {
    let sp = span(0, 100);
    let mut scan = OptionsScanner::new();
    assert!(matches!(scan.scan_item(sp, &item("SOURCE", str_const("a", span(3, 4)), span(3, 9))), ScanStep::Continue));
    match scan.scan_item(sp, &item("SOURCE_FILE", str_const("b", span(5, 6)), span(5, 9))) {
        ScanStep::Fail(s, msg) => {
            assert_eq!((s.lo, s.hi), (0, 100));
            assert_eq!(msg, "Template source already specified.");
        },
        other => panic!("unexpected {:?}", other),
    }
}

#[test]
fn source_must_be_a_const() {
    let sp = span(0, 100);
    let mut scan = OptionsScanner::new();
    match scan.scan_item(sp, &item("SOURCE", ItemNode::Other, span(3, 9))) {
        ScanStep::Fail(s, msg) => {
            assert_eq!((s.lo, s.hi), (3, 9));
            assert_eq!(msg, "Expected const &'static str");
        },
        other => panic!("unexpected {:?}", other),
    }
}

#[test]
fn source_must_be_a_string_literal() {
    let sp = span(0, 100);
    let mut scan = OptionsScanner::new();
    let lit = ItemNode::Const(ConstExpr::OtherLit { span: span(4, 5) });
    match scan.scan_item(sp, &item("SOURCE", lit, span(3, 9))) {
        ScanStep::Fail(s, msg) => {
            assert_eq!((s.lo, s.hi), (4, 5));
            assert_eq!(msg, "Expected &'static str");
        },
        other => panic!("unexpected {:?}", other),
    }
    let mut scan2 = OptionsScanner::new();
    let expr = ItemNode::Const(ConstExpr::NotLiteral);
    match scan2.scan_item(sp, &item("SOURCE_FILE", expr, span(3, 9))) {
        ScanStep::Fail(s, msg) => {
            assert_eq!((s.lo, s.hi), (0, 100));
            assert_eq!(msg, "Expected &'static str");
        },
        other => panic!("unexpected {:?}", other),
    }
}

#[test]
fn missing_source_is_an_error() {
    let sp = span(0, 100);
    let mut scan = OptionsScanner::new();
    assert!(matches!(scan.scan_item(sp, &item("T", alias(&[]), span(1, 2))), ScanStep::Continue));
    match scan.finish(sp) {
        Ok(_) => panic!("no source was given"),
        Err((s, msg)) => {
            assert_eq!((s.lo, s.hi), (0, 100));
            assert_eq!(msg, "Define constant SOURCE or SOURCE_FILE");
        },
    }
}

#[test]
fn str_literal_value_cases() {
    let sp = span(0, 1);
    let ok = ConstExpr::StrLit { value: "v".to_string(), span: span(2, 3) };
    assert_eq!(_str_literal_value(&ok, sp).ok().unwrap(), "v");
    let bad = ConstExpr::OtherLit { span: span(2, 3) };
    let (s, msg) = _str_literal_value(&bad, sp).err().unwrap();
    assert_eq!((s.lo, s.hi, msg), (2, 3, "Expected &'static str"));
}

#[test]
fn templater_applies_to_modules_only() {
    let sp = span(4, 8);
    let items = vec![item("SOURCE", str_const("x", span(1, 2)), span(1, 3))];
    assert_eq!(module_items(sp, Some(&items)).ok().unwrap().len(), 1);
    let (s, msg) = module_items(sp, None).err().unwrap();
    assert_eq!((s.lo, s.hi), (4, 8));
    assert_eq!(msg, "Expected module declaration after decorator.");
}
