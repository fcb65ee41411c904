use static_templater::generator::{
    generate_template_code, VariableTemplate, VariableTemplateExpr, _hash_map_add_flag, TRAIT_EQ,
    TRAIT_SHOW,
};

#[test]
fn generated_code_for_a_template() {
    let template = VariableTemplate {
        children: vec![
            VariableTemplateExpr::Text("Hello ".to_string()),
            VariableTemplateExpr::ShowVariable("user_name".to_string(), None),
            VariableTemplateExpr::Text("! ".to_string()),
            VariableTemplateExpr::ShowVariable("count".to_string(), Some(":>3".to_string())),
            VariableTemplateExpr::ShowVariable("user_name".to_string(), None),
        ],
    };
    let code = generate_template_code("example", &template);
    let expected = [
        "struct TemplateArgsExample\n<",
        "\n    TypeUserName: Show,",
        "\n    TypeCount: Show,",
        "\n> {",
        "\n    user_name: TypeUserName,",
        "\n    count: TypeCount,",
        "\n}\n\n",
        "fn example(args: &TemplateArgsExample) {\n",
        "    print!(\"{}\", r#\"Hello \"#);\n",
        "    print!(\"{}\", user_name);\n",
        "    print!(\"{}\", r#\"! \"#);\n",
        "    print!(\"{:>3}\", count);\n",
        "    print!(\"{}\", user_name);\n",
        "}\n\n",
    ]
    .concat();
    assert_eq!(code, expected);
}

#[test]
fn generated_code_without_variables() {
    let template = VariableTemplate { children: vec![VariableTemplateExpr::Text("plain".to_string())] };
    let code = generate_template_code("my_page", &template);
    assert_eq!(
        code,
        "struct TemplateArgsMyPage\n<\n> {\n}\n\nfn my_page(args: &TemplateArgsMyPage) {\n    print!(\"{}\", r#\"plain\"#);\n}\n\n"
    );
}

#[test]
fn flags_accumulate_per_key() {
    let mut holder: Vec<(String, u16)> = Vec::new();
    let a = "a".to_string();
    let b = "b".to_string();
    _hash_map_add_flag(&mut holder, &a, TRAIT_SHOW);
    _hash_map_add_flag(&mut holder, &b, TRAIT_EQ);
    _hash_map_add_flag(&mut holder, &a, TRAIT_EQ);
    _hash_map_add_flag(&mut holder, &a, TRAIT_SHOW);
    assert_eq!(holder, vec![("a".to_string(), 5), ("b".to_string(), 4)]);
}

#[test]
fn setting_a_flag_twice_changes_nothing() {
    let mut once: Vec<(String, u16)> = vec![("x".to_string(), 2)];
    let y = "y".to_string();
    _hash_map_add_flag(&mut once, &y, TRAIT_EQ);
    let mut twice = once.clone();
    _hash_map_add_flag(&mut twice, &y, TRAIT_EQ);
    assert_eq!(once, twice);
}

#[test]
fn flags_do_not_depend_on_order() {
    let a = "a".to_string();
    let b = "b".to_string();
    let mut first: Vec<(String, u16)> = Vec::new();
    _hash_map_add_flag(&mut first, &a, TRAIT_SHOW);
    _hash_map_add_flag(&mut first, &b, TRAIT_EQ);
    let mut second: Vec<(String, u16)> = Vec::new();
    _hash_map_add_flag(&mut second, &b, TRAIT_EQ);
    _hash_map_add_flag(&mut second, &a, TRAIT_SHOW);
    first.sort();
    second.sort();
    assert_eq!(first, second);
}
