use vstd::prelude::*;

use crate::options::{
    DefinedType, Span, defined_type_view, defined_types_view, distinct_names, find_defined_type,
    lemma_lookup_type_any_position, lookup_type, names_view,
};
use crate::template_ast::{RustExpr, RustExprValue, TemplateAST, TemplateExpr, root_ident};
use crate::utils::{camel_case, to_camel_case};

verus! {

/// A trait path by its segments, as plain values.
pub open spec fn path_view(p: Vec<String>) -> Seq<Seq<char>> {
    names_view(p@)
}

pub open spec fn traits_view(t: Seq<Vec<String>>) -> Seq<Seq<Seq<char>>> {
    t.map_values(|p: Vec<String>| path_view(p))
}

/// The variables found so far with the traits their uses ask for.
pub open spec fn var_traits_view(v: Seq<(String, Vec<Vec<String>>)>) -> Seq<
    (Seq<char>, Seq<Seq<Seq<char>>>),
> {
    v.map_values(|e: (String, Vec<Vec<String>>)| (e.0@, traits_view(e.1@)))
}

pub open spec fn distinct_vars(vars: Seq<(Seq<char>, Seq<Seq<Seq<char>>>)>) -> bool {
    forall|i: int, j: int|
        0 <= i < vars.len() && 0 <= j < vars.len() && i != j ==> #[trigger] vars[i].0
            != #[trigger] vars[j].0
}

pub open spec fn has_var(vars: Seq<(Seq<char>, Seq<Seq<Seq<char>>>)>, name: Seq<char>) -> bool {
    exists|i: int| 0 <= i < vars.len() && #[trigger] vars[i].0 == name
}

pub open spec fn var_position(vars: Seq<(Seq<char>, Seq<Seq<Seq<char>>>)>, name: Seq<char>) -> int {
    choose|i: int| 0 <= i < vars.len() && #[trigger] vars[i].0 == name
}

/// `vars` with `path` among the traits of `name`; a new variable goes last.
pub open spec fn add_trait_spec(
    vars: Seq<(Seq<char>, Seq<Seq<Seq<char>>>)>,
    name: Seq<char>,
    path: Seq<Seq<char>>,
) -> Seq<(Seq<char>, Seq<Seq<Seq<char>>>)> {
    if has_var(vars, name) {
        let i = var_position(vars, name);
        let traits = vars[i].1;
        vars.update(i, (name, if traits.contains(path) { traits } else { traits.push(path) }))
    } else {
        vars.push((name, seq![path]))
    }
}

/// The path `std::string::ToString`.
pub open spec fn to_string_path() -> Seq<Seq<char>> {
    seq!["std"@, "string"@, "ToString"@]
}

/// Every shown expression is a chain of attribute accesses on a variable.
pub open spec fn shows_variables(children: Seq<TemplateExpr>) -> bool {
    forall|i: int|
        0 <= i < children.len() ==> match #[trigger] children[i] {
            TemplateExpr::Show(e) => root_ident(*e) is Some,
            TemplateExpr::Text(_) => true,
        }
}

/// The variables the template shows, in order of first use, each with the
/// traits its uses ask for.
pub open spec fn collect_vars(children: Seq<TemplateExpr>) -> Seq<(Seq<char>, Seq<Seq<Seq<char>>>)>
    decreases children.len(),
{
    if children.len() == 0 {
        seq![]
    } else {
        match children.last() {
            TemplateExpr::Show(e) => add_trait_spec(
                collect_vars(children.drop_last()),
                root_ident(*e)->0@,
                to_string_path(),
            ),
            TemplateExpr::Text(_) => collect_vars(children.drop_last()),
        }
    }
}

fn copy_path(p: &Vec<String>) -> (r: Vec<String>)
    ensures
        path_view(r) == path_view(*p),
{
    let mut r: Vec<String> = Vec::new();
    let n = p.len();
    let mut i: usize = 0;
    while i < n
        invariant
            n == p@.len(),
            i <= n,
            r@.len() == i,
            forall|k: int| 0 <= k < i ==> #[trigger] r@[k]@ == p@[k]@,
        decreases n - i,
    {
        r.push(p[i].clone());
        i = i + 1;
    }
    assert(path_view(r) =~= path_view(*p));
    r
}

fn paths_equal(a: &Vec<String>, b: &Vec<String>) -> (r: bool)
    ensures
        r == (path_view(*a) == path_view(*b)),
{
    if a.len() != b.len() {
        assert(path_view(*a).len() != path_view(*b).len());
        return false;
    }
    let n = a.len();
    let mut i: usize = 0;
    while i < n
        invariant
            n == a@.len(),
            n == b@.len(),
            i <= n,
            forall|k: int| 0 <= k < i ==> #[trigger] a@[k]@ == b@[k]@,
        decreases n - i,
    {
        if a[i] != b[i] {
            assert(path_view(*a)[i as int] != path_view(*b)[i as int]);
            return false;
        }
        i = i + 1;
    }
    assert(path_view(*a) =~= path_view(*b));
    true
}

fn contains_path(traits: &Vec<Vec<String>>, path: &Vec<String>) -> (r: bool)
    ensures
        r == traits_view(traits@).contains(path_view(*path)),
{
    let n = traits.len();
    let mut i: usize = 0;
    while i < n
        invariant
            n == traits@.len(),
            i <= n,
            forall|k: int| 0 <= k < i ==> path_view(#[trigger] traits@[k]) != path_view(*path),
        decreases n - i,
    {
        if paths_equal(&traits[i], path) {
            assert(traits_view(traits@)[i as int] == path_view(*path));
            return true;
        }
        i = i + 1;
    }
    assert forall|k: int| 0 <= k < traits_view(traits@).len() implies traits_view(traits@)[k]
        != path_view(*path) by {
        assert(traits_view(traits@)[k] == path_view(traits@[k]));
    }
    false
}

/// Adds `vartrait` to the traits of the variable `varname`.
pub fn _add_trait(
    variables: &mut Vec<(String, Vec<Vec<String>>)>,
    varname: &String,
    vartrait: &Vec<String>,
)
    requires
        distinct_vars(var_traits_view(old(variables)@)),
    ensures
        var_traits_view(final(variables)@) == add_trait_spec(
            var_traits_view(old(variables)@),
            varname@,
            path_view(*vartrait),
        ),
        distinct_vars(var_traits_view(final(variables)@)),
{
    let ghost old_view = var_traits_view(variables@);
    let n = variables.len();
    let mut i: usize = 0;
    while i < n
        invariant
            n == variables.len(),
            i <= n,
            variables@ == old(variables)@,
            old_view == var_traits_view(variables@),
            distinct_vars(old_view),
            forall|j: int| 0 <= j < i ==> old_view[j].0 != varname@,
        decreases n - i,
    {
        if variables[i].0 == *varname {
            proof {
                assert(old_view[i as int].0 == varname@);
                let c = var_position(old_view, varname@);
                assert(c == i);
            }
            let (name, mut traits) = variables.remove(i);
            let ghost old_traits = traits_view(traits@);
            assert(old_traits == old_view[i as int].1);
            if !contains_path(&traits, vartrait) {
                traits.push(copy_path(vartrait));
                assert(traits_view(traits@) =~= old_traits.push(path_view(*vartrait)));
            }
            variables.insert(i, (name, traits));
            assert(var_traits_view(variables@) =~= add_trait_spec(
                old_view,
                varname@,
                path_view(*vartrait),
            ));
            return;
        }
        i = i + 1;
    }
    let mut traits: Vec<Vec<String>> = Vec::new();
    traits.push(copy_path(vartrait));
    assert(traits_view(traits@) =~= seq![path_view(*vartrait)]);
    variables.push((varname.clone(), traits));
    assert(var_traits_view(variables@) =~= old_view.push((varname@, seq![path_view(*vartrait)])));
}

fn make_to_string_path() -> (r: Vec<String>)
    ensures
        path_view(r) == to_string_path(),
{
    let mut r: Vec<String> = Vec::new();
    r.push("std".to_string());
    r.push("string".to_string());
    r.push("ToString".to_string());
    assert(path_view(r) =~= to_string_path());
    r
}

/// Records the variable that `expr` reads, asking for `ToString` on it.
fn _add_variables_from_rust_expr(variables: &mut Vec<(String, Vec<Vec<String>>)>, expr: &RustExpr)
    requires
        distinct_vars(var_traits_view(old(variables)@)),
        root_ident(*expr) is Some,
    ensures
        var_traits_view(final(variables)@) == add_trait_spec(
            var_traits_view(old(variables)@),
            root_ident(*expr)->0@,
            to_string_path(),
        ),
        distinct_vars(var_traits_view(final(variables)@)),
    decreases expr,
{
    match expr {
        RustExpr::Value(RustExprValue::Ident(ident)) => {
            let path = make_to_string_path();
            _add_trait(variables, ident, &path);
        },
        RustExpr::GetAttribute(obj_expr, _) => {
            _add_variables_from_rust_expr(variables, obj_expr);
        },
        _ => {},
    }
}

/// The variable a piece of the template reads, if it shows a chain on one.
pub open spec fn read_variable(e: TemplateExpr) -> Option<Seq<char>> {
    match e {
        TemplateExpr::Show(x) => match root_ident(*x) {
            Some(name) => Some(name@),
            None => None,
        },
        TemplateExpr::Text(_) => None,
    }
}

pub open spec fn reads_variable(children: Seq<TemplateExpr>, name: Seq<char>) -> bool {
    exists|i: int| 0 <= i < children.len() && #[trigger] read_variable(children[i]) == Some(name)
}

proof fn lemma_add_to_string(vars: Seq<(Seq<char>, Seq<Seq<Seq<char>>>)>, name: Seq<char>)
    requires
        distinct_vars(vars),
        forall|k: int| 0 <= k < vars.len() ==> #[trigger] vars[k].1 == seq![to_string_path()],
    ensures
        distinct_vars(add_trait_spec(vars, name, to_string_path())),
        forall|k: int|
            0 <= k < add_trait_spec(vars, name, to_string_path()).len() ==> #[trigger] add_trait_spec(
                vars,
                name,
                to_string_path(),
            )[k].1 == seq![to_string_path()],
        forall|n: Seq<char>|
            has_var(add_trait_spec(vars, name, to_string_path()), n) <==> (has_var(vars, n) || n
                == name),
{
    let r = add_trait_spec(vars, name, to_string_path());
    if has_var(vars, name) {
        let c = var_position(vars, name);
        assert(vars[c].1[0] == to_string_path());
        assert(vars[c].1.contains(to_string_path()));
        assert(r == vars.update(c, (name, vars[c].1)));
        assert forall|n: Seq<char>| has_var(r, n) <==> (has_var(vars, n) || n == name) by {
            if has_var(r, n) {
                let j = choose|j: int| 0 <= j < r.len() && #[trigger] r[j].0 == n;
                if j != c {
                    assert(vars[j].0 == n);
                }
            }
            if has_var(vars, n) {
                let j = choose|j: int| 0 <= j < vars.len() && #[trigger] vars[j].0 == n;
                assert(r[j].0 == n);
            }
            if n == name {
                assert(r[c].0 == n);
            }
        }
    } else {
        assert(r == vars.push((name, seq![to_string_path()])));
        assert forall|i: int, j: int|
            0 <= i < r.len() && 0 <= j < r.len() && i != j implies #[trigger] r[i].0
            != #[trigger] r[j].0 by {
            if i == vars.len() {
                assert(r[j] == vars[j]);
            } else if j == vars.len() {
                assert(r[i] == vars[i]);
            } else {
                assert(r[i] == vars[i]);
                assert(r[j] == vars[j]);
            }
        }
        assert forall|n: Seq<char>| has_var(r, n) <==> (has_var(vars, n) || n == name) by {
            if has_var(r, n) {
                let j = choose|j: int| 0 <= j < r.len() && #[trigger] r[j].0 == n;
                if j < vars.len() {
                    assert(vars[j].0 == n);
                }
            }
            if has_var(vars, n) {
                let j = choose|j: int| 0 <= j < vars.len() && #[trigger] vars[j].0 == n;
                assert(r[j].0 == n);
            }
            if n == name {
                assert(r[vars.len() as int].0 == n);
            }
        }
    }
}

/// The variables found in a template are distinct, they are exactly the
/// ones its shown expressions read, and each asks for `ToString` alone.
pub proof fn lemma_collected_variables(children: Seq<TemplateExpr>)
    requires
        shows_variables(children),
    ensures
        distinct_vars(collect_vars(children)),
        forall|name: Seq<char>|
            has_var(collect_vars(children), name) <==> reads_variable(children, name),
        forall|k: int|
            0 <= k < collect_vars(children).len() ==> #[trigger] collect_vars(children)[k].1
                == seq![to_string_path()],
    decreases children.len(),
{
    if children.len() > 0 {
        let prefix = children.drop_last();
        assert forall|i: int| 0 <= i < prefix.len() implies match #[trigger] prefix[i] {
            TemplateExpr::Show(e) => root_ident(*e) is Some,
            TemplateExpr::Text(_) => true,
        } by {
            assert(prefix[i] == children[i]);
        }
        lemma_collected_variables(prefix);
        let v = collect_vars(prefix);
        assert(children.last() == children[children.len() - 1]);
        match children.last() {
            TemplateExpr::Show(e) => {
                lemma_add_to_string(v, root_ident(*e)->0@);
            },
            TemplateExpr::Text(_) => {},
        }
        assert forall|name: Seq<char>|
            reads_variable(children, name) <==> (reads_variable(prefix, name) || read_variable(
                children.last(),
            ) == Some(name)) by {
            if reads_variable(children, name) {
                let i = choose|i: int|
                    0 <= i < children.len() && #[trigger] read_variable(children[i]) == Some(name);
                if i < prefix.len() {
                    assert(prefix[i] == children[i]);
                }
            }
            if reads_variable(prefix, name) {
                let i = choose|i: int|
                    0 <= i < prefix.len() && #[trigger] read_variable(prefix[i]) == Some(name);
                assert(prefix[i] == children[i]);
            }
            if read_variable(children.last()) == Some(name) {
                assert(read_variable(children[children.len() - 1]) == Some(name));
            }
        }
    } else {
        assert forall|name: Seq<char>| !reads_variable(children, name) by {}
    }
}

/// How the type of a template variable is given: by the type alias named
/// after it, or by the traits its uses ask for.
#[derive(Debug)]
pub enum TemplateVariableType {
    Type(DefinedType),
    Traits(Vec<Vec<String>>),
}

/// A variable of the template and its type.
#[derive(Debug)]
pub struct TemplateVariable {
    pub name: String,
    pub type_: TemplateVariableType,
}

pub enum SpecVariableType {
    /// The alias's name and its type parameters.
    Type(Seq<char>, Seq<Seq<char>>),
    Traits(Seq<Seq<Seq<char>>>),
}

pub open spec fn variable_view(v: TemplateVariable) -> (Seq<char>, SpecVariableType) {
    (
        v.name@,
        match v.type_ {
            TemplateVariableType::Type(t) => SpecVariableType::Type(
                defined_type_view(t).0,
                defined_type_view(t).1,
            ),
            TemplateVariableType::Traits(traits) => SpecVariableType::Traits(traits_view(traits@)),
        },
    )
}

pub open spec fn variables_view(v: Seq<TemplateVariable>) -> Seq<(Seq<char>, SpecVariableType)> {
    v.map_values(|t: TemplateVariable| variable_view(t))
}

/// The name of the type of variable `name`: `foo_bar` has `FooBarType`.
pub open spec fn variable_type_name(name: Seq<char>) -> Seq<char> {
    camel_case(name) + "Type"@
}

/// The type of a variable with the traits `traits`: the alias named after
/// it where the module declares one, else the traits.
pub open spec fn variable_type(
    name: Seq<char>,
    traits: Seq<Seq<Seq<char>>>,
    defined: Seq<(Seq<char>, Seq<Seq<char>>)>,
) -> SpecVariableType {
    match lookup_type(defined, variable_type_name(name)) {
        Some(params) => SpecVariableType::Type(variable_type_name(name), params),
        None => SpecVariableType::Traits(traits),
    }
}

/// The variables of a template, in order of first use, with their types.
pub open spec fn expected_variables(
    children: Seq<TemplateExpr>,
    defined: Seq<(Seq<char>, Seq<Seq<char>>)>,
) -> Seq<(Seq<char>, SpecVariableType)> {
    collect_vars(children).map_values(
        |v: (Seq<char>, Seq<Seq<Seq<char>>>)| (v.0, variable_type(v.0, v.1, defined)),
    )
}

fn copy_traits(t: &Vec<Vec<String>>) -> (r: Vec<Vec<String>>)
    ensures
        traits_view(r@) == traits_view(t@),
{
    let mut r: Vec<Vec<String>> = Vec::new();
    let n = t.len();
    let mut i: usize = 0;
    while i < n
        invariant
            n == t@.len(),
            i <= n,
            r@.len() == i,
            forall|k: int| 0 <= k < i ==> path_view(#[trigger] r@[k]) == path_view(t@[k]),
        decreases n - i,
    {
        r.push(copy_path(&t[i]));
        i = i + 1;
    }
    assert(traits_view(r@) =~= traits_view(t@));
    r
}

/// The variables that the shown expressions read, in order of first use:
/// each typed by the alias named after it (`foo_bar` by `FooBarType`) where
/// the module declares one, and else by the traits its uses ask for.
pub fn make_template_variables(exprs: &Vec<TemplateExpr>, defined_types: &Vec<DefinedType>) -> (r:
    Vec<TemplateVariable>)
    requires
        shows_variables(exprs@),
        distinct_names(defined_types_view(defined_types@)),
    ensures
        variables_view(r@) == expected_variables(exprs@, defined_types_view(defined_types@)),
        forall|k: int, i: int|
            0 <= k < r@.len() && 0 <= i < defined_types@.len() && #[trigger] defined_types@[i].name@
                == variable_type_name(#[trigger] r@[k].name@) ==> variable_view(r@[k]).1
                == SpecVariableType::Type(
                defined_type_view(defined_types@[i]).0,
                defined_type_view(defined_types@[i]).1,
            ),
{
    let ghost es = exprs@;
    let mut variables: Vec<(String, Vec<Vec<String>>)> = Vec::new();
    let n = exprs.len();
    let mut i: usize = 0;
    assert(var_traits_view(variables@) =~= collect_vars(es.take(0)));
    while i < n
        invariant
            n == es.len(),
            es == exprs@,
            i <= n,
            shows_variables(es),
            var_traits_view(variables@) == collect_vars(es.take(i as int)),
            distinct_vars(var_traits_view(variables@)),
        decreases n - i,
    {
        assert(es.take(i + 1).drop_last() == es.take(i as int));
        assert(es.take(i + 1).last() == es[i as int]);
        match &exprs[i] {
            TemplateExpr::Text(_) => {},
            TemplateExpr::Show(expr) => {
                assert(root_ident(**expr) is Some);
                _add_variables_from_rust_expr(&mut variables, expr);
            },
        }
        i = i + 1;
    }
    assert(es.take(n as int) == es);
    let ghost vars = var_traits_view(variables@);
    let ghost defined = defined_types_view(defined_types@);

    let mut result: Vec<TemplateVariable> = Vec::new();
    let nv = variables.len();
    let mut j: usize = 0;
    while j < nv
        invariant
            nv == vars.len(),
            vars == var_traits_view(variables@),
            defined == defined_types_view(defined_types@),
            distinct_names(defined),
            j <= nv,
            result@.len() == j,
            forall|k: int|
                0 <= k < j ==> variable_view(#[trigger] result@[k]) == (
                    vars[k].0,
                    variable_type(vars[k].0, vars[k].1, defined),
                ),
        decreases nv - j,
    {
        let varname = &variables[j].0;
        let mut typename = to_camel_case(varname.as_str());
        typename.append("Type");
        let type_ = match find_defined_type(defined_types, &typename) {
            Some(t) => TemplateVariableType::Type(t.duplicate()),
            None => TemplateVariableType::Traits(copy_traits(&variables[j].1)),
        };
        result.push(TemplateVariable { name: varname.clone(), type_: type_ });
        j = j + 1;
    }
    assert(variables_view(result@) =~= expected_variables(exprs@, defined));
    proof {
        lemma_variable_typed_by_declared_alias(exprs@, defined);
        assert forall|k: int, i: int|
            0 <= k < result@.len() && 0 <= i < defined_types@.len() && #[trigger] defined_types@[i].name@
                == variable_type_name(#[trigger] result@[k].name@) implies variable_view(result@[k]).1
                == SpecVariableType::Type(
                defined_type_view(defined_types@[i]).0,
                defined_type_view(defined_types@[i]).1,
            ) by {
            assert(defined[i] == defined_type_view(defined_types@[i]));
            assert(variables_view(result@)[k] == variable_view(result@[k]));
            assert(expected_variables(exprs@, defined)[k].0 == result@[k].name@);
        }
    }
    result
}

/// An expression of the generated `render` function.
#[derive(Debug)]
pub enum GenExpr {
    /// A local name: `self`.
    Ident(String),
    Str(String),
    Int(i64),
    /// A float literal, by the text of its value.
    Float(String),
    Bool(bool),
    /// `expr.field`
    Field(Box<GenExpr>, String),
}

pub enum SpecGenExpr {
    Ident(Seq<char>),
    Str(Seq<char>),
    Int(i64),
    Float(Seq<char>),
    Bool(bool),
    Field(Box<SpecGenExpr>, Seq<char>),
}

pub open spec fn gen_expr_view(e: GenExpr) -> SpecGenExpr
    decreases e,
{
    match e {
        GenExpr::Ident(s) => SpecGenExpr::Ident(s@),
        GenExpr::Str(s) => SpecGenExpr::Str(s@),
        GenExpr::Int(i) => SpecGenExpr::Int(i),
        GenExpr::Float(s) => SpecGenExpr::Float(s@),
        GenExpr::Bool(b) => SpecGenExpr::Bool(b),
        GenExpr::Field(inner, f) => SpecGenExpr::Field(Box::new(gen_expr_view(*inner)), f@),
    }
}

/// No `expr[index]` anywhere in `e`.
pub open spec fn no_get_item(e: RustExpr) -> bool
    decreases e,
{
    match e {
        RustExpr::Value(_) => true,
        RustExpr::GetAttribute(inner, _) => no_get_item(*inner),
        RustExpr::GetItem(_, _) => false,
    }
}

/// The generated expression for a shown expression: a variable `x` is read
/// as the field `self.x`, literals stay literals, `e.a` stays an attribute
/// access.
pub open spec fn spec_convert(e: RustExpr) -> SpecGenExpr
    decreases e,
{
    match e {
        RustExpr::Value(RustExprValue::Ident(x)) => SpecGenExpr::Field(
            Box::new(SpecGenExpr::Ident("self"@)),
            x@,
        ),
        RustExpr::Value(RustExprValue::StringLiteral(v)) => SpecGenExpr::Str(v@),
        RustExpr::Value(RustExprValue::IntLiteral(v)) => SpecGenExpr::Int(v),
        RustExpr::Value(RustExprValue::FloatLiteral(v)) => SpecGenExpr::Float(v@),
        RustExpr::Value(RustExprValue::BoolLiteral(v)) => SpecGenExpr::Bool(v),
        RustExpr::GetAttribute(inner, attr) => SpecGenExpr::Field(
            Box::new(spec_convert(*inner)),
            attr@,
        ),
        RustExpr::GetItem(_, _) => SpecGenExpr::Str(seq![]),
    }
}

proof fn lemma_chain_has_no_item(e: RustExpr)
    requires
        root_ident(e) is Some,
    ensures
        no_get_item(e),
    decreases e,
{
    if let RustExpr::GetAttribute(inner, _) = e {
        lemma_chain_has_no_item(*inner);
    }
}

/// The generated expression for `expr`, as `spec_convert` says.
fn _convert_rust_expr_to_ast(expr: &RustExpr) -> (r: GenExpr)
    requires
        no_get_item(*expr),
    ensures
        gen_expr_view(r) == spec_convert(*expr),
    decreases expr,
{
    match expr {
        RustExpr::Value(RustExprValue::Ident(ident)) => {
            let receiver = GenExpr::Ident("self".to_string());
            assert(gen_expr_view(receiver) == SpecGenExpr::Ident("self"@));
            GenExpr::Field(Box::new(receiver), ident.clone())
        },
        RustExpr::Value(RustExprValue::StringLiteral(val)) => GenExpr::Str(val.clone()),
        RustExpr::Value(RustExprValue::IntLiteral(val)) => GenExpr::Int(*val),
        RustExpr::Value(RustExprValue::FloatLiteral(val)) => GenExpr::Float(val.clone()),
        RustExpr::Value(RustExprValue::BoolLiteral(val)) => GenExpr::Bool(*val),
        RustExpr::GetAttribute(source_expr, attr) => GenExpr::Field(
            Box::new(_convert_rust_expr_to_ast(source_expr)),
            attr.clone(),
        ),
        RustExpr::GetItem(_, _) => GenExpr::Str(String::new()),
    }
}

/// A statement of the generated `render` function, which appends to its
/// `result` string.
#[derive(Debug)]
pub enum RenderStatement {
    /// `result.push_str("text")`
    PushText(String),
    /// `result.push_str(expr.to_string().as_slice())`
    PushShow(GenExpr),
}

pub enum SpecRenderStatement {
    PushText(Seq<char>),
    PushShow(SpecGenExpr),
}

pub open spec fn statement_view(st: RenderStatement) -> SpecRenderStatement {
    match st {
        RenderStatement::PushText(s) => SpecRenderStatement::PushText(s@),
        RenderStatement::PushShow(e) => SpecRenderStatement::PushShow(gen_expr_view(e)),
    }
}

pub open spec fn statements_view(v: Seq<RenderStatement>) -> Seq<SpecRenderStatement> {
    v.map_values(|st: RenderStatement| statement_view(st))
}

/// One statement per piece of the template, in order: text is appended as
/// it stands, a shown expression as its string.
pub open spec fn expected_statements(children: Seq<TemplateExpr>) -> Seq<SpecRenderStatement> {
    children.map_values(
        |c: TemplateExpr|
            match c {
                TemplateExpr::Text(s) => SpecRenderStatement::PushText(s@),
                TemplateExpr::Show(e) => SpecRenderStatement::PushShow(spec_convert(*e)),
            },
    )
}

/// No shown expression indexes with `[..]`.
pub open spec fn shows_no_item(children: Seq<TemplateExpr>) -> bool {
    forall|i: int|
        0 <= i < children.len() ==> match #[trigger] children[i] {
            TemplateExpr::Show(e) => no_get_item(*e),
            TemplateExpr::Text(_) => true,
        }
}

proof fn lemma_variables_show_no_item(children: Seq<TemplateExpr>)
    requires
        shows_variables(children),
    ensures
        shows_no_item(children),
{
    assert forall|i: int| 0 <= i < children.len() implies match #[trigger] children[i] {
        TemplateExpr::Show(e) => no_get_item(*e),
        TemplateExpr::Text(_) => true,
    } by {
        if let TemplateExpr::Show(e) = children[i] {
            lemma_chain_has_no_item(*e);
        }
    }
}

/// The statements of the generated `render` function, after its
/// `let mut result: String = String::new();`.
fn _make_fn_block_statements(tree: &TemplateAST) -> (r: Vec<RenderStatement>)
    requires
        shows_no_item(tree.children@),
    ensures
        statements_view(r@) == expected_statements(tree.children@),
{
    let ghost cs = tree.children@;
    let mut result: Vec<RenderStatement> = Vec::new();
    let n = tree.children.len();
    let mut i: usize = 0;
    while i < n
        invariant
            n == cs.len(),
            cs == tree.children@,
            shows_no_item(cs),
            i <= n,
            result@.len() == i,
            forall|k: int|
                0 <= k < i ==> statement_view(#[trigger] result@[k]) == expected_statements(cs)[k],
        decreases n - i,
    {
        match &tree.children[i] {
            TemplateExpr::Text(text) => {
                result.push(RenderStatement::PushText(text.clone()));
            },
            TemplateExpr::Show(expr) => {
                assert(no_get_item(**expr));
                result.push(RenderStatement::PushShow(_convert_rust_expr_to_ast(expr)));
            },
        }
        i = i + 1;
    }
    assert(statements_view(result@) =~= expected_statements(cs));
    result
}

/// The variable and the attributes a generated expression reads from `self`:
/// `self.x.a.b` reads `x` and `[a, b]`.
pub open spec fn access_path(e: SpecGenExpr) -> Option<(Seq<char>, Seq<Seq<char>>)>
    decreases e,
{
    match e {
        SpecGenExpr::Field(inner, f) => match *inner {
            SpecGenExpr::Ident(a) => if a == "self"@ {
                Some((f, seq![]))
            } else {
                None
            },
            _ => match access_path(*inner) {
                Some((root, path)) => Some((root, path.push(f))),
                None => None,
            },
        },
        _ => None,
    }
}

/// The text a run of the generated `render` appends for `e`, where
/// `value_text(x, path)` is the string of the value at `self.x.path`.
pub open spec fn shown_text(
    e: SpecGenExpr,
    value_text: spec_fn(Seq<char>, Seq<Seq<char>>) -> Seq<char>,
) -> Seq<char> {
    match access_path(e) {
        Some((root, path)) => value_text(root, path),
        None => seq![],
    }
}

/// The string that the generated `render` function returns: the texts and
/// shown values its statements append, in order.
pub open spec fn run_statements(
    statements: Seq<SpecRenderStatement>,
    value_text: spec_fn(Seq<char>, Seq<Seq<char>>) -> Seq<char>,
) -> Seq<char>
    decreases statements.len(),
{
    if statements.len() == 0 {
        seq![]
    } else {
        run_statements(statements.drop_last(), value_text) + match statements.last() {
            SpecRenderStatement::PushText(t) => t,
            SpecRenderStatement::PushShow(e) => shown_text(e, value_text),
        }
    }
}

/// The names of a chain `x.a.b` as plain values: `[x, a, b]`.
pub open spec fn chain_names(e: RustExpr) -> Option<Seq<Seq<char>>>
    decreases e,
{
    match e {
        RustExpr::Value(RustExprValue::Ident(name)) => Some(seq![name@]),
        RustExpr::GetAttribute(inner, attr) => match chain_names(*inner) {
            Some(names) => Some(names.push(attr@)),
            None => None,
        },
        _ => None,
    }
}

/// What a template stands for: its text with each shown chain `x.a.b`
/// replaced by the string of the value at `x.a.b`.
pub open spec fn template_text(
    children: Seq<TemplateExpr>,
    value_text: spec_fn(Seq<char>, Seq<Seq<char>>) -> Seq<char>,
) -> Seq<char>
    decreases children.len(),
{
    if children.len() == 0 {
        seq![]
    } else {
        template_text(children.drop_last(), value_text) + match children.last() {
            TemplateExpr::Text(t) => t@,
            TemplateExpr::Show(e) => {
                let names = chain_names(*e)->0;
                value_text(names[0], names.drop_first())
            },
        }
    }
}

proof fn lemma_chain_access_path(e: RustExpr)
    requires
        root_ident(e) is Some,
    ensures
        chain_names(e) is Some,
        chain_names(e)->0.len() > 0,
        access_path(spec_convert(e)) == Some(
            (chain_names(e)->0[0], chain_names(e)->0.drop_first()),
        ),
        spec_convert(e) is Field,
    decreases e,
{
    match e {
        RustExpr::Value(RustExprValue::Ident(name)) => {
            assert(seq![name@].drop_first() =~= Seq::<Seq<char>>::empty());
        },
        RustExpr::GetAttribute(inner, attr) => {
            lemma_chain_access_path(*inner);
            let names = chain_names(*inner)->0;
            assert(names.push(attr@)[0] == names[0]);
            assert(names.push(attr@).drop_first() =~= names.drop_first().push(attr@));
        },
        _ => {},
    }
}

/// Running the generated `render` gives the template's text with each shown
/// chain replaced by the string of its value, in template order: for
/// `Text {{ value }} text` it returns `Text `, the string of `self.value`,
/// and ` text`.
pub proof fn lemma_render_gives_template_text(
    children: Seq<TemplateExpr>,
    value_text: spec_fn(Seq<char>, Seq<Seq<char>>) -> Seq<char>,
)
    requires
        shows_variables(children),
    ensures
        run_statements(expected_statements(children), value_text) == template_text(
            children,
            value_text,
        ),
    decreases children.len(),
{
    if children.len() > 0 {
        let prefix = children.drop_last();
        assert forall|i: int| 0 <= i < prefix.len() implies match #[trigger] prefix[i] {
            TemplateExpr::Show(e) => root_ident(*e) is Some,
            TemplateExpr::Text(_) => true,
        } by {
            assert(prefix[i] == children[i]);
        }
        lemma_render_gives_template_text(prefix, value_text);
        let sts = expected_statements(children);
        assert(sts.drop_last() =~= expected_statements(prefix));
        assert(children.last() == children[children.len() - 1]);
        if let TemplateExpr::Show(e) = children.last() {
            lemma_chain_access_path(*e);
        }
    }
}

/// The bound of a type parameter of the generated `Context` struct.
#[derive(Debug)]
pub enum ParamBound {
    /// The bounds of type parameter `param` of the alias named first.
    AliasParam(String, String),
    /// `std::string::ToString`
    ToString,
}

/// A type parameter of the generated `Context` struct.
#[derive(Debug)]
pub struct GenericParam {
    pub name: String,
    pub bound: ParamBound,
}

pub enum SpecParamBound {
    AliasParam(Seq<char>, Seq<char>),
    ToString,
}

pub open spec fn generic_view(g: GenericParam) -> (Seq<char>, SpecParamBound) {
    (
        g.name@,
        match g.bound {
            ParamBound::AliasParam(alias, param) => SpecParamBound::AliasParam(alias@, param@),
            ParamBound::ToString => SpecParamBound::ToString,
        },
    )
}

pub open spec fn generics_view(v: Seq<GenericParam>) -> Seq<(Seq<char>, SpecParamBound)> {
    v.map_values(|g: GenericParam| generic_view(g))
}

/// The name a type parameter `param` of the alias of variable `var` gets:
/// `obj` with `X` gives `ObjTypeXTrait`.
pub open spec fn alias_param_name(var: Seq<char>, param: Seq<char>) -> Seq<char> {
    variable_type_name(var) + param + "Trait"@
}

/// The type parameters a variable brings: those of its alias, renamed, or
/// one bounded by `ToString`.
pub open spec fn variable_generics(v: (Seq<char>, SpecVariableType)) -> Seq<
    (Seq<char>, SpecParamBound),
> {
    match v.1 {
        SpecVariableType::Type(alias, params) => params.map_values(
            |p: Seq<char>| (alias_param_name(v.0, p), SpecParamBound::AliasParam(alias, p)),
        ),
        SpecVariableType::Traits(_) => seq![(variable_type_name(v.0), SpecParamBound::ToString)],
    }
}

/// The type parameters of `Context`, variable by variable.
pub open spec fn expected_generics(vars: Seq<(Seq<char>, SpecVariableType)>) -> Seq<
    (Seq<char>, SpecParamBound),
>
    decreases vars.len(),
{
    if vars.len() == 0 {
        seq![]
    } else {
        expected_generics(vars.drop_last()) + variable_generics(vars.last())
    }
}

/// The type of a field of the generated `Context` struct.
#[derive(Debug)]
pub enum FieldType {
    /// `self::Name<Params..>`, the alias of the variable.
    AliasPath(String, Vec<String>),
    /// A type parameter of `Context`.
    Param(String),
}

/// A public field of the generated `Context` struct.
#[derive(Debug)]
pub struct ContextField {
    pub name: String,
    pub ty: FieldType,
}

pub enum SpecFieldType {
    AliasPath(Seq<char>, Seq<Seq<char>>),
    Param(Seq<char>),
}

pub open spec fn field_view(f: ContextField) -> (Seq<char>, SpecFieldType) {
    (
        f.name@,
        match f.ty {
            FieldType::AliasPath(name, args) => SpecFieldType::AliasPath(name@, names_view(args@)),
            FieldType::Param(name) => SpecFieldType::Param(name@),
        },
    )
}

pub open spec fn fields_view(v: Seq<ContextField>) -> Seq<(Seq<char>, SpecFieldType)> {
    v.map_values(|f: ContextField| field_view(f))
}

/// The field of a variable: named after it, of its alias applied to the
/// renamed parameters, or of its own type parameter.
pub open spec fn variable_field(v: (Seq<char>, SpecVariableType)) -> (Seq<char>, SpecFieldType) {
    (
        v.0,
        match v.1 {
            SpecVariableType::Type(_, params) => SpecFieldType::AliasPath(
                variable_type_name(v.0),
                params.map_values(|p: Seq<char>| alias_param_name(v.0, p)),
            ),
            SpecVariableType::Traits(_) => SpecFieldType::Param(variable_type_name(v.0)),
        },
    )
}

pub open spec fn expected_fields(vars: Seq<(Seq<char>, SpecVariableType)>) -> Seq<
    (Seq<char>, SpecFieldType),
> {
    vars.map_values(|v: (Seq<char>, SpecVariableType)| variable_field(v))
}

fn push_variable_generics(result: &mut Vec<GenericParam>, var: &TemplateVariable)
    ensures
        generics_view(final(result)@) == generics_view(old(result)@) + variable_generics(
            variable_view(*var),
        ),
{
    let ghost v = variable_view(*var);
    let ghost old_view = generics_view(result@);
    let mut type_name_text = to_camel_case(var.name.as_str());
    type_name_text.append("Type");
    match &var.type_ {
        TemplateVariableType::Type(t) => {
            let ghost params = names_view(t.type_params@);
            let n = t.type_params.len();
            let mut k: usize = 0;
            while k < n
                invariant
                    n == params.len(),
                    params == names_view(t.type_params@),
                    type_name_text@ == variable_type_name(v.0),
                    v == variable_view(*var),
                    k <= n,
                    result@.len() == old(result)@.len() + k,
                    generics_view(result@).take(old(result)@.len() as int) == old_view,
                    forall|m: int|
                        0 <= m < k ==> #[trigger] generics_view(result@)[old(result)@.len() + m]
                            == (alias_param_name(v.0, params[m]), SpecParamBound::AliasParam(
                            t.name@,
                            params[m],
                        )),
                decreases n - k,
            {
                let mut name = type_name_text.clone();
                name.append(t.type_params[k].as_str());
                name.append("Trait");
                let ghost before = generics_view(result@);
                result.push(
                    GenericParam {
                        name: name,
                        bound: ParamBound::AliasParam(t.name.clone(), t.type_params[k].clone()),
                    },
                );
                assert(generics_view(result@) == before.push(generic_view(result@.last())));
                assert(generics_view(result@).take(old(result)@.len() as int) =~= before.take(
                    old(result)@.len() as int,
                ));
                k = k + 1;
            }
            assert(v.1 == SpecVariableType::Type(t.name@, params));
            let ghost expected = variable_generics(v);
            assert(expected.len() == n);
            assert forall|m: int| 0 <= m < n implies #[trigger] expected[m] == generics_view(
                result@,
            )[old(result)@.len() + m] by {}
            assert(generics_view(result@) =~= old_view + expected) by {
                assert forall|m: int| 0 <= m < generics_view(result@).len() implies #[trigger]
                generics_view(result@)[m] == (old_view + expected)[m] by {
                    if m < old(result)@.len() {
                        assert(generics_view(result@).take(old(result)@.len() as int)[m]
                            == generics_view(result@)[m]);
                    } else {
                        assert(expected[m - old(result)@.len()] == generics_view(result@)[m]);
                    }
                }
            }
        },
        TemplateVariableType::Traits(_) => {
            result.push(GenericParam { name: type_name_text, bound: ParamBound::ToString });
            assert(generics_view(result@) =~= old_view + variable_generics(v));
        },
    }
}

fn variable_field_of(var: &TemplateVariable) -> (r: ContextField)
    ensures
        field_view(r) == variable_field(variable_view(*var)),
{
    let ghost v = variable_view(*var);
    let mut t = to_camel_case(var.name.as_str());
    t.append("Type");
    let ty = match &var.type_ {
        TemplateVariableType::Type(alias) => {
            let ghost params = names_view(alias.type_params@);
            let mut args: Vec<String> = Vec::new();
            let n = alias.type_params.len();
            let mut k: usize = 0;
            while k < n
                invariant
                    n == params.len(),
                    params == names_view(alias.type_params@),
                    t@ == variable_type_name(v.0),
                    v == variable_view(*var),
                    k <= n,
                    args@.len() == k,
                    forall|m: int| 0 <= m < k ==> #[trigger] args@[m]@ == alias_param_name(v.0, params[m]),
                decreases n - k,
            {
                let mut arg = t.clone();
                arg.append(alias.type_params[k].as_str());
                arg.append("Trait");
                args.push(arg);
                k = k + 1;
            }
            assert(names_view(args@) =~= params.map_values(|p: Seq<char>| alias_param_name(v.0, p)));
            FieldType::AliasPath(t, args)
        },
        TemplateVariableType::Traits(_) => FieldType::Param(t),
    };
    ContextField { name: var.name.clone(), ty: ty }
}

/// The items generated for a template module:
/// `pub struct Context<generics..> { pub field: type, .. }` and
/// `impl<generics..> Context<generics..> { pub fn render(&self) -> String { .. } }`,
/// where `render` starts from `let mut result: String = String::new();`, runs
/// the render statements, which read the shown values from `self`, and
/// returns `result`.
#[derive(Debug)]
pub struct GeneratedItems {
    /// The name of the generated struct: `Context`.
    pub struct_name: String,
    pub context_generics: Vec<GenericParam>,
    pub context_fields: Vec<ContextField>,
    /// The name of the `&self` method that renders: `render`.
    pub method_name: String,
    pub render_statements: Vec<RenderStatement>,
}

/// The message of a template that does not parse.
pub open spec fn syntax_error(e: Seq<char>) -> Seq<char> {
    "Syntax error: "@ + e
}

/// Builds the items of a template module from the parse of its source:
/// a parse error becomes `Syntax error: ..` at `sp`; otherwise the struct
/// `Context` has a public field per variable the template reads, typed by the
/// alias named after it or by a type parameter bounded by `ToString`, and its
/// method `render(&self)` appends the text pieces and the values shown from
/// `self` in template order.
pub fn make(sp: Span, parsed: Result<TemplateAST, String>, defined_types: &Vec<DefinedType>) -> (r:
    Result<GeneratedItems, (Span, String)>)
    requires
        parsed matches Ok(tree) ==> shows_variables(tree.children@),
        distinct_names(defined_types_view(defined_types@)),
    ensures
        match parsed {
            Err(e) => r matches Err((span, msg)) && span == sp && msg@ == syntax_error(e@),
            Ok(tree) => r matches Ok(items) && {
                let vars = expected_variables(tree.children@, defined_types_view(defined_types@));
                &&& items.struct_name@ == "Context"@
                &&& items.method_name@ == "render"@
                &&& generics_view(items.context_generics@) == expected_generics(vars)
                &&& fields_view(items.context_fields@) == expected_fields(vars)
                &&& parameters_match_fields(
                    generics_view(items.context_generics@),
                    fields_view(items.context_fields@),
                )
                &&& statements_view(items.render_statements@) == expected_statements(
                    tree.children@,
                )
            },
        },
{
    let template_tree = match parsed {
        Ok(x) => x,
        Err(e) => {
            let mut msg = "Syntax error: ".to_string();
            msg.append(e.as_str());
            return Err((sp, msg));
        },
    };
    let template_variables = make_template_variables(&template_tree.children, defined_types);
    let ghost vars = variables_view(template_variables@);

    let mut context_generics: Vec<GenericParam> = Vec::new();
    let mut context_fields: Vec<ContextField> = Vec::new();
    let n = template_variables.len();
    let mut i: usize = 0;
    assert(generics_view(context_generics@) =~= expected_generics(vars.take(0)));
    while i < n
        invariant
            n == vars.len(),
            vars == variables_view(template_variables@),
            i <= n,
            generics_view(context_generics@) == expected_generics(vars.take(i as int)),
            context_fields@.len() == i,
            forall|k: int|
                0 <= k < i ==> field_view(#[trigger] context_fields@[k]) == variable_field(vars[k]),
        decreases n - i,
    {
        assert(vars.take(i + 1).drop_last() == vars.take(i as int));
        push_variable_generics(&mut context_generics, &template_variables[i]);
        context_fields.push(variable_field_of(&template_variables[i]));
        i = i + 1;
    }
    assert(vars.take(n as int) == vars);
    assert(fields_view(context_fields@) =~= expected_fields(vars));

    proof {
        lemma_variables_show_no_item(template_tree.children@);
        lemma_fields_use_declared_parameters(
            template_tree.children@,
            defined_types_view(defined_types@),
        );
    }
    let render_statements = _make_fn_block_statements(&template_tree);
    Ok(
        GeneratedItems {
            struct_name: "Context".to_string(),
            context_generics,
            context_fields,
            method_name: "render".to_string(),
            render_statements,
        },
    )
}

/// Where the `m`-th parameter of variable `k` stands among all parameters.
proof fn lemma_generic_position(vars: Seq<(Seq<char>, SpecVariableType)>, k: int, m: int) -> (j: int)
    requires
        0 <= k < vars.len(),
        0 <= m < variable_generics(vars[k]).len(),
    ensures
        0 <= j < expected_generics(vars).len(),
        expected_generics(vars)[j] == variable_generics(vars[k])[m],
    decreases vars.len(),
{
    let prefix = vars.drop_last();
    let gp = expected_generics(prefix);
    assert(expected_generics(vars) == gp + variable_generics(vars.last()));
    if k < prefix.len() {
        assert(prefix[k] == vars[k]);
        let j = lemma_generic_position(prefix, k, m);
        assert(expected_generics(vars)[j] == gp[j]);
        j
    } else {
        assert(vars[k] == vars.last());
        gp.len() + m
    }
}

/// Which variable the `j`-th parameter comes from, and its place there.
proof fn lemma_generic_origin(vars: Seq<(Seq<char>, SpecVariableType)>, j: int) -> (km: (int, int))
    requires
        0 <= j < expected_generics(vars).len(),
    ensures
        0 <= km.0 < vars.len(),
        0 <= km.1 < variable_generics(vars[km.0]).len(),
        expected_generics(vars)[j] == variable_generics(vars[km.0])[km.1],
    decreases vars.len(),
{
    if vars.len() == 0 {
        assert(expected_generics(vars) == Seq::<(Seq<char>, SpecParamBound)>::empty());
        (0, 0)
    } else {
        let prefix = vars.drop_last();
        let gp = expected_generics(prefix);
        assert(expected_generics(vars) == gp + variable_generics(vars.last()));
        if j < gp.len() {
            let km = lemma_generic_origin(prefix, j);
            assert(prefix[km.0] == vars[km.0]);
            assert(expected_generics(vars)[j] == gp[j]);
            km
        } else {
            assert(vars[vars.len() - 1] == vars.last());
            (vars.len() - 1, j - gp.len())
        }
    }
}

/// Some parameter named `name` is taken over from an alias.
pub open spec fn declares_alias_parameter(
    generics: Seq<(Seq<char>, SpecParamBound)>,
    name: Seq<char>,
) -> bool {
    exists|j: int| 0 <= j < generics.len() && #[trigger] generics[j].0 == name && generics[j].1 is AliasParam
}

/// Every type the fields name is among the parameters, and every parameter
/// is used by a field: a field of type `Param(n)` has the parameter `n`
/// bounded by `ToString`, and each argument of an alias field is a parameter
/// taken over from an alias.
pub open spec fn parameters_match_fields(
    generics: Seq<(Seq<char>, SpecParamBound)>,
    fields: Seq<(Seq<char>, SpecFieldType)>,
) -> bool {
    &&& forall|k: int|
        0 <= k < fields.len() && (#[trigger] fields[k]).1 is Param ==> exists|j: int|
            0 <= j < generics.len() && #[trigger] generics[j] == (
                fields[k].1->Param_0,
                SpecParamBound::ToString,
            )
    &&& forall|k: int, a: int|
        #![trigger fields[k].1->AliasPath_1[a]]
        0 <= k < fields.len() && fields[k].1 is AliasPath && 0 <= a
            < fields[k].1->AliasPath_1.len() ==> declares_alias_parameter(
            generics,
            fields[k].1->AliasPath_1[a],
        )
    &&& forall|j: int|
        #![trigger generics[j]]
        0 <= j < generics.len() ==> used_by_some_field(fields, generics[j])
}

/// Some field uses the parameter `g`.
pub open spec fn used_by_some_field(
    fields: Seq<(Seq<char>, SpecFieldType)>,
    g: (Seq<char>, SpecParamBound),
) -> bool {
    exists|k: int| 0 <= k < fields.len() && uses_parameter(#[trigger] fields[k].1, g)
}

/// The field type `ty` uses the parameter `g`: it is that `ToString`
/// parameter, or an alias applied to it.
pub open spec fn uses_parameter(ty: SpecFieldType, g: (Seq<char>, SpecParamBound)) -> bool {
    match ty {
        SpecFieldType::Param(n) => g == (n, SpecParamBound::ToString),
        SpecFieldType::AliasPath(_, args) => args.contains(g.0),
    }
}

/// Every type the fields of the generated `Context` name is declared among
/// its type parameters, and every type parameter is used by a field: a
/// field of type `Param(n)` has the parameter `n` bounded by `ToString`, and
/// each argument of an alias field is a parameter taken over from the alias.
pub proof fn lemma_fields_use_declared_parameters(
    children: Seq<TemplateExpr>,
    defined: Seq<(Seq<char>, Seq<Seq<char>>)>,
)
    ensures
        expected_fields(expected_variables(children, defined)).len() == expected_variables(
            children,
            defined,
        ).len(),
        parameters_match_fields(
            expected_generics(expected_variables(children, defined)),
            expected_fields(expected_variables(children, defined)),
        ),
{
    let vars = expected_variables(children, defined);
    let generics = expected_generics(vars);
    let fields = expected_fields(vars);
    assert forall|k: int|
        0 <= k < fields.len() && (#[trigger] fields[k]).1 is Param implies exists|j: int|
        0 <= j < generics.len() && #[trigger] generics[j] == (
            fields[k].1->Param_0,
            SpecParamBound::ToString,
        ) by {
        assert(fields[k] == variable_field(vars[k]));
        assert(vars[k].1 is Traits);
        let j = lemma_generic_position(vars, k, 0);
        assert(generics[j] == (fields[k].1->Param_0, SpecParamBound::ToString));
    }
    assert forall|k: int, a: int|
        #![trigger fields[k].1->AliasPath_1[a]]
        0 <= k < fields.len() && fields[k].1 is AliasPath && 0 <= a
            < fields[k].1->AliasPath_1.len() implies declares_alias_parameter(
        generics,
        fields[k].1->AliasPath_1[a],
    ) by {
        assert(fields[k] == variable_field(vars[k]));
        assert(vars[k].1 is Type);
        let vg = variable_generics(vars[k]);
        assert(vg[a].0 == fields[k].1->AliasPath_1[a]);
        let j = lemma_generic_position(vars, k, a);
        assert(generics[j].0 == fields[k].1->AliasPath_1[a]);
    }
    assert forall|j: int| #![trigger generics[j]] 0 <= j < generics.len() implies used_by_some_field(
        fields,
        generics[j],
    ) by {
        let (k, m) = lemma_generic_origin(vars, j);
        assert(fields[k] == variable_field(vars[k]));
        match vars[k].1 {
            SpecVariableType::Type(_, params) => {
                let args = fields[k].1->AliasPath_1;
                assert(args[m] == generics[j].0);
            },
            SpecVariableType::Traits(_) => {},
        }
        assert(uses_parameter(fields[k].1, generics[j]));
    }
    assert(parameters_match_fields(generics, fields));
}

/// A variable is typed by the module's alias named after it wherever that
/// alias was declared, and by its own `ToString` parameter exactly when no
/// alias has that name.
pub proof fn lemma_variable_typed_by_declared_alias(
    children: Seq<TemplateExpr>,
    defined: Seq<(Seq<char>, Seq<Seq<char>>)>,
)
    requires
        distinct_names(defined),
    ensures
        forall|k: int, i: int|
            0 <= k < expected_variables(children, defined).len() && 0 <= i < defined.len()
                && #[trigger] defined[i].0 == variable_type_name(
                #[trigger] expected_variables(children, defined)[k].0,
            ) ==> expected_variables(children, defined)[k].1 == SpecVariableType::Type(
                defined[i].0,
                defined[i].1,
            ),
        forall|k: int|
            0 <= k < expected_variables(children, defined).len() ==> ((#[trigger] expected_variables(
                children,
                defined,
            )[k]).1 is Traits <==> forall|i: int|
                0 <= i < defined.len() ==> defined[i].0 != variable_type_name(
                    expected_variables(children, defined)[k].0,
                )),
{
    let vars = expected_variables(children, defined);
    assert forall|k: int, i: int|
        0 <= k < vars.len() && 0 <= i < defined.len() && #[trigger] defined[i].0
            == variable_type_name(#[trigger] vars[k].0) implies vars[k].1 == SpecVariableType::Type(
        defined[i].0,
        defined[i].1,
    ) by {
        lemma_lookup_type_any_position(defined, variable_type_name(vars[k].0));
    }
    assert forall|k: int| 0 <= k < vars.len() implies ((#[trigger] vars[k]).1 is Traits <==> forall|i: int|
        0 <= i < defined.len() ==> defined[i].0 != variable_type_name(vars[k].0)) by {
        lemma_lookup_type_any_position(defined, variable_type_name(vars[k].0));
    }
}

/// The generated `Context` struct has exactly one field for each variable the
/// template reads, named after it, and no others; a variable without an
/// alias of its own is typed by a parameter bounded by `ToString`.
pub proof fn lemma_one_field_per_variable(
    children: Seq<TemplateExpr>,
    defined: Seq<(Seq<char>, Seq<Seq<char>>)>,
)
    requires
        shows_variables(children),
    ensures
        ({
            let fields = expected_fields(expected_variables(children, defined));
            &&& forall|i: int, j: int|
                0 <= i < fields.len() && 0 <= j < fields.len() && i != j ==> #[trigger] fields[i].0
                    != #[trigger] fields[j].0
            &&& forall|name: Seq<char>|
                (exists|i: int| 0 <= i < fields.len() && #[trigger] fields[i].0 == name)
                    <==> reads_variable(children, name)
        }),
        forall|k: int|
            0 <= k < expected_variables(children, defined).len() && lookup_type(
                defined,
                variable_type_name(expected_variables(children, defined)[k].0),
            ) is None ==> #[trigger] variable_generics(expected_variables(children, defined)[k])
                == seq![
                (
                    variable_type_name(expected_variables(children, defined)[k].0),
                    SpecParamBound::ToString,
                ),
            ],
{
    lemma_collected_variables(children);
    let vars = collect_vars(children);
    let tv = expected_variables(children, defined);
    let fields = expected_fields(tv);
    assert forall|i: int| 0 <= i < fields.len() implies #[trigger] fields[i].0 == vars[i].0 by {
        assert(tv[i].0 == vars[i].0);
    }
    assert forall|name: Seq<char>|
        (exists|i: int| 0 <= i < fields.len() && #[trigger] fields[i].0 == name)
            <==> reads_variable(children, name) by {
        if exists|i: int| 0 <= i < fields.len() && #[trigger] fields[i].0 == name {
            let i = choose|i: int| 0 <= i < fields.len() && #[trigger] fields[i].0 == name;
            assert(vars[i].0 == name);
        }
        if reads_variable(children, name) {
            assert(has_var(vars, name));
            let i = var_position(vars, name);
            assert(fields[i].0 == name);
        }
    }
}

/// Whether `e` is a chain of attribute accesses on a variable.
pub fn has_root_ident(e: &RustExpr) -> (r: bool)
    ensures
        r == root_ident(*e) is Some,
    decreases e,
{
    match e {
        RustExpr::Value(RustExprValue::Ident(_)) => true,
        RustExpr::GetAttribute(inner, _) => has_root_ident(inner),
        _ => false,
    }
}

/// Whether every shown expression is a chain of attribute accesses on a
/// variable, as `make` requires.
pub fn shows_only_variables(tree: &TemplateAST) -> (r: bool)
    ensures
        r == shows_variables(tree.children@),
{
    let n = tree.children.len();
    let mut i: usize = 0;
    while i < n
        invariant
            n == tree.children@.len(),
            i <= n,
            forall|k: int|
                0 <= k < i ==> match #[trigger] tree.children@[k] {
                    TemplateExpr::Show(e) => root_ident(*e) is Some,
                    TemplateExpr::Text(_) => true,
                },
        decreases n - i,
    {
        if let TemplateExpr::Show(e) = &tree.children[i] {
            if !has_root_ident(e) {
                assert(!shows_variables(tree.children@)) by {
                    assert(match tree.children@[i as int] {
                        TemplateExpr::Show(e) => root_ident(*e) is None,
                        TemplateExpr::Text(_) => false,
                    });
                }
                return false;
            }
        }
        i = i + 1;
    }
    true
}

} // verus!
