use vstd::prelude::*;

verus! {

/// A parsed template: text and `{{ expr }}` pieces in source order.
#[derive(Debug)]
pub struct TemplateAST {
    pub children: Vec<TemplateExpr>,
}

/// One piece of a template.
#[derive(Debug)]
pub enum TemplateExpr {
    /// Text copied to the output as it stands.
    Text(String),
    /// `{{ expr }}`: the value of `expr`, converted to a string.
    Show(Box<RustExpr>),
}

/// The expressions a template may show.
#[derive(Debug)]
pub enum RustExpr {
    Value(RustExprValue),
    /// `expr.attr`
    GetAttribute(Box<RustExpr>, String),
    /// `expr[index]`
    GetItem(Box<RustExpr>, RustExprValue),
}

/// Identifiers and literals. A float literal is held as the text of its
/// value (what `f64::to_string` gives), which is what the generated code is
/// given.
#[derive(Debug)]
pub enum RustExprValue {
    Ident(String),
    StringLiteral(String),
    IntLiteral(i64),
    FloatLiteral(String),
    BoolLiteral(bool),
}

/// An error in building an expression, with its message.
#[derive(Debug)]
pub struct RustExprError {
    msg: String,
}

impl View for RustExprError {
    type V = Seq<char>;

    closed spec fn view(&self) -> Seq<char> {
        self.msg@
    }
}

impl RustExprError {
    pub fn new(msg: String) -> (r: Self)
        ensures
            r@ == msg@,
    {
        RustExprError { msg: msg }
    }

    /// The message.
    pub fn description(&self) -> (r: &str)
        ensures
            r@ == self@,
    {
        self.msg.as_str()
    }
}

impl RustExprValue {
    /// A copy equal to `self`.
    pub fn duplicate(&self) -> (r: Self)
        ensures
            r == *self,
    {
        match self {
            RustExprValue::Ident(s) => RustExprValue::Ident(s.clone()),
            RustExprValue::StringLiteral(s) => RustExprValue::StringLiteral(s.clone()),
            RustExprValue::IntLiteral(i) => RustExprValue::IntLiteral(*i),
            RustExprValue::FloatLiteral(s) => RustExprValue::FloatLiteral(s.clone()),
            RustExprValue::BoolLiteral(b) => RustExprValue::BoolLiteral(*b),
        }
    }
}

/// `expr` with its innermost identifier `x` replaced by `base.x`, when `expr`
/// is a chain of attribute accesses on an identifier; `None` otherwise.
pub open spec fn spec_concat_as_get_attribute(base: RustExpr, expr: RustExpr) -> Option<RustExpr>
    decreases expr,
{
    match expr {
        RustExpr::Value(RustExprValue::Ident(new_attr)) => Some(
            RustExpr::GetAttribute(Box::new(base), new_attr),
        ),
        RustExpr::GetAttribute(inner, attr) => match spec_concat_as_get_attribute(base, *inner) {
            Some(r) => Some(RustExpr::GetAttribute(Box::new(r), attr)),
            None => None,
        },
        _ => None,
    }
}

/// The names of `x.a.b`, `[x, a, b]`, when `expr` is a chain of attribute
/// accesses on an identifier.
pub open spec fn ident_chain(expr: RustExpr) -> Option<Seq<String>>
    decreases expr,
{
    match expr {
        RustExpr::Value(RustExprValue::Ident(name)) => Some(seq![name]),
        RustExpr::GetAttribute(inner, attr) => match ident_chain(*inner) {
            Some(names) => Some(names.push(attr)),
            None => None,
        },
        _ => None,
    }
}

/// The expression under all outer attribute accesses, and the attributes
/// accessed on it, innermost first.
pub open spec fn split_attributes(expr: RustExpr) -> (RustExpr, Seq<String>)
    decreases expr,
{
    match expr {
        RustExpr::GetAttribute(inner, attr) => {
            let (b, attrs) = split_attributes(*inner);
            (b, attrs.push(attr))
        },
        _ => (expr, seq![]),
    }
}

/// The identifier a chain of attribute accesses starts from.
pub open spec fn root_ident(expr: RustExpr) -> Option<String>
    decreases expr,
{
    match expr {
        RustExpr::Value(RustExprValue::Ident(name)) => Some(name),
        RustExpr::GetAttribute(inner, _) => root_ident(*inner),
        _ => None,
    }
}

impl RustExpr {
    /// A copy equal to `self`.
    pub fn duplicate(&self) -> (r: Self)
        ensures
            r == *self,
        decreases self,
    {
        match self {
            RustExpr::Value(v) => RustExpr::Value(v.duplicate()),
            RustExpr::GetAttribute(inner, attr) => RustExpr::GetAttribute(
                Box::new((**inner).duplicate()),
                attr.clone(),
            ),
            RustExpr::GetItem(inner, index) => RustExpr::GetItem(
                Box::new((**inner).duplicate()),
                index.duplicate(),
            ),
        }
    }

    /// Reads `expr` as attribute accesses on `self`: with `self` being `a`
    /// and `expr` being `b.c`, the result is `a.b.c`. Fails with `lolwut`
    /// where `expr` is not a chain of attribute accesses on an identifier.
    pub fn concat_as_get_attribute(&self, expr: Box<RustExpr>) -> (r: Result<Box<Self>, RustExprError>)
        ensures
            r matches Ok(e) ==> spec_concat_as_get_attribute(*self, *expr) == Some(*e),
            r matches Err(err) ==> spec_concat_as_get_attribute(*self, *expr) is None
                && err@ == "lolwut"@,
        decreases *expr,
    {
        match *expr {
            RustExpr::Value(RustExprValue::Ident(new_attr)) => {
                Ok(Box::new(RustExpr::GetAttribute(Box::new(self.duplicate()), new_attr)))
            },
            RustExpr::GetAttribute(expr_box, attr) => {
                let inner = self.concat_as_get_attribute(expr_box)?;
                Ok(Box::new(RustExpr::GetAttribute(inner, attr)))
            },
            _ => Err(RustExprError::new("lolwut".to_string())),
        }
    }
}

/// Attribute access on `base` by a chain `x.a.b` gives `base.x.a.b`: the
/// result keeps the innermost expression of `base`, and its attributes are
/// those of `base` followed by the names of the chain. A chain is exactly
/// what the operation accepts.
pub proof fn lemma_concat_appends_attributes(base: RustExpr, expr: RustExpr)
    ensures
        spec_concat_as_get_attribute(base, expr) is Some <==> ident_chain(expr) is Some,
        spec_concat_as_get_attribute(base, expr) matches Some(r) ==> {
            &&& split_attributes(r).0 == split_attributes(base).0
            &&& split_attributes(r).1 == split_attributes(base).1 + ident_chain(expr)->0
        },
    decreases expr,
{
    match expr {
        RustExpr::Value(RustExprValue::Ident(name)) => {
            let r = RustExpr::GetAttribute(Box::new(base), name);
            assert(split_attributes(r).1 == split_attributes(base).1.push(name));
            assert(split_attributes(base).1 + seq![name] == split_attributes(base).1.push(name));
        },
        RustExpr::GetAttribute(inner, attr) => {
            lemma_concat_appends_attributes(base, *inner);
            if let Some(r) = spec_concat_as_get_attribute(base, *inner) {
                let names = ident_chain(*inner)->0;
                assert(split_attributes(base).1 + names.push(attr) == (split_attributes(base).1
                    + names).push(attr));
            }
        },
        _ => {},
    }
}

/// Reading attributes in steps is associative: reading `c` as attributes of
/// (`b` read as attributes of `a`) is reading (`c` read as attributes of `b`)
/// as attributes of `a`, for chains `b` and `c`.
pub proof fn lemma_concat_associative(a: RustExpr, b: RustExpr, c: RustExpr)
    requires
        ident_chain(b) is Some,
        ident_chain(c) is Some,
    ensures
        spec_concat_as_get_attribute(a, b) is Some,
        spec_concat_as_get_attribute(b, c) is Some,
        spec_concat_as_get_attribute(a, spec_concat_as_get_attribute(b, c)->0)
            == spec_concat_as_get_attribute(spec_concat_as_get_attribute(a, b)->0, c),
    decreases c,
{
    lemma_concat_appends_attributes(a, b);
    lemma_concat_appends_attributes(b, c);
    match c {
        RustExpr::Value(RustExprValue::Ident(y)) => {
            let bc = RustExpr::GetAttribute(Box::new(b), y);
            assert(spec_concat_as_get_attribute(b, c) == Some(bc));
        },
        RustExpr::GetAttribute(inner, z) => {
            lemma_concat_associative(a, b, *inner);
        },
        _ => {},
    }
}

} // verus!
