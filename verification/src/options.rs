use vstd::prelude::*;

verus! {

/// A region of the source being compiled, by its byte offsets.
#[derive(Clone, Copy, Debug)]
pub struct Span {
    pub lo: u32,
    pub hi: u32,
}

/// The value of a `const` item, as far as the options read it.
#[derive(Debug)]
pub enum ConstExpr {
    /// A string literal, with the span of the literal.
    StrLit { value: String, span: Span },
    /// Any other literal, with the span of the literal.
    OtherLit { span: Span },
    /// An expression that is not a literal.
    NotLiteral,
}

/// What an item of the template module is, as far as the options read it.
#[derive(Debug)]
pub enum ItemNode {
    /// `type Name<P, ..> = ..;` with the names of its type parameters.
    Ty { type_params: Vec<String> },
    /// `const NAME: .. = expr;`
    Const(ConstExpr),
    /// Anything else.
    Other,
}

/// An item of the module the templater is applied to.
#[derive(Debug)]
pub struct ModuleItem {
    pub ident: String,
    pub node: ItemNode,
    pub span: Span,
}

/// A type alias of the template module, by name and type parameters.
#[derive(Debug)]
pub struct DefinedType {
    pub name: String,
    pub type_params: Vec<String>,
}

/// The template source and the type aliases declared beside it.
#[derive(Debug)]
pub struct TemplaterOptions {
    pub source: String,
    pub defined_types: Vec<DefinedType>,
}

pub open spec fn names_view(v: Seq<String>) -> Seq<Seq<char>> {
    v.map_values(|s: String| s@)
}

pub open spec fn defined_type_view(t: DefinedType) -> (Seq<char>, Seq<Seq<char>>) {
    (t.name@, names_view(t.type_params@))
}

/// The type aliases as plain values: name and type parameter names.
pub open spec fn defined_types_view(v: Seq<DefinedType>) -> Seq<(Seq<char>, Seq<Seq<char>>)> {
    v.map_values(|t: DefinedType| defined_type_view(t))
}

pub open spec fn distinct_names(types: Seq<(Seq<char>, Seq<Seq<char>>)>) -> bool {
    forall|i: int, j: int|
        0 <= i < types.len() && 0 <= j < types.len() && i != j ==> #[trigger] types[i].0
            != #[trigger] types[j].0
}

pub open spec fn has_type(types: Seq<(Seq<char>, Seq<Seq<char>>)>, name: Seq<char>) -> bool {
    exists|i: int| 0 <= i < types.len() && #[trigger] types[i].0 == name
}

pub open spec fn type_position(types: Seq<(Seq<char>, Seq<Seq<char>>)>, name: Seq<char>) -> int {
    choose|i: int| 0 <= i < types.len() && #[trigger] types[i].0 == name
}

/// `types` with `name` bound to `params`: an alias declared again replaces
/// the earlier one in its place, a new one goes last.
pub open spec fn insert_type(
    types: Seq<(Seq<char>, Seq<Seq<char>>)>,
    name: Seq<char>,
    params: Seq<Seq<char>>,
) -> Seq<(Seq<char>, Seq<Seq<char>>)> {
    if has_type(types, name) {
        types.update(type_position(types, name), (name, params))
    } else {
        types.push((name, params))
    }
}

/// The parameters of the alias named `name`, where there is one.
pub open spec fn lookup_type(types: Seq<(Seq<char>, Seq<Seq<char>>)>, name: Seq<char>) -> Option<
    Seq<Seq<char>>,
> {
    if has_type(types, name) {
        Some(types[type_position(types, name)].1)
    } else {
        None
    }
}

/// Looking up an alias finds it wherever it was declared: the lookup gives
/// `Some(params)` exactly when some entry, at any position, is `name` bound
/// to `params`, and `None` exactly when no entry has that name.
pub proof fn lemma_lookup_type_any_position(types: Seq<(Seq<char>, Seq<Seq<char>>)>, name: Seq<char>)
    requires
        distinct_names(types),
    ensures
        forall|i: int|
            0 <= i < types.len() && #[trigger] types[i].0 == name ==> lookup_type(types, name)
                == Some(types[i].1),
        lookup_type(types, name) matches Some(params) ==> exists|i: int|
            0 <= i < types.len() && #[trigger] types[i] == (name, params),
        lookup_type(types, name) is None <==> forall|i: int|
            0 <= i < types.len() ==> #[trigger] types[i].0 != name,
{
    if has_type(types, name) {
        let c = type_position(types, name);
        assert(types[c] == (name, types[c].1));
        assert forall|i: int| 0 <= i < types.len() && #[trigger] types[i].0 == name implies lookup_type(
            types,
            name,
        ) == Some(types[i].1) by {
            assert(types[c].0 == name);
        }
    }
}

/// Declaring an alias binds its name to its parameters, whatever they are
/// (none included), and keeps every alias of another name.
pub proof fn lemma_insert_type_binds(
    types: Seq<(Seq<char>, Seq<Seq<char>>)>,
    name: Seq<char>,
    params: Seq<Seq<char>>,
)
    requires
        distinct_names(types),
    ensures
        exists|i: int|
            0 <= i < insert_type(types, name, params).len() && #[trigger] insert_type(
                types,
                name,
                params,
            )[i] == (name, params),
        forall|i: int|
            0 <= i < types.len() && types[i].0 != name ==> exists|j: int|
                0 <= j < insert_type(types, name, params).len() && #[trigger] insert_type(
                    types,
                    name,
                    params,
                )[j] == #[trigger] types[i],
        lookup_type(insert_type(types, name, params), name) == Some(params),
{
    let r = insert_type(types, name, params);
    let p = if has_type(types, name) {
        type_position(types, name)
    } else {
        types.len() as int
    };
    if has_type(types, name) {
        assert(r == types.update(p, (name, params)));
    } else {
        assert(r == types.push((name, params)));
    }
    assert(r[p] == (name, params));
    assert forall|i: int| 0 <= i < types.len() && types[i].0 != name implies exists|j: int|
        0 <= j < r.len() && #[trigger] r[j] == #[trigger] types[i] by {
        if has_type(types, name) {
            assert(types[p].0 == name);
        }
        assert(r[i] == types[i]);
    }
    assert forall|i: int, j: int|
        0 <= i < r.len() && 0 <= j < r.len() && i != j implies #[trigger] r[i].0 != #[trigger] r[j].0 by {
        if has_type(types, name) {
            assert(types[p].0 == name);
            if i != p && j != p {
                assert(r[i] == types[i] && r[j] == types[j]);
            } else if i == p {
                assert(r[j] == types[j]);
            } else {
                assert(r[i] == types[i]);
            }
        } else {
            if i < types.len() && j < types.len() {
                assert(r[i] == types[i] && r[j] == types[j]);
            } else if i < types.len() {
                assert(r[i] == types[i]);
            } else {
                assert(r[j] == types[j]);
            }
        }
    }
    lemma_lookup_type_any_position(r, name);
    assert(r[p].0 == name);
}

fn copy_names(v: &Vec<String>) -> (r: Vec<String>)
    ensures
        names_view(r@) == names_view(v@),
{
    let mut r: Vec<String> = Vec::new();
    let n = v.len();
    let mut i: usize = 0;
    while i < n
        invariant
            n == v@.len(),
            i <= n,
            r@.len() == i,
            forall|k: int| 0 <= k < i ==> #[trigger] r@[k]@ == v@[k]@,
        decreases n - i,
    {
        r.push(v[i].clone());
        i = i + 1;
    }
    assert(names_view(r@) =~= names_view(v@));
    r
}

impl DefinedType {
    pub fn duplicate(&self) -> (r: Self)
        ensures
            defined_type_view(r) == defined_type_view(*self),
    {
        DefinedType { name: self.name.clone(), type_params: copy_names(&self.type_params) }
    }
}

/// Binds `name` to `type_params` in `types`, as `insert_type` says.
pub fn insert_defined_type(types: &mut Vec<DefinedType>, name: &String, type_params: &Vec<String>)
    requires
        distinct_names(defined_types_view(old(types)@)),
    ensures
        defined_types_view(final(types)@) == insert_type(
            defined_types_view(old(types)@),
            name@,
            names_view(type_params@),
        ),
        distinct_names(defined_types_view(final(types)@)),
{
    let ghost old_view = defined_types_view(types@);
    let n = types.len();
    let mut i: usize = 0;
    while i < n
        invariant
            n == types.len(),
            i <= n,
            types@ == old(types)@,
            old_view == defined_types_view(types@),
            distinct_names(old_view),
            forall|j: int| 0 <= j < i ==> old_view[j].0 != name@,
        decreases n - i,
    {
        if types[i].name == *name {
            let entry = DefinedType { name: name.clone(), type_params: copy_names(type_params) };
            types.set(i, entry);
            proof {
                let c = type_position(old_view, name@);
                assert(old_view[i as int].0 == name@);
                assert(c == i);
                assert(defined_types_view(types@) =~= old_view.update(
                    i as int,
                    (name@, names_view(type_params@)),
                ));
            }
            return;
        }
        i = i + 1;
    }
    types.push(DefinedType { name: name.clone(), type_params: copy_names(type_params) });
    assert(defined_types_view(types@) =~= old_view.push((name@, names_view(type_params@))));
}

/// The parameters of the alias named `name` in `types`, where there is one.
pub fn find_defined_type<'a>(types: &'a Vec<DefinedType>, name: &String) -> (r: Option<&'a DefinedType>)
    requires
        distinct_names(defined_types_view(types@)),
    ensures
        r is None <==> lookup_type(defined_types_view(types@), name@) is None,
        r matches Some(t) ==> t.name@ == name@ && Some(names_view(t.type_params@)) == lookup_type(
            defined_types_view(types@),
            name@,
        ),
        r matches Some(t) ==> exists|i: int|
            0 <= i < types@.len() && defined_type_view(#[trigger] types@[i]) == defined_type_view(*t),
        r is None <==> forall|i: int| 0 <= i < types@.len() ==> #[trigger] types@[i].name@ != name@,
{
    let ghost tv = defined_types_view(types@);
    let n = types.len();
    let mut i: usize = 0;
    while i < n
        invariant
            n == types.len(),
            i <= n,
            tv == defined_types_view(types@),
            distinct_names(tv),
            forall|j: int| 0 <= j < i ==> tv[j].0 != name@,
        decreases n - i,
    {
        if types[i].name == *name {
            proof {
                assert(tv[i as int].0 == name@);
                let c = type_position(tv, name@);
                assert(c == i);
            }
            assert(defined_type_view(types@[i as int]) == tv[i as int]);
            return Some(&types[i]);
        }
        i = i + 1;
    }
    proof {
        if has_type(tv, name@) {
            let c = type_position(tv, name@);
            assert(tv[c].0 == name@);
        }
        assert forall|i: int| 0 <= i < types@.len() implies #[trigger] types@[i].name@ != name@ by {
            assert(tv[i] == defined_type_view(types@[i]));
        }
    }
    None
}

/// The message of a `const` whose value is not a string literal.
pub open spec fn expected_str_literal() -> Seq<char> {
    "Expected &'static str"@
}

/// The string a `const` is set to, or the error and its span: the literal's
/// own span for a literal of another kind, `sp` for an expression that is
/// not a literal.
pub open spec fn spec_str_literal_value(expr: ConstExpr, sp: Span) -> Result<Seq<char>, (Span, Seq<char>)> {
    match expr {
        ConstExpr::StrLit { value, .. } => Ok(value@),
        ConstExpr::OtherLit { span } => Err((span, expected_str_literal())),
        ConstExpr::NotLiteral => Err((sp, expected_str_literal())),
    }
}

/// The value of a `const` that must be a string literal.
pub fn _str_literal_value(expr: &ConstExpr, sp: Span) -> (r: Result<String, (Span, &'static str)>)
    ensures
        match r {
            Ok(s) => spec_str_literal_value(*expr, sp) == Ok::<Seq<char>, (Span, Seq<char>)>(s@),
            Err((span, msg)) => spec_str_literal_value(*expr, sp) == Err::<Seq<char>, (Span, Seq<char>)>((span, msg@)),
        },
{
    match expr {
        ConstExpr::StrLit { value, .. } => Ok(value.clone()),
        ConstExpr::OtherLit { span } => Err((*span, "Expected &'static str")),
        ConstExpr::NotLiteral => Err((sp, "Expected &'static str")),
    }
}

/// The items of the module the templater is applied to; `None` stands for an
/// item that is not a module, which is an error at `sp`.
pub fn module_items<'a>(sp: Span, module: Option<&'a Vec<ModuleItem>>) -> (r: Result<
    &'a Vec<ModuleItem>,
    (Span, String),
>)
    ensures
        match module {
            Some(items) => r matches Ok(found) && found == items,
            None => r matches Err((span, msg)) && span == sp && msg@
                == "Expected module declaration after decorator."@,
        },
{
    match module {
        Some(items) => Ok(items),
        None => Err((sp, "Expected module declaration after decorator.".to_string())),
    }
}

/// What the scan of the module asks for after one item.
#[derive(Debug)]
pub enum ScanStep {
    /// Go on with the next item.
    Continue,
    /// Read the template source from the file at this path and hand it to
    /// `OptionsScanner::source_read`, or stop with the read's error at the
    /// module's span.
    ReadFile(String),
    /// Stop: the module is in error at this span.
    Fail(Span, String),
}

pub enum SpecScanStep {
    Continue,
    ReadFile(Seq<char>),
    Fail(Span, Seq<char>),
}

pub open spec fn step_view(step: ScanStep) -> SpecScanStep {
    match step {
        ScanStep::Continue => SpecScanStep::Continue,
        ScanStep::ReadFile(path) => SpecScanStep::ReadFile(path@),
        ScanStep::Fail(span, msg) => SpecScanStep::Fail(span, msg@),
    }
}

pub open spec fn already_specified() -> Seq<char> {
    "Template source already specified."@
}

pub open spec fn expected_const() -> Seq<char> {
    "Expected const &'static str"@
}

pub open spec fn no_source() -> Seq<char> {
    "Define constant SOURCE or SOURCE_FILE"@
}

pub open spec fn names_source(item: ModuleItem) -> bool {
    item.ident@ == "SOURCE"@
}

pub open spec fn names_source_file(item: ModuleItem) -> bool {
    item.ident@ == "SOURCE_FILE"@
}

/// What scanning `item` asks for, with `source` found so far and `sp` the
/// module's span. A type alias is recorded under any name. `SOURCE` must be
/// a `const` string literal, and so must `SOURCE_FILE`, which names the file
/// to read the source from; a second source of either kind is an error.
pub open spec fn expected_step(source: Option<Seq<char>>, sp: Span, item: ModuleItem) -> SpecScanStep {
    match item.node {
        ItemNode::Ty { .. } => SpecScanStep::Continue,
        ItemNode::Const(expr) => if names_source(item) || names_source_file(item) {
            if source is Some {
                SpecScanStep::Fail(sp, already_specified())
            } else {
                match spec_str_literal_value(expr, sp) {
                    Ok(s) => if names_source(item) {
                        SpecScanStep::Continue
                    } else {
                        SpecScanStep::ReadFile(s)
                    },
                    Err((span, msg)) => SpecScanStep::Fail(span, msg),
                }
            }
        } else {
            SpecScanStep::Continue
        },
        ItemNode::Other => if names_source(item) || names_source_file(item) {
            SpecScanStep::Fail(item.span, expected_const())
        } else {
            SpecScanStep::Continue
        },
    }
}

/// The source found so far after scanning `item`.
pub open spec fn next_source(source: Option<Seq<char>>, sp: Span, item: ModuleItem) -> Option<
    Seq<char>,
> {
    match item.node {
        ItemNode::Const(expr) => if names_source(item) && source is None {
            match spec_str_literal_value(expr, sp) {
                Ok(s) => Some(s),
                Err(_) => source,
            }
        } else {
            source
        },
        _ => source,
    }
}

/// The type aliases found so far after scanning `item`.
pub open spec fn next_types(types: Seq<(Seq<char>, Seq<Seq<char>>)>, item: ModuleItem) -> Seq<
    (Seq<char>, Seq<Seq<char>>),
> {
    match item.node {
        ItemNode::Ty { type_params } => insert_type(types, item.ident@, names_view(type_params@)),
        _ => types,
    }
}

proof fn lemma_next_types_binds(types: Seq<(Seq<char>, Seq<Seq<char>>)>, item: ModuleItem)
    requires
        distinct_names(types),
    ensures
        item.node matches ItemNode::Ty { type_params } ==> exists|i: int|
            0 <= i < next_types(types, item).len() && #[trigger] next_types(types, item)[i] == (
                item.ident@,
                names_view(type_params@),
            ),
        forall|i: int|
            0 <= i < types.len() && types[i].0 != item.ident@ ==> exists|j: int|
                0 <= j < next_types(types, item).len() && #[trigger] next_types(types, item)[j]
                    == #[trigger] types[i],
        !(item.node is Ty) ==> next_types(types, item) == types,
{
    if item.node is Ty {
        let params = names_view(item.node->type_params@);
        let r = insert_type(types, item.ident@, params);
        lemma_insert_type_binds(types, item.ident@, params);
        assert(next_types(types, item) == r);
        let w = choose|i: int| 0 <= i < r.len() && #[trigger] r[i] == (item.ident@, params);
        assert(next_types(types, item)[w] == (item.ident@, params));
        assert forall|i: int| 0 <= i < types.len() && types[i].0 != item.ident@ implies exists|j: int|
            0 <= j < next_types(types, item).len() && #[trigger] next_types(types, item)[j]
                == #[trigger] types[i] by {
            let j = choose|j: int| 0 <= j < r.len() && #[trigger] r[j] == #[trigger] types[i];
            assert(next_types(types, item)[j] == types[i]);
        }
    } else {
        assert forall|i: int| 0 <= i < types.len() && types[i].0 != item.ident@ implies exists|j: int|
            0 <= j < next_types(types, item).len() && #[trigger] next_types(types, item)[j]
                == #[trigger] types[i] by {
            assert(next_types(types, item)[i] == types[i]);
        }
    }
}

/// Reads the options of a template module one item at a time; between items
/// the caller reads any file that a `SOURCE_FILE` names.
pub struct OptionsScanner {
    template_source: Option<String>,
    defined_types: Vec<DefinedType>,
}

fn is_named(ident: &String, name: &str) -> (r: bool)
    ensures
        r == (ident@ == name@),
{
    *ident == name.to_string()
}

impl OptionsScanner {
    pub closed spec fn source_view(&self) -> Option<Seq<char>> {
        match self.template_source {
            Some(s) => Some(s@),
            None => None,
        }
    }

    pub closed spec fn types_view(&self) -> Seq<(Seq<char>, Seq<Seq<char>>)> {
        defined_types_view(self.defined_types@)
    }

    pub closed spec fn wf(&self) -> bool {
        distinct_names(self.types_view())
    }

    /// A scan that has found nothing yet.
    pub fn new() -> (r: Self)
        ensures
            r.wf(),
            r.source_view() is None,
            r.types_view() == Seq::<(Seq<char>, Seq<Seq<char>>)>::empty(),
    {
        let r = OptionsScanner { template_source: None, defined_types: Vec::new() };
        assert(r.types_view() =~= Seq::<(Seq<char>, Seq<Seq<char>>)>::empty());
        r
    }

    /// Scans one item of the module whose span is `sp`.
    pub fn scan_item(&mut self, sp: Span, item: &ModuleItem) -> (step: ScanStep)
        requires
            old(self).wf(),
        ensures
            final(self).wf(),
            step_view(step) == expected_step(old(self).source_view(), sp, *item),
            final(self).source_view() == next_source(old(self).source_view(), sp, *item),
            final(self).types_view() == next_types(old(self).types_view(), *item),
            item.node matches ItemNode::Ty { type_params } ==> exists|i: int|
                0 <= i < final(self).types_view().len() && #[trigger] final(self).types_view()[i] == (
                    item.ident@,
                    names_view(type_params@),
                ),
            forall|i: int|
                0 <= i < old(self).types_view().len() && old(self).types_view()[i].0 != item.ident@
                    ==> exists|j: int|
                    0 <= j < final(self).types_view().len() && #[trigger] final(self).types_view()[j]
                        == #[trigger] old(self).types_view()[i],
            !(item.node is Ty) ==> final(self).types_view() == old(self).types_view(),
    {
        proof {
            lemma_next_types_binds(old(self).types_view(), *item);
        }
        let is_source = is_named(&item.ident, "SOURCE");
        let is_source_file = is_named(&item.ident, "SOURCE_FILE");
        match &item.node {
            ItemNode::Ty { type_params } => {
                insert_defined_type(&mut self.defined_types, &item.ident, type_params);
                ScanStep::Continue
            },
            ItemNode::Const(expr) => {
                if is_source || is_source_file {
                    if self.template_source.is_some() {
                        return ScanStep::Fail(sp, "Template source already specified.".to_string());
                    }
                    match _str_literal_value(expr, sp) {
                        Ok(s) => {
                            if is_source {
                                self.template_source = Some(s);
                                ScanStep::Continue
                            } else {
                                ScanStep::ReadFile(s)
                            }
                        },
                        Err((span, msg)) => ScanStep::Fail(span, msg.to_string()),
                    }
                } else {
                    ScanStep::Continue
                }
            },
            ItemNode::Other => {
                if is_source || is_source_file {
                    ScanStep::Fail(item.span, "Expected const &'static str".to_string())
                } else {
                    ScanStep::Continue
                }
            },
        }
    }

    /// Takes the text read from the file that `SOURCE_FILE` names as the
    /// template source.
    pub fn source_read(&mut self, text: String)
        requires
            old(self).wf(),
        ensures
            final(self).wf(),
            final(self).source_view() == Some(text@),
            final(self).types_view() == old(self).types_view(),
    {
        self.template_source = Some(text);
    }

    /// The options found, once every item is scanned: an error at `sp` where
    /// no template source was given.
    pub fn finish(self, sp: Span) -> (r: Result<TemplaterOptions, (Span, String)>)
        requires
            self.wf(),
        ensures
            match r {
                Ok(o) => {
                    &&& self.source_view() == Some(o.source@)
                    &&& defined_types_view(o.defined_types@) == self.types_view()
                    &&& distinct_names(defined_types_view(o.defined_types@))
                },
                Err((span, msg)) => {
                    &&& self.source_view() is None
                    &&& span == sp
                    &&& msg@ == no_source()
                },
            },
    {
        match self.template_source {
            Some(source) => Ok(TemplaterOptions { source: source, defined_types: self.defined_types }),
            None => Err((sp, "Define constant SOURCE or SOURCE_FILE".to_string())),
        }
    }
}

} // verus!
