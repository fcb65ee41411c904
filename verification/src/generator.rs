use vstd::prelude::*;

use crate::utils::{_push_capitalized, capitalizable, capitalized};

verus! {

/// A template whose shown pieces are plain variables, each with an optional
/// format spec: `{{ name }}` or `{{ name:fmt }}`.
#[derive(Debug)]
pub struct VariableTemplate {
    pub children: Vec<VariableTemplateExpr>,
}

#[derive(Debug)]
pub enum VariableTemplateExpr {
    Text(String),
    ShowVariable(String, Option<String>),
}

/// Bit number of the `Show` bound.
pub const TRAIT_SHOW: u16 = 0;

/// Bit number of the `PartialEq` bound.
pub const TRAIT_PARTIAL_EQ: u16 = 1;

/// Bit number of the `Eq` bound.
pub const TRAIT_EQ: u16 = 2;

/// Name of the bound with bit number `i`.
pub open spec fn trait_flag_name(i: int) -> Seq<char> {
    if i == 0 {
        "Show"@
    } else if i == 1 {
        "PartialEq"@
    } else {
        "Eq"@
    }
}

fn all_trait_flags(i: usize) -> (r: &'static str)
    requires
        i < 3,
    ensures
        r@ == trait_flag_name(i as int),
{
    if i == 0 {
        "Show"
    } else if i == 1 {
        "PartialEq"
    } else {
        "Eq"
    }
}

/// The variables with their bound flags, as plain values.
pub open spec fn flags_view(v: Seq<(String, u16)>) -> Seq<(Seq<char>, u16)> {
    v.map_values(|p: (String, u16)| (p.0@, p.1))
}

pub open spec fn distinct_keys(entries: Seq<(Seq<char>, u16)>) -> bool {
    forall|i: int, j: int|
        0 <= i < entries.len() && 0 <= j < entries.len() && i != j ==> #[trigger] entries[i].0
            != #[trigger] entries[j].0
}

pub open spec fn has_key(entries: Seq<(Seq<char>, u16)>, key: Seq<char>) -> bool {
    exists|i: int| 0 <= i < entries.len() && #[trigger] entries[i].0 == key
}

pub open spec fn key_position(entries: Seq<(Seq<char>, u16)>, key: Seq<char>) -> int {
    choose|i: int| 0 <= i < entries.len() && #[trigger] entries[i].0 == key
}

/// `entries` with bit `flag` set for `key`; a new key goes last.
pub open spec fn add_flag(entries: Seq<(Seq<char>, u16)>, key: Seq<char>, flag: u16) -> Seq<
    (Seq<char>, u16),
> {
    if has_key(entries, key) {
        let i = key_position(entries, key);
        entries.update(i, (key, entries[i].1 | (1u16 << flag)))
    } else {
        entries.push((key, 1u16 << flag))
    }
}

/// Sets bit `flag` of the flags of `key` in `holder`, adding `key` with that
/// one bit where it is not there yet.
pub fn _hash_map_add_flag(holder: &mut Vec<(String, u16)>, key: &String, flag: u16)
    requires
        flag < 16,
        distinct_keys(flags_view(old(holder)@)),
    ensures
        flags_view(final(holder)@) == add_flag(flags_view(old(holder)@), key@, flag),
        distinct_keys(flags_view(final(holder)@)),
{
    let ghost old_view = flags_view(holder@);
    let n = holder.len();
    let mut i: usize = 0;
    while i < n
        invariant
            n == holder.len(),
            i <= n,
            flag < 16,
            holder@ == old(holder)@,
            old_view == flags_view(holder@),
            distinct_keys(old_view),
            forall|j: int| 0 <= j < i ==> old_view[j].0 != key@,
        decreases n - i,
    {
        if holder[i].0 == *key {
            let new_flag = holder[i].1 | (1u16 << flag);
            holder.set(i, (key.clone(), new_flag));
            proof {
                let c = key_position(old_view, key@);
                assert(old_view[i as int].0 == key@);
                assert(c == i);
                assert(flags_view(holder@) =~= old_view.update(i as int, (key@, old_view[i as int].1 | (1u16 << flag))));
            }
            return;
        }
        i = i + 1;
    }
    holder.push((key.clone(), 1u16 << flag));
    assert(flags_view(holder@) =~= old_view.push((key@, 1u16 << flag)));
}

/// The flags of each key, as a map.
pub open spec fn flags_map(entries: Seq<(Seq<char>, u16)>) -> Map<Seq<char>, u16> {
    Map::new(|k: Seq<char>| has_key(entries, k), |k: Seq<char>| entries[key_position(entries, k)].1)
}

/// The flags of `key` in `m` once `bit` is set.
pub open spec fn with_bit(m: Map<Seq<char>, u16>, key: Seq<char>, bit: u16) -> u16 {
    if m.contains_key(key) {
        m[key] | bit
    } else {
        bit
    }
}

proof fn lemma_position_unique(entries: Seq<(Seq<char>, u16)>, key: Seq<char>, j: int)
    requires
        distinct_keys(entries),
        0 <= j < entries.len(),
        entries[j].0 == key,
    ensures
        has_key(entries, key),
        key_position(entries, key) == j,
{
    assert(entries[j].0 == key);
    let c = key_position(entries, key);
    assert(entries[c].0 == key);
}

proof fn lemma_add_flag_map(entries: Seq<(Seq<char>, u16)>, key: Seq<char>, flag: u16)
    requires
        distinct_keys(entries),
    ensures
        distinct_keys(add_flag(entries, key, flag)),
        flags_map(add_flag(entries, key, flag)) == flags_map(entries).insert(
            key,
            with_bit(flags_map(entries), key, 1u16 << flag),
        ),
{
    let r = add_flag(entries, key, flag);
    let m = flags_map(entries);
    let expected = m.insert(key, with_bit(m, key, 1u16 << flag));
    if has_key(entries, key) {
        let p = key_position(entries, key);
        assert(r == entries.update(p, (key, entries[p].1 | (1u16 << flag))));
        assert forall|i: int, j: int|
            0 <= i < r.len() && 0 <= j < r.len() && i != j implies #[trigger] r[i].0
            != #[trigger] r[j].0 by {
            if i != p && j != p {
                assert(r[i] == entries[i] && r[j] == entries[j]);
            } else if i == p {
                assert(r[j] == entries[j]);
                assert(entries[p].0 == key);
            } else {
                assert(r[i] == entries[i]);
                assert(entries[p].0 == key);
            }
        }
        assert forall|k: Seq<char>| #[trigger] flags_map(r).contains_key(k) <==> expected.contains_key(k) by {
            if has_key(r, k) {
                let j = key_position(r, k);
                if j != p {
                    assert(entries[j].0 == k);
                }
            }
            if has_key(entries, k) {
                let j = key_position(entries, k);
                if j != p {
                    assert(r[j].0 == k);
                } else {
                    assert(r[p].0 == k);
                }
            }
            if k == key {
                assert(r[p].0 == k);
            }
        }
        assert forall|k: Seq<char>| #[trigger] flags_map(r).contains_key(k) implies flags_map(r)[k]
            == expected[k] by {
            let j = key_position(r, k);
            assert(r[j].0 == k);
            if j == p {
                assert(k == key);
                lemma_position_unique(r, k, p);
            } else {
                assert(entries[j].0 == k);
                lemma_position_unique(entries, k, j);
                lemma_position_unique(r, k, j);
                assert(k != key);
            }
        }
        assert(flags_map(r) =~= expected);
    } else {
        assert(r == entries.push((key, 1u16 << flag)));
        assert forall|i: int, j: int|
            0 <= i < r.len() && 0 <= j < r.len() && i != j implies #[trigger] r[i].0
            != #[trigger] r[j].0 by {
            if i == entries.len() {
                assert(r[j] == entries[j]);
            } else if j == entries.len() {
                assert(r[i] == entries[i]);
            } else {
                assert(r[i] == entries[i]);
                assert(r[j] == entries[j]);
            }
        }
        assert forall|k: Seq<char>| #[trigger] flags_map(r).contains_key(k) <==> expected.contains_key(k) by {
            if has_key(r, k) {
                let j = key_position(r, k);
                if j < entries.len() {
                    assert(entries[j].0 == k);
                }
            }
            if has_key(entries, k) {
                let j = key_position(entries, k);
                assert(r[j].0 == k);
            }
            if k == key {
                assert(r[entries.len() as int].0 == k);
            }
        }
        assert forall|k: Seq<char>| #[trigger] flags_map(r).contains_key(k) implies flags_map(r)[k]
            == expected[k] by {
            let j = key_position(r, k);
            assert(r[j].0 == k);
            if j == entries.len() {
                assert(k == key);
                lemma_position_unique(r, k, j);
            } else {
                assert(entries[j].0 == k);
                lemma_position_unique(entries, k, j);
                lemma_position_unique(r, k, j);
            }
        }
        assert(flags_map(r) =~= expected);
    }
}

/// Setting a flag that is already set changes nothing.
pub proof fn lemma_add_flag_idempotent(entries: Seq<(Seq<char>, u16)>, key: Seq<char>, flag: u16)
    requires
        distinct_keys(entries),
    ensures
        add_flag(add_flag(entries, key, flag), key, flag) == add_flag(entries, key, flag),
{
    let r1 = add_flag(entries, key, flag);
    let b = 1u16 << flag;
    assert(forall|x: u16, y: u16| #[trigger] ((x | y) | y) == x | y) by (bit_vector);
    assert(forall|y: u16| #[trigger] (y | y) == y) by (bit_vector);
    lemma_add_flag_map(entries, key, flag);
    let p = if has_key(entries, key) {
        key_position(entries, key)
    } else {
        entries.len() as int
    };
    if has_key(entries, key) {
        assert(r1 == entries.update(p, (key, entries[p].1 | b)));
    } else {
        assert(r1 == entries.push((key, b)));
    }
    assert(r1[p].0 == key);
    lemma_position_unique(r1, key, p);
    assert(r1[p].1 | b == r1[p].1);
    assert(add_flag(r1, key, flag) =~= r1);
}

/// Setting two flags gives the same flags whatever the order; only the
/// order in which new keys are listed can differ.
pub proof fn lemma_add_flag_commutes(
    entries: Seq<(Seq<char>, u16)>,
    k1: Seq<char>,
    f1: u16,
    k2: Seq<char>,
    f2: u16,
)
    requires
        distinct_keys(entries),
    ensures
        flags_map(add_flag(add_flag(entries, k1, f1), k2, f2)) == flags_map(
            add_flag(add_flag(entries, k2, f2), k1, f1),
        ),
{
    let m = flags_map(entries);
    let b1 = 1u16 << f1;
    let b2 = 1u16 << f2;
    lemma_add_flag_map(entries, k1, f1);
    lemma_add_flag_map(add_flag(entries, k1, f1), k2, f2);
    lemma_add_flag_map(entries, k2, f2);
    lemma_add_flag_map(add_flag(entries, k2, f2), k1, f1);
    let m1 = m.insert(k1, with_bit(m, k1, b1));
    let m2 = m.insert(k2, with_bit(m, k2, b2));
    assert(forall|x: u16, y: u16, z: u16| #[trigger] ((x | y) | z) == (x | z) | y) by (bit_vector);
    assert(forall|y: u16, z: u16| #[trigger] (y | z) == z | y) by (bit_vector);
    if k1 == k2 {
        assert(m1.insert(k2, with_bit(m1, k2, b2)) =~= m2.insert(k1, with_bit(m2, k1, b1)));
    } else {
        assert(with_bit(m1, k2, b2) == with_bit(m, k2, b2));
        assert(with_bit(m2, k1, b1) == with_bit(m, k1, b1));
        assert(m1.insert(k2, with_bit(m1, k2, b2)) =~= m2.insert(k1, with_bit(m2, k1, b1)));
    }
}

/// The `print!` line generated for one piece of the template.
pub open spec fn fn_line(e: VariableTemplateExpr) -> Seq<char> {
    match e {
        VariableTemplateExpr::Text(s) => "    print!(\"{}\", r#\""@ + s@ + "\"#);\n"@,
        VariableTemplateExpr::ShowVariable(var, Some(fmt)) => "    print!(\"{"@ + fmt@ + "}\", "@
            + var@ + ");\n"@,
        VariableTemplateExpr::ShowVariable(var, None) => "    print!(\"{}\", "@ + var@ + ");\n"@,
    }
}

/// The body of the generated function: one line per piece, in order.
pub open spec fn fn_code(children: Seq<VariableTemplateExpr>) -> Seq<char>
    decreases children.len(),
{
    if children.len() == 0 {
        seq![]
    } else {
        fn_code(children.drop_last()) + fn_line(children.last())
    }
}

proof fn lemma_fn_code_append(a: Seq<VariableTemplateExpr>, b: Seq<VariableTemplateExpr>)
    ensures
        fn_code(a + b) == fn_code(a) + fn_code(b),
    decreases b.len(),
{
    if b.len() == 0 {
        assert(a + b =~= a);
    } else {
        lemma_fn_code_append(a, b.drop_last());
        assert((a + b).drop_last() =~= a + b.drop_last());
        assert((a + b).last() == b.last());
    }
}

/// The body of the generated function prints every piece, in order, each by
/// a line of its own: a text piece, whatever it holds, by a `print!` of that
/// very text as a raw string, and a variable by a `print!` of the variable
/// with its format spec.
pub proof fn lemma_every_piece_printed(children: Seq<VariableTemplateExpr>, i: int)
    requires
        0 <= i < children.len(),
    ensures
        fn_code(children) == fn_code(children.take(i)) + match children[i] {
            VariableTemplateExpr::Text(s) => "    print!(\"{}\", r#\""@ + s@ + "\"#);\n"@,
            VariableTemplateExpr::ShowVariable(var, Some(fmt)) => "    print!(\"{"@ + fmt@
                + "}\", "@ + var@ + ");\n"@,
            VariableTemplateExpr::ShowVariable(var, None) => "    print!(\"{}\", "@ + var@
                + ");\n"@,
        } + fn_code(children.skip(i + 1)),
{
    let one = seq![children[i]];
    assert(children =~= children.take(i) + one + children.skip(i + 1));
    lemma_fn_code_append(children.take(i) + one, children.skip(i + 1));
    lemma_fn_code_append(children.take(i), one);
    assert(one.drop_last() =~= Seq::<VariableTemplateExpr>::empty());
    assert(fn_code(one) == fn_code(one.drop_last()) + fn_line(one.last()));
}

/// The variables the pieces show, in order of first appearance, each with
/// the bounds its uses ask for.
pub open spec fn variables_of(children: Seq<VariableTemplateExpr>) -> Seq<(Seq<char>, u16)>
    decreases children.len(),
{
    if children.len() == 0 {
        seq![]
    } else {
        match children.last() {
            VariableTemplateExpr::ShowVariable(var, _) => add_flag(
                variables_of(children.drop_last()),
                var@,
                TRAIT_SHOW,
            ),
            VariableTemplateExpr::Text(_) => variables_of(children.drop_last()),
        }
    }
}

/// The bounds of a type parameter from bit `i` on, the first one after `sep`
/// and the others after ` + `.
pub open spec fn bound_list(flags: u16, i: int, sep: Seq<char>) -> Seq<char>
    decreases 3 - i,
{
    if i >= 3 || i < 0 {
        seq![]
    } else if flags & (1u16 << (i as u16)) != 0 {
        sep + trait_flag_name(i) + bound_list(flags, i + 1, " + "@)
    } else {
        bound_list(flags, i + 1, sep)
    }
}

/// One type parameter per variable.
pub open spec fn generic_decls(vars: Seq<(Seq<char>, u16)>) -> Seq<char>
    decreases vars.len(),
{
    if vars.len() == 0 {
        seq![]
    } else {
        let v = vars.last();
        generic_decls(vars.drop_last()) + generic_decl(v.0, v.1)
    }
}

pub open spec fn generic_decl(var: Seq<char>, flags: u16) -> Seq<char> {
    "\n    Type"@ + capitalized(var) + bound_list(flags, 0, ": "@) + ","@
}

/// One field per variable, of its type parameter.
pub open spec fn field_decls(vars: Seq<(Seq<char>, u16)>) -> Seq<char>
    decreases vars.len(),
{
    if vars.len() == 0 {
        seq![]
    } else {
        let v = vars.last();
        field_decls(vars.drop_last()) + field_decl(v.0)
    }
}

pub open spec fn field_decl(var: Seq<char>) -> Seq<char> {
    "\n    "@ + var + ": Type"@ + capitalized(var) + ","@
}

/// The Rust source generated for template `name`: an argument struct with a
/// field per variable, and a function that prints the template.
pub open spec fn generated_code(name: Seq<char>, children: Seq<VariableTemplateExpr>) -> Seq<char> {
    let vars = variables_of(children);
    "struct TemplateArgs"@ + capitalized(name) + "\n<"@ + generic_decls(vars) + "\n>"@ + " {"@
        + field_decls(vars) + "\n}\n\n"@ + "fn "@ + name + "(args: &TemplateArgs"@ + capitalized(
        name,
    ) + ") {\n"@ + fn_code(children) + "}\n\n"@
}

/// The variable a piece shows, if any.
pub open spec fn shown_variable(e: VariableTemplateExpr) -> Option<Seq<char>> {
    match e {
        VariableTemplateExpr::ShowVariable(var, _) => Some(var@),
        VariableTemplateExpr::Text(_) => None,
    }
}

pub open spec fn shows_variable(children: Seq<VariableTemplateExpr>, name: Seq<char>) -> bool {
    exists|i: int| 0 <= i < children.len() && #[trigger] shown_variable(children[i]) == Some(name)
}

proof fn lemma_add_show_flag(entries: Seq<(Seq<char>, u16)>, key: Seq<char>)
    requires
        distinct_keys(entries),
        forall|k: int| 0 <= k < entries.len() ==> #[trigger] entries[k].1 == 1u16,
    ensures
        distinct_keys(add_flag(entries, key, TRAIT_SHOW)),
        forall|k: int|
            0 <= k < add_flag(entries, key, TRAIT_SHOW).len() ==> #[trigger] add_flag(
                entries,
                key,
                TRAIT_SHOW,
            )[k].1 == 1u16,
        forall|name: Seq<char>|
            has_key(add_flag(entries, key, TRAIT_SHOW), name) <==> (has_key(entries, name) || name
                == key),
{
    let r = add_flag(entries, key, TRAIT_SHOW);
    assert((1u16 | (1u16 << 0u16)) == 1u16) by (bit_vector);
    assert((1u16 << 0u16) == 1u16) by (bit_vector);
    if has_key(entries, key) {
        let c = key_position(entries, key);
        assert(r == entries.update(c, (key, entries[c].1 | (1u16 << TRAIT_SHOW))));
        assert forall|name: Seq<char>| has_key(r, name) <==> (has_key(entries, name) || name == key) by {
            if has_key(r, name) {
                let j = choose|j: int| 0 <= j < r.len() && #[trigger] r[j].0 == name;
                if j != c {
                    assert(entries[j].0 == name);
                }
            }
            if has_key(entries, name) {
                let j = choose|j: int| 0 <= j < entries.len() && #[trigger] entries[j].0 == name;
                if j != c {
                    assert(r[j].0 == name);
                } else {
                    assert(r[c].0 == name);
                }
            }
            if name == key {
                assert(r[c].0 == name);
            }
        }
    } else {
        assert(r == entries.push((key, 1u16 << TRAIT_SHOW)));
        assert forall|i: int, j: int|
            0 <= i < r.len() && 0 <= j < r.len() && i != j implies #[trigger] r[i].0
            != #[trigger] r[j].0 by {
            if i == entries.len() {
                assert(r[j] == entries[j]);
            } else if j == entries.len() {
                assert(r[i] == entries[i]);
            } else {
                assert(r[i] == entries[i]);
                assert(r[j] == entries[j]);
            }
        }
        assert forall|name: Seq<char>| has_key(r, name) <==> (has_key(entries, name) || name == key) by {
            if has_key(r, name) {
                let j = choose|j: int| 0 <= j < r.len() && #[trigger] r[j].0 == name;
                if j < entries.len() {
                    assert(entries[j].0 == name);
                }
            }
            if has_key(entries, name) {
                let j = choose|j: int| 0 <= j < entries.len() && #[trigger] entries[j].0 == name;
                assert(r[j].0 == name);
            }
            if name == key {
                assert(r[entries.len() as int].0 == name);
            }
        }
    }
}

/// The generated struct has one type parameter and one field for each
/// variable the template shows, and no others: the variables are distinct,
/// they are exactly the shown ones, and each is bounded by `Show` alone.
pub proof fn lemma_one_parameter_per_variable(children: Seq<VariableTemplateExpr>)
    ensures
        distinct_keys(variables_of(children)),
        forall|name: Seq<char>|
            has_key(variables_of(children), name) <==> shows_variable(children, name),
        forall|k: int|
            0 <= k < variables_of(children).len() ==> #[trigger] variables_of(children)[k].1
                == 1u16 << TRAIT_SHOW,
    decreases children.len(),
{
    assert((1u16 << 0u16) == 1u16) by (bit_vector);
    if children.len() > 0 {
        let prefix = children.drop_last();
        lemma_one_parameter_per_variable(prefix);
        let v = variables_of(prefix);
        match children.last() {
            VariableTemplateExpr::ShowVariable(var, _) => {
                lemma_add_show_flag(v, var@);
            },
            VariableTemplateExpr::Text(_) => {},
        }
        assert forall|name: Seq<char>|
            shows_variable(children, name) <==> (shows_variable(prefix, name)
                || shown_variable(children.last()) == Some(name)) by {
            if shows_variable(children, name) {
                let i = choose|i: int|
                    0 <= i < children.len() && #[trigger] shown_variable(children[i]) == Some(name);
                if i < prefix.len() {
                    assert(prefix[i] == children[i]);
                }
            }
            if shows_variable(prefix, name) {
                let i = choose|i: int|
                    0 <= i < prefix.len() && #[trigger] shown_variable(prefix[i]) == Some(name);
                assert(prefix[i] == children[i]);
            }
            if shown_variable(children.last()) == Some(name) {
                assert(shown_variable(children[children.len() - 1]) == Some(name));
            }
        }
    } else {
        assert forall|name: Seq<char>| !shows_variable(children, name) by {}
    }
}

/// Every variable that a piece shows can be capitalised.
pub open spec fn shown_capitalizable(children: Seq<VariableTemplateExpr>) -> bool {
    forall|i: int|
        0 <= i < children.len() ==> match #[trigger] children[i] {
            VariableTemplateExpr::ShowVariable(var, _) => capitalizable(var@),
            VariableTemplateExpr::Text(_) => true,
        }
}

pub open spec fn all_capitalizable(vars: Seq<(Seq<char>, u16)>) -> bool {
    forall|i: int| 0 <= i < vars.len() ==> capitalizable(#[trigger] vars[i].0)
}

proof fn lemma_add_flag_keeps(entries: Seq<(Seq<char>, u16)>, key: Seq<char>, flag: u16)
    requires
        all_capitalizable(entries),
        capitalizable(key),
    ensures
        all_capitalizable(add_flag(entries, key, flag)),
{
    let r = add_flag(entries, key, flag);
    if has_key(entries, key) {
        let c = key_position(entries, key);
        assert forall|i: int| 0 <= i < r.len() implies capitalizable(#[trigger] r[i].0) by {
            if i != c {
                assert(r[i] == entries[i]);
            }
        }
    } else {
        assert forall|i: int| 0 <= i < r.len() implies capitalizable(#[trigger] r[i].0) by {
            if i < entries.len() {
                assert(r[i] == entries[i]);
            }
        }
    }
}

fn push_fn_line(code: &mut String, e: &VariableTemplateExpr)
    ensures
        final(code)@ == old(code)@ + fn_line(*e),
{
    match e {
        VariableTemplateExpr::Text(s) => {
            code.append("    print!(\"{}\", r#\"");
            code.append(s.as_str());
            code.append("\"#);\n");
        },
        VariableTemplateExpr::ShowVariable(var, Some(fmt)) => {
            code.append("    print!(\"{");
            code.append(fmt.as_str());
            code.append("}\", ");
            code.append(var.as_str());
            code.append(");\n");
        },
        VariableTemplateExpr::ShowVariable(var, None) => {
            code.append("    print!(\"{}\", ");
            code.append(var.as_str());
            code.append(");\n");
        },
    }
}

fn push_bounds(result: &mut String, flags: u16)
    ensures
        final(result)@ == old(result)@ + bound_list(flags, 0, ": "@),
{
    let mut separator_str: &str = ": ";
    let mut i: usize = 0;
    while i < 3
        invariant
            i <= 3,
            old(result)@ + bound_list(flags, 0, ": "@) == result@ + bound_list(
                flags,
                i as int,
                separator_str@,
            ),
        decreases 3 - i,
    {
        let flag_name = all_trait_flags(i);
        if flags & (1u16 << (i as u16)) != 0 {
            result.append(separator_str);
            result.append(flag_name);
            separator_str = " + ";
        }
        i = i + 1;
    }
}

fn push_generic_decl(result: &mut String, var: &String, flags: u16)
    requires
        capitalizable(var@),
    ensures
        final(result)@ == old(result)@ + generic_decl(var@, flags),
{
    result.append("\n    Type");
    _push_capitalized(result, var.as_str());
    push_bounds(result, flags);
    result.append(",");
}

fn push_field_decl(result: &mut String, var: &String)
    requires
        capitalizable(var@),
    ensures
        final(result)@ == old(result)@ + field_decl(var@),
{
    result.append("\n    ");
    result.append(var.as_str());
    result.append(": Type");
    _push_capitalized(result, var.as_str());
    result.append(",");
}

/// The Rust source of an argument struct and a printing function for the
/// template `name`. Every variable the template shows becomes a type
/// parameter bounded by `Show` and a field of that type; the function
/// prints the text pieces as raw strings and the variables with their
/// format specs.
#[verifier::spinoff_prover]
pub fn generate_template_code(name: &str, template_ast: &VariableTemplate) -> (r: String)
    requires
        capitalizable(name@),
        shown_capitalizable(template_ast.children@),
    ensures
        r@ == generated_code(name@, template_ast.children@),
{
    let children = &template_ast.children;
    let ghost cs = children@;
    let mut fn_code_text = String::new();
    let mut variables: Vec<(String, u16)> = Vec::new();
    let n = children.len();
    let mut i: usize = 0;
    while i < n
        invariant
            n == cs.len(),
            cs == children@,
            i <= n,
            shown_capitalizable(cs),
            fn_code_text@ == fn_code(cs.take(i as int)),
            flags_view(variables@) == variables_of(cs.take(i as int)),
            distinct_keys(flags_view(variables@)),
            all_capitalizable(flags_view(variables@)),
        decreases n - i,
    {
        assert(cs.take(i + 1).drop_last() == cs.take(i as int));
        assert(cs.take(i + 1).last() == cs[i as int]);
        let ghost before = flags_view(variables@);
        push_fn_line(&mut fn_code_text, &children[i]);
        if let VariableTemplateExpr::ShowVariable(var, _) = &children[i] {
            proof {
                assert(capitalizable(var@));
                lemma_add_flag_keeps(before, var@, TRAIT_SHOW);
            }
            _hash_map_add_flag(&mut variables, var, TRAIT_SHOW);
        }
        i = i + 1;
    }
    assert(cs.take(n as int) == cs);
    let ghost vars = flags_view(variables@);

    let mut result = String::new();
    result.append("struct TemplateArgs");
    _push_capitalized(&mut result, name);
    result.append("\n<");
    let ghost head0 = result@;
    let nv = variables.len();
    let mut j: usize = 0;
    while j < nv
        invariant
            nv == vars.len(),
            vars == flags_view(variables@),
            all_capitalizable(vars),
            j <= nv,
            result@ == head0 + generic_decls(vars.take(j as int)),
        decreases nv - j,
    {
        assert(vars.take(j + 1).drop_last() == vars.take(j as int));
        assert(vars[j as int].0 == variables[j as int].0@);
        assert(capitalizable(vars[j as int].0));
        let ghost before = result@;
        push_generic_decl(&mut result, &variables[j].0, variables[j].1);
        assert(generic_decls(vars.take(j + 1)) == generic_decls(vars.take(j as int)) + generic_decl(
            vars[j as int].0,
            vars[j as int].1,
        ));
        assert(result@ == before + generic_decl(vars[j as int].0, vars[j as int].1));
        j = j + 1;
    }
    assert(vars.take(nv as int) == vars);
    result.append("\n>");

    result.append(" {");
    let ghost head = result@;
    let mut k: usize = 0;
    while k < nv
        invariant
            nv == vars.len(),
            vars == flags_view(variables@),
            all_capitalizable(vars),
            k <= nv,
            result@ == head + field_decls(vars.take(k as int)),
        decreases nv - k,
    {
        assert(vars.take(k + 1).drop_last() == vars.take(k as int));
        assert(vars[k as int].0 == variables[k as int].0@);
        assert(capitalizable(vars[k as int].0));
        let ghost before = result@;
        push_field_decl(&mut result, &variables[k].0);
        assert(field_decls(vars.take(k + 1)) == field_decls(vars.take(k as int)) + field_decl(vars[k as int].0));
        assert(result@ == before + field_decl(vars[k as int].0));
        k = k + 1;
    }
    assert(vars.take(nv as int) == vars);
    result.append("\n}\n\n");

    result.append("fn ");
    result.append(name);
    result.append("(args: &TemplateArgs");
    _push_capitalized(&mut result, name);
    result.append(") {\n");

    result.append(fn_code_text.as_str());
    result.append("}\n\n");
    result
}

} // verus!
