use vstd::prelude::*;

verus! {

/// What `char::to_uppercase` yields for `c`.
pub uninterp spec fn char_upper(c: char) -> Seq<char>;

/// What `char::to_lowercase` yields for `c`.
pub uninterp spec fn char_lower(c: char) -> Seq<char>;

pub open spec fn is_ascii_lower(c: char) -> bool {
    'a' <= c <= 'z'
}

pub open spec fn is_ascii_upper(c: char) -> bool {
    'A' <= c <= 'Z'
}

pub open spec fn is_ascii_char(c: char) -> bool {
    (c as u32) < 128
}

pub open spec fn is_ascii_digit(c: char) -> bool {
    '0' <= c <= '9'
}

/// The uppercase form of `c`, from the standard library's `char::to_uppercase`.
/// That function yields the full Unicode mapping; for an ASCII char it yields
/// the one ASCII uppercase char (`a`-`z` shift down by 32, every other ASCII
/// char stays). Of a non-ASCII char nothing is stated beyond the name.
#[verifier::external_body]
fn uppercase_of(c: char) -> (r: String)
    ensures
        r@ == char_upper(c),
        is_ascii_lower(c) ==> r@ == seq![((c as u32) - 32) as char],
        is_ascii_char(c) && !is_ascii_lower(c) ==> r@ == seq![c],
{
    c.to_uppercase().to_string()
}

/// The lowercase form of `c`, from the standard library's `char::to_lowercase`.
/// For an ASCII char it yields the one ASCII lowercase char (`A`-`Z` shift up
/// by 32, every other ASCII char stays). Of a non-ASCII char nothing is stated
/// beyond the name.
#[verifier::external_body]
fn lowercase_of(c: char) -> (r: String)
    ensures
        r@ == char_lower(c),
        is_ascii_upper(c) ==> r@ == seq![((c as u32) + 32) as char],
        is_ascii_char(c) && !is_ascii_upper(c) ==> r@ == seq![c],
{
    c.to_lowercase().to_string()
}

/// Appends one char, by the standard library's `String::push`.
#[verifier::external_body]
pub(crate) fn push_char(s: &mut String, c: char)
    ensures
        final(s)@ == old(s)@.push(c),
{
    s.push(c);
}

/// Camel case of `s` when the next letter is to be upper case iff `make_upper`:
/// `_` is dropped and makes the next letter upper case, a digit is kept and
/// makes the next letter upper case, any other char is upper-cased when
/// `make_upper` holds and lower-cased otherwise.
pub open spec fn camel_from(s: Seq<char>, make_upper: bool) -> Seq<char>
    decreases s.len(),
{
    if s.len() == 0 {
        seq![]
    } else {
        let ch = s[0];
        let rest = s.drop_first();
        if ch == '_' {
            camel_from(rest, true)
        } else if is_ascii_digit(ch) {
            seq![ch] + camel_from(rest, true)
        } else if make_upper {
            char_upper(ch) + camel_from(rest, false)
        } else {
            char_lower(ch) + camel_from(rest, false)
        }
    }
}

pub open spec fn camel_case(s: Seq<char>) -> Seq<char> {
    camel_from(s, true)
}

/// The ASCII lowercase of `c`: `A`-`Z` shift up by 32, every other char stays.
pub open spec fn ascii_lower(c: char) -> char {
    if is_ascii_upper(c) {
        ((c as u32) + 32) as char
    } else {
        c
    }
}

pub open spec fn is_ascii_text(s: Seq<char>) -> bool {
    forall|i: int| 0 <= i < s.len() ==> is_ascii_char(#[trigger] s[i])
}

/// `camel_from` on ASCII text, where upper and lower case are those of ASCII.
pub open spec fn ascii_camel_from(s: Seq<char>, make_upper: bool) -> Seq<char>
    decreases s.len(),
{
    if s.len() == 0 {
        seq![]
    } else {
        let ch = s[0];
        let rest = s.drop_first();
        if ch == '_' {
            ascii_camel_from(rest, true)
        } else if is_ascii_digit(ch) {
            seq![ch] + ascii_camel_from(rest, true)
        } else if make_upper {
            seq![ascii_upper(ch)] + ascii_camel_from(rest, false)
        } else {
            seq![ascii_lower(ch)] + ascii_camel_from(rest, false)
        }
    }
}

pub open spec fn count_underscores(s: Seq<char>) -> nat
    decreases s.len(),
{
    if s.len() == 0 {
        0
    } else {
        (if s[0] == '_' { 1nat } else { 0nat }) + count_underscores(s.drop_first())
    }
}

/// On ASCII text, camel case drops every `_` and keeps one char for each
/// other char.
pub proof fn lemma_ascii_camel_case_drops_underscores(s: Seq<char>, make_upper: bool)
    ensures
        !ascii_camel_from(s, make_upper).contains('_'),
        ascii_camel_from(s, make_upper).len() + count_underscores(s) == s.len(),
    decreases s.len(),
{
    if s.len() > 0 {
        let ch = s[0];
        let rest = s.drop_first();
        lemma_ascii_camel_case_drops_underscores(rest, true);
        lemma_ascii_camel_case_drops_underscores(rest, false);
        if ch != '_' && !is_ascii_digit(ch) {
            let out = if make_upper { ascii_upper(ch) } else { ascii_lower(ch) };
            assert(out != '_');
            let r = ascii_camel_from(s, make_upper);
            assert(r == seq![out] + ascii_camel_from(rest, false));
            assert forall|i: int| 0 <= i < r.len() implies r[i] != '_' by {
                if i > 0 {
                    assert(r[i] == ascii_camel_from(rest, false)[i - 1]);
                }
            }
        } else if is_ascii_digit(ch) {
            let r = ascii_camel_from(s, make_upper);
            assert(r == seq![ch] + ascii_camel_from(rest, true));
            assert forall|i: int| 0 <= i < r.len() implies r[i] != '_' by {
                if i > 0 {
                    assert(r[i] == ascii_camel_from(rest, true)[i - 1]);
                }
            }
        }
    }
}

/// Converts `snake_case` to `CamelCase`: `foo_bar_baz` becomes `FooBarBaz`.
pub fn to_camel_case(src: &str) -> (result: String)
    ensures
        result@ == camel_case(src@),
        is_ascii_text(src@) ==> result@ == ascii_camel_from(src@, true),
{
    let mut result = String::new();
    let mut make_upper = true;
    let n = src.unicode_len();
    let mut i: usize = 0;
    assert(src@.skip(0) == src@);
    while i < n
        invariant
            n == src@.len(),
            i <= n,
            camel_case(src@) == result@ + camel_from(src@.skip(i as int), make_upper),
            is_ascii_text(src@) ==> ascii_camel_from(src@, true) == result@ + ascii_camel_from(
                src@.skip(i as int),
                make_upper,
            ),
        decreases n - i,
    {
        let ch = src.get_char(i);
        assert(src@.skip(i as int).drop_first() == src@.skip(i + 1));
        assert(src@.skip(i as int)[0] == ch);
        if ch == '_' {
            make_upper = true;
        } else if '0' <= ch && ch <= '9' {
            push_char(&mut result, ch);
            make_upper = true;
        } else {
            if make_upper {
                let up = uppercase_of(ch);
                result.append(up.as_str());
            } else {
                let low = lowercase_of(ch);
                result.append(low.as_str());
            }
            make_upper = false;
        }
        i = i + 1;
    }
    assert(src@.skip(n as int) == Seq::<char>::empty());
    result
}

/// The ASCII uppercase of `c`: `a`-`z` shift down by 32, every other char stays.
pub open spec fn ascii_upper(c: char) -> char {
    if is_ascii_lower(c) {
        ((c as u32) - 32) as char
    } else {
        c
    }
}

/// `s` with each `_` dropped and the first char of each `_`-separated chunk
/// in ASCII upper case; `at_start` tells whether `s` starts a chunk.
pub open spec fn capitalized_from(s: Seq<char>, at_start: bool) -> Seq<char>
    decreases s.len(),
{
    if s.len() == 0 {
        seq![]
    } else if s[0] == '_' {
        capitalized_from(s.drop_first(), true)
    } else if at_start {
        seq![ascii_upper(s[0])] + capitalized_from(s.drop_first(), false)
    } else {
        seq![s[0]] + capitalized_from(s.drop_first(), false)
    }
}

pub open spec fn capitalized(s: Seq<char>) -> Seq<char> {
    capitalized_from(s, true)
}

/// Each `_`-separated chunk of `s` is non-empty and starts with an ASCII char.
pub open spec fn capitalizable(s: Seq<char>) -> bool {
    &&& s.len() > 0
    &&& s[0] != '_'
    &&& s[s.len() - 1] != '_'
    &&& forall|i: int| 0 < i < s.len() && s[i - 1] == '_' ==> #[trigger] s[i] != '_'
    &&& forall|i: int|
        0 <= i < s.len() && (i == 0 || s[i - 1] == '_') ==> is_ascii_char(#[trigger] s[i])
}

proof fn lemma_ascii_case_of_char(c: char)
    ensures
        ascii_upper(ascii_lower(c)) == ascii_upper(c),
        ascii_lower(ascii_lower(c)) == ascii_lower(c),
        ascii_upper(ascii_upper(c)) == ascii_upper(c),
        ascii_lower(ascii_upper(c)) == ascii_lower(c),
        (ascii_lower(c) == '_') == (c == '_'),
        (ascii_upper(c) == '_') == (c == '_'),
        is_ascii_digit(ascii_lower(c)) == is_ascii_digit(c),
        is_ascii_digit(ascii_upper(c)) == is_ascii_digit(c),
{
}

/// On ASCII text, the case of the letters makes no difference to camel case:
/// lower-casing or upper-casing the input first gives the same result.
pub proof fn lemma_ascii_camel_case_ignores_case(s: Seq<char>, make_upper: bool)
    ensures
        ascii_camel_from(s.map_values(|c: char| ascii_lower(c)), make_upper) == ascii_camel_from(
            s,
            make_upper,
        ),
        ascii_camel_from(s.map_values(|c: char| ascii_upper(c)), make_upper) == ascii_camel_from(
            s,
            make_upper,
        ),
    decreases s.len(),
{
    if s.len() > 0 {
        let lo = s.map_values(|c: char| ascii_lower(c));
        let up = s.map_values(|c: char| ascii_upper(c));
        let rest = s.drop_first();
        assert(lo.drop_first() =~= rest.map_values(|c: char| ascii_lower(c)));
        assert(up.drop_first() =~= rest.map_values(|c: char| ascii_upper(c)));
        assert(lo[0] == ascii_lower(s[0]));
        assert(up[0] == ascii_upper(s[0]));
        lemma_ascii_case_of_char(s[0]);
        lemma_ascii_camel_case_ignores_case(rest, true);
        lemma_ascii_camel_case_ignores_case(rest, false);
    }
}

/// Whether the char after `s` starts a word, when `make_upper` tells it for
/// the start of `s`.
pub open spec fn camel_state_after(s: Seq<char>, make_upper: bool) -> bool
    decreases s.len(),
{
    if s.len() == 0 {
        make_upper
    } else {
        camel_state_after(s.drop_first(), s[0] == '_' || is_ascii_digit(s[0]))
    }
}

proof fn lemma_camel_from_append(a: Seq<char>, r: Seq<char>, make_upper: bool)
    ensures
        camel_from(a + r, make_upper) == camel_from(a, make_upper) + camel_from(
            r,
            camel_state_after(a, make_upper),
        ),
    decreases a.len(),
{
    if a.len() == 0 {
        assert(a + r =~= r);
    } else {
        assert((a + r).drop_first() =~= a.drop_first() + r);
        assert((a + r)[0] == a[0]);
        lemma_camel_from_append(a.drop_first(), r, true);
        lemma_camel_from_append(a.drop_first(), r, false);
    }
}

/// Camel case works word by word: an `_` between two texts, or a digit,
/// ends the word before it, so the camel case of the whole is that of the
/// parts (with the digit kept between them).
pub proof fn lemma_camel_case_splits(a: Seq<char>, b: Seq<char>, d: char)
    ensures
        camel_case(a + seq!['_'] + b) == camel_case(a) + camel_case(b),
        is_ascii_digit(d) ==> camel_case(a + seq![d] + b) == camel_case(a) + seq![d] + camel_case(
            b,
        ),
{
    let after = camel_state_after(a, true);
    assert(a + seq!['_'] + b =~= a + (seq!['_'] + b));
    lemma_camel_from_append(a, seq!['_'] + b, true);
    assert((seq!['_'] + b).drop_first() =~= b);
    assert((seq!['_'] + b)[0] == '_');
    assert(camel_from(seq!['_'] + b, after) == camel_from(b, true));
    if is_ascii_digit(d) {
        assert(a + seq![d] + b =~= a + (seq![d] + b));
        lemma_camel_from_append(a, seq![d] + b, true);
        assert((seq![d] + b).drop_first() =~= b);
        assert((seq![d] + b)[0] == d);
        assert(camel_from(seq![d] + b, after) == seq![d] + camel_from(b, true));
    }
}

/// Capitalising drops every `_` and keeps one char for each other char.
pub proof fn lemma_capitalized_drops_underscores(s: Seq<char>, at_start: bool)
    ensures
        !capitalized_from(s, at_start).contains('_'),
        capitalized_from(s, at_start).len() + count_underscores(s) == s.len(),
    decreases s.len(),
{
    if s.len() > 0 {
        let rest = s.drop_first();
        lemma_capitalized_drops_underscores(rest, true);
        lemma_capitalized_drops_underscores(rest, false);
        if s[0] != '_' {
            let out = if at_start { ascii_upper(s[0]) } else { s[0] };
            let r = capitalized_from(s, at_start);
            assert(r == seq![out] + capitalized_from(rest, false));
            assert forall|i: int| 0 <= i < r.len() implies r[i] != '_' by {
                if i > 0 {
                    assert(r[i] == capitalized_from(rest, false)[i - 1]);
                }
            }
        }
    }
}

fn ascii_uppercase(c: char) -> (r: char)
    ensures
        r == ascii_upper(c),
{
    if 'a' <= c && c <= 'z' {
        ((c as u8) - 32) as char
    } else {
        c
    }
}

/// Appends `what` to `container` with each `_`-separated chunk capitalised
/// and the `_` dropped: `foo_bar` appends `FooBar`.
pub fn _push_capitalized(container: &mut String, what: &str)
    requires
        capitalizable(what@),
    ensures
        final(container)@ == old(container)@ + capitalized(what@),
{
    let n = what.unicode_len();
    let mut at_start = true;
    let mut i: usize = 0;
    assert(what@.skip(0) == what@);
    while i < n
        invariant
            n == what@.len(),
            i <= n,
            old(container)@ + capitalized(what@) == container@ + capitalized_from(
                what@.skip(i as int),
                at_start,
            ),
        decreases n - i,
    {
        let ch = what.get_char(i);
        assert(what@.skip(i as int).drop_first() == what@.skip(i + 1));
        if ch == '_' {
            at_start = true;
        } else if at_start {
            push_char(container, ascii_uppercase(ch));
            at_start = false;
        } else {
            push_char(container, ch);
        }
        i = i + 1;
    }
    assert(what@.skip(n as int) == Seq::<char>::empty());
}

} // verus!
