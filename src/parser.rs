use crate::error::BelError;
use crate::object::{cons, list_of, nil, nil_object, result_view, sym, symbol, Datum, Object};
use vstd::prelude::*;

verus! {

/// Whether a character has Unicode's White_Space property.
pub open spec fn whitespace(c: char) -> bool {
    ('\u{9}' <= c && c <= '\u{d}') || c == ' ' || c == '\u{85}' || c == '\u{a0}' || c
        == '\u{1680}' || ('\u{2000}' <= c && c <= '\u{200a}') || c == '\u{2028}' || c
        == '\u{2029}' || c == '\u{202f}' || c == '\u{205f}' || c == '\u{3000}'
}

/// Relies on `char::is_whitespace`: whether `c` has Unicode's White_Space
/// property, which holds of the characters listed in `whitespace`.
#[verifier::external_body]
fn is_whitespace(c: char) -> (r: bool)
    ensures
        r == whitespace(c),
{
    c.is_whitespace()
}

/// Whitespace and parentheses end a symbol.
pub open spec fn is_delimiter(c: char) -> bool {
    whitespace(c) || c == '(' || c == ')'
}

/// Delimiters, backslashes and quote marks end a character literal.
pub open spec fn is_boundary(c: char) -> bool {
    is_delimiter(c) || c == '\\' || c == '`' || c == '\''
}

/// The first position at or after `i` that holds no whitespace.
pub open spec fn skip_ws(s: Seq<char>, i: int) -> int
    decreases s.len() - i,
{
    if 0 <= i < s.len() && whitespace(s[i]) {
        skip_ws(s, i + 1)
    } else {
        i
    }
}

/// The first position at or after `i` that holds a delimiter, or the end.
pub open spec fn symbol_end(s: Seq<char>, i: int) -> int
    decreases s.len() - i,
{
    if 0 <= i < s.len() && !is_delimiter(s[i]) {
        symbol_end(s, i + 1)
    } else {
        i
    }
}

/// The first position at or after `i` that holds a boundary, or the end.
pub open spec fn char_end(s: Seq<char>, i: int) -> int
    decreases s.len() - i,
{
    if 0 <= i < s.len() && !is_boundary(s[i]) {
        char_end(s, i + 1)
    } else {
        i
    }
}

/// `(quote d)`.
pub open spec fn quoted(d: Datum) -> Datum {
    list_of(seq![sym("quote"@), d])
}

/// The object that starts at or after position `i`, after whitespace, and
/// the position after it; `None` at the end of the text or at a closing
/// parenthesis, which is left in place.
pub open spec fn parse_item(s: Seq<char>, i: int) -> Result<(Option<Datum>, int), BelError>
    decreases s.len() - i, 0int,
{
    if i < 0 || i >= s.len() {
        Ok((None, s.len() as int))
    } else if whitespace(s[i]) {
        parse_item(s, i + 1)
    } else if s[i] == '(' {
        match parse_seq(s, i + 1) {
            Ok((l, k)) => Ok((Some(l), k)),
            Err(e) => Err(e),
        }
    } else if s[i] == ')' {
        Ok((None, i))
    } else if s[i] == '`' || s[i] == '\'' {
        match parse_item(s, i + 1) {
            Ok((Some(o), k)) => Ok((Some(quoted(o)), k)),
            Ok((None, _)) => Err(BelError::ParseError),
            Err(e) => Err(e),
        }
    } else if s[i] == '\\' {
        let k = char_end(s, i + 1);
        Ok((Some(Datum::Chr(s.subrange(i + 1, k))), k))
    } else {
        let k = symbol_end(s, i);
        Ok((Some(Datum::Sym(s.subrange(i, k))), k))
    }
}

/// The elements of a parenthesised list from position `pos` on, as a list,
/// and the position after its closing parenthesis; a list left open ends
/// with the text.
pub open spec fn parse_seq(s: Seq<char>, pos: int) -> Result<(Datum, int), BelError>
    decreases s.len() - pos, 1int,
{
    if pos < 0 || pos > s.len() {
        Err(BelError::ParseError)
    } else {
        match parse_item(s, pos) {
            Err(e) => Err(e),
            Ok((None, k)) => if k < s.len() {
                Ok((nil(), k + 1))
            } else {
                Ok((nil(), s.len() as int))
            },
            Ok((Some(o), k)) => if pos < k <= s.len() {
                match parse_seq(s, k) {
                    Ok((rest, m)) => Ok((cons(o, rest), m)),
                    Err(e) => Err(e),
                }
            } else {
                Err(BelError::ParseError)
            },
        }
    }
}

/// The top-level objects of a text from position `i` on; a closing
/// parenthesis without an opening one is passed over.
pub open spec fn parse_forms(s: Seq<char>, i: int) -> Result<Seq<Datum>, BelError>
    decreases s.len() - i,
{
    if i < 0 || i >= s.len() {
        Ok(Seq::empty())
    } else {
        match parse_item(s, i) {
            Err(e) => Err(e),
            Ok((None, k)) => if i <= k < s.len() {
                parse_forms(s, k + 1)
            } else {
                Ok(Seq::empty())
            },
            Ok((Some(o), k)) => if i < k <= s.len() {
                match parse_forms(s, k) {
                    Ok(r) => Ok(seq![o] + r),
                    Err(e) => Err(e),
                }
            } else {
                Err(BelError::ParseError)
            },
        }
    }
}

/// The object that a text stands for: `nil` for a text without one, an
/// error for a text with more than one.
pub open spec fn parse_text(s: Seq<char>) -> Result<Datum, BelError> {
    match parse_forms(s, 0) {
        Err(e) => Err(e),
        Ok(f) => if f.len() == 0 {
            Ok(nil())
        } else if f.len() == 1 {
            Ok(f[0])
        } else {
            Err(BelError::ParseError)
        },
    }
}

pub open spec fn option_view(o: Option<Object>) -> Option<Datum> {
    match o {
        Some(x) => Some(x@),
        None => None,
    }
}

/// What is left of a text after an object was read, and that object.
#[derive(Debug)]
pub struct ParseState {
    pub remainder: String,
    pub obj: Option<Object>,
}

/// The characters of a text.
fn to_chars(text: &str) -> (r: Vec<char>)
    ensures
        r@ == text@,
{
    let n = text.unicode_len();
    let mut r: Vec<char> = Vec::new();
    let mut i: usize = 0;
    while i < n
        invariant
            n == text@.len(),
            i <= n,
            r@ == text@.subrange(0, i as int),
        decreases n - i,
    {
        r.push(text.get_char(i));
        i = i + 1;
        assert(r@ =~= text@.subrange(0, i as int));
    }
    assert(text@.subrange(0, n as int) =~= text@);
    r
}

/// The text from position `k` on.
fn rest_of(text: &str, k: usize) -> (r: String)
    requires
        k <= text@.len(),
    ensures
        r@ == text@.subrange(k as int, text@.len() as int),
{
    let n = text.unicode_len();
    text.substring_char(k, n).to_string()
}

fn skip_whitespace(s: &Vec<char>, i: usize) -> (r: usize)
    requires
        i <= s@.len(),
    ensures
        r == skip_ws(s@, i as int),
        i <= r <= s@.len(),
{
    let mut j = i;
    while j < s.len() && is_whitespace(s[j])
        invariant
            i <= j <= s@.len(),
            skip_ws(s@, i as int) == skip_ws(s@, j as int),
        decreases s@.len() - j,
    {
        j = j + 1;
    }
    j
}

fn scan_symbol(s: &Vec<char>, i: usize) -> (r: usize)
    requires
        i <= s@.len(),
    ensures
        r == symbol_end(s@, i as int),
        i <= r <= s@.len(),
{
    let mut j = i;
    while j < s.len() && !(is_whitespace(s[j]) || s[j] == '(' || s[j] == ')')
        invariant
            i <= j <= s@.len(),
            symbol_end(s@, i as int) == symbol_end(s@, j as int),
        decreases s@.len() - j,
    {
        j = j + 1;
    }
    j
}

fn scan_char(s: &Vec<char>, i: usize) -> (r: usize)
    requires
        i <= s@.len(),
    ensures
        r == char_end(s@, i as int),
        i <= r <= s@.len(),
{
    let mut j = i;
    while j < s.len() && !is_boundary_char(s[j])
        invariant
            i <= j <= s@.len(),
            char_end(s@, i as int) == char_end(s@, j as int),
        decreases s@.len() - j,
    {
        j = j + 1;
    }
    j
}

fn is_boundary_char(c: char) -> (r: bool)
    ensures
        r == is_boundary(c),
{
    is_whitespace(c) || c == '(' || c == ')' || c == '\\' || c == '`' || c == '\''
}

/// `(quote o)`.
fn quote_of(o: Object) -> (r: Object)
    ensures
        r@ == quoted(o@),
{
    let ghost d = o@;
    assert(seq![sym("quote"@), d].drop_first() =~= seq![d]);
    assert(seq![d].drop_first() =~= Seq::<Datum>::empty());
    assert(list_of(Seq::<Datum>::empty()) == nil());
    assert(seq![d].len() == 1 && seq![d][0] == d);
    assert(list_of(seq![d]) == cons(d, list_of(seq![d].drop_first())));
    assert(list_of(seq![d]) == cons(d, nil()));
    assert(seq![sym("quote"@), d].len() == 2 && seq![sym("quote"@), d][0] == sym("quote"@));
    assert(quoted(d) == cons(sym("quote"@), list_of(seq![sym("quote"@), d].drop_first())));
    let inner = Object::Pair(Box::new((o, nil_object())));
    assert(inner@ == cons(d, nil()));
    let r = Object::Pair(Box::new((symbol("quote"), inner)));
    assert(r@ == cons(sym("quote"@), cons(d, nil())));
    r
}

fn item_at(text: &str, s: &Vec<char>, i: usize) -> (r: Result<(Option<Object>, usize), BelError>)
    requires
        s@ == text@,
        i <= s@.len(),
    ensures
        match parse_item(s@, i as int) {
            Ok(p) => r matches Ok(q) && option_view(q.0) == p.0 && q.1 == p.1,
            Err(e) => r == Err::<(Option<Object>, usize), BelError>(e),
        },
        r matches Ok(q) ==> q.1 <= s@.len(),
    decreases s@.len() - i, 0int,
{
    let j = skip_whitespace(s, i);
    proof {
        lemma_parse_item_after_whitespace(s@, i as int);
    }
    if j >= s.len() {
        return Ok((None, s.len()));
    }
    let c = s[j];
    if c == '(' {
        match seq_at(text, s, j + 1) {
            Ok((l, k)) => Ok((Some(l), k)),
            Err(e) => Err(e),
        }
    } else if c == ')' {
        Ok((None, j))
    } else if c == '`' || c == '\'' {
        match item_at(text, s, j + 1) {
            Ok((Some(o), k)) => Ok((Some(quote_of(o)), k)),
            Ok((None, _)) => Err(BelError::ParseError),
            Err(e) => Err(e),
        }
    } else if c == '\\' {
        let k = scan_char(s, j + 1);
        let name = text.substring_char(j + 1, k).to_string();
        Ok((Some(Object::Char(name)), k))
    } else {
        let k = scan_symbol(s, j);
        let name = text.substring_char(j, k).to_string();
        Ok((Some(Object::Symbol(name)), k))
    }
}

/// Reading an item skips the whitespace before it.
proof fn lemma_parse_item_after_whitespace(s: Seq<char>, i: int)
    requires
        0 <= i <= s.len(),
    ensures
        parse_item(s, i) == parse_item(s, skip_ws(s, i)),
        i <= skip_ws(s, i) <= s.len(),
        skip_ws(s, i) < s.len() ==> !whitespace(s[skip_ws(s, i)]),
    decreases s.len() - i,
{
    if i < s.len() && whitespace(s[i]) {
        lemma_parse_item_after_whitespace(s, i + 1);
    }
}

fn seq_at(text: &str, s: &Vec<char>, pos: usize) -> (r: Result<(Object, usize), BelError>)
    requires
        s@ == text@,
        pos <= s@.len(),
    ensures
        match parse_seq(s@, pos as int) {
            Ok(p) => r matches Ok(q) && q.0@ == p.0 && q.1 == p.1,
            Err(e) => r == Err::<(Object, usize), BelError>(e),
        },
        r matches Ok(q) ==> q.1 <= s@.len(),
    decreases s@.len() - pos, 1int,
{
    match item_at(text, s, pos) {
        Err(e) => Err(e),
        Ok((None, k)) => if k < s.len() {
            Ok((nil_object(), k + 1))
        } else {
            Ok((nil_object(), s.len()))
        },
        Ok((Some(o), k)) => if pos < k && k <= s.len() {
            match seq_at(text, s, k) {
                Ok((rest, m)) => Ok((Object::Pair(Box::new((o, rest))), m)),
                Err(e) => Err(e),
            }
        } else {
            Err(BelError::ParseError)
        },
    }
}

/// Reads the one object that a text holds: `nil` for a text without one.
/// More than one top-level object is an error.
pub fn parse(text: &str) -> (r: Result<Object, BelError>)
    ensures
        result_view(r) == parse_text(text@),
{
    let s = to_chars(text);
    let mut obj_accum: Vec<Object> = Vec::new();
    let mut i: usize = 0;
    let n = s.len();
    while i < n
        invariant
            n == s@.len(),
            s@ == text@,
            i <= n,
            parse_forms(s@, 0) == match parse_forms(s@, i as int) {
                Ok(f) => Ok(obj_accum@.map_values(|o: Object| o@) + f),
                Err(e) => Err(e),
            },
        decreases n - i,
    {
        let ghost before = obj_accum@.map_values(|o: Object| o@);
        match item_at(text, &s, i) {
            Err(e) => {
                return Err(e);
            },
            Ok((None, k)) => {
                if i <= k && k < n {
                    i = k + 1;
                } else {
                    assert(before + Seq::<Datum>::empty() =~= before);
                    i = n;
                }
            },
            Ok((Some(o), k)) => {
                if i < k && k <= n {
                    obj_accum.push(o);
                    proof {
                        let after = obj_accum@.map_values(|o: Object| o@);
                        assert(after =~= before.push(after.last()));
                        if let Ok(f) = parse_forms(s@, k as int) {
                            assert(before + (seq![after.last()] + f) =~= after + f);
                        }
                    }
                    i = k;
                } else {
                    return Err(BelError::ParseError);
                }
            },
        }
    }
    assert(obj_accum@.map_values(|o: Object| o@) + Seq::<Datum>::empty() =~= obj_accum@.map_values(
        |o: Object| o@,
    ));
    if obj_accum.len() == 0 {
        Ok(nil_object())
    } else if obj_accum.len() == 1 {
        Ok(obj_accum.pop().unwrap())
    } else {
        Err(BelError::ParseError)
    }
}

/// Reads the object at the start of a text, after whitespace.
pub fn dispatch_char(text: &str) -> (r: Result<ParseState, BelError>)
    ensures
        match parse_item(text@, 0) {
            Ok(p) => r matches Ok(st) && option_view(st.obj) == p.0 && st.remainder@
                == text@.subrange(p.1, text@.len() as int),
            Err(e) => r matches Err(e2) && e2 == e,
        },
{
    let s = to_chars(text);
    match item_at(text, &s, 0) {
        Ok((obj, k)) => Ok(ParseState { remainder: rest_of(text, k), obj }),
        Err(e) => Err(e),
    }
}

/// Passes over the whitespace at the start of a text.
pub fn consume_whitespace(text: &str) -> (r: Result<ParseState, BelError>)
    ensures
        r matches Ok(st) && st.obj is None && st.remainder@ == text@.subrange(
            skip_ws(text@, 0),
            text@.len() as int,
        ),
{
    let s = to_chars(text);
    let k = skip_whitespace(&s, 0);
    Ok(ParseState { remainder: rest_of(text, k), obj: None })
}

/// Reads the symbol at the start of a text, up to whitespace or a
/// parenthesis; none when the text starts with one of them or is empty.
pub fn consume_symbol(text: &str) -> (r: Result<ParseState, BelError>)
    ensures
        r matches Ok(st) && st.remainder@ == text@.subrange(
            symbol_end(text@, 0),
            text@.len() as int,
        ) && option_view(st.obj) == if symbol_end(text@, 0) == 0 {
            None
        } else {
            Some(Datum::Sym(text@.subrange(0, symbol_end(text@, 0))))
        },
{
    let s = to_chars(text);
    let k = scan_symbol(&s, 0);
    let obj = if k == 0 {
        None
    } else {
        Some(Object::Symbol(text.substring_char(0, k).to_string()))
    };
    Ok(ParseState { remainder: rest_of(text, k), obj })
}

/// Reads the character literal at the start of a text: a backslash and the
/// characters up to the next boundary.
pub fn consume_char(text: &str) -> (r: Result<ParseState, BelError>)
    ensures
        if text@.len() > 0 && text@[0] == '\\' {
            r matches Ok(st) && st.remainder@ == text@.subrange(
                char_end(text@, 1),
                text@.len() as int,
            ) && option_view(st.obj) == Some(Datum::Chr(text@.subrange(1, char_end(text@, 1))))
        } else {
            r == Err::<ParseState, BelError>(BelError::ParseError)
        },
{
    let s = to_chars(text);
    if s.len() == 0 || s[0] != '\\' {
        return Err(BelError::ParseError);
    }
    let k = scan_char(&s, 1);
    let name = text.substring_char(1, k).to_string();
    Ok(ParseState { remainder: rest_of(text, k), obj: Some(Object::Char(name)) })
}

/// Reads the list that starts with the opening parenthesis at the start of a
/// text.
pub fn consume_parens(text: &str) -> (r: Result<ParseState, BelError>)
    ensures
        if text@.len() > 0 && text@[0] == '(' {
            match parse_seq(text@, 1) {
                Ok(p) => r matches Ok(st) && option_view(st.obj) == Some(p.0) && st.remainder@
                    == text@.subrange(p.1, text@.len() as int),
                Err(e) => r matches Err(e2) && e2 == e,
            }
        } else {
            r == Err::<ParseState, BelError>(BelError::ParseError)
        },
{
    let s = to_chars(text);
    if s.len() == 0 || s[0] != '(' {
        return Err(BelError::ParseError);
    }
    match seq_at(text, &s, 1) {
        Ok((l, k)) => Ok(ParseState { remainder: rest_of(text, k), obj: Some(l) }),
        Err(e) => Err(e),
    }
}

/// Reads the quoted object at the start of a text: a backquote or an
/// apostrophe and the object after it, as `(quote x)`.
pub fn consume_quote(text: &str) -> (r: Result<ParseState, BelError>)
    ensures
        if text@.len() > 0 && (text@[0] == '`' || text@[0] == '\'') {
            match parse_item(text@, 1) {
                Ok((Some(o), k)) => r matches Ok(st) && option_view(st.obj) == Some(quoted(o))
                    && st.remainder@ == text@.subrange(k, text@.len() as int),
                Ok((None, _)) => r == Err::<ParseState, BelError>(BelError::ParseError),
                Err(e) => r matches Err(e2) && e2 == e,
            }
        } else {
            r == Err::<ParseState, BelError>(BelError::ParseError)
        },
{
    let s = to_chars(text);
    if s.len() == 0 || !(s[0] == '`' || s[0] == '\'') {
        return Err(BelError::ParseError);
    }
    match item_at(text, &s, 1) {
        Ok((Some(o), k)) => Ok(ParseState { remainder: rest_of(text, k), obj: Some(quote_of(o)) }),
        Ok((None, _)) => Err(BelError::ParseError),
        Err(e) => Err(e),
    }
}

} // verus!
