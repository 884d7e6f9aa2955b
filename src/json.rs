//! A small JSON reader: a lexer over bytes and a recursive-descent parser
//! that builds a tree of labelled elements.
use vstd::prelude::*;
use vstd::string::*;
use crate::format::{decimal_text, push_decimal};

verus! {

/// Where and why the input is not JSON.
#[derive(Debug)]
pub struct InvalidJsonError {
    pub at: usize,
    pub message: String,
}

#[derive(PartialEq, Eq, Structural, Clone, Copy, Debug)]
pub enum JsonTokenType {
    OpenBrace,
    CloseBrace,
    OpenBracket,
    CloseBracket,
    StringLiteral,
    Number,
    True,
    False,
    Null,
    Colon,
    Comma,
}

/// A token: its type and the bytes `start..end` of the buffer it spans.
#[derive(PartialEq, Eq, Structural, Clone, Copy, Debug)]
pub struct JsonToken {
    pub token_type: JsonTokenType,
    pub start: usize,
    pub end: usize,
}

/// `invalid json at position <at>: <message>`.
pub open spec fn error_text(at: usize, message: Seq<char>) -> Seq<char> {
    "invalid json at position "@ + decimal_text(at as nat) + ": "@ + message
}

impl InvalidJsonError {
    /// The error as one line of text.
    pub fn describe(&self) -> (r: String)
        ensures
            r@ == error_text(self.at, self.message@),
    {
        let mut s = String::from_str("invalid json at position ");
        push_decimal(&mut s, self.at as u64);
        s.append(": ");
        s.append(self.message.as_str());
        assert(s@ =~= error_text(self.at, self.message@));
        s
    }
}

pub open spec fn token_name(t: JsonTokenType) -> Seq<char> {
    match t {
        JsonTokenType::OpenBrace => "open brace ({)"@,
        JsonTokenType::CloseBrace => "close brace (})"@,
        JsonTokenType::OpenBracket => "open bracket ([)"@,
        JsonTokenType::CloseBracket => "close bracket (])"@,
        JsonTokenType::StringLiteral => "string literal"@,
        JsonTokenType::Number => "number"@,
        JsonTokenType::True => "true"@,
        JsonTokenType::False => "false"@,
        JsonTokenType::Null => "null"@,
        JsonTokenType::Colon => "colon (:)"@,
        JsonTokenType::Comma => "comma (,)"@,
    }
}

impl JsonTokenType {
    /// How a token type is named in messages.
    pub fn name(&self) -> (r: &'static str)
        ensures
            r@ == token_name(*self),
    {
        match self {
            JsonTokenType::OpenBrace => "open brace ({)",
            JsonTokenType::CloseBrace => "close brace (})",
            JsonTokenType::OpenBracket => "open bracket ([)",
            JsonTokenType::CloseBracket => "close bracket (])",
            JsonTokenType::StringLiteral => "string literal",
            JsonTokenType::Number => "number",
            JsonTokenType::True => "true",
            JsonTokenType::False => "false",
            JsonTokenType::Null => "null",
            JsonTokenType::Colon => "colon (:)",
            JsonTokenType::Comma => "comma (,)",
        }
    }
}

// ---------------------------------------------------------------------------
// The token grammar.

/// Space, tab, line feed, form feed or carriage return.
pub open spec fn is_ws(b: u8) -> bool {
    b == 0x20 || b == 0x09 || b == 0x0a || b == 0x0c || b == 0x0d
}

pub open spec fn is_digit(b: u8) -> bool {
    0x30 <= b <= 0x39
}

pub open spec fn is_hex(b: u8) -> bool {
    is_digit(b) || (0x41 <= b <= 0x46) || (0x61 <= b <= 0x66)
}

pub open spec fn at_is(buf: Seq<u8>, i: int, c: u8) -> bool {
    0 <= i < buf.len() && buf[i] == c
}

/// First position from `i` on that does not hold whitespace.
pub open spec fn skip_ws(buf: Seq<u8>, i: int) -> int
    decreases buf.len() - i,
{
    if 0 <= i < buf.len() && is_ws(buf[i]) { skip_ws(buf, i + 1) } else { i }
}

/// First position from `i` on that does not hold a digit.
pub open spec fn digits_end(buf: Seq<u8>, i: int) -> int
    decreases buf.len() - i,
{
    if 0 <= i < buf.len() && is_digit(buf[i]) { digits_end(buf, i + 1) } else { i }
}

/// End of a number starting at `start`: an optional `-`, a lone `0` or a
/// run of digits, an optional `.`, digits, an optional `e`/`E`, an optional
/// sign, digits.
pub open spec fn number_end(buf: Seq<u8>, start: int) -> int {
    let sign_end = if at_is(buf, start, 0x2d) { start + 1 } else { start };
    let int_end = if 0 <= sign_end < buf.len() {
        if buf[sign_end] != 0x30 { digits_end(buf, sign_end) } else { sign_end + 1 }
    } else {
        sign_end
    };
    let point_end = if at_is(buf, int_end, 0x2e) { int_end + 1 } else { int_end };
    let frac_end = digits_end(buf, point_end);
    let exp_end = if at_is(buf, frac_end, 0x45) || at_is(buf, frac_end, 0x65) { frac_end + 1 } else { frac_end };
    let exp_sign_end = if at_is(buf, exp_end, 0x2b) || at_is(buf, exp_end, 0x2d) { exp_end + 1 } else { exp_end };
    digits_end(buf, exp_sign_end)
}

/// An escape character after a backslash that stands for itself.
pub open spec fn is_simple_escape(b: u8) -> bool {
    b == 0x22 || b == 0x5c || b == 0x2f || b == 0x62 || b == 0x66 || b == 0x6e || b == 0x72 || b == 0x74
}

/// Scans the inside of a string literal from `i`: `Ok` with the position
/// after the closing quote, or `Err` with the position of the fault.
pub open spec fn string_scan(buf: Seq<u8>, i: int) -> Result<int, int>
    decreases buf.len() - i,
{
    if i < 0 || i >= buf.len() {
        Err(i)
    } else if buf[i] == 0x22 {
        Ok(i + 1)
    } else if buf[i] == 0x5c {
        if i + 1 >= buf.len() {
            Err(i + 1)
        } else if is_simple_escape(buf[i + 1]) {
            string_scan(buf, i + 2)
        } else if buf[i + 1] == 0x75 {
            if i + 2 >= buf.len() || !is_hex(buf[i + 2]) {
                Err(i + 2)
            } else if i + 3 >= buf.len() || !is_hex(buf[i + 3]) {
                Err(i + 3)
            } else if i + 4 >= buf.len() || !is_hex(buf[i + 4]) {
                Err(i + 4)
            } else if i + 5 >= buf.len() || !is_hex(buf[i + 5]) {
                Err(i + 5)
            } else {
                string_scan(buf, i + 6)
            }
        } else {
            Err(i + 1)
        }
    } else {
        string_scan(buf, i + 1)
    }
}

pub open spec fn keyword_spec(buf: Seq<u8>, p: int, kw: Seq<u8>, t: JsonTokenType) -> Result<Option<(JsonTokenType, int, int)>, int> {
    if p + kw.len() > buf.len() {
        Err(p)
    } else if buf.subrange(p, p + kw.len()) == kw {
        Ok(Some((t, p, p + kw.len())))
    } else {
        Err(p)
    }
}

pub open spec fn true_bytes() -> Seq<u8> { seq![0x74u8, 0x72u8, 0x75u8, 0x65u8] }
pub open spec fn false_bytes() -> Seq<u8> { seq![0x66u8, 0x61u8, 0x6cu8, 0x73u8, 0x65u8] }
pub open spec fn null_bytes() -> Seq<u8> { seq![0x6eu8, 0x75u8, 0x6cu8, 0x6cu8] }

pub open spec fn punctuation_type(b: u8) -> Option<JsonTokenType> {
    if b == 0x5b { Some(JsonTokenType::OpenBracket) }
    else if b == 0x5d { Some(JsonTokenType::CloseBracket) }
    else if b == 0x7b { Some(JsonTokenType::OpenBrace) }
    else if b == 0x7d { Some(JsonTokenType::CloseBrace) }
    else if b == 0x3a { Some(JsonTokenType::Colon) }
    else if b == 0x2c { Some(JsonTokenType::Comma) }
    else { None }
}

/// The next token from `pos`, after whitespace: `Ok(None)` at the end of
/// input, `Err` with the position of a fault.
pub open spec fn lex_spec(buf: Seq<u8>, pos: int) -> Result<Option<(JsonTokenType, int, int)>, int> {
    let p = skip_ws(buf, pos);
    if p >= buf.len() {
        Ok(None)
    } else {
        let b = buf[p];
        if punctuation_type(b) is Some {
            Ok(Some((punctuation_type(b)->0, p, p + 1)))
        } else if b == 0x74 {
            keyword_spec(buf, p, true_bytes(), JsonTokenType::True)
        } else if b == 0x66 {
            keyword_spec(buf, p, false_bytes(), JsonTokenType::False)
        } else if b == 0x6e {
            keyword_spec(buf, p, null_bytes(), JsonTokenType::Null)
        } else if b == 0x2d || is_digit(b) {
            Ok(Some((JsonTokenType::Number, p, number_end(buf, p))))
        } else if b == 0x22 {
            match string_scan(buf, p + 1) {
                Ok(e) => Ok(Some((JsonTokenType::StringLiteral, p, e))),
                Err(a) => Err(a),
            }
        } else {
            Err(p)
        }
    }
}

// ---------------------------------------------------------------------------
// The lexer.

fn skip_whitespace(buf: &[u8], pos: usize) -> (r: usize)
    requires
        pos <= buf@.len(),
    ensures
        r == skip_ws(buf@, pos as int),
        pos <= r <= buf@.len(),
{
    let mut i = pos;
    while i < buf.len() && (buf[i] == 0x20 || buf[i] == 0x09 || buf[i] == 0x0a || buf[i] == 0x0c || buf[i] == 0x0d)
        invariant
            pos <= i <= buf@.len(),
            skip_ws(buf@, i as int) == skip_ws(buf@, pos as int),
        decreases buf@.len() - i,
    {
        i = i + 1;
    }
    i
}

fn skip_digits(buf: &[u8], pos: usize) -> (r: usize)
    requires
        pos <= buf@.len(),
    ensures
        r == digits_end(buf@, pos as int),
        pos <= r <= buf@.len(),
{
    let mut i = pos;
    while i < buf.len() && 0x30 <= buf[i] && buf[i] <= 0x39
        invariant
            pos <= i <= buf@.len(),
            digits_end(buf@, i as int) == digits_end(buf@, pos as int),
        decreases buf@.len() - i,
    {
        i = i + 1;
    }
    i
}

proof fn lemma_digits_end_bounds(buf: Seq<u8>, i: int)
    requires
        0 <= i <= buf.len(),
    ensures
        i <= digits_end(buf, i) <= buf.len(),
        i < buf.len() && is_digit(buf[i]) ==> i < digits_end(buf, i),
    decreases buf.len() - i,
{
    if i < buf.len() && is_digit(buf[i]) {
        lemma_digits_end_bounds(buf, i + 1);
    }
}

fn lex_number(buf: &[u8], start: usize) -> (r: usize)
    requires
        start < buf@.len(),
        buf@[start as int] == 0x2d || is_digit(buf@[start as int]),
    ensures
        r == number_end(buf@, start as int),
        start < r <= buf@.len(),
{
    let mut p = start;
    if p < buf.len() && buf[p] == 0x2d {
        p = p + 1;
    }
    if p < buf.len() {
        if buf[p] != 0x30 {
            proof {
                lemma_digits_end_bounds(buf@, p as int);
            }
            p = skip_digits(buf, p);
        } else {
            p = p + 1;
        }
    }
    if p < buf.len() && buf[p] == 0x2e {
        p = p + 1;
    }
    p = skip_digits(buf, p);
    if p < buf.len() && (buf[p] == 0x45 || buf[p] == 0x65) {
        p = p + 1;
    }
    if p < buf.len() && (buf[p] == 0x2b || buf[p] == 0x2d) {
        p = p + 1;
    }
    skip_digits(buf, p)
}

fn is_hex_byte(b: u8) -> (r: bool)
    ensures
        r == is_hex(b),
{
    (0x30 <= b && b <= 0x39) || (0x41 <= b && b <= 0x46) || (0x61 <= b && b <= 0x66)
}

fn scan_string(buf: &[u8], from: usize) -> (r: Result<usize, usize>)
    requires
        from <= buf@.len(),
    ensures
        match r {
            Ok(e) => string_scan(buf@, from as int) == Ok::<int, int>(e as int) && from < e <= buf@.len(),
            Err(a) => string_scan(buf@, from as int) == Err::<int, int>(a as int),
        },
{
    let mut i = from;
    loop
        invariant
            from <= i <= buf@.len(),
            string_scan(buf@, i as int) == string_scan(buf@, from as int),
        decreases buf@.len() - i,
    {
        if i >= buf.len() {
            return Err(i);
        }
        let b = buf[i];
        if b == 0x22 {
            return Ok(i + 1);
        } else if b == 0x5c {
            if i + 1 >= buf.len() {
                return Err(i + 1);
            }
            let e = buf[i + 1];
            if e == 0x22 || e == 0x5c || e == 0x2f || e == 0x62 || e == 0x66 || e == 0x6e || e == 0x72 || e == 0x74 {
                if i + 2 > buf.len() {
                    return Err(i + 2);
                }
                i = i + 2;
            } else if e == 0x75 {
                if i + 2 >= buf.len() || !is_hex_byte(buf[i + 2]) {
                    return Err(i + 2);
                }
                if i + 3 >= buf.len() || !is_hex_byte(buf[i + 3]) {
                    return Err(i + 3);
                }
                if i + 4 >= buf.len() || !is_hex_byte(buf[i + 4]) {
                    return Err(i + 4);
                }
                if i + 5 >= buf.len() || !is_hex_byte(buf[i + 5]) {
                    return Err(i + 5);
                }
                i = i + 6;
            } else {
                return Err(i + 1);
            }
        } else {
            i = i + 1;
        }
    }
}


fn matches_at(buf: &[u8], p: usize, kw: &[u8]) -> (r: bool)
    requires
        p <= buf@.len(),
    ensures
        r == (p + kw@.len() <= buf@.len() && buf@.subrange(p as int, p + kw@.len()) == kw@),
{
    if kw.len() > buf.len() - p {
        return false;
    }
    let mut k: usize = 0;
    while k < kw.len()
        invariant
            k <= kw@.len(),
            p + kw@.len() <= buf@.len(),
            buf@.len() <= usize::MAX,
            buf@.subrange(p as int, p + k) == kw@.subrange(0, k as int),
        decreases kw@.len() - k,
    {
        if buf[p + k] != kw[k] {
            assert(buf@.subrange(p as int, p + kw@.len())[k as int] != kw@[k as int]);
            return false;
        }
        k = k + 1;
        assert(buf@.subrange(p as int, p + k) =~= kw@.subrange(0, k as int));
    }
    assert(kw@.subrange(0, kw@.len() as int) =~= kw@);
    true
}

/// `r` is the exec form of the lexer outcome `l`.
pub open spec fn lexed(r: Result<Option<JsonToken>, InvalidJsonError>, l: Result<Option<(JsonTokenType, int, int)>, int>) -> bool {
    match (r, l) {
        (Ok(None), Ok(None)) => true,
        (Ok(Some(tok)), Ok(Some(t))) => tok.token_type == t.0 && tok.start == t.1 && tok.end == t.2,
        (Err(e), Err(a)) => e.at == a,
        _ => false,
    }
}

fn json_error(at: usize, message: &str) -> (r: InvalidJsonError)
    ensures
        r.at == at,
        r.message@ == message@,
{
    InvalidJsonError { at, message: String::from_str(message) }
}

fn lex_keyword(buf: &[u8], p: usize, kw: &[u8], token_type: JsonTokenType) -> (r: Result<Option<JsonToken>, InvalidJsonError>)
    requires
        p <= buf@.len(),
    ensures
        lexed(r, keyword_spec(buf@, p as int, kw@, token_type)),
        r matches Ok(Some(tok)) ==> tok.end <= buf@.len(),
{
    if kw.len() <= buf.len() - p && matches_at(buf, p, kw) {
        Ok(Some(JsonToken { token_type, start: p, end: p + kw.len() }))
    } else if kw.len() > buf.len() - p {
        Err(json_error(p, "keyword runs past the end of input"))
    } else {
        Err(json_error(p, "unexpected characters in keyword"))
    }
}

fn punctuation(b: u8) -> (r: Option<JsonTokenType>)
    ensures
        r == punctuation_type(b),
{
    if b == 0x5b { Some(JsonTokenType::OpenBracket) }
    else if b == 0x5d { Some(JsonTokenType::CloseBracket) }
    else if b == 0x7b { Some(JsonTokenType::OpenBrace) }
    else if b == 0x7d { Some(JsonTokenType::CloseBrace) }
    else if b == 0x3a { Some(JsonTokenType::Colon) }
    else if b == 0x2c { Some(JsonTokenType::Comma) }
    else { None }
}

/// The token after `pos` and any whitespace.
fn lex_next_token(buf: &[u8], pos: usize) -> (r: Result<Option<JsonToken>, InvalidJsonError>)
    requires
        pos <= buf@.len(),
    ensures
        lexed(r, lex_spec(buf@, pos as int)),
        r matches Ok(Some(tok)) ==> pos <= tok.start < tok.end <= buf@.len(),
{
    let p = skip_whitespace(buf, pos);
    if p >= buf.len() {
        return Ok(None);
    }
    let b = buf[p];
    if let Some(t) = punctuation(b) {
        return Ok(Some(JsonToken { token_type: t, start: p, end: p + 1 }));
    }
    if b == 0x74 {
        let kw: [u8; 4] = [0x74, 0x72, 0x75, 0x65];
        assert(kw@ =~= true_bytes());
        lex_keyword(buf, p, kw.as_slice(), JsonTokenType::True)
    } else if b == 0x66 {
        let kw: [u8; 5] = [0x66, 0x61, 0x6c, 0x73, 0x65];
        assert(kw@ =~= false_bytes());
        lex_keyword(buf, p, kw.as_slice(), JsonTokenType::False)
    } else if b == 0x6e {
        let kw: [u8; 4] = [0x6e, 0x75, 0x6c, 0x6c];
        assert(kw@ =~= null_bytes());
        lex_keyword(buf, p, kw.as_slice(), JsonTokenType::Null)
    } else if b == 0x2d || (0x30 <= b && b <= 0x39) {
        let end = lex_number(buf, p);
        Ok(Some(JsonToken { token_type: JsonTokenType::Number, start: p, end }))
    } else if b == 0x22 {
        match scan_string(buf, p + 1) {
            Ok(end) => Ok(Some(JsonToken { token_type: JsonTokenType::StringLiteral, start: p, end })),
            Err(at) => Err(json_error(at, "malformed string literal")),
        }
    } else {
        Err(json_error(p, "unexpected character"))
    }
}


// ---------------------------------------------------------------------------
// Elements.

/// A JSON value: a scalar keeps its source text as `value`; an object or
/// array has no value and holds its members as `children`, each labelled by
/// its key (object) or its index (array).
#[derive(Debug, PartialEq)]
pub struct JsonElement {
    pub label: Option<String>,
    pub value: Option<String>,
    pub children: Vec<JsonElement>,
}

/// Every child has a label.
pub open spec fn children_labelled(e: &JsonElement) -> bool {
    forall|i: int| 0 <= i < e.children@.len() ==> (#[trigger] e.children@[i]).label is Some
}

pub open spec fn has_label(e: JsonElement, label: Seq<char>) -> bool {
    e.label is Some && e.label->0@ == label
}

impl JsonElement {
    pub fn new(label: Option<String>, value: Option<String>, children: Vec<JsonElement>) -> (r: Self)
        ensures
            r.label == label,
            r.value == value,
            r.children == children,
    {
        JsonElement { label, value, children }
    }

    /// The first child labelled `label`.
    pub fn get_element(&self, label: &str) -> (r: Option<&JsonElement>)
        requires
            children_labelled(self),
        ensures
            r is None <==> forall|i: int| 0 <= i < self.children@.len() ==> !has_label(#[trigger] self.children@[i], label@),
            r is Some ==> exists|i: int| 0 <= i < self.children@.len() && *r->0 == self.children@[i]
                && has_label(self.children@[i], label@)
                && forall|j: int| 0 <= j < i ==> !has_label(#[trigger] self.children@[j], label@),
    {
        let wanted = String::from_str(label);
        let mut i: usize = 0;
        while i < self.children.len()
            invariant
                i <= self.children@.len(),
                children_labelled(self),
                wanted@ == label@,
                forall|j: int| 0 <= j < i ==> !has_label(#[trigger] self.children@[j], label@),
            decreases self.children@.len() - i,
        {
            let child = &self.children[i];
            assert(self.children@[i as int].label is Some);
            let matched = match &child.label {
                Some(l) => *l == wanted,
                None => false,
            };
            if matched {
                return Some(child);
            }
            i = i + 1;
        }
        None
    }

    /// Iterates over the children in order.
    pub fn iter(&self) -> (r: JsonElementIterator<'_>)
        ensures
            r.element == self,
            r.index == 0,
    {
        JsonElementIterator { element: self, index: 0 }
    }
}

/// Walks the children of an element.
pub struct JsonElementIterator<'a> {
    pub element: &'a JsonElement,
    pub index: usize,
}

impl<'a> JsonElementIterator<'a> {
    /// The next child, or `None` once all have been handed out.
    pub fn next(&mut self) -> (r: Option<&'a JsonElement>)
        ensures
            final(self).element == old(self).element,
            old(self).index < old(self).element.children@.len() ==> r is Some
                && *r->0 == old(self).element.children@[old(self).index as int]
                && final(self).index == old(self).index + 1,
            old(self).index >= old(self).element.children@.len() ==> r is None
                && final(self).index == old(self).index,
    {
        if self.index < self.element.children.len() {
            let child = &self.element.children[self.index];
            self.index = self.index + 1;
            Some(child)
        } else {
            None
        }
    }
}

// ---------------------------------------------------------------------------
// The parser.

/// Text of bytes read as UTF-8, with invalid sequences replaced.
pub uninterp spec fn lossy_text(bytes: Seq<u8>) -> Seq<char>;

/// Relies on `String::from_utf8_lossy`: the text depends on the bytes alone.
#[verifier::external_body]
fn text_of(bytes: &[u8]) -> (r: String)
    ensures
        r@ == lossy_text(bytes@),
{
    String::from_utf8_lossy(bytes).into_owned()
}

pub open spec fn is_scalar(t: JsonTokenType) -> bool {
    t == JsonTokenType::StringLiteral || t == JsonTokenType::Number || t == JsonTokenType::True
        || t == JsonTokenType::False || t == JsonTokenType::Null
}

/// A parsed value: a scalar's source text, or the labelled members of an
/// object or array in order.
pub enum JsonModel {
    Leaf(Seq<char>),
    Container(Seq<(Seq<char>, JsonModel)>),
}

/// `e` holds `m`: a leaf as its value with no children; a container with no
/// value and each child labelled and holding its member.
pub open spec fn holds(e: JsonElement, m: JsonModel) -> bool
    decreases e,
{
    match m {
        JsonModel::Leaf(v) => e.value is Some && e.value->0@ == v && e.children@.len() == 0,
        JsonModel::Container(members) => {
            &&& e.value is None
            &&& e.children@.len() == members.len()
            &&& forall|i: int| 0 <= i < members.len() ==> {
                &&& (#[trigger] e.children@[i]).label is Some
                &&& e.children@[i].label->0@ == members[i].0
                &&& holds(e.children@[i], members[i].1)
            }
        },
    }
}

/// First position in `s..e` that does not hold a quote, or `e`.
pub open spec fn quotes_end(buf: Seq<u8>, s: int, e: int) -> int
    decreases e - s,
{
    if s < e && at_is(buf, s, 0x22) { quotes_end(buf, s + 1, e) } else { s }
}

/// End of `s..e` with trailing quotes dropped.
pub open spec fn quotes_start(buf: Seq<u8>, s: int, e: int) -> int
    decreases e - s,
{
    if e > s && at_is(buf, e - 1, 0x22) { quotes_start(buf, s, e - 1) } else { e }
}

/// Text of a key token with its quotes trimmed from both ends.
pub open spec fn key_text(buf: Seq<u8>, s: int, e: int) -> Seq<char> {
    let from = quotes_end(buf, s, e);
    lossy_text(buf.subrange(from, quotes_start(buf, from, e)))
}

/// Where a token that is not the expected one makes the parse fail: at the
/// fault for a lexing error, at the end of input, or after the token.
pub open spec fn failure_at(l: Result<Option<(JsonTokenType, int, int)>, int>, len: int) -> int {
    match l {
        Err(a) => a,
        Ok(None) => len,
        Ok(Some(t)) => t.2,
    }
}

/// The token of a lexer outcome that has one.
pub open spec fn token_of(l: Result<Option<(JsonTokenType, int, int)>, int>) -> (JsonTokenType, int, int) {
    l->Ok_0->0
}

/// A token that lies after `pos` and inside the buffer.
pub open spec fn token_after(l: Result<Option<(JsonTokenType, int, int)>, int>, pos: int, len: int) -> bool {
    l matches Ok(Some(t)) && pos <= t.1 < t.2 <= len
}

/// Parsing a value at `pos`: the value and the position after it, or the
/// position of the fault.
pub open spec fn value_spec(buf: Seq<u8>, pos: int) -> Result<(JsonModel, int), int>
    decreases buf.len() - pos, 0int,
{
    let l = lex_spec(buf, pos);
    if !token_after(l, pos, buf.len() as int) {
        Err(failure_at(l, buf.len() as int))
    } else {
        let t = token_of(l);
        if is_scalar(t.0) {
            Ok((JsonModel::Leaf(lossy_text(buf.subrange(t.1, t.2))), t.2))
        } else if t.0 == JsonTokenType::OpenBrace {
            members_spec(buf, t.2, Seq::empty())
        } else if t.0 == JsonTokenType::OpenBracket {
            items_spec(buf, t.2, Seq::empty())
        } else {
            Err(t.2)
        }
    }
}

/// One object member at `pos`: a string key, a colon and a value; the
/// key's text, the value and the position after it.
pub open spec fn member_spec(buf: Seq<u8>, pos: int) -> Result<(Seq<char>, JsonModel, int), int>
    decreases buf.len() - pos, 0int,
{
    let key = lex_spec(buf, pos);
    if !token_after(key, pos, buf.len() as int) {
        Err(failure_at(key, buf.len() as int))
    } else if token_of(key).0 != JsonTokenType::StringLiteral {
        Err(token_of(key).2)
    } else {
        let k = token_of(key);
        let colon = lex_spec(buf, k.2);
        if !token_after(colon, k.2, buf.len() as int) {
            Err(failure_at(colon, buf.len() as int))
        } else if token_of(colon).0 != JsonTokenType::Colon {
            Err(token_of(colon).2)
        } else {
            match value_spec(buf, token_of(colon).2) {
                Err(a) => Err(a),
                Ok((m, end)) => Ok((key_text(buf, k.1, k.2), m, end)),
            }
        }
    }
}

/// What follows a member: `Ok((true, p))` for a comma, `Ok((false, p))`
/// for the closing delimiter, with `p` after it; anything else fails.
pub open spec fn separator_spec(buf: Seq<u8>, pos: int, closing: JsonTokenType) -> Result<(bool, int), int> {
    let l = lex_spec(buf, pos);
    if !token_after(l, pos, buf.len() as int) {
        Err(failure_at(l, buf.len() as int))
    } else if token_of(l).0 == JsonTokenType::Comma {
        Ok((true, token_of(l).2))
    } else if token_of(l).0 == closing {
        Ok((false, token_of(l).2))
    } else {
        Err(token_of(l).2)
    }
}

/// Parsing object members from `pos`, after `done` were read: members
/// separated by commas up to the closing brace.
pub open spec fn members_spec(buf: Seq<u8>, pos: int, done: Seq<(Seq<char>, JsonModel)>) -> Result<(JsonModel, int), int>
    decreases buf.len() - pos, 1int,
{
    match member_spec(buf, pos) {
        Err(a) => Err(a),
        Ok((k, m, end)) => {
            let done2 = done.push((k, m));
            match separator_spec(buf, end, JsonTokenType::CloseBrace) {
                Err(a) => Err(a),
                Ok((true, after)) => if after <= pos { Err(after) } else { members_spec(buf, after, done2) },
                Ok((false, after)) => Ok((JsonModel::Container(done2), after)),
            }
        },
    }
}

/// Parsing array items from `pos`, after `done` were read: values labelled
/// by their index, separated by commas up to the closing bracket.
pub open spec fn items_spec(buf: Seq<u8>, pos: int, done: Seq<(Seq<char>, JsonModel)>) -> Result<(JsonModel, int), int>
    decreases buf.len() - pos, 1int,
{
    match value_spec(buf, pos) {
        Err(a) => Err(a),
        Ok((m, end)) => {
            let done2 = done.push((decimal_text(done.len()), m));
            match separator_spec(buf, end, JsonTokenType::CloseBracket) {
                Err(a) => Err(a),
                Ok((true, after)) => if after <= pos { Err(after) } else { items_spec(buf, after, done2) },
                Ok((false, after)) => Ok((JsonModel::Container(done2), after)),
            }
        },
    }
}

/// A child holds a member: labelled with its key, holding its value.
pub open spec fn member_held(e: JsonElement, member: (Seq<char>, JsonModel)) -> bool {
    e.label is Some && e.label->0@ == member.0 && holds(e, member.1)
}

/// Whether an element holds a value does not depend on its own label.
proof fn lemma_holds_keeps_to_contents(a: JsonElement, b: JsonElement, m: JsonModel)
    requires
        holds(a, m),
        a.value == b.value,
        a.children == b.children,
    ensures
        holds(b, m),
{
}

/// A container element holds the members its children hold.
proof fn lemma_container_holds(e: JsonElement, done: Seq<(Seq<char>, JsonModel)>)
    requires
        e.value is None,
        e.children@.len() == done.len(),
        forall|i: int| 0 <= i < done.len() ==> member_held(#[trigger] e.children@[i], done[i]),
    ensures
        holds(e, JsonModel::Container(done)),
{
    assert forall|i: int| 0 <= i < done.len() implies {
        &&& (#[trigger] e.children@[i]).label is Some
        &&& e.children@[i].label->0@ == done[i].0
        &&& holds(e.children@[i], done[i].1)
    } by {
        assert(member_held(e.children@[i], done[i]));
    }
}

/// `r` is the outcome `o` of a parse: the element holding the value, or
/// the error at the fault's position.
pub open spec fn outcome(r: Result<JsonElement, InvalidJsonError>, o: Result<(JsonModel, int), int>) -> bool {
    match o {
        Ok((m, _)) => r is Ok && holds(r->Ok_0, m) && r->Ok_0.label is None,
        Err(a) => r is Err && r->Err_0.at == a,
    }
}

/// The outcome, with the position after the value where it succeeded.
pub open spec fn parsed(r: Result<JsonElement, InvalidJsonError>, end: int, o: Result<(JsonModel, int), int>) -> bool {
    &&& outcome(r, o)
    &&& o is Ok ==> end == o->Ok_0.1
}


/// Reads JSON from a byte buffer.
pub struct JsonParser<'a> {
    pub buffer: &'a [u8],
    pub position: usize,
}

impl<'a> JsonParser<'a> {
    pub fn new(buffer: &'a [u8]) -> (r: Self)
        ensures
            r.buffer == buffer,
            r.position == 0,
    {
        JsonParser { buffer, position: 0 }
    }

    /// Parses one value from the start of the buffer.
    pub fn parse(self) -> (r: Result<JsonElement, InvalidJsonError>)
        ensures
            outcome(r, value_spec(self.buffer@, 0)),
    {
        let mut position: usize = 0;
        Self::parse_value(self.buffer, &mut position)
    }

    /// The next token, moving the position past it; at the end of input the
    /// position moves to the end. On error the position stays.
    pub fn next_token(&mut self) -> (r: Result<Option<JsonToken>, InvalidJsonError>)
        requires
            old(self).position <= old(self).buffer@.len(),
        ensures
            final(self).buffer == old(self).buffer,
            lexed(r, lex_spec(old(self).buffer@, old(self).position as int)),
            r matches Ok(Some(tok)) ==> final(self).position == tok.end,
            r matches Ok(None) ==> final(self).position == old(self).buffer@.len(),
            r is Err ==> final(self).position == old(self).position,
    {
        let r = lex_next_token(self.buffer, self.position);
        match &r {
            Ok(Some(tok)) => self.position = tok.end,
            Ok(None) => self.position = self.buffer.len(),
            Err(_) => {},
        }
        r
    }

    fn next(buffer: &[u8], position: &mut usize) -> (r: Result<Option<JsonToken>, InvalidJsonError>)
        requires
            *old(position) <= buffer@.len(),
        ensures
            lexed(r, lex_spec(buffer@, *old(position) as int)),
            r matches Ok(Some(tok)) ==> *final(position) == tok.end && *old(position) <= tok.start < tok.end,
            r matches Ok(None) ==> *final(position) == buffer@.len(),
            r is Err ==> *final(position) == *old(position),
            *old(position) <= *final(position) <= buffer@.len(),
    {
        let r = lex_next_token(buffer, *position);
        match &r {
            Ok(Some(tok)) => *position = tok.end,
            Ok(None) => *position = buffer.len(),
            Err(_) => {},
        }
        r
    }

    /// Parses the value that starts at `position`, moving past it.
    pub fn parse_value(buffer: &[u8], position: &mut usize) -> (r: Result<JsonElement, InvalidJsonError>)
        requires
            *old(position) <= buffer@.len(),
        ensures
            *old(position) <= *final(position) <= buffer@.len(),
            parsed(r, *final(position) as int, value_spec(buffer@, *old(position) as int)),
        decreases buffer@.len() - *old(position), 0int,
    {
        let tok = match Self::next(buffer, position) {
            Ok(Some(tok)) => tok,
            Ok(None) => return Err(json_error(*position, "unexpected end of JSON input")),
            Err(e) => return Err(e),
        };
        match tok.token_type {
            JsonTokenType::StringLiteral | JsonTokenType::Number | JsonTokenType::True
            | JsonTokenType::False | JsonTokenType::Null => {
                let value = text_of(&buffer[tok.start..tok.end]);
                Ok(JsonElement { label: None, value: Some(value), children: Vec::new() })
            },
            JsonTokenType::OpenBrace => Self::parse_object(buffer, position),
            JsonTokenType::OpenBracket => Self::parse_array(buffer, position),
            _ => Err(json_error(*position, "expected a string, number, true, false, null, object or array")),
        }
    }

    /// The label of an object member: its key token with the quotes trimmed.
    fn key_label(buffer: &[u8], start: usize, end: usize) -> (r: String)
        requires
            start <= end <= buffer@.len(),
        ensures
            r@ == key_text(buffer@, start as int, end as int),
    {
        let mut s0 = start;
        while s0 < end && buffer[s0] == 0x22
            invariant
                start <= s0 <= end <= buffer@.len(),
                quotes_end(buffer@, s0 as int, end as int) == quotes_end(buffer@, start as int, end as int),
            decreases end - s0,
        {
            s0 = s0 + 1;
        }
        let mut e0 = end;
        while e0 > s0 && buffer[e0 - 1] == 0x22
            invariant
                s0 <= e0 <= end,
                end <= buffer@.len(),
                quotes_start(buffer@, s0 as int, e0 as int) == quotes_start(buffer@, s0 as int, end as int),
            decreases e0 - s0,
        {
            e0 = e0 - 1;
        }
        text_of(&buffer[s0..e0])
    }

    /// Parses one object member: key, colon and value. The value comes
    /// back labelled with the key.
    fn parse_member(buffer: &[u8], position: &mut usize) -> (r: Result<JsonElement, InvalidJsonError>)
        requires
            *old(position) <= buffer@.len(),
        ensures
            *old(position) <= *final(position) <= buffer@.len(),
            match member_spec(buffer@, *old(position) as int) {
                Ok((k, m, end)) => r is Ok && holds(r->Ok_0, m) && r->Ok_0.label is Some
                    && r->Ok_0.label->0@ == k && *final(position) == end,
                Err(a) => r is Err && r->Err_0.at == a,
            },
        decreases buffer@.len() - *old(position), 0int,
    {
        let key = match Self::next(buffer, position) {
            Ok(Some(tok)) => tok,
            Ok(None) => return Err(json_error(*position, "unexpected end of JSON input")),
            Err(e) => return Err(e),
        };
        match key.token_type {
            JsonTokenType::StringLiteral => {},
            _ => return Err(json_error(*position, "expected a string literal label")),
        }
        let colon = match Self::next(buffer, position) {
            Ok(Some(tok)) => tok,
            Ok(None) => return Err(json_error(*position, "unexpected end of JSON input")),
            Err(e) => return Err(e),
        };
        match colon.token_type {
            JsonTokenType::Colon => {},
            _ => return Err(json_error(*position, "expected a colon")),
        }
        let child = match Self::parse_value(buffer, position) {
            Ok(child) => child,
            Err(e) => return Err(e),
        };
        let label = Self::key_label(buffer, key.start, key.end);
        let r = JsonElement { label: Some(label), value: child.value, children: child.children };
        proof {
            lemma_holds_keeps_to_contents(child, r, value_spec(buffer@, colon.end as int)->Ok_0.0);
        }
        Ok(r)
    }

    /// Parses object members after the opening brace, up to the closing one.
    pub fn parse_object(buffer: &[u8], position: &mut usize) -> (r: Result<JsonElement, InvalidJsonError>)
        requires
            *old(position) <= buffer@.len(),
        ensures
            *old(position) <= *final(position) <= buffer@.len(),
            parsed(r, *final(position) as int, members_spec(buffer@, *old(position) as int, Seq::empty())),
        decreases buffer@.len() - *old(position), 1int,
    {
        let ghost entry = *position;
        let ghost done: Seq<(Seq<char>, JsonModel)> = Seq::empty();
        let mut children: Vec<JsonElement> = Vec::new();
        loop
            invariant
                entry == *old(position),
                entry <= *position <= buffer@.len(),
                members_spec(buffer@, entry as int, Seq::empty()) == members_spec(buffer@, *position as int, done),
                children@.len() == done.len(),
                forall|i: int| 0 <= i < done.len() ==> member_held(#[trigger] children@[i], done[i]),
            decreases buffer@.len() - *position,
        {
            let ghost p = *position as int;
            let child = match Self::parse_member(buffer, position) {
                Ok(child) => child,
                Err(e) => return Err(e),
            };
            let ghost km = member_spec(buffer@, p)->Ok_0;
            children.push(child);
            proof {
                done = done.push((km.0, km.1));
            }
            let more = Self::container_has_more_values(buffer, position, JsonTokenType::CloseBrace);
            match more {
                Ok(true) => {},
                Ok(false) => {
                    let r = JsonElement { label: None, value: None, children };
                    proof {
                        lemma_container_holds(r, done);
                    }
                    return Ok(r);
                },
                Err(e) => return Err(e),
            }
        }
    }

    /// Parses array items after the opening bracket, up to the closing one.
    pub fn parse_array(buffer: &[u8], position: &mut usize) -> (r: Result<JsonElement, InvalidJsonError>)
        requires
            *old(position) <= buffer@.len(),
        ensures
            *old(position) <= *final(position) <= buffer@.len(),
            parsed(r, *final(position) as int, items_spec(buffer@, *old(position) as int, Seq::empty())),
        decreases buffer@.len() - *old(position), 1int,
    {
        let ghost entry = *position;
        let ghost done: Seq<(Seq<char>, JsonModel)> = Seq::empty();
        let mut children: Vec<JsonElement> = Vec::new();
        loop
            invariant
                entry == *old(position),
                entry <= *position <= buffer@.len(),
                items_spec(buffer@, entry as int, Seq::empty()) == items_spec(buffer@, *position as int, done),
                children@.len() == done.len(),
                forall|i: int| 0 <= i < done.len() ==> member_held(#[trigger] children@[i], done[i]),
            decreases buffer@.len() - *position,
        {
            let ghost p = *position as int;
            let child = match Self::parse_value(buffer, position) {
                Ok(child) => child,
                Err(e) => return Err(e),
            };
            let ghost m = value_spec(buffer@, p)->Ok_0.0;
            let mut label = String::new();
            push_decimal(&mut label, children.len() as u64);
            let labelled = JsonElement { label: Some(label), value: child.value, children: child.children };
            proof {
                lemma_holds_keeps_to_contents(child, labelled, m);
            }
            children.push(labelled);
            proof {
                done = done.push((decimal_text(done.len()), m));
            }
            let more = Self::container_has_more_values(buffer, position, JsonTokenType::CloseBracket);
            match more {
                Ok(true) => {},
                Ok(false) => {
                    let r = JsonElement { label: None, value: None, children };
                    proof {
                        lemma_container_holds(r, done);
                    }
                    return Ok(r);
                },
                Err(e) => return Err(e),
            }
        }
    }

    /// After a member: `true` on a comma, `false` on the closing delimiter,
    /// moving past either.
    fn container_has_more_values(buffer: &[u8], position: &mut usize, closing: JsonTokenType) -> (r: Result<bool, InvalidJsonError>)
        requires
            *old(position) <= buffer@.len(),
            closing != JsonTokenType::Comma,
        ensures
            *old(position) <= *final(position) <= buffer@.len(),
            match separator_spec(buffer@, *old(position) as int, closing) {
                Ok((more, after)) => r == Ok::<bool, InvalidJsonError>(more) && *final(position) == after
                    && *old(position) < after,
                Err(a) => r is Err && r->Err_0.at == a,
            },
    {
        match Self::next(buffer, position) {
            Ok(Some(tok)) => {
                if let JsonTokenType::Comma = tok.token_type {
                    Ok(true)
                } else if tok.token_type == closing {
                    Ok(false)
                } else {
                    Err(json_error(*position, "expected a comma or the closing delimiter"))
                }
            },
            Ok(None) => Err(json_error(*position, "unexpected end of JSON input")),
            Err(e) => Err(e),
        }
    }
}

} // verus!
