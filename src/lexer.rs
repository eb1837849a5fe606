use vstd::prelude::*;

verus! {

/// The kinds of token. `AndAnd` and `OrOr` spell the logical operators `&&` and `||`.
#[derive(Debug, Clone, PartialEq, Eq)]
pub enum TokenKind {
    Ident(String),
    Int(i32),
    Char(char),
    StringLit(String),
    True,
    False,
    Fn,
    Let,
    Mut,
    Return,
    If,
    Else,
    While,
    Struct,
    Enum,
    Import,
    Extern,
    Colon,
    Semicolon,
    Comma,
    Dot,
    LParen,
    RParen,
    LBrace,
    RBrace,
    Arrow,
    Plus,
    Minus,
    Star,
    Slash,
    Eq,
    Lt,
    Gt,
    LtEq,
    GtEq,
    EqEq,
    NotEq,
    Bang,
    AndAnd,
    OrOr,
    /// A character that starts no token; the parser reports it as unexpected.
    Unknown(char),
    Eof,
}

/// A token and the byte offset at which it begins.
#[derive(Debug, Clone)]
pub struct Token {
    pub kind: TokenKind,
    pub pos: usize,
}

/// A longest-match tokenizer over the characters of a source text.
pub struct Lexer {
    chars: Vec<char>,
    idx: usize,
    pos: usize,
}

/// Unicode white space, as `char::is_whitespace` classifies it.
pub open spec fn is_ws(c: char) -> bool {
    let u = c as u32;
    (9 <= u <= 13) || u == 32 || u == 0x85 || u == 0xA0 || u == 0x1680 || (0x2000 <= u <= 0x200A)
        || u == 0x2028 || u == 0x2029 || u == 0x202F || u == 0x205F || u == 0x3000
}

pub open spec fn is_ascii_alpha(c: char) -> bool {
    ('a' as u32 <= c as u32 <= 'z' as u32) || ('A' as u32 <= c as u32 <= 'Z' as u32)
}

pub open spec fn is_ascii_digit(c: char) -> bool {
    '0' as u32 <= c as u32 <= '9' as u32
}

pub open spec fn is_ident_start(c: char) -> bool {
    is_ascii_alpha(c) || c == '_'
}

pub open spec fn is_ident_char(c: char) -> bool {
    is_ascii_alpha(c) || is_ascii_digit(c) || c == '_'
}

/// Where the run of white space and `//` comments that starts at `i` ends;
/// `in_comment` says that `i` lies inside a comment.
pub open spec fn ws_end(s: Seq<char>, i: int, in_comment: bool) -> int
    decreases s.len() - i,
{
    if i < 0 || i >= s.len() {
        i
    } else if in_comment {
        if s[i] == '\n' {
            ws_end(s, i + 1, false)
        } else {
            ws_end(s, i + 1, true)
        }
    } else if is_ws(s[i]) {
        ws_end(s, i + 1, false)
    } else if s[i] == '/' && i + 1 < s.len() && s[i + 1] == '/' {
        ws_end(s, i + 2, true)
    } else {
        i
    }
}

/// Where the run of identifier characters that starts at `i` ends.
pub open spec fn ident_end(s: Seq<char>, i: int) -> int
    decreases s.len() - i,
{
    if 0 <= i < s.len() && is_ident_char(s[i]) {
        ident_end(s, i + 1)
    } else {
        i
    }
}

/// The keyword that a word spells, if any.
pub open spec fn keyword_of(w: Seq<char>) -> Option<TokenKind> {
    if w == seq!['f', 'n'] {
        Some(TokenKind::Fn)
    } else if w == seq!['l', 'e', 't'] {
        Some(TokenKind::Let)
    } else if w == seq!['m', 'u', 't'] {
        Some(TokenKind::Mut)
    } else if w == seq!['r', 'e', 't', 'u', 'r', 'n'] {
        Some(TokenKind::Return)
    } else if w == seq!['i', 'f'] {
        Some(TokenKind::If)
    } else if w == seq!['e', 'l', 's', 'e'] {
        Some(TokenKind::Else)
    } else if w == seq!['w', 'h', 'i', 'l', 'e'] {
        Some(TokenKind::While)
    } else if w == seq!['s', 't', 'r', 'u', 'c', 't'] {
        Some(TokenKind::Struct)
    } else if w == seq!['e', 'n', 'u', 'm'] {
        Some(TokenKind::Enum)
    } else if w == seq!['i', 'm', 'p', 'o', 'r', 't'] {
        Some(TokenKind::Import)
    } else if w == seq!['e', 'x', 't', 'e', 'r', 'n'] {
        Some(TokenKind::Extern)
    } else if w == seq!['t', 'r', 'u', 'e'] {
        Some(TokenKind::True)
    } else if w == seq!['f', 'a', 'l', 's', 'e'] {
        Some(TokenKind::False)
    } else {
        None
    }
}

/// Whether `s[i]` exists and is `c`.
pub open spec fn char_at_is(s: Seq<char>, i: int, c: char) -> bool {
    0 <= i < s.len() && s[i] == c
}

/// The punctuation or operator token that starts at `j` (longest match), and where it ends.
pub open spec fn punct_of(s: Seq<char>, j: int) -> Option<(TokenKind, int)> {
    if j < 0 || j >= s.len() {
        None
    } else {
        let c = s[j];
        let two = |k: TokenKind| Some((k, j + 2));
        let one = |k: TokenKind| Some((k, j + 1));
        if c == ':' {
            one(TokenKind::Colon)
        } else if c == ';' {
            one(TokenKind::Semicolon)
        } else if c == ',' {
            one(TokenKind::Comma)
        } else if c == '.' {
            one(TokenKind::Dot)
        } else if c == '(' {
            one(TokenKind::LParen)
        } else if c == ')' {
            one(TokenKind::RParen)
        } else if c == '{' {
            one(TokenKind::LBrace)
        } else if c == '}' {
            one(TokenKind::RBrace)
        } else if c == '+' {
            one(TokenKind::Plus)
        } else if c == '*' {
            one(TokenKind::Star)
        } else if c == '/' {
            one(TokenKind::Slash)
        } else if c == '-' {
            if char_at_is(s, j + 1, '>') { two(TokenKind::Arrow) } else { one(TokenKind::Minus) }
        } else if c == '=' {
            if char_at_is(s, j + 1, '=') { two(TokenKind::EqEq) } else { one(TokenKind::Eq) }
        } else if c == '<' {
            if char_at_is(s, j + 1, '=') { two(TokenKind::LtEq) } else { one(TokenKind::Lt) }
        } else if c == '>' {
            if char_at_is(s, j + 1, '=') { two(TokenKind::GtEq) } else { one(TokenKind::Gt) }
        } else if c == '!' {
            if char_at_is(s, j + 1, '=') { two(TokenKind::NotEq) } else { one(TokenKind::Bang) }
        } else if c == '&' && char_at_is(s, j + 1, '&') {
            two(TokenKind::AndAnd)
        } else if c == '|' && char_at_is(s, j + 1, '|') {
            two(TokenKind::OrOr)
        } else {
            None
        }
    }
}

/// The keywords, punctuation and operators: the tokens that have one spelling.
pub open spec fn is_fixed_token(k: TokenKind) -> bool {
    !(k is Ident || k is Int || k is Char || k is StringLit || k is Unknown || k is Eof)
}

/// The spelling of a keyword, punctuation or operator token.
pub open spec fn fixed_text(k: TokenKind) -> Seq<char> {
    match k {
        TokenKind::True => seq!['t', 'r', 'u', 'e'],
        TokenKind::False => seq!['f', 'a', 'l', 's', 'e'],
        TokenKind::Fn => seq!['f', 'n'],
        TokenKind::Let => seq!['l', 'e', 't'],
        TokenKind::Mut => seq!['m', 'u', 't'],
        TokenKind::Return => seq!['r', 'e', 't', 'u', 'r', 'n'],
        TokenKind::If => seq!['i', 'f'],
        TokenKind::Else => seq!['e', 'l', 's', 'e'],
        TokenKind::While => seq!['w', 'h', 'i', 'l', 'e'],
        TokenKind::Struct => seq!['s', 't', 'r', 'u', 'c', 't'],
        TokenKind::Enum => seq!['e', 'n', 'u', 'm'],
        TokenKind::Import => seq!['i', 'm', 'p', 'o', 'r', 't'],
        TokenKind::Extern => seq!['e', 'x', 't', 'e', 'r', 'n'],
        TokenKind::Colon => seq![':'],
        TokenKind::Semicolon => seq![';'],
        TokenKind::Comma => seq![','],
        TokenKind::Dot => seq!['.'],
        TokenKind::LParen => seq!['('],
        TokenKind::RParen => seq![')'],
        TokenKind::LBrace => seq!['{'],
        TokenKind::RBrace => seq!['}'],
        TokenKind::Arrow => seq!['-', '>'],
        TokenKind::Plus => seq!['+'],
        TokenKind::Minus => seq!['-'],
        TokenKind::Star => seq!['*'],
        TokenKind::Slash => seq!['/'],
        TokenKind::Eq => seq!['='],
        TokenKind::Lt => seq!['<'],
        TokenKind::Gt => seq!['>'],
        TokenKind::LtEq => seq!['<', '='],
        TokenKind::GtEq => seq!['>', '='],
        TokenKind::EqEq => seq!['=', '='],
        TokenKind::NotEq => seq!['!', '='],
        TokenKind::Bang => seq!['!'],
        TokenKind::AndAnd => seq!['&', '&'],
        TokenKind::OrOr => seq!['|', '|'],
        _ => seq![],
    }
}

/// The fixed token that a lexer reads first from `s`, together with where it stops:
/// white space is skipped, a word is read whole and looked up among the keywords,
/// anything else is matched against the punctuation and operators.
pub open spec fn first_fixed_token(s: Seq<char>) -> Option<(TokenKind, int)> {
    let j = ws_end(s, 0, false);
    if 0 <= j < s.len() && is_ident_start(s[j]) {
        match keyword_of(s.subrange(j, ident_end(s, j))) {
            Some(k) => Some((k, ident_end(s, j))),
            None => None,
        }
    } else {
        punct_of(s, j)
    }
}


/// The number of bytes that `c` takes in UTF-8.
pub open spec fn utf8_len(c: char) -> nat {
    let u = c as u32;
    if u < 0x80 { 1 } else if u < 0x800 { 2 } else if u < 0x10000 { 3 } else { 4 }
}

/// The byte offset of character `j`: the UTF-8 lengths of the characters before it.
pub open spec fn byte_offset(s: Seq<char>, j: int) -> nat
    decreases j,
{
    if j <= 0 || s.len() == 0 {
        0
    } else if j > s.len() {
        byte_offset(s, s.len() as int)
    } else {
        byte_offset(s, j - 1) + utf8_len(s[j - 1])
    }
}

proof fn lemma_byte_offset_mono(s: Seq<char>, i: int, j: int)
    requires
        0 <= i <= j <= s.len(),
    ensures
        byte_offset(s, i) <= byte_offset(s, j),
    decreases j - i,
{
    if i < j {
        lemma_byte_offset_mono(s, i, j - 1);
    }
}

/// Where a character literal whose opening quote stands at `i` ends: after the
/// character or escape, and after the closing quote when there is one.
pub open spec fn char_lit_end(s: Seq<char>, i: int) -> int {
    let k = i + 1;
    let k2 = if k >= s.len() {
        k
    } else if s[k] == '\\' {
        if k + 2 <= s.len() { k + 2 } else { s.len() as int }
    } else {
        k + 1
    };
    if k2 < s.len() && s[k2] == '\'' { k2 + 1 } else { k2 }
}

/// Where a string literal whose body starts at `i` ends: just past the closing
/// quote, or at the end of input.
pub open spec fn string_end(s: Seq<char>, i: int) -> int
    decreases s.len() - i,
{
    if i < 0 || i >= s.len() {
        i
    } else if s[i] == '\"' {
        i + 1
    } else if s[i] == '\\' {
        if i + 1 >= s.len() { i + 1 } else { string_end(s, i + 2) }
    } else {
        string_end(s, i + 1)
    }
}

/// Relies on `str::len`: the length of the text in bytes, each character taking the
/// bytes of its UTF-8 encoding.
#[verifier::external_body]
fn byte_len(src: &str) -> (r: usize)
    ensures
        r == byte_offset(src@, src@.len() as int),
{
    src.len()
}

/// Relies on `str::chars`: the characters of the text, in order.
#[verifier::external_body]
fn chars_of(src: &str) -> (r: Vec<char>)
    ensures
        r@ == src@,
{
    src.chars().collect()
}

fn ws_char(c: char) -> (r: bool)
    ensures
        r == is_ws(c),
{
    let u = c as u32;
    (9 <= u && u <= 13) || u == 32 || u == 0x85 || u == 0xA0 || u == 0x1680 || (0x2000 <= u && u
        <= 0x200A) || u == 0x2028 || u == 0x2029 || u == 0x202F || u == 0x205F || u == 0x3000
}

fn ident_start_char(c: char) -> (r: bool)
    ensures
        r == is_ident_start(c),
{
    let u = c as u32;
    ('a' as u32 <= u && u <= 'z' as u32) || ('A' as u32 <= u && u <= 'Z' as u32) || c == '_'
}

fn ident_char(c: char) -> (r: bool)
    ensures
        r == is_ident_char(c),
{
    let u = c as u32;
    ('a' as u32 <= u && u <= 'z' as u32) || ('A' as u32 <= u && u <= 'Z' as u32) || ('0' as u32
        <= u && u <= '9' as u32) || c == '_'
}

fn digit_char(c: char) -> (r: bool)
    ensures
        r == is_ascii_digit(c),
{
    let u = c as u32;
    '0' as u32 <= u && u <= '9' as u32
}

fn utf8_width(c: char) -> (r: usize)
    ensures
        r == utf8_len(c),
{
    let u = c as u32;
    if u < 0x80 {
        1
    } else if u < 0x800 {
        2
    } else if u < 0x10000 {
        3
    } else {
        4
    }
}

/// The value of a run of decimal digits.
pub open spec fn digits_value(s: Seq<char>) -> int
    decreases s.len(),
{
    if s.len() == 0 {
        0
    } else {
        10 * digits_value(s.drop_last()) + (s.last() as u32 - '0' as u32)
    }
}

/// The value of an integer literal: its decimal value, or 0 where that exceeds `i32`.
pub open spec fn int_literal_value(s: Seq<char>) -> i32 {
    if digits_value(s) <= i32::MAX as int {
        digits_value(s) as i32
    } else {
        0
    }
}

proof fn lemma_digits_value_grows(s: Seq<char>, c: char)
    requires
        is_ascii_digit(c),
        forall|k: int| 0 <= k < s.len() ==> is_ascii_digit(#[trigger] s[k]),
    ensures
        digits_value(s.push(c)) == 10 * digits_value(s) + (c as u32 - '0' as u32),
        digits_value(s.push(c)) >= digits_value(s),
        digits_value(s) >= 0,
    decreases s.len(),
{
    assert(s.push(c).drop_last() =~= s);
    if s.len() > 0 {
        lemma_digits_value_grows(s.drop_last(), s.last());
        assert(s.drop_last().push(s.last()) =~= s);
    }
}

/// The character that an escape `\c` denotes inside a string literal.
pub open spec fn string_escape(c: char) -> char {
    if c == 'n' {
        '\n'
    } else if c == 'r' {
        '\r'
    } else if c == 't' {
        '\t'
    } else if c == '0' {
        '\0'
    } else {
        c
    }
}

/// The character that an escape `\c` denotes inside a character literal.
pub open spec fn char_escape(c: char) -> char {
    if c == 'n' || c == 'r' || c == 't' || c == '0' {
        string_escape(c)
    } else if c == '\\' || c == '\'' || c == '\"' {
        c
    } else {
        '?'
    }
}

/// The contents of a string literal whose body starts at `i`: the characters
/// up to the closing quote (or the end of input), with escapes resolved.
pub open spec fn string_body(s: Seq<char>, i: int) -> Seq<char>
    decreases s.len() - i,
{
    if i < 0 || i >= s.len() || s[i] == '\"' {
        seq![]
    } else if s[i] == '\\' {
        if i + 1 >= s.len() {
            seq![]
        } else {
            seq![string_escape(s[i + 1])] + string_body(s, i + 2)
        }
    } else {
        seq![s[i]] + string_body(s, i + 1)
    }
}

/// The character of a character literal whose body starts at `i`.
pub open spec fn char_body(s: Seq<char>, i: int) -> char {
    if i < 0 || i >= s.len() {
        '?'
    } else if s[i] == '\\' {
        if i + 1 < s.len() {
            char_escape(s[i + 1])
        } else {
            '?'
        }
    } else {
        s[i]
    }
}

fn scan_ws(s: &Vec<char>, start: usize) -> (r: usize)
    requires
        start <= s@.len(),
    ensures
        r == ws_end(s@, start as int, false),
        start <= r <= s@.len(),
{
    proof { lemma_ws_end_bounds(s@, start as int, false); }
    let mut i = start;
    let mut in_comment = false;
    while i < s.len()
        invariant
            start <= i <= s@.len(),
            ws_end(s@, i as int, in_comment) == ws_end(s@, start as int, false),
        decreases s@.len() - i,
    {
        let c = s[i];
        if in_comment {
            if c == '\n' {
                in_comment = false;
            }
            i = i + 1;
        } else if ws_char(c) {
            i = i + 1;
        } else if c == '/' && i + 1 < s.len() && s[i + 1] == '/' {
            i = i + 2;
            in_comment = true;
        } else {
            return i;
        }
    }
    i
}

fn scan_ident(s: &Vec<char>, start: usize) -> (r: usize)
    requires
        start <= s@.len(),
    ensures
        r == ident_end(s@, start as int),
        start <= r <= s@.len(),
{
    let mut i = start;
    while i < s.len()
        invariant
            start <= i <= s@.len(),
            ident_end(s@, i as int) == ident_end(s@, start as int),
        decreases s@.len() - i,
    {
        if !ident_char(s[i]) {
            return i;
        }
        i = i + 1;
    }
    i
}

/// The characters `s[from..to]` as a string.
fn collect_chars(s: &Vec<char>, from: usize, to: usize) -> (r: String)
    requires
        from <= to <= s@.len(),
    ensures
        r@ == s@.subrange(from as int, to as int),
{
    let mut out = String::new();
    let mut i = from;
    while i < to
        invariant
            from <= i <= to <= s@.len(),
            out@ == s@.subrange(from as int, i as int),
        decreases to - i,
    {
        crate::text::push_char(&mut out, s[i]);
        assert(s@.subrange(from as int, i + 1) =~= s@.subrange(from as int, i as int).push(s@[i as int]));
        i = i + 1;
    }
    out
}

/// Reads the run of decimal digits at `start`: its value as an integer literal, and where it ends.
fn scan_int(s: &Vec<char>, start: usize) -> (r: (i32, usize))
    requires
        start <= s@.len(),
    ensures
        start <= r.1 <= s@.len(),
        r.0 == int_literal_value(s@.subrange(start as int, r.1 as int)),
        forall|k: int| start <= k < r.1 ==> is_ascii_digit(#[trigger] s@[k]),
        r.1 == s@.len() || !is_ascii_digit(s@[r.1 as int]),
{
    let mut i = start;
    let mut acc: i64 = 0;
    let mut overflow = false;
    while i < s.len() && digit_char(s[i])
        invariant
            start <= i <= s@.len(),
            forall|k: int| start <= k < i ==> is_ascii_digit(#[trigger] s@[k]),
            !overflow ==> acc == digits_value(s@.subrange(start as int, i as int)),
            !overflow ==> 0 <= acc <= i32::MAX,
            overflow ==> digits_value(s@.subrange(start as int, i as int)) > i32::MAX,
        decreases s@.len() - i,
    {
        let c = s[i];
        let ghost before = s@.subrange(start as int, i as int);
        proof {
            assert forall|k: int| 0 <= k < before.len() implies is_ascii_digit(#[trigger] before[k]) by {
                assert(before[k] == s@[start + k]);
            }
            lemma_digits_value_grows(before, c);
            assert(s@.subrange(start as int, i + 1) =~= before.push(c));
        }
        if !overflow {
            let d = (c as u32 - '0' as u32) as i64;
            acc = acc * 10 + d;
            if acc > i32::MAX as i64 {
                overflow = true;
            }
        }
        i = i + 1;
    }
    if overflow {
        (0, i)
    } else {
        (acc as i32, i)
    }
}

/// Reads the body of a string literal that starts at `body`: its contents, and the
/// index just past the closing quote (or the end of input).
fn scan_string(s: &Vec<char>, body: usize) -> (r: (String, usize))
    requires
        body <= s@.len(),
    ensures
        r.0@ == string_body(s@, body as int),
        body <= r.1 <= s@.len(),
        r.1 == string_end(s@, body as int),
{
    let mut out = String::new();
    let mut i = body;
    while i < s.len()
        invariant
            body <= i <= s@.len(),
            out@ + string_body(s@, i as int) == string_body(s@, body as int),
            string_end(s@, i as int) == string_end(s@, body as int),
        decreases s@.len() - i,
    {
        let c = s[i];
        let ghost o = out@;
        let ghost gi = i as int;
        if c == '\"' {
            assert(string_body(s@, gi) =~= seq![]);
            assert(out@ =~= string_body(s@, body as int));
            return (out, i + 1);
        } else if c == '\\' {
            if i + 1 >= s.len() {
                assert(string_body(s@, gi) =~= seq![]);
                assert(out@ =~= string_body(s@, body as int));
                return (out, i + 1);
            }
            let n = s[i + 1];
            let e = if n == 'n' {
                '\n'
            } else if n == 'r' {
                '\r'
            } else if n == 't' {
                '\t'
            } else if n == '0' {
                '\0'
            } else {
                n
            };
            crate::text::push_char(&mut out, e);
            i = i + 2;
            assert(out@ + string_body(s@, i as int) =~= o + string_body(s@, gi));
        } else {
            crate::text::push_char(&mut out, c);
            i = i + 1;
            assert(out@ + string_body(s@, i as int) =~= o + string_body(s@, gi));
        }
    }
    assert(string_body(s@, i as int) =~= seq![]);
    assert(out@ =~= string_body(s@, body as int));
    (out, i)
}

/// The punctuation or operator token at `j`, as `punct_of` describes it.
fn scan_punct(s: &Vec<char>, j: usize) -> (r: Option<(TokenKind, usize)>)
    requires
        j < s@.len(),
    ensures
        match punct_of(s@, j as int) {
            Some((k, e)) => r matches Some((k2, e2)) && k2 == k && e2 == e,
            None => r is None,
        },
{
    let c = s[j];
    let n = s.len();
    let next_is = |d: char| -> (b: bool)
        ensures
            b == char_at_is(s@, j + 1, d),
        { j + 1 < n && s[j + 1] == d };
    if c == ':' {
        Some((TokenKind::Colon, j + 1))
    } else if c == ';' {
        Some((TokenKind::Semicolon, j + 1))
    } else if c == ',' {
        Some((TokenKind::Comma, j + 1))
    } else if c == '.' {
        Some((TokenKind::Dot, j + 1))
    } else if c == '(' {
        Some((TokenKind::LParen, j + 1))
    } else if c == ')' {
        Some((TokenKind::RParen, j + 1))
    } else if c == '{' {
        Some((TokenKind::LBrace, j + 1))
    } else if c == '}' {
        Some((TokenKind::RBrace, j + 1))
    } else if c == '+' {
        Some((TokenKind::Plus, j + 1))
    } else if c == '*' {
        Some((TokenKind::Star, j + 1))
    } else if c == '/' {
        Some((TokenKind::Slash, j + 1))
    } else if c == '-' {
        if next_is('>') { Some((TokenKind::Arrow, j + 2)) } else { Some((TokenKind::Minus, j + 1)) }
    } else if c == '=' {
        if next_is('=') { Some((TokenKind::EqEq, j + 2)) } else { Some((TokenKind::Eq, j + 1)) }
    } else if c == '<' {
        if next_is('=') { Some((TokenKind::LtEq, j + 2)) } else { Some((TokenKind::Lt, j + 1)) }
    } else if c == '>' {
        if next_is('=') { Some((TokenKind::GtEq, j + 2)) } else { Some((TokenKind::Gt, j + 1)) }
    } else if c == '!' {
        if next_is('=') { Some((TokenKind::NotEq, j + 2)) } else { Some((TokenKind::Bang, j + 1)) }
    } else if c == '&' && next_is('&') {
        Some((TokenKind::AndAnd, j + 2))
    } else if c == '|' && next_is('|') {
        Some((TokenKind::OrOr, j + 2))
    } else {
        None
    }
}

/// Whether `s[from..to]` spells `w`.
fn slice_is(s: &Vec<char>, from: usize, to: usize, w: &str) -> (r: bool)
    requires
        from <= to <= s@.len(),
    ensures
        r == (s@.subrange(from as int, to as int) == w@),
{
    let n = w.unicode_len();
    if to - from != n {
        return false;
    }
    let mut i: usize = 0;
    while i < n
        invariant
            n == w@.len(),
            to - from == n,
            from <= to <= s@.len(),
            forall|k: int| 0 <= k < i ==> s@[from + k] == w@[k],
        decreases n - i,
    {
        if s[from + i] != w.get_char(i) {
            assert(s@.subrange(from as int, to as int)[i as int] != w@[i as int]);
            return false;
        }
        i = i + 1;
    }
    assert(s@.subrange(from as int, to as int) =~= w@);
    true
}

/// The keyword that `s[from..to]` spells, as `keyword_of` describes it.
fn scan_keyword(s: &Vec<char>, from: usize, to: usize) -> (r: Option<TokenKind>)
    requires
        from <= to <= s@.len(),
    ensures
        r == keyword_of(s@.subrange(from as int, to as int)),
{
    proof {
        reveal_strlit("fn");
        reveal_strlit("let");
        reveal_strlit("mut");
        reveal_strlit("return");
        reveal_strlit("if");
        reveal_strlit("else");
        reveal_strlit("while");
        reveal_strlit("struct");
        reveal_strlit("enum");
        reveal_strlit("import");
        reveal_strlit("extern");
        reveal_strlit("true");
        reveal_strlit("false");
    }
    let ghost w = s@.subrange(from as int, to as int);
    assert("fn"@ =~= seq!['f', 'n']);
    assert("let"@ =~= seq!['l', 'e', 't']);
    assert("mut"@ =~= seq!['m', 'u', 't']);
    assert("return"@ =~= seq!['r', 'e', 't', 'u', 'r', 'n']);
    assert("if"@ =~= seq!['i', 'f']);
    assert("else"@ =~= seq!['e', 'l', 's', 'e']);
    assert("while"@ =~= seq!['w', 'h', 'i', 'l', 'e']);
    assert("struct"@ =~= seq!['s', 't', 'r', 'u', 'c', 't']);
    assert("enum"@ =~= seq!['e', 'n', 'u', 'm']);
    assert("import"@ =~= seq!['i', 'm', 'p', 'o', 'r', 't']);
    assert("extern"@ =~= seq!['e', 'x', 't', 'e', 'r', 'n']);
    assert("true"@ =~= seq!['t', 'r', 'u', 'e']);
    assert("false"@ =~= seq!['f', 'a', 'l', 's', 'e']);
    if slice_is(s, from, to, "fn") {
        Some(TokenKind::Fn)
    } else if slice_is(s, from, to, "let") {
        Some(TokenKind::Let)
    } else if slice_is(s, from, to, "mut") {
        Some(TokenKind::Mut)
    } else if slice_is(s, from, to, "return") {
        Some(TokenKind::Return)
    } else if slice_is(s, from, to, "if") {
        Some(TokenKind::If)
    } else if slice_is(s, from, to, "else") {
        Some(TokenKind::Else)
    } else if slice_is(s, from, to, "while") {
        Some(TokenKind::While)
    } else if slice_is(s, from, to, "struct") {
        Some(TokenKind::Struct)
    } else if slice_is(s, from, to, "enum") {
        Some(TokenKind::Enum)
    } else if slice_is(s, from, to, "import") {
        Some(TokenKind::Import)
    } else if slice_is(s, from, to, "extern") {
        Some(TokenKind::Extern)
    } else if slice_is(s, from, to, "true") {
        Some(TokenKind::True)
    } else if slice_is(s, from, to, "false") {
        Some(TokenKind::False)
    } else {
        None
    }
}

/// The token that a lexer at index `i` of text `s` returns, and the index `e0` where
/// it stops: white space and comments skipped, then the longest token.
pub open spec fn token_fits(s: Seq<char>, i: int, r: Token, e0: int) -> bool {
    let j = ws_end(s, i, false);
    let c = s[j];
    &&& i <= e0 <= s.len()
    &&& !(r.kind is Eof) ==> e0 > i
    &&& j >= s.len() ==> r.kind is Eof && e0 == j
    &&& (j < s.len() && is_ident_start(c)) ==> {
        let e = ident_end(s, j);
        let w = s.subrange(j, e);
        &&& e0 == e
        &&& keyword_of(w) is Some ==> Some(r.kind) == keyword_of(w)
        &&& keyword_of(w) is None ==> (r.kind matches TokenKind::Ident(n) && n@ == w)
    }
    &&& (j < s.len() && is_ascii_digit(c)) ==> {
        let e = e0;
        &&& r.kind == TokenKind::Int(int_literal_value(s.subrange(j, e)))
        &&& forall|k: int| j <= k < e ==> is_ascii_digit(#[trigger] s[k])
        &&& (e == s.len() || !is_ascii_digit(s[e]))
    }
    &&& r.pos == byte_offset(s, j)
    &&& (j < s.len() && c == '\'') ==> r.kind == TokenKind::Char(char_body(s, j + 1))
        && e0 == char_lit_end(s, j)
    &&& (j < s.len() && c == '\"') ==> (r.kind matches TokenKind::StringLit(t) && t@
        == string_body(s, j + 1)) && e0 == string_end(s, j + 1)
    &&& (j < s.len() && !is_ident_start(c) && !is_ascii_digit(c) && c != '\''
        && c != '\"') ==> match punct_of(s, j) {
        Some((k, e)) => r.kind == k && e0 == e,
        None => r.kind == TokenKind::Unknown(c) && e0 == j + 1,
    }
}

impl Lexer {
    /// The characters of the source text.
    pub closed spec fn source(&self) -> Seq<char> {
        self.chars@
    }

    /// How many characters have been read.
    pub closed spec fn index(&self) -> int {
        self.idx as int
    }

    pub closed spec fn wf(&self) -> bool {
        &&& self.idx <= self.chars@.len()
        &&& self.pos == byte_offset(self.chars@, self.idx as int)
        &&& byte_offset(self.chars@, self.chars@.len() as int) <= usize::MAX
    }

    /// How many characters are left to read.
    pub open spec fn remaining(&self) -> nat {
        (self.source().len() - self.index()) as nat
    }

    pub fn new(src: &str) -> (r: Lexer)
        ensures
            r.wf(),
            r.source() == src@,
            r.index() == 0,
    {
        let total = byte_len(src);
        Lexer { chars: chars_of(src), idx: 0, pos: 0 }
    }

    /// Moves the read position forward to `to`, counting the bytes passed over.
    fn advance_to(&mut self, to: usize)
        requires
            old(self).wf(),
            old(self).idx <= to <= old(self).chars@.len(),
        ensures
            final(self).wf(),
            final(self).chars@ == old(self).chars@,
            final(self).idx == to,
    {
        let mut i = self.idx;
        let mut pos = self.pos;
        while i < to
            invariant
                self.wf(),
                i <= to <= self.chars@.len(),
                pos == byte_offset(self.chars@, i as int),
            decreases to - i,
        {
            proof { lemma_byte_offset_mono(self.chars@, i + 1, self.chars@.len() as int); }
            pos = pos + utf8_width(self.chars[i]);
            i = i + 1;
        }
        self.idx = to;
        self.pos = pos;
    }

    fn bump(&mut self)
        requires
            old(self).wf(),
        ensures
            final(self).wf(),
            final(self).chars@ == old(self).chars@,
            old(self).idx < old(self).chars@.len() ==> final(self).idx == old(self).idx + 1,
            old(self).idx >= old(self).chars@.len() ==> final(self).idx == old(self).idx,
    {
        if self.idx < self.chars.len() {
            self.advance_to(self.idx + 1);
        }
    }

    fn peek(&self) -> (r: Option<char>)
        requires
            self.wf(),
        ensures
            self.idx < self.chars@.len() ==> r == Some(self.chars@[self.idx as int]),
            self.idx >= self.chars@.len() ==> r is None,
    {
        if self.idx < self.chars.len() {
            Some(self.chars[self.idx])
        } else {
            None
        }
    }

    fn skip_ws(&mut self)
        requires
            old(self).wf(),
        ensures
            final(self).wf(),
            final(self).chars@ == old(self).chars@,
            final(self).idx == ws_end(old(self).chars@, old(self).idx as int, false),
            final(self).idx >= old(self).idx,
    {
        let end = scan_ws(&self.chars, self.idx);
        self.advance_to(end);
    }

    fn read_ident(&mut self) -> (r: String)
        requires
            old(self).wf(),
        ensures
            final(self).wf(),
            final(self).chars@ == old(self).chars@,
            final(self).idx == ident_end(old(self).chars@, old(self).idx as int),
            r@ == old(self).chars@.subrange(old(self).idx as int, final(self).idx as int),
    {
        let start = self.idx;
        let end = scan_ident(&self.chars, start);
        let out = collect_chars(&self.chars, start, end);
        self.advance_to(end);
        out
    }

    fn read_int(&mut self) -> (r: i32)
        requires
            old(self).wf(),
        ensures
            final(self).wf(),
            final(self).chars@ == old(self).chars@,
            final(self).idx >= old(self).idx,
            r == int_literal_value(old(self).chars@.subrange(old(self).idx as int, final(self).idx as int)),
            forall|k: int| old(self).idx <= k < final(self).idx ==> is_ascii_digit(#[trigger] old(self).chars@[k]),
            final(self).idx == old(self).chars@.len() || !is_ascii_digit(old(self).chars@[final(self).idx as int]),
    {
        let (v, end) = scan_int(&self.chars, self.idx);
        self.advance_to(end);
        v
    }

    fn read_char_literal(&mut self) -> (r: char)
        requires
            old(self).wf(),
            old(self).idx < old(self).chars@.len(),
        ensures
            final(self).wf(),
            final(self).chars@ == old(self).chars@,
            final(self).idx > old(self).idx,
            final(self).idx == char_lit_end(old(self).chars@, old(self).idx as int),
            r == char_body(old(self).chars@, old(self).idx + 1),
    {
        self.bump();
        let c = match self.peek() {
            Some('\\') => {
                self.bump();
                let e = match self.peek() {
                    Some('n') => '\n',
                    Some('r') => '\r',
                    Some('t') => '\t',
                    Some('0') => '\0',
                    Some('\\') => '\\',
                    Some('\'') => '\'',
                    Some('\"') => '\"',
                    _ => '?',
                };
                self.bump();
                e
            },
            Some(c) => {
                self.bump();
                c
            },
            None => '?',
        };
        if self.peek() == Some('\'') {
            self.bump();
        }
        c
    }

    fn read_string_literal(&mut self) -> (r: String)
        requires
            old(self).wf(),
            old(self).idx < old(self).chars@.len(),
        ensures
            final(self).wf(),
            final(self).chars@ == old(self).chars@,
            final(self).idx > old(self).idx,
            final(self).idx == string_end(old(self).chars@, old(self).idx + 1),
            r@ == string_body(old(self).chars@, old(self).idx + 1),
    {
        let n = self.chars.len();
        assert(self.idx < n);
        let (text, end) = scan_string(&self.chars, self.idx + 1);
        self.advance_to(end);
        text
    }
}

proof fn lemma_ident_end_bounds(s: Seq<char>, i: int)
    requires
        0 <= i <= s.len(),
    ensures
        i <= ident_end(s, i) <= s.len(),
        forall|k: int| i <= k < ident_end(s, i) ==> is_ident_char(#[trigger] s[k]),
    decreases s.len() - i,
{
    if i < s.len() && is_ident_char(s[i]) {
        lemma_ident_end_bounds(s, i + 1);
    }
}

proof fn lemma_ws_end_bounds(s: Seq<char>, i: int, c: bool)
    requires
        0 <= i <= s.len(),
    ensures
        i <= ws_end(s, i, c) <= s.len(),
    decreases s.len() - i,
{
    if i < s.len() {
        if c {
            lemma_ws_end_bounds(s, i + 1, s[i] != '\n');
        } else if is_ws(s[i]) {
            lemma_ws_end_bounds(s, i + 1, false);
        } else if s[i] == '/' && i + 1 < s.len() && s[i + 1] == '/' {
            lemma_ws_end_bounds(s, i + 2, true);
        }
    }
}

/// Lexing the spelling of any keyword, punctuation or operator token gives back that
/// token, and the whole spelling is consumed.
pub proof fn lemma_fixed_token_round_trip(k: TokenKind)
    requires
        is_fixed_token(k),
    ensures
        first_fixed_token(fixed_text(k)) == Some((k, fixed_text(k).len() as int)),
{
    let s = fixed_text(k);
    assert(s.len() > 0);
    assert(ws_end(s, 0, false) == 0);
    reveal_with_fuel(ident_end, 8);
    if is_ident_start(s[0]) {
        assert(ident_end(s, 0) == s.len());
        assert(s.subrange(0, s.len() as int) =~= s);
    }

}

impl Lexer {
    /// Reads the next token. White space and `//` comments before it are skipped; at
    /// the end of input the token is `Eof`; a character that starts no token is consumed
    /// and returned as `Unknown`.
    pub fn next_token(&mut self) -> (r: Token)
        requires
            old(self).wf(),
        ensures
            final(self).wf(),
            final(self).source() == old(self).source(),
            final(self).index() >= old(self).index(),
            final(self).index() <= final(self).source().len(),
            !(r.kind is Eof) ==> final(self).index() > old(self).index(),
            token_fits(old(self).source(), old(self).index(), r, final(self).index()),
    {
        self.skip_ws();
        let pos = self.pos;
        let j = self.idx;
        let n = self.chars.len();
        if j >= n {
            return Token { kind: TokenKind::Eof, pos };
        }
        let c = self.chars[j];
        let kind = if ident_start_char(c) {
            proof { lemma_ident_end_bounds(self.chars@, j + 1); }
            let e = scan_ident(&self.chars, j);
            let kw = scan_keyword(&self.chars, j, e);
            match kw {
                Some(k) => {
                    self.advance_to(e);
                    k
                },
                None => TokenKind::Ident(self.read_ident()),
            }
        } else if digit_char(c) {
            TokenKind::Int(self.read_int())
        } else if c == '\'' {
            TokenKind::Char(self.read_char_literal())
        } else if c == '\"' {
            TokenKind::StringLit(self.read_string_literal())
        } else {
            match scan_punct(&self.chars, j) {
                Some((k, e)) => {
                    self.advance_to(e);
                    k
                },
                None => {
                    self.bump();
                    TokenKind::Unknown(c)
                },
            }
        };
        Token { kind, pos }
    }
}

/// A number for each kind of token, equal for tokens of one kind.
pub open spec fn code_of(k: TokenKind) -> u8 {
    match k {
        TokenKind::Ident(_) => 0,
        TokenKind::Int(_) => 1,
        TokenKind::Char(_) => 2,
        TokenKind::StringLit(_) => 3,
        TokenKind::True => 4,
        TokenKind::False => 5,
        TokenKind::Fn => 6,
        TokenKind::Let => 7,
        TokenKind::Mut => 8,
        TokenKind::Return => 9,
        TokenKind::If => 10,
        TokenKind::Else => 11,
        TokenKind::While => 12,
        TokenKind::Struct => 13,
        TokenKind::Enum => 14,
        TokenKind::Import => 15,
        TokenKind::Extern => 16,
        TokenKind::Colon => 17,
        TokenKind::Semicolon => 18,
        TokenKind::Comma => 19,
        TokenKind::Dot => 20,
        TokenKind::LParen => 21,
        TokenKind::RParen => 22,
        TokenKind::LBrace => 23,
        TokenKind::RBrace => 24,
        TokenKind::Arrow => 25,
        TokenKind::Plus => 26,
        TokenKind::Minus => 27,
        TokenKind::Star => 28,
        TokenKind::Slash => 29,
        TokenKind::Eq => 30,
        TokenKind::Lt => 31,
        TokenKind::Gt => 32,
        TokenKind::LtEq => 33,
        TokenKind::GtEq => 34,
        TokenKind::EqEq => 35,
        TokenKind::NotEq => 36,
        TokenKind::Bang => 37,
        TokenKind::AndAnd => 38,
        TokenKind::OrOr => 39,
        TokenKind::Unknown(_) => 41,
        TokenKind::Eof => 40,
    }
}

/// The number of a token's kind.
pub fn kind_code(k: &TokenKind) -> (r: u8)
    ensures
        r == code_of(*k),
{
    match k {
        TokenKind::Ident(_) => 0,
        TokenKind::Int(_) => 1,
        TokenKind::Char(_) => 2,
        TokenKind::StringLit(_) => 3,
        TokenKind::True => 4,
        TokenKind::False => 5,
        TokenKind::Fn => 6,
        TokenKind::Let => 7,
        TokenKind::Mut => 8,
        TokenKind::Return => 9,
        TokenKind::If => 10,
        TokenKind::Else => 11,
        TokenKind::While => 12,
        TokenKind::Struct => 13,
        TokenKind::Enum => 14,
        TokenKind::Import => 15,
        TokenKind::Extern => 16,
        TokenKind::Colon => 17,
        TokenKind::Semicolon => 18,
        TokenKind::Comma => 19,
        TokenKind::Dot => 20,
        TokenKind::LParen => 21,
        TokenKind::RParen => 22,
        TokenKind::LBrace => 23,
        TokenKind::RBrace => 24,
        TokenKind::Arrow => 25,
        TokenKind::Plus => 26,
        TokenKind::Minus => 27,
        TokenKind::Star => 28,
        TokenKind::Slash => 29,
        TokenKind::Eq => 30,
        TokenKind::Lt => 31,
        TokenKind::Gt => 32,
        TokenKind::LtEq => 33,
        TokenKind::GtEq => 34,
        TokenKind::EqEq => 35,
        TokenKind::NotEq => 36,
        TokenKind::Bang => 37,
        TokenKind::AndAnd => 38,
        TokenKind::OrOr => 39,
        TokenKind::Unknown(_) => 41,
        TokenKind::Eof => 40,
    }
}

/// The name of a kind of token, as error messages give it.
pub fn kind_name(k: &TokenKind) -> (r: &'static str)
    ensures
        r@.len() > 0,
{
    proof {
        reveal_strlit("Ident");
        reveal_strlit("Int");
        reveal_strlit("Char");
        reveal_strlit("StringLit");
        reveal_strlit("True");
        reveal_strlit("False");
        reveal_strlit("Fn");
        reveal_strlit("Let");
        reveal_strlit("Mut");
        reveal_strlit("Return");
        reveal_strlit("If");
        reveal_strlit("Else");
        reveal_strlit("While");
        reveal_strlit("Struct");
        reveal_strlit("Enum");
        reveal_strlit("Import");
        reveal_strlit("Extern");
        reveal_strlit("Colon");
        reveal_strlit("Semicolon");
        reveal_strlit("Comma");
        reveal_strlit("Dot");
        reveal_strlit("LParen");
        reveal_strlit("RParen");
        reveal_strlit("LBrace");
        reveal_strlit("RBrace");
        reveal_strlit("Arrow");
        reveal_strlit("Plus");
        reveal_strlit("Minus");
        reveal_strlit("Star");
        reveal_strlit("Slash");
        reveal_strlit("Eq");
        reveal_strlit("Lt");
        reveal_strlit("Gt");
        reveal_strlit("LtEq");
        reveal_strlit("GtEq");
        reveal_strlit("EqEq");
        reveal_strlit("NotEq");
        reveal_strlit("Bang");
        reveal_strlit("AndAnd");
        reveal_strlit("OrOr");
        reveal_strlit("Eof");
        reveal_strlit("Unknown");
    }
    match k {
        TokenKind::Ident(_) => "Ident",
        TokenKind::Int(_) => "Int",
        TokenKind::Char(_) => "Char",
        TokenKind::StringLit(_) => "StringLit",
        TokenKind::True => "True",
        TokenKind::False => "False",
        TokenKind::Fn => "Fn",
        TokenKind::Let => "Let",
        TokenKind::Mut => "Mut",
        TokenKind::Return => "Return",
        TokenKind::If => "If",
        TokenKind::Else => "Else",
        TokenKind::While => "While",
        TokenKind::Struct => "Struct",
        TokenKind::Enum => "Enum",
        TokenKind::Import => "Import",
        TokenKind::Extern => "Extern",
        TokenKind::Colon => "Colon",
        TokenKind::Semicolon => "Semicolon",
        TokenKind::Comma => "Comma",
        TokenKind::Dot => "Dot",
        TokenKind::LParen => "LParen",
        TokenKind::RParen => "RParen",
        TokenKind::LBrace => "LBrace",
        TokenKind::RBrace => "RBrace",
        TokenKind::Arrow => "Arrow",
        TokenKind::Plus => "Plus",
        TokenKind::Minus => "Minus",
        TokenKind::Star => "Star",
        TokenKind::Slash => "Slash",
        TokenKind::Eq => "Eq",
        TokenKind::Lt => "Lt",
        TokenKind::Gt => "Gt",
        TokenKind::LtEq => "LtEq",
        TokenKind::GtEq => "GtEq",
        TokenKind::EqEq => "EqEq",
        TokenKind::NotEq => "NotEq",
        TokenKind::Bang => "Bang",
        TokenKind::AndAnd => "AndAnd",
        TokenKind::OrOr => "OrOr",
        TokenKind::Unknown(_) => "Unknown",
        TokenKind::Eof => "Eof",
    }
}

} // verus!
