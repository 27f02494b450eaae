//! Tokenizer of the V-like language. At each position the longest token
//! wins, and a keyword wins over an identifier of the same text;
//! whitespace and `//` comments are skipped; a character that starts no
//! token, and a number literal above `i32::MAX`, become one `Error` token.
use vstd::prelude::*;
use vstd::string::StringSliceAdditionalSpecFns;
use crate::lexer::{
    bytes_as_chars, bytes_to_string, digits_end, digits_val, fold_digits, ident_end,
    lemma_digits_end, line_end, pow10, scan_digits_end, scan_ident_end, scan_line_end,
    spec_is_digit, spec_is_ident_continue, spec_is_ident_start, word_is,
};

verus! {

#[derive(Debug, PartialEq, Eq)]
pub enum Tok {
    Fn,
    Let,
    If,
    Else,
    While,
    Return,
    Export,
    Const,
    LParen,
    RParen,
    LBrace,
    RBrace,
    Colon,
    Semi,
    Comma,
    Eq,
    EqEq,
    Ne,
    Le,
    Ge,
    Shl,
    Shr,
    Plus,
    Minus,
    Star,
    Amp,
    Pipe,
    Caret,
    Lt,
    Gt,
    At,
    Ident(String),
    Num(i32),
    Error,
}

/// Model of a token: an identifier as `Seq<char>`.
pub enum TokV {
    Fn,
    Let,
    If,
    Else,
    While,
    Return,
    Export,
    Const,
    LParen,
    RParen,
    LBrace,
    RBrace,
    Colon,
    Semi,
    Comma,
    Eq,
    EqEq,
    Ne,
    Le,
    Ge,
    Shl,
    Shr,
    Plus,
    Minus,
    Star,
    Amp,
    Pipe,
    Caret,
    Lt,
    Gt,
    At,
    Ident(Seq<char>),
    Num(i32),
    Error,
}

impl View for Tok {
    type V = TokV;

    open spec fn view(&self) -> TokV {
        match self {
            Tok::Fn => TokV::Fn,
            Tok::Let => TokV::Let,
            Tok::If => TokV::If,
            Tok::Else => TokV::Else,
            Tok::While => TokV::While,
            Tok::Return => TokV::Return,
            Tok::Export => TokV::Export,
            Tok::Const => TokV::Const,
            Tok::LParen => TokV::LParen,
            Tok::RParen => TokV::RParen,
            Tok::LBrace => TokV::LBrace,
            Tok::RBrace => TokV::RBrace,
            Tok::Colon => TokV::Colon,
            Tok::Semi => TokV::Semi,
            Tok::Comma => TokV::Comma,
            Tok::Eq => TokV::Eq,
            Tok::EqEq => TokV::EqEq,
            Tok::Ne => TokV::Ne,
            Tok::Le => TokV::Le,
            Tok::Ge => TokV::Ge,
            Tok::Shl => TokV::Shl,
            Tok::Shr => TokV::Shr,
            Tok::Plus => TokV::Plus,
            Tok::Minus => TokV::Minus,
            Tok::Star => TokV::Star,
            Tok::Amp => TokV::Amp,
            Tok::Pipe => TokV::Pipe,
            Tok::Caret => TokV::Caret,
            Tok::Lt => TokV::Lt,
            Tok::Gt => TokV::Gt,
            Tok::At => TokV::At,
            Tok::Ident(s) => TokV::Ident(s@),
            Tok::Num(n) => TokV::Num(*n),
            Tok::Error => TokV::Error,
        }
    }
}

/// A token with the byte range `start..end` of its text.
#[derive(Debug)]
pub struct Spanned {
    pub tok: Tok,
    pub start: usize,
    pub end: usize,
}

pub struct SpannedV {
    pub tok: TokV,
    pub start: int,
    pub end: int,
}

impl View for Spanned {
    type V = SpannedV;

    open spec fn view(&self) -> SpannedV {
        SpannedV { tok: self.tok@, start: self.start as int, end: self.end as int }
    }
}

pub open spec fn spanned_view(s: Seq<Spanned>) -> Seq<SpannedV> {
    s.map_values(|t: Spanned| t@)
}

// ---------------------------------------------------------------------------
// Specification
// ---------------------------------------------------------------------------

pub open spec fn rs_keyword(w: Seq<u8>) -> Option<TokV> {
    if w =~= seq![102u8, 110] {
        Some(TokV::Fn)
    } else if w =~= seq![108u8, 101, 116] {
        Some(TokV::Let)
    } else if w =~= seq![105u8, 102] {
        Some(TokV::If)
    } else if w =~= seq![101u8, 108, 115, 101] {
        Some(TokV::Else)
    } else if w =~= seq![119u8, 104, 105, 108, 101] {
        Some(TokV::While)
    } else if w =~= seq![114u8, 101, 116, 117, 114, 110] {
        Some(TokV::Return)
    } else if w =~= seq![101u8, 120, 112, 111, 114, 116] {
        Some(TokV::Export)
    } else if w =~= seq![99u8, 111, 110, 115, 116] {
        Some(TokV::Const)
    } else {
        None
    }
}

/// First index at or after `i` that is not a UTF-8 continuation byte.
pub open spec fn char_end(b: Seq<u8>, i: int) -> int
    decreases b.len() - i,
{
    if 0 <= i < b.len() && 0x80 <= b[i] < 0xC0 {
        char_end(b, i + 1)
    } else {
        i
    }
}

pub open spec fn sp(t: TokV, s: int, e: int) -> (Option<SpannedV>, int) {
    (Some(SpannedV { tok: t, start: s, end: e }), e)
}

/// `c1 c2` as `two`, else `c1 c3` as `three` (where given), else `c1` alone
/// as `one`.
pub open spec fn rs_op(b: Seq<u8>, i: int, c2: u8, two: TokV, c3: u8, three: Option<TokV>, one: TokV) -> (
    Option<SpannedV>,
    int,
) {
    if i + 1 < b.len() && b[i + 1] == c2 {
        sp(two, i, i + 2)
    } else if i + 1 < b.len() && b[i + 1] == c3 && three is Some {
        sp(three.unwrap(), i, i + 2)
    } else {
        sp(one, i, i + 1)
    }
}

/// One step at index `i < b.len()`: the token it emits, if any, and where
/// the next step starts.
pub open spec fn rs_step(b: Seq<u8>, i: int) -> (Option<SpannedV>, int) {
    let c = b[i];
    if c == 32 || c == 9 || c == 10 || c == 13 {
        (None, i + 1)
    } else if c == 47 && i + 1 < b.len() && b[i + 1] == 47 {
        (None, line_end(b, i + 2))
    } else if spec_is_ident_start(c) {
        let e = ident_end(b, i + 1);
        let w = b.subrange(i, e);
        match rs_keyword(w) {
            Some(k) => sp(k, i, e),
            None => sp(TokV::Ident(bytes_as_chars(w)), i, e),
        }
    } else if spec_is_digit(c) {
        let e = digits_end(b, i);
        if digits_val(b, i, e) <= i32::MAX {
            sp(TokV::Num(digits_val(b, i, e) as i32), i, e)
        } else {
            sp(TokV::Error, i, e)
        }
    } else if c == 61 {
        rs_op(b, i, 61, TokV::EqEq, 0, None, TokV::Eq)
    } else if c == 33 {
        rs_op(b, i, 61, TokV::Ne, 0, None, TokV::Error)
    } else if c == 60 {
        rs_op(b, i, 61, TokV::Le, 60, Some(TokV::Shl), TokV::Lt)
    } else if c == 62 {
        rs_op(b, i, 61, TokV::Ge, 62, Some(TokV::Shr), TokV::Gt)
    } else if c == 40 {
        sp(TokV::LParen, i, i + 1)
    } else if c == 41 {
        sp(TokV::RParen, i, i + 1)
    } else if c == 123 {
        sp(TokV::LBrace, i, i + 1)
    } else if c == 125 {
        sp(TokV::RBrace, i, i + 1)
    } else if c == 58 {
        sp(TokV::Colon, i, i + 1)
    } else if c == 59 {
        sp(TokV::Semi, i, i + 1)
    } else if c == 44 {
        sp(TokV::Comma, i, i + 1)
    } else if c == 43 {
        sp(TokV::Plus, i, i + 1)
    } else if c == 45 {
        sp(TokV::Minus, i, i + 1)
    } else if c == 42 {
        sp(TokV::Star, i, i + 1)
    } else if c == 38 {
        sp(TokV::Amp, i, i + 1)
    } else if c == 124 {
        sp(TokV::Pipe, i, i + 1)
    } else if c == 94 {
        sp(TokV::Caret, i, i + 1)
    } else if c == 64 {
        sp(TokV::At, i, i + 1)
    } else {
        sp(TokV::Error, i, char_end(b, i + 1))
    }
}

pub open spec fn opt_sp(t: Option<SpannedV>) -> Seq<SpannedV> {
    match t {
        Some(t) => seq![t],
        None => Seq::empty(),
    }
}

/// The tokens of `b[i..]`.
pub open spec fn rs_lex_from(b: Seq<u8>, i: int) -> Seq<SpannedV>
    decreases b.len() - i,
{
    if i < 0 || i >= b.len() {
        Seq::empty()
    } else {
        let r = rs_step(b, i);
        if i < r.1 <= b.len() {
            opt_sp(r.0) + rs_lex_from(b, r.1)
        } else {
            Seq::empty()
        }
    }
}

pub open spec fn rs_lex(b: Seq<u8>) -> Seq<SpannedV> {
    rs_lex_from(b, 0)
}


// ---------------------------------------------------------------------------
// Implementation
// ---------------------------------------------------------------------------

proof fn lemma_char_end(b: Seq<u8>, i: int)
    requires
        0 <= i <= b.len(),
    ensures
        i <= char_end(b, i) <= b.len(),
    decreases b.len() - i,
{
    if i < b.len() && 0x80 <= b[i] < 0xC0 {
        lemma_char_end(b, i + 1);
    }
}

fn scan_char_end(b: &[u8], i: usize) -> (r: usize)
    requires
        i <= b@.len(),
    ensures
        r == char_end(b@, i as int),
        i <= r <= b@.len(),
{
    let mut k = i;
    while k < b.len() && b[k] >= 0x80 && b[k] < 0xC0
        invariant
            i <= k <= b@.len(),
            char_end(b@, i as int) == char_end(b@, k as int),
        decreases b@.len() - k,
    {
        k = k + 1;
    }
    k
}

fn rs_keyword_tok(b: &[u8], s: usize, e: usize) -> (r: Option<Tok>)
    requires
        s <= e <= b@.len(),
    ensures
        match r {
            Some(k) => rs_keyword(b@.subrange(s as int, e as int)) == Some(k@),
            None => rs_keyword(b@.subrange(s as int, e as int)) is None,
        },
{
    if word_is(b, s, e, &[102u8, 110]) {
        Some(Tok::Fn)
    } else if word_is(b, s, e, &[108u8, 101, 116]) {
        Some(Tok::Let)
    } else if word_is(b, s, e, &[105u8, 102]) {
        Some(Tok::If)
    } else if word_is(b, s, e, &[101u8, 108, 115, 101]) {
        Some(Tok::Else)
    } else if word_is(b, s, e, &[119u8, 104, 105, 108, 101]) {
        Some(Tok::While)
    } else if word_is(b, s, e, &[114u8, 101, 116, 117, 114, 110]) {
        Some(Tok::Return)
    } else if word_is(b, s, e, &[101u8, 120, 112, 111, 114, 116]) {
        Some(Tok::Export)
    } else if word_is(b, s, e, &[99u8, 111, 110, 115, 116]) {
        Some(Tok::Const)
    } else {
        None
    }
}

pub open spec fn opt_spanned_view(t: Option<Spanned>) -> Option<SpannedV> {
    match t {
        Some(t) => Some(t@),
        None => None,
    }
}

fn rs_op_exec(b: &[u8], i: usize, c2: u8, two: Tok, c3: u8, three: Option<Tok>, one: Tok) -> (r: (
    Option<Spanned>,
    usize,
))
    requires
        i < b@.len(),
    ensures
        ({
            let three_v = match three {
                Some(k) => Some(k@),
                None => None,
            };
            let s = rs_op(b@, i as int, c2, two@, c3, three_v, one@);
            opt_spanned_view(r.0) == s.0 && r.1 == s.1
        }),
        i < r.1 <= b@.len(),
{
    if i < b.len() - 1 && b[i + 1] == c2 {
        (Some(Spanned { tok: two, start: i, end: i + 2 }), i + 2)
    } else {
        match three {
            Some(t3) => {
                if i < b.len() - 1 && b[i + 1] == c3 {
                    return (Some(Spanned { tok: t3, start: i, end: i + 2 }), i + 2);
                }
            },
            None => {},
        }
        (Some(Spanned { tok: one, start: i, end: i + 1 }), i + 1)
    }
}

fn one(t: Tok, i: usize) -> (r: (Option<Spanned>, usize))
    requires
        i < usize::MAX,
    ensures
        opt_spanned_view(r.0) == sp(t@, i as int, i + 1).0,
        r.1 == i + 1,
{
    (Some(Spanned { tok: t, start: i, end: i + 1 }), i + 1)
}

fn rs_lex_step(b: &[u8], i: usize) -> (r: (Option<Spanned>, usize))
    requires
        i < b@.len(),
    ensures
        opt_spanned_view(r.0) == rs_step(b@, i as int).0,
        r.1 == rs_step(b@, i as int).1,
        i < r.1 <= b@.len(),
{
    let c = b[i];
    if c == 32 || c == 9 || c == 10 || c == 13 {
        (None, i + 1)
    } else if c == 47 && i < b.len() - 1 && b[i + 1] == 47 {
        (None, scan_line_end(b, i + 2))
    } else if c >= 65 && c <= 90 || c >= 97 && c <= 122 || c == 95 {
        let e = scan_ident_end(b, i + 1);
        let t = match rs_keyword_tok(b, i, e) {
            Some(k) => k,
            None => Tok::Ident(bytes_to_string(b, i, e)),
        };
        (Some(Spanned { tok: t, start: i, end: e }), e)
    } else if c >= 48 && c <= 57 {
        let e = scan_digits_end(b, i);
        proof {
            lemma_digits_end(b@, i as int);
            assert(0 * pow10((e - i) as nat) == 0);
        }
        let v = fold_digits(b, i, e, Some(0), 0x7fff_ffff, Ghost(0));
        match v {
            Some(n) => (Some(Spanned { tok: Tok::Num(n as i32), start: i, end: e }), e),
            None => (Some(Spanned { tok: Tok::Error, start: i, end: e }), e),
        }
    } else if c == 61 {
        rs_op_exec(b, i, 61, Tok::EqEq, 0, None, Tok::Eq)
    } else if c == 33 {
        rs_op_exec(b, i, 61, Tok::Ne, 0, None, Tok::Error)
    } else if c == 60 {
        rs_op_exec(b, i, 61, Tok::Le, 60, Some(Tok::Shl), Tok::Lt)
    } else if c == 62 {
        rs_op_exec(b, i, 61, Tok::Ge, 62, Some(Tok::Shr), Tok::Gt)
    } else if c == 40 {
        one(Tok::LParen, i)
    } else if c == 41 {
        one(Tok::RParen, i)
    } else if c == 123 {
        one(Tok::LBrace, i)
    } else if c == 125 {
        one(Tok::RBrace, i)
    } else if c == 58 {
        one(Tok::Colon, i)
    } else if c == 59 {
        one(Tok::Semi, i)
    } else if c == 44 {
        one(Tok::Comma, i)
    } else if c == 43 {
        one(Tok::Plus, i)
    } else if c == 45 {
        one(Tok::Minus, i)
    } else if c == 42 {
        one(Tok::Star, i)
    } else if c == 38 {
        one(Tok::Amp, i)
    } else if c == 124 {
        one(Tok::Pipe, i)
    } else if c == 94 {
        one(Tok::Caret, i)
    } else if c == 64 {
        one(Tok::At, i)
    } else {
        let e = scan_char_end(b, i + 1);
        (Some(Spanned { tok: Tok::Error, start: i, end: e }), e)
    }
}

/// Splits `src` into tokens with their byte ranges.
pub fn lex(src: &str) -> (out: Vec<Spanned>)
    ensures
        spanned_view(out@) == rs_lex(src.spec_bytes()),
{
    let b = src.as_bytes();
    let mut out: Vec<Spanned> = Vec::new();
    let mut i: usize = 0;
    while i < b.len()
        invariant
            b@ == src.spec_bytes(),
            i <= b@.len(),
            rs_lex(b@) == spanned_view(out@) + rs_lex_from(b@, i as int),
        decreases b@.len() - i,
    {
        let (t, j) = rs_lex_step(b, i);
        let ghost before = out@;
        match t {
            Some(t) => {
                out.push(t);
            },
            None => {},
        }
        proof {
            assert(spanned_view(out@) =~= spanned_view(before) + opt_sp(rs_step(b@, i as int).0));
            assert(spanned_view(before) + (opt_sp(rs_step(b@, i as int).0) + rs_lex_from(
                b@,
                j as int,
            )) =~= spanned_view(out@) + rs_lex_from(b@, j as int));
        }
        i = j;
    }
    assert(spanned_view(out@) + Seq::<SpannedV>::empty() =~= spanned_view(out@));
    out
}

/// Each keyword is its own token: `fn`, `let`, `if`, `else`, `while`,
/// `return`, `export` and `const` give `Fn`, `Let`, `If`, `Else`,
/// `While`, `Return`, `Export` and `Const`, and no two words give the same
/// token.
pub proof fn law_keywords_are_their_own_tokens()
    ensures
        rs_keyword(seq![102u8, 110]) == Some(TokV::Fn),
        rs_keyword(seq![108u8, 101, 116]) == Some(TokV::Let),
        rs_keyword(seq![105u8, 102]) == Some(TokV::If),
        rs_keyword(seq![101u8, 108, 115, 101]) == Some(TokV::Else),
        rs_keyword(seq![119u8, 104, 105, 108, 101]) == Some(TokV::While),
        rs_keyword(seq![114u8, 101, 116, 117, 114, 110]) == Some(TokV::Return),
        rs_keyword(seq![101u8, 120, 112, 111, 114, 116]) == Some(TokV::Export),
        rs_keyword(seq![99u8, 111, 110, 115, 116]) == Some(TokV::Const),
        forall|w1: Seq<u8>, w2: Seq<u8>|
            #![trigger rs_keyword(w1), rs_keyword(w2)]
            rs_keyword(w1) is Some && rs_keyword(w1) == rs_keyword(w2) ==> w1 == w2,
{
}

proof fn lemma_ident_end_at(b: Seq<u8>, i: int, e: int)
    requires
        0 <= i <= e <= b.len(),
        forall|j: int| i <= j < e ==> spec_is_ident_continue(#[trigger] b[j]),
        e == b.len() || !spec_is_ident_continue(b[e]),
    ensures
        ident_end(b, i) == e,
    decreases e - i,
{
    if i < e {
        lemma_ident_end_at(b, i + 1, e);
    }
}

/// A keyword in the text, not followed by a letter, digit or `_`, is read
/// as one token: the keyword's own token, spanning the keyword.
pub proof fn law_keyword_in_text_is_its_token(b: Seq<u8>, i: int, w: Seq<u8>)
    requires
        rs_keyword(w) is Some,
        0 <= i,
        i + w.len() <= b.len(),
        b.subrange(i, i + w.len()) == w,
        i + w.len() == b.len() || !spec_is_ident_continue(b[i + w.len()]),
    ensures
        rs_step(b, i) == sp(rs_keyword(w)->Some_0, i, i + w.len()),
{
    assert(w.len() >= 2 && forall|j: int| 0 <= j < w.len() ==> 97 <= #[trigger] w[j] <= 122);
    assert forall|j: int| i + 1 <= j < i + w.len() implies spec_is_ident_continue(#[trigger] b[j]) by {
        assert(b[j] == b.subrange(i, i + w.len())[j - i]);
    }
    assert(b[i] == w[0]);
    lemma_ident_end_at(b, i + 1, i + w.len());
    assert(b.subrange(i, ident_end(b, i + 1)) == w);
}

/// How operator and punctuation characters are read: each gives its own
/// token spanning it; `==`, `!=`, `<=`, `>=`, `<<` and `>>` are read as one
/// token when their second character follows, else the first character
/// alone is its token (a lone `!` is an error).
pub proof fn law_symbols_are_their_tokens(b: Seq<u8>, i: int)
    requires
        0 <= i < b.len(),
    ensures
        ({
            let c = b[i];
            let n: int = if i + 1 < b.len() {
                b[i + 1] as int
            } else {
                -1
            };
            &&& c == 40 ==> rs_step(b, i) == sp(TokV::LParen, i, i + 1)
            &&& c == 41 ==> rs_step(b, i) == sp(TokV::RParen, i, i + 1)
            &&& c == 123 ==> rs_step(b, i) == sp(TokV::LBrace, i, i + 1)
            &&& c == 125 ==> rs_step(b, i) == sp(TokV::RBrace, i, i + 1)
            &&& c == 58 ==> rs_step(b, i) == sp(TokV::Colon, i, i + 1)
            &&& c == 59 ==> rs_step(b, i) == sp(TokV::Semi, i, i + 1)
            &&& c == 44 ==> rs_step(b, i) == sp(TokV::Comma, i, i + 1)
            &&& c == 43 ==> rs_step(b, i) == sp(TokV::Plus, i, i + 1)
            &&& c == 45 ==> rs_step(b, i) == sp(TokV::Minus, i, i + 1)
            &&& c == 42 ==> rs_step(b, i) == sp(TokV::Star, i, i + 1)
            &&& c == 38 ==> rs_step(b, i) == sp(TokV::Amp, i, i + 1)
            &&& c == 124 ==> rs_step(b, i) == sp(TokV::Pipe, i, i + 1)
            &&& c == 94 ==> rs_step(b, i) == sp(TokV::Caret, i, i + 1)
            &&& c == 64 ==> rs_step(b, i) == sp(TokV::At, i, i + 1)
            &&& c == 61 ==> rs_step(b, i) == (if n == 61 {
                sp(TokV::EqEq, i, i + 2)
            } else {
                sp(TokV::Eq, i, i + 1)
            })
            &&& c == 33 ==> rs_step(b, i) == (if n == 61 {
                sp(TokV::Ne, i, i + 2)
            } else {
                sp(TokV::Error, i, i + 1)
            })
            &&& c == 60 ==> rs_step(b, i) == (if n == 61 {
                sp(TokV::Le, i, i + 2)
            } else if n == 60 {
                sp(TokV::Shl, i, i + 2)
            } else {
                sp(TokV::Lt, i, i + 1)
            })
            &&& c == 62 ==> rs_step(b, i) == (if n == 61 {
                sp(TokV::Ge, i, i + 2)
            } else if n == 62 {
                sp(TokV::Shr, i, i + 2)
            } else {
                sp(TokV::Gt, i, i + 1)
            })
        }),
{
}

} // verus!
