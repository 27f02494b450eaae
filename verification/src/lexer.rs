//! Tokenizer of wasmchi source text.
//!
//! The lexer works on the UTF-8 bytes of the source. Newlines are tokens of
//! their own (they separate statements); spaces, tabs, carriage returns,
//! `//` comments and bytes that start no token are skipped.
use vstd::prelude::*;
use crate::ast::Decimal;
use vstd::string::StringSliceAdditionalSpecFns;
use vstd::utf8::{decode_utf8, valid_utf8};

verus! {

#[derive(Debug, PartialEq, Eq)]
pub enum TokenKind {
    Export,
    Fn,
    Let,
    Return,
    Import,
    If,
    Else,
    While,
    True,
    False,
    Ident(String),
    Int(i32),
    Float(Decimal),
    Str(String),
    LParen,
    RParen,
    Colon,
    LBrace,
    RBrace,
    Plus,
    Minus,
    Star,
    Slash,
    Equal,
    ColonEqual,
    Comma,
    EqEq,
    BangEq,
    Bang,
    Lt,
    LtEq,
    Gt,
    GtEq,
    AndAnd,
    OrOr,
    Newline,
    Eof,
}

#[derive(Debug, PartialEq, Eq)]
pub struct Token {
    pub kind: TokenKind,
    pub pos: usize,
}

/// Model of a token kind: identifiers and string literals as `Seq<char>`.
pub enum TokK {
    Export,
    Fn,
    Let,
    Return,
    Import,
    If,
    Else,
    While,
    True,
    False,
    Ident(Seq<char>),
    Int(i32),
    Float(Decimal),
    Str(Seq<char>),
    LParen,
    RParen,
    Colon,
    LBrace,
    RBrace,
    Plus,
    Minus,
    Star,
    Slash,
    Equal,
    ColonEqual,
    Comma,
    EqEq,
    BangEq,
    Bang,
    Lt,
    LtEq,
    Gt,
    GtEq,
    AndAnd,
    OrOr,
    Newline,
    Eof,
}

pub struct TokenV {
    pub kind: TokK,
    pub pos: int,
}

impl View for TokenKind {
    type V = TokK;

    open spec fn view(&self) -> TokK {
        match self {
            TokenKind::Export => TokK::Export,
            TokenKind::Fn => TokK::Fn,
            TokenKind::Let => TokK::Let,
            TokenKind::Return => TokK::Return,
            TokenKind::Import => TokK::Import,
            TokenKind::If => TokK::If,
            TokenKind::Else => TokK::Else,
            TokenKind::While => TokK::While,
            TokenKind::True => TokK::True,
            TokenKind::False => TokK::False,
            TokenKind::Ident(s) => TokK::Ident(s@),
            TokenKind::Int(n) => TokK::Int(*n),
            TokenKind::Float(d) => TokK::Float(*d),
            TokenKind::Str(s) => TokK::Str(s@),
            TokenKind::LParen => TokK::LParen,
            TokenKind::RParen => TokK::RParen,
            TokenKind::Colon => TokK::Colon,
            TokenKind::LBrace => TokK::LBrace,
            TokenKind::RBrace => TokK::RBrace,
            TokenKind::Plus => TokK::Plus,
            TokenKind::Minus => TokK::Minus,
            TokenKind::Star => TokK::Star,
            TokenKind::Slash => TokK::Slash,
            TokenKind::Equal => TokK::Equal,
            TokenKind::ColonEqual => TokK::ColonEqual,
            TokenKind::Comma => TokK::Comma,
            TokenKind::EqEq => TokK::EqEq,
            TokenKind::BangEq => TokK::BangEq,
            TokenKind::Bang => TokK::Bang,
            TokenKind::Lt => TokK::Lt,
            TokenKind::LtEq => TokK::LtEq,
            TokenKind::Gt => TokK::Gt,
            TokenKind::GtEq => TokK::GtEq,
            TokenKind::AndAnd => TokK::AndAnd,
            TokenKind::OrOr => TokK::OrOr,
            TokenKind::Newline => TokK::Newline,
            TokenKind::Eof => TokK::Eof,
        }
    }
}

impl View for Token {
    type V = TokenV;

    open spec fn view(&self) -> TokenV {
        TokenV { kind: self.kind@, pos: self.pos as int }
    }
}

pub open spec fn tokens_view(s: Seq<Token>) -> Seq<TokenV> {
    s.map_values(|t: Token| t@)
}

// ---------------------------------------------------------------------------
// Specification of the lexer
// ---------------------------------------------------------------------------

pub open spec fn spec_is_ident_start(b: u8) -> bool {
    (65 <= b && b <= 90) || (97 <= b && b <= 122) || b == 95
}

pub open spec fn spec_is_digit(b: u8) -> bool {
    48 <= b && b <= 57
}

pub open spec fn spec_is_ident_continue(b: u8) -> bool {
    spec_is_ident_start(b) || spec_is_digit(b)
}

/// First index at or after `i` that does not continue an identifier.
pub open spec fn ident_end(b: Seq<u8>, i: int) -> int
    decreases b.len() - i,
{
    if 0 <= i < b.len() && spec_is_ident_continue(b[i]) {
        ident_end(b, i + 1)
    } else {
        i
    }
}

/// First index at or after `i` that is not a decimal digit.
pub open spec fn digits_end(b: Seq<u8>, i: int) -> int
    decreases b.len() - i,
{
    if 0 <= i < b.len() && spec_is_digit(b[i]) {
        digits_end(b, i + 1)
    } else {
        i
    }
}

/// First index at or after `i` holding a newline, or the end of input.
pub open spec fn line_end(b: Seq<u8>, i: int) -> int
    decreases b.len() - i,
{
    if 0 <= i < b.len() && b[i] != 10 {
        line_end(b, i + 1)
    } else {
        i
    }
}

/// Value of the decimal digits `b[s..e]`.
pub open spec fn digits_val(b: Seq<u8>, s: int, e: int) -> nat
    decreases e - s,
{
    if e <= s {
        0
    } else {
        digits_val(b, s, e - 1) * 10 + (b[e - 1] - 48) as nat
    }
}

pub open spec fn pow10(n: nat) -> nat
    decreases n,
{
    if n == 0 {
        1
    } else {
        10 * pow10((n - 1) as nat)
    }
}

/// The byte an escape sequence `\\e` stands for: `\\n` and `\\t` are a
/// line feed and a tab, any other `e` (`\\\\`, `\\"` among them) is itself.
pub open spec fn escape_byte(e: u8) -> u8 {
    if e == 110 {
        10
    } else if e == 116 {
        9
    } else {
        e
    }
}

/// Bytes of a string literal starting at `i` (after the opening quote),
/// with its escapes resolved, and the index after the closing quote (or the
/// end of input when it is unterminated).
pub open spec fn str_bytes(b: Seq<u8>, i: int) -> (Seq<u8>, int)
    decreases b.len() - i,
{
    if i < 0 || i >= b.len() {
        (Seq::empty(), i)
    } else if b[i] == 34 {
        (Seq::empty(), i + 1)
    } else if b[i] == 92 {
        if i + 1 >= b.len() {
            (Seq::empty(), i + 1)
        } else {
            let r = str_bytes(b, i + 2);
            (seq![escape_byte(b[i + 1])] + r.0, r.1)
        }
    } else {
        let r = str_bytes(b, i + 1);
        (seq![b[i]] + r.0, r.1)
    }
}

/// The text of a literal's bytes: decoded as UTF-8 (which the bytes of a
/// literal of a source text always are); bytes that are not UTF-8 are read
/// one char per byte.
pub open spec fn utf8_text(bytes: Seq<u8>) -> Seq<char> {
    if valid_utf8(bytes) {
        decode_utf8(bytes)
    } else {
        bytes_as_chars(bytes)
    }
}

/// The keyword that the identifier bytes `w` spell, if any.
pub open spec fn keyword(w: Seq<u8>) -> Option<TokK> {
    if w =~= seq![101u8, 120, 112, 111, 114, 116] {
        Some(TokK::Export)
    } else if w =~= seq![102u8, 110] {
        Some(TokK::Fn)
    } else if w =~= seq![108u8, 101, 116] {
        Some(TokK::Let)
    } else if w =~= seq![114u8, 101, 116, 117, 114, 110] {
        Some(TokK::Return)
    } else if w =~= seq![105u8, 109, 112, 111, 114, 116] {
        Some(TokK::Import)
    } else if w =~= seq![105u8, 102] {
        Some(TokK::If)
    } else if w =~= seq![101u8, 108, 115, 101] {
        Some(TokK::Else)
    } else if w =~= seq![119u8, 104, 105, 108, 101] {
        Some(TokK::While)
    } else if w =~= seq![116u8, 114, 117, 101] {
        Some(TokK::True)
    } else if w =~= seq![102u8, 97, 108, 115, 101] {
        Some(TokK::False)
    } else {
        None
    }
}

pub open spec fn bytes_as_chars(w: Seq<u8>) -> Seq<char> {
    w.map_values(|c: u8| c as char)
}

/// Whether a number starting at `i` has a fractional part `.d...`.
pub open spec fn has_fraction(b: Seq<u8>, j: int) -> bool {
    j + 1 < b.len() && b[j] == 46 && spec_is_digit(b[j + 1])
}

/// Extends `x` by the leading digits of `b[s..e]` for as long as the value
/// stays at most `limit`: the value reached and how many digits it took.
pub open spec fn lead_digits(b: Seq<u8>, s: int, e: int, x: nat, limit: nat) -> (nat, nat)
    decreases e - s,
{
    if s >= e {
        (x, 0)
    } else {
        let y = x * 10 + (b[s] - 48) as nat;
        if y <= limit {
            let r = lead_digits(b, s + 1, e, y, limit);
            (r.0, r.1 + 1)
        } else {
            (x, 0)
        }
    }
}

/// The token a number literal starting at `i` forms, and where it ends.
/// An integer literal above `i32::MAX` reads as 0. A decimal literal keeps
/// its leading digits that fit in a `u64` and cuts off the rest.
pub open spec fn number_tok(b: Seq<u8>, i: int) -> (TokK, int) {
    let j = digits_end(b, i);
    if has_fraction(b, j) {
        let k = digits_end(b, j + 1);
        let ip = lead_digits(b, i, j, 0, u64::MAX as nat);
        if ip.1 == j - i {
            let fp = lead_digits(b, j + 1, k, ip.0, u64::MAX as nat);
            (TokK::Float(Decimal { mantissa: fp.0 as u64, scale: fp.1 as usize, exponent: 0 }), k)
        } else {
            (
                TokK::Float(
                    Decimal { mantissa: ip.0 as u64, scale: 0, exponent: (j - i - ip.1) as usize },
                ),
                k,
            )
        }
    } else {
        let v = digits_val(b, i, j);
        let n: i32 = if v <= i32::MAX {
            v as i32
        } else {
            0
        };
        (TokK::Int(n), j)
    }
}

pub open spec fn tok_at(k: TokK, i: int) -> Option<TokenV> {
    Some(TokenV { kind: k, pos: i })
}

/// Two-byte operator `c1 c2`, or the one-byte operator `c1`.
pub open spec fn op2(b: Seq<u8>, i: int, second: u8, two: TokK, one: Option<TokK>) -> (
    Option<TokenV>,
    int,
) {
    if i < b.len() - 1 && b[i + 1] == second {
        (tok_at(two, i), i + 2)
    } else {
        match one {
            Some(k) => (tok_at(k, i), i + 1),
            None => (None, i + 1),
        }
    }
}

/// One step of the lexer at index `i < b.len()`: the token it emits (if any)
/// and the index where the next step starts.
pub open spec fn step(b: Seq<u8>, i: int) -> (Option<TokenV>, int) {
    let c = b[i];
    if c == 32 || c == 9 || c == 13 {
        (None, i + 1)
    } else if c == 10 {
        (tok_at(TokK::Newline, i), i + 1)
    } else if c == 40 {
        (tok_at(TokK::LParen, i), i + 1)
    } else if c == 41 {
        (tok_at(TokK::RParen, i), i + 1)
    } else if c == 58 {
        op2(b, i, 61, TokK::ColonEqual, Some(TokK::Colon))
    } else if c == 123 {
        (tok_at(TokK::LBrace, i), i + 1)
    } else if c == 125 {
        (tok_at(TokK::RBrace, i), i + 1)
    } else if c == 43 {
        (tok_at(TokK::Plus, i), i + 1)
    } else if c == 45 {
        (tok_at(TokK::Minus, i), i + 1)
    } else if c == 42 {
        (tok_at(TokK::Star, i), i + 1)
    } else if c == 47 {
        if i + 1 < b.len() && b[i + 1] == 47 {
            (None, line_end(b, i + 2))
        } else {
            (tok_at(TokK::Slash, i), i + 1)
        }
    } else if c == 61 {
        op2(b, i, 61, TokK::EqEq, Some(TokK::Equal))
    } else if c == 44 {
        (tok_at(TokK::Comma, i), i + 1)
    } else if c == 33 {
        op2(b, i, 61, TokK::BangEq, Some(TokK::Bang))
    } else if c == 60 {
        op2(b, i, 61, TokK::LtEq, Some(TokK::Lt))
    } else if c == 62 {
        op2(b, i, 61, TokK::GtEq, Some(TokK::Gt))
    } else if c == 38 {
        op2(b, i, 38, TokK::AndAnd, None)
    } else if c == 124 {
        op2(b, i, 124, TokK::OrOr, None)
    } else if c == 34 {
        let r = str_bytes(b, i + 1);
        (tok_at(TokK::Str(utf8_text(r.0)), i), r.1)
    } else if spec_is_digit(c) {
        let r = number_tok(b, i);
        (tok_at(r.0, i), r.1)
    } else if spec_is_ident_start(c) {
        let e = ident_end(b, i + 1);
        let w = b.subrange(i, e);
        let k = match keyword(w) {
            Some(k) => k,
            None => TokK::Ident(bytes_as_chars(w)),
        };
        (tok_at(k, i), e)
    } else {
        (None, i + 1)
    }
}

pub open spec fn opt_seq(t: Option<TokenV>) -> Seq<TokenV> {
    match t {
        Some(t) => seq![t],
        None => Seq::empty(),
    }
}

/// The tokens of `b[i..]`, ending with `Eof` at `b.len()`.
pub open spec fn spec_lex_from(b: Seq<u8>, i: int) -> Seq<TokenV>
    decreases b.len() - i,
{
    if i < 0 || i >= b.len() {
        seq![TokenV { kind: TokK::Eof, pos: b.len() as int }]
    } else {
        let r = step(b, i);
        if i < r.1 <= b.len() {
            opt_seq(r.0) + spec_lex_from(b, r.1)
        } else {
            seq![TokenV { kind: TokK::Eof, pos: b.len() as int }]
        }
    }
}

/// The token sequence of a whole source, given by its UTF-8 bytes.
pub open spec fn spec_lex(b: Seq<u8>) -> Seq<TokenV> {
    spec_lex_from(b, 0)
}

// ---------------------------------------------------------------------------
// Implementation
// ---------------------------------------------------------------------------

/// `String::push`: appends one char to the end of the string.
#[verifier::external_body]
pub(crate) fn push_char(s: &mut String, c: char)
    ensures
        final(s)@ == old(s)@.push(c),
{
    s.push(c);
}

/// `String::push_str`: appends a string slice to the end of the string.
#[verifier::external_body]
pub(crate) fn push_str(s: &mut String, t: &str)
    ensures
        final(s)@ == old(s)@ + t@,
{
    s.push_str(t);
}

pub fn is_ident_start(b: u8) -> (r: bool)
    ensures
        r == spec_is_ident_start(b),
{
    (b >= 65 && b <= 90) || (b >= 97 && b <= 122) || b == 95
}

pub fn is_ident_continue(b: u8) -> (r: bool)
    ensures
        r == spec_is_ident_continue(b),
{
    is_ident_start(b) || is_digit(b)
}

pub fn is_digit(b: u8) -> (r: bool)
    ensures
        r == spec_is_digit(b),
{
    b >= 48 && b <= 57
}

pub(crate) fn scan_ident_end(b: &[u8], i: usize) -> (r: usize)
    requires
        i <= b@.len(),
    ensures
        r == ident_end(b@, i as int),
        i <= r <= b@.len(),
{
    let mut k = i;
    while k < b.len() && is_ident_continue(b[k])
        invariant
            i <= k <= b@.len(),
            ident_end(b@, i as int) == ident_end(b@, k as int),
        decreases b@.len() - k,
    {
        k = k + 1;
    }
    k
}

pub(crate) fn scan_digits_end(b: &[u8], i: usize) -> (r: usize)
    requires
        i <= b@.len(),
    ensures
        r == digits_end(b@, i as int),
        i <= r <= b@.len(),
{
    let mut k = i;
    while k < b.len() && is_digit(b[k])
        invariant
            i <= k <= b@.len(),
            digits_end(b@, i as int) == digits_end(b@, k as int),
        decreases b@.len() - k,
    {
        k = k + 1;
    }
    k
}

pub(crate) fn scan_line_end(b: &[u8], i: usize) -> (r: usize)
    requires
        i <= b@.len(),
    ensures
        r == line_end(b@, i as int),
        i <= r <= b@.len(),
{
    let mut k = i;
    while k < b.len() && b[k] != 10
        invariant
            i <= k <= b@.len(),
            line_end(b@, i as int) == line_end(b@, k as int),
        decreases b@.len() - k,
    {
        k = k + 1;
    }
    k
}

fn escape(e: u8) -> (r: u8)
    ensures
        r == escape_byte(e),
{
    if e == 110 {
        10
    } else if e == 116 {
        9
    } else {
        e
    }
}

/// `String::from_utf8`: the string the bytes encode where they are UTF-8,
/// `None` where they are not.
#[verifier::external_body]
fn string_from_utf8(bytes: &Vec<u8>) -> (r: Option<String>)
    ensures
        match r {
            Some(s) => valid_utf8(bytes@) && s@ == decode_utf8(bytes@),
            None => !valid_utf8(bytes@),
        },
{
    String::from_utf8(bytes.clone()).ok()
}

fn scan_str_bytes(b: &[u8], start: usize) -> (r: (Vec<u8>, usize))
    requires
        start <= b@.len(),
    ensures
        r.0@ == str_bytes(b@, start as int).0,
        r.1 == str_bytes(b@, start as int).1,
        start <= r.1 <= b@.len(),
{
    let mut out: Vec<u8> = Vec::new();
    let mut i = start;
    while i < b.len()
        invariant
            start <= i <= b@.len(),
            str_bytes(b@, start as int).0 == out@ + str_bytes(b@, i as int).0,
            str_bytes(b@, start as int).1 == str_bytes(b@, i as int).1,
        decreases b@.len() - i,
    {
        let c = b[i];
        if c == 34 {
            assert(out@ + Seq::<u8>::empty() =~= out@);
            return (out, i + 1);
        }
        if c == 92 {
            if i + 1 >= b.len() {
                assert(out@ + Seq::<u8>::empty() =~= out@);
                return (out, i + 1);
            }
            let ghost before = out@;
            out.push(escape(b[i + 1]));
            proof {
                let r = str_bytes(b@, i + 2);
                assert(before + (seq![escape_byte(b@[i + 1])] + r.0) =~= out@ + r.0);
            }
            i = i + 2;
        } else {
            let ghost before = out@;
            out.push(c);
            proof {
                let r = str_bytes(b@, i + 1);
                assert(before + (seq![c] + r.0) =~= out@ + r.0);
            }
            i = i + 1;
        }
    }
    assert(out@ + Seq::<u8>::empty() =~= out@);
    (out, i)
}

fn scan_str(b: &[u8], start: usize) -> (r: (String, usize))
    requires
        start <= b@.len(),
    ensures
        r.0@ == utf8_text(str_bytes(b@, start as int).0),
        r.1 == str_bytes(b@, start as int).1,
        start <= r.1 <= b@.len(),
{
    let (bytes, end) = scan_str_bytes(b, start);
    let text = match string_from_utf8(&bytes) {
        Some(t) => t,
        None => {
            let t = bytes_to_string(bytes.as_slice(), 0, bytes.len());
            assert(bytes@.subrange(0, bytes@.len() as int) =~= bytes@);
            t
        },
    };
    (text, end)
}

proof fn lemma_pow10_pos(n: nat)
    ensures
        pow10(n) >= 1,
    decreases n,
{
    if n > 0 {
        lemma_pow10_pos((n - 1) as nat);
    }
}

proof fn lemma_digit_step(x: nat, p: nat, v: nat, d: nat)
    ensures
        x * (10 * p) + (v * 10 + d) == (x * p + v) * 10 + d,
{
    assert(x * (10 * p) + (v * 10 + d) == (x * p + v) * 10 + d) by (nonlinear_arith);
}

/// Extends the value `x` (given as `acc`, or `None` when `x > limit`) by the
/// digits `b[s..e]`: the result is `x * 10^(e-s) + digits`, or `None` when
/// that exceeds `limit`.
pub(crate) fn fold_digits(b: &[u8], s: usize, e: usize, acc: Option<u64>, limit: u64, Ghost(x): Ghost<nat>) -> (r:
    Option<u64>)
    requires
        s <= e <= b@.len(),
        forall|k: int| s <= k < e ==> spec_is_digit(#[trigger] b@[k]),
        acc matches Some(a) ==> a == x && x <= limit,
        acc is None ==> x > limit,
        limit >= 9,
    ensures
        ({
            let v = x * pow10((e - s) as nat) + digits_val(b@, s as int, e as int);
            &&& r matches Some(a) ==> a == v && v <= limit
            &&& r is None ==> v > limit
        }),
{
    let mut acc = acc;
    let mut k = s;
    proof {
        assert(pow10(0) == 1);
        assert(x * pow10(0) + digits_val(b@, s as int, s as int) == x);
    }
    while k < e
        invariant
            s <= k <= e <= b@.len(),
            limit >= 9,
            forall|t: int| s <= t < e ==> spec_is_digit(#[trigger] b@[t]),
            ({
                let v = x * pow10((k - s) as nat) + digits_val(b@, s as int, k as int);
                &&& acc matches Some(a) ==> a == v && v <= limit
                &&& acc is None ==> v > limit
            }),
        decreases e - k,
    {
        let d = (b[k] - 48) as u64;
        let ghost p = pow10((k - s) as nat);
        let ghost v = x * p + digits_val(b@, s as int, k as int);
        proof {
            lemma_digit_step(x, p, digits_val(b@, s as int, k as int), d as nat);
            assert(pow10((k + 1 - s) as nat) == 10 * p);
            assert(digits_val(b@, s as int, k + 1) == digits_val(b@, s as int, k as int) * 10 + d);
        }
        acc = match acc {
            Some(a) => {
                if a > (limit - d) / 10 {
                    proof {
                        assert(a * 10 + d > limit) by (nonlinear_arith)
                            requires a > (limit - d) / 10, d <= 9, d <= limit || a * 10 + d > limit;
                    }
                    None
                } else {
                    proof {
                        assert(a * 10 + d <= limit) by (nonlinear_arith)
                            requires a <= (limit - d) / 10, d <= limit;
                    }
                    Some(a * 10 + d)
                }
            },
            None => {
                proof {
                    assert(v * 10 + d > limit) by (nonlinear_arith)
                        requires v > limit;
                }
                None
            },
        };
        k = k + 1;
    }
    acc
}

/// The exec form of `lead_digits` with `limit == u64::MAX`.
fn lead_digits_exec(b: &[u8], s: usize, e: usize, x: u64) -> (r: (u64, usize))
    requires
        s <= e <= b@.len(),
        forall|k: int| s <= k < e ==> spec_is_digit(#[trigger] b@[k]),
    ensures
        r.0 as nat == lead_digits(b@, s as int, e as int, x as nat, u64::MAX as nat).0,
        r.1 as nat == lead_digits(b@, s as int, e as int, x as nat, u64::MAX as nat).1,
        r.1 <= e - s,
{
    let mut acc = x;
    let mut k = s;
    while k < e
        invariant
            s <= k <= e <= b@.len(),
            forall|t: int| s <= t < e ==> spec_is_digit(#[trigger] b@[t]),
            lead_digits(b@, s as int, e as int, x as nat, u64::MAX as nat) == ({
                let r = lead_digits(b@, k as int, e as int, acc as nat, u64::MAX as nat);
                (r.0, r.1 + (k - s) as nat)
            }),
        ensures
            lead_digits(b@, k as int, e as int, acc as nat, u64::MAX as nat) == (acc as nat, 0nat),
            s <= k <= e,
        decreases e - k,
    {
        let d = (b[k] - 48) as u64;
        assert(d <= 9);
        if acc > (u64::MAX - d) / 10 {
            proof {
                assert(acc * 10 + d > u64::MAX) by (nonlinear_arith)
                    requires acc > (u64::MAX - d) / 10, d <= 9;
            }
            break;
        }
        proof {
            assert(acc * 10 + d <= u64::MAX) by (nonlinear_arith)
                requires acc <= (u64::MAX - d) / 10, d <= 9;
        }
        acc = acc * 10 + d;
        k = k + 1;
    }
    (acc, k - s)
}

fn scan_number(b: &[u8], i: usize) -> (r: (TokenKind, usize))
    requires
        i < b@.len(),
        spec_is_digit(b@[i as int]),
    ensures
        r.0@ == number_tok(b@, i as int).0,
        r.1 == number_tok(b@, i as int).1,
        i < r.1 <= b@.len(),
{
    let j = scan_digits_end(b, i);
    proof {
        lemma_digits_end(b@, i as int);
    }
    if j < b.len() && b[j] == 46 && j < b.len() - 1 && is_digit(b[j + 1]) {
        let k = scan_digits_end(b, j + 1);
        proof {
            lemma_digits_end(b@, j + 1);
        }
        let (a, ca) = lead_digits_exec(b, i, j, 0);
        if ca == j - i {
            let (m, cf) = lead_digits_exec(b, j + 1, k, a);
            (TokenKind::Float(Decimal { mantissa: m, scale: cf, exponent: 0 }), k)
        } else {
            (TokenKind::Float(Decimal { mantissa: a, scale: 0, exponent: j - i - ca }), k)
        }
    } else {
        let v = fold_digits(b, i, j, Some(0), 0x7fff_ffff, Ghost(0));
        proof {
            assert(0 * pow10((j - i) as nat) == 0);
        }
        let n: i32 = match v {
            Some(n) => n as i32,
            None => 0,
        };
        (TokenKind::Int(n), j)
    }
}

pub(crate) proof fn lemma_digits_end(b: Seq<u8>, i: int)
    requires
        0 <= i <= b.len(),
    ensures
        i <= digits_end(b, i) <= b.len(),
        i < b.len() && spec_is_digit(b[i]) ==> i < digits_end(b, i),
        forall|k: int| i <= k < digits_end(b, i) ==> spec_is_digit(#[trigger] b[k]),
    decreases b.len() - i,
{
    if i < b.len() && spec_is_digit(b[i]) {
        lemma_digits_end(b, i + 1);
    }
}

/// Whether `b[s..e]` spells the word `w`.
pub(crate) fn word_is(b: &[u8], s: usize, e: usize, w: &[u8]) -> (r: bool)
    requires
        s <= e <= b@.len(),
    ensures
        r == (b@.subrange(s as int, e as int) =~= w@),
{
    if e - s != w.len() {
        return false;
    }
    let mut k: usize = 0;
    while k < w.len()
        invariant
            e - s == w@.len(),
            s <= e <= b@.len(),
            0 <= k <= w@.len(),
            forall|t: int| 0 <= t < k ==> b@[s + t] == w@[t],
        decreases w@.len() - k,
    {
        if b[s + k] != w[k] {
            proof {
                assert(b@.subrange(s as int, e as int)[k as int] != w@[k as int]);
            }
            return false;
        }
        k = k + 1;
    }
    true
}

fn keyword_kind(b: &[u8], s: usize, e: usize) -> (r: Option<TokenKind>)
    requires
        s <= e <= b@.len(),
    ensures
        match r {
            Some(k) => keyword(b@.subrange(s as int, e as int)) == Some(k@),
            None => keyword(b@.subrange(s as int, e as int)) is None,
        },
{
    if word_is(b, s, e, &[101u8, 120, 112, 111, 114, 116]) {
        Some(TokenKind::Export)
    } else if word_is(b, s, e, &[102u8, 110]) {
        Some(TokenKind::Fn)
    } else if word_is(b, s, e, &[108u8, 101, 116]) {
        Some(TokenKind::Let)
    } else if word_is(b, s, e, &[114u8, 101, 116, 117, 114, 110]) {
        Some(TokenKind::Return)
    } else if word_is(b, s, e, &[105u8, 109, 112, 111, 114, 116]) {
        Some(TokenKind::Import)
    } else if word_is(b, s, e, &[105u8, 102]) {
        Some(TokenKind::If)
    } else if word_is(b, s, e, &[101u8, 108, 115, 101]) {
        Some(TokenKind::Else)
    } else if word_is(b, s, e, &[119u8, 104, 105, 108, 101]) {
        Some(TokenKind::While)
    } else if word_is(b, s, e, &[116u8, 114, 117, 101]) {
        Some(TokenKind::True)
    } else if word_is(b, s, e, &[102u8, 97, 108, 115, 101]) {
        Some(TokenKind::False)
    } else {
        None
    }
}

pub(crate) fn bytes_to_string(b: &[u8], s: usize, e: usize) -> (r: String)
    requires
        s <= e <= b@.len(),
    ensures
        r@ == bytes_as_chars(b@.subrange(s as int, e as int)),
{
    let mut out = String::new();
    let mut k = s;
    while k < e
        invariant
            s <= k <= e <= b@.len(),
            out@ =~= bytes_as_chars(b@.subrange(s as int, k as int)),
        decreases e - k,
    {
        push_char(&mut out, b[k] as char);
        proof {
            assert(bytes_as_chars(b@.subrange(s as int, k + 1)) =~= bytes_as_chars(
                b@.subrange(s as int, k as int),
            ).push(b@[k as int] as char));
        }
        k = k + 1;
    }
    out
}

pub open spec fn opt_tok_view(t: Option<Token>) -> Option<TokenV> {
    match t {
        Some(t) => Some(t@),
        None => None,
    }
}

fn tok(k: TokenKind, i: usize) -> (r: Option<Token>)
    ensures
        opt_tok_view(r) == tok_at(k@, i as int),
{
    Some(Token { kind: k, pos: i })
}

fn lex_op2(b: &[u8], i: usize, second: u8, two: TokenKind, one: Option<TokenKind>) -> (r: (
    Option<Token>,
    usize,
))
    requires
        i < b@.len(),
    ensures
        ({
            let one_v = match one {
                Some(k) => Some(k@),
                None => None,
            };
            opt_tok_view(r.0) == op2(b@, i as int, second, two@, one_v).0 && r.1 == op2(
                b@,
                i as int,
                second,
                two@,
                one_v,
            ).1
        }),
        i < r.1 <= b@.len(),
{
    if i < b.len() - 1 && b[i + 1] == second {
        (tok(two, i), i + 2)
    } else {
        match one {
            Some(k) => (tok(k, i), i + 1),
            None => (None, i + 1),
        }
    }
}

fn lex_step(b: &[u8], i: usize) -> (r: (Option<Token>, usize))
    requires
        i < b@.len(),
    ensures
        opt_tok_view(r.0) == step(b@, i as int).0,
        r.1 == step(b@, i as int).1,
        i < r.1 <= b@.len(),
{
    let c = b[i];
    if c == 32 || c == 9 || c == 13 {
        (None, i + 1)
    } else if c == 10 {
        (tok(TokenKind::Newline, i), i + 1)
    } else if c == 40 {
        (tok(TokenKind::LParen, i), i + 1)
    } else if c == 41 {
        (tok(TokenKind::RParen, i), i + 1)
    } else if c == 58 {
        lex_op2(b, i, 61, TokenKind::ColonEqual, Some(TokenKind::Colon))
    } else if c == 123 {
        (tok(TokenKind::LBrace, i), i + 1)
    } else if c == 125 {
        (tok(TokenKind::RBrace, i), i + 1)
    } else if c == 43 {
        (tok(TokenKind::Plus, i), i + 1)
    } else if c == 45 {
        (tok(TokenKind::Minus, i), i + 1)
    } else if c == 42 {
        (tok(TokenKind::Star, i), i + 1)
    } else if c == 47 {
        if i < b.len() - 1 && b[i + 1] == 47 {
            (None, scan_line_end(b, i + 2))
        } else {
            (tok(TokenKind::Slash, i), i + 1)
        }
    } else if c == 61 {
        lex_op2(b, i, 61, TokenKind::EqEq, Some(TokenKind::Equal))
    } else if c == 44 {
        (tok(TokenKind::Comma, i), i + 1)
    } else if c == 33 {
        lex_op2(b, i, 61, TokenKind::BangEq, Some(TokenKind::Bang))
    } else if c == 60 {
        lex_op2(b, i, 61, TokenKind::LtEq, Some(TokenKind::Lt))
    } else if c == 62 {
        lex_op2(b, i, 61, TokenKind::GtEq, Some(TokenKind::Gt))
    } else if c == 38 {
        lex_op2(b, i, 38, TokenKind::AndAnd, None)
    } else if c == 124 {
        lex_op2(b, i, 124, TokenKind::OrOr, None)
    } else if c == 34 {
        let (s, j) = scan_str(b, i + 1);
        (tok(TokenKind::Str(s), i), j)
    } else if is_digit(c) {
        let (k, j) = scan_number(b, i);
        (tok(k, i), j)
    } else if is_ident_start(c) {
        let e = scan_ident_end(b, i + 1);
        let k = match keyword_kind(b, i, e) {
            Some(k) => k,
            None => TokenKind::Ident(bytes_to_string(b, i, e)),
        };
        (tok(k, i), e)
    } else {
        (None, i + 1)
    }
}

/// Splits `source` into tokens; the result is exactly `spec_lex` of the
/// source's bytes, so it always ends with one `Eof` at `source.len()`.
pub fn lex(source: &str) -> (tokens: Vec<Token>)
    ensures
        tokens_view(tokens@) == spec_lex(source.spec_bytes()),
{
    let b = source.as_bytes();
    let mut tokens: Vec<Token> = Vec::new();
    let mut i: usize = 0;
    while i < b.len()
        invariant
            b@ == source.spec_bytes(),
            i <= b@.len(),
            spec_lex(b@) == tokens_view(tokens@) + spec_lex_from(b@, i as int),
        decreases b@.len() - i,
    {
        let (t, j) = lex_step(b, i);
        let ghost old_tokens = tokens@;
        match t {
            Some(t) => {
                tokens.push(t);
            },
            None => {},
        }
        proof {
            assert(tokens_view(tokens@) =~= tokens_view(old_tokens) + opt_seq(step(b@, i as int).0));
            assert(spec_lex_from(b@, i as int) == opt_seq(step(b@, i as int).0) + spec_lex_from(
                b@,
                j as int,
            ));
            assert(tokens_view(old_tokens) + (opt_seq(step(b@, i as int).0) + spec_lex_from(
                b@,
                j as int,
            )) =~= tokens_view(tokens@) + spec_lex_from(b@, j as int));
        }
        i = j;
    }
    let ghost before = tokens@;
    tokens.push(Token { kind: TokenKind::Eof, pos: b.len() });
    proof {
        assert(tokens_view(tokens@) =~= tokens_view(before) + spec_lex_from(b@, i as int));
    }
    tokens
}

/// A line break is a token of its own (it separates statements), while
/// spaces, tabs and carriage returns only separate tokens.
pub proof fn law_newline_is_a_token(b: Seq<u8>, i: int)
    requires
        0 <= i < b.len(),
    ensures
        b[i] == 10 ==> spec_lex_from(b, i) == seq![TokenV { kind: TokK::Newline, pos: i }]
            + spec_lex_from(b, i + 1),
        (b[i] == 32 || b[i] == 9 || b[i] == 13) ==> spec_lex_from(b, i) == spec_lex_from(b, i + 1),
{
    if b[i] == 32 || b[i] == 9 || b[i] == 13 {
        assert(opt_seq(None) + spec_lex_from(b, i + 1) =~= spec_lex_from(b, i + 1));
    }
}

/// Each keyword is read as its own token: the word `export` as `Export`,
/// `fn` as `Fn`, `let` as `Let`, `return` as `Return`, `import` as
/// `Import`, `if` as `If`, `else` as `Else`, `while` as `While`, `true` as
/// `True` and `false` as `False`; and no two words give the same token.
pub proof fn law_keywords_are_their_own_tokens()
    ensures
        keyword(seq![101u8, 120, 112, 111, 114, 116]) == Some(TokK::Export),
        keyword(seq![102u8, 110]) == Some(TokK::Fn),
        keyword(seq![108u8, 101, 116]) == Some(TokK::Let),
        keyword(seq![114u8, 101, 116, 117, 114, 110]) == Some(TokK::Return),
        keyword(seq![105u8, 109, 112, 111, 114, 116]) == Some(TokK::Import),
        keyword(seq![105u8, 102]) == Some(TokK::If),
        keyword(seq![101u8, 108, 115, 101]) == Some(TokK::Else),
        keyword(seq![119u8, 104, 105, 108, 101]) == Some(TokK::While),
        keyword(seq![116u8, 114, 117, 101]) == Some(TokK::True),
        keyword(seq![102u8, 97, 108, 115, 101]) == Some(TokK::False),
        forall|w1: Seq<u8>, w2: Seq<u8>|
            #![trigger keyword(w1), keyword(w2)]
            keyword(w1) is Some && keyword(w1) == keyword(w2) ==> w1 == w2,
{
}

proof fn lemma_ident_end_at(b: Seq<u8>, i: int, e: int)
    requires
        0 <= i <= e <= b.len(),
        forall|j: int| i <= j < e ==> spec_is_ident_continue(#[trigger] b[j]),
        e == b.len() || !spec_is_ident_continue(b[e]),
    ensures
        ident_end(b, i) == e,
    decreases e - i,
{
    if i < e {
        lemma_ident_end_at(b, i + 1, e);
    }
}

/// A keyword in the text, not followed by a letter, digit or `_`, is read
/// as one token: the keyword's own token, at the keyword's position.
pub proof fn law_keyword_in_text_is_its_token(b: Seq<u8>, i: int, w: Seq<u8>)
    requires
        keyword(w) is Some,
        0 <= i,
        i + w.len() <= b.len(),
        b.subrange(i, i + w.len()) == w,
        i + w.len() == b.len() || !spec_is_ident_continue(b[i + w.len()]),
    ensures
        step(b, i) == (Some(TokenV { kind: keyword(w)->Some_0, pos: i }), i + w.len()),
{
    assert(w.len() >= 2 && forall|j: int| 0 <= j < w.len() ==> 97 <= #[trigger] w[j] <= 122);
    assert forall|j: int| i + 1 <= j < i + w.len() implies spec_is_ident_continue(#[trigger] b[j]) by {
        assert(b[j] == b.subrange(i, i + w.len())[j - i]);
    }
    assert(b[i] == w[0]);
    lemma_ident_end_at(b, i + 1, i + w.len());
    assert(b.subrange(i, ident_end(b, i + 1)) == w);
}

/// How operator and punctuation characters are read: each gives its own
/// token at its position, a two-character operator (`==`, `!=`, `<=`, `>=`,
/// `:=`, `&&`, `||`) when its second character follows, else the
/// one-character token; `//` starts a comment and a lone `&` or `|` is
/// skipped.
pub proof fn law_symbols_are_their_tokens(b: Seq<u8>, i: int)
    requires
        0 <= i < b.len(),
    ensures
        ({
            let c = b[i];
            let n: int = if i + 1 < b.len() {
                b[i + 1] as int
            } else {
                -1
            };
            let one = |k: TokK| (Some(TokenV { kind: k, pos: i }), i + 1);
            let two = |k: TokK| (Some(TokenV { kind: k, pos: i }), i + 2);
            &&& c == 10 ==> step(b, i) == one(TokK::Newline)
            &&& c == 40 ==> step(b, i) == one(TokK::LParen)
            &&& c == 41 ==> step(b, i) == one(TokK::RParen)
            &&& c == 123 ==> step(b, i) == one(TokK::LBrace)
            &&& c == 125 ==> step(b, i) == one(TokK::RBrace)
            &&& c == 43 ==> step(b, i) == one(TokK::Plus)
            &&& c == 45 ==> step(b, i) == one(TokK::Minus)
            &&& c == 42 ==> step(b, i) == one(TokK::Star)
            &&& c == 44 ==> step(b, i) == one(TokK::Comma)
            &&& (c == 47 && n != 47) ==> step(b, i) == one(TokK::Slash)
            &&& c == 58 ==> step(b, i) == (if n == 61 {
                two(TokK::ColonEqual)
            } else {
                one(TokK::Colon)
            })
            &&& c == 61 ==> step(b, i) == (if n == 61 {
                two(TokK::EqEq)
            } else {
                one(TokK::Equal)
            })
            &&& c == 33 ==> step(b, i) == (if n == 61 {
                two(TokK::BangEq)
            } else {
                one(TokK::Bang)
            })
            &&& c == 60 ==> step(b, i) == (if n == 61 {
                two(TokK::LtEq)
            } else {
                one(TokK::Lt)
            })
            &&& c == 62 ==> step(b, i) == (if n == 61 {
                two(TokK::GtEq)
            } else {
                one(TokK::Gt)
            })
            &&& c == 38 ==> step(b, i) == (if n == 38 {
                two(TokK::AndAnd)
            } else {
                (None, i + 1)
            })
            &&& c == 124 ==> step(b, i) == (if n == 124 {
                two(TokK::OrOr)
            } else {
                (None, i + 1)
            })
        }),
{
}

} // verus!
