//! Reading npm imports out of a source text, and the return type of a
//! function out of a TypeScript declaration file.
use vstd::prelude::*;
use crate::lexer::{push_char, push_str};

verus! {

broadcast use vstd::string::axiom_spec_iter;

/// The chars of a string.
pub fn str_chars(s: &str) -> (r: Vec<char>)
    ensures
        r@ == s@,
{
    let mut v: Vec<char> = Vec::new();
    for c in it: s.chars()
        invariant
            v@ == it.seq().take(it.index() as int),
            it.seq() == s@,
    {
        v.push(c);
    }
    v
}


// ---------------------------------------------------------------------------
// Text
// ---------------------------------------------------------------------------

/// Unicode `White_Space`, which `str::trim` removes.
pub open spec fn is_ws(c: char) -> bool {
    let n = c as u32;
    (9 <= n <= 13) || n == 32 || n == 0x85 || n == 0xA0 || n == 0x1680 || (0x2000 <= n <= 0x200A)
        || n == 0x2028 || n == 0x2029 || n == 0x202F || n == 0x205F || n == 0x3000
}

pub fn is_ws_exec(c: char) -> (r: bool)
    ensures
        r == is_ws(c),
{
    let n = c as u32;
    (9 <= n && n <= 13) || n == 32 || n == 0x85 || n == 0xA0 || n == 0x1680 || (0x2000 <= n && n
        <= 0x200A) || n == 0x2028 || n == 0x2029 || n == 0x202F || n == 0x205F || n == 0x3000
}

/// `s` without leading whitespace.
pub open spec fn ltrim(s: Seq<char>) -> Seq<char>
    decreases s.len(),
{
    if s.len() > 0 && is_ws(s[0]) {
        ltrim(s.drop_first())
    } else {
        s
    }
}

/// `s` without trailing whitespace.
pub open spec fn rtrim(s: Seq<char>) -> Seq<char>
    decreases s.len(),
{
    if s.len() > 0 && is_ws(s.last()) {
        rtrim(s.drop_last())
    } else {
        s
    }
}

pub open spec fn trim(s: Seq<char>) -> Seq<char> {
    rtrim(ltrim(s))
}

pub open spec fn starts_with(s: Seq<char>, p: Seq<char>) -> bool {
    s.len() >= p.len() && s.take(p.len() as int) == p
}

/// Index of the first occurrence of `p` in `s` at or after `i`.
pub open spec fn find_from(s: Seq<char>, p: Seq<char>, i: int) -> Option<int>
    decreases s.len() + 1 - i,
{
    if i < 0 || i + p.len() > s.len() {
        None
    } else if s.subrange(i, i + p.len()) == p {
        Some(i)
    } else {
        find_from(s, p, i + 1)
    }
}

pub proof fn lemma_find_from(s: Seq<char>, p: Seq<char>, i: int)
    ensures
        find_from(s, p, i) matches Some(j) ==> i <= j && j + p.len() <= s.len() && s.subrange(
            j,
            j + p.len(),
        ) == p,
    decreases s.len() + 1 - i,
{
    if !(i < 0 || i + p.len() > s.len()) && s.subrange(i, i + p.len()) != p {
        lemma_find_from(s, p, i + 1);
    }
}

/// Index of the first occurrence of `p` in `s`.
pub open spec fn find(s: Seq<char>, p: Seq<char>) -> Option<int> {
    find_from(s, p, 0)
}

// ---------------------------------------------------------------------------
// npm imports
// ---------------------------------------------------------------------------

pub open spec fn nonempty(t: Seq<char>) -> Seq<Seq<char>> {
    if t.len() == 0 {
        Seq::empty()
    } else {
        seq![t]
    }
}

/// The trimmed, non-empty pieces of the comma-separated list `s[i..]`.
pub open spec fn names_from(s: Seq<char>, i: int) -> Seq<Seq<char>>
    decreases s.len() + 1 - i,
{
    if i < 0 || i > s.len() {
        Seq::empty()
    } else {
        proof {
            lemma_find_from(s, seq![','], i);
        }
        match find_from(s, seq![','], i) {
            None => nonempty(trim(s.subrange(i, s.len() as int))),
            Some(j) => nonempty(trim(s.subrange(i, j))) + names_from(s, j + 1),
        }
    }
}

pub open spec fn strip_npm(sp: Seq<char>) -> Seq<char> {
    if starts_with(sp, "npm:"@) {
        sp.skip(4)
    } else {
        sp
    }
}

/// The positions of the first `{`, the first `}` and the first `from`
/// after that `}` in a trimmed line that starts with `import`, when all
/// three occur and the `{` comes before the `}`.
pub open spec fn import_marks(l: Seq<char>) -> Option<(int, int, int)> {
    if !starts_with(l, "import"@) {
        None
    } else {
        match (find(l, seq!['{']), find(l, seq!['}'])) {
            (Some(bl), Some(br)) => if br < bl {
                None
            } else {
                match find_from(l, "from"@, br + 1) {
                    Some(fi) => Some((bl, br, fi)),
                    None => None,
                }
            },
            _ => None,
        }
    }
}

/// The package and the names a line imports, as in
/// `import { a, b } from "npm:pkg"`, or `None`.
pub open spec fn parse_import_line(line: Seq<char>) -> Option<(Seq<char>, Seq<Seq<char>>)> {
    let l = trim(line);
    match import_marks(l) {
        None => None,
        Some((bl, br, fi)) => {
            let names = names_from(l.subrange(bl + 1, br), 0);
            let rest = trim(l.skip(fi + 4));
            if names.len() == 0 || rest.len() == 0 || !(rest[0] == '"' || rest[0] == '\'') {
                None
            } else {
                match find(rest.skip(1), seq![rest[0]]) {
                    None => None,
                    Some(e) => Some((strip_npm(rest.skip(1).take(e)), names)),
                }
            }
        },
    }
}

pub open spec fn opt_import(x: Option<(Seq<char>, Seq<Seq<char>>)>) -> Seq<(Seq<char>, Seq<Seq<char>>)> {
    match x {
        Some(v) => seq![v],
        None => Seq::empty(),
    }
}

/// The imports of the lines of `src[i..]` (lines end at `\n`).
pub open spec fn imports_from(src: Seq<char>, i: int) -> Seq<(Seq<char>, Seq<Seq<char>>)>
    decreases src.len() + 1 - i,
{
    if i < 0 || i > src.len() {
        Seq::empty()
    } else {
        proof {
            lemma_find_from(src, seq!['\n'], i);
        }
        match find_from(src, seq!['\n'], i) {
            None => opt_import(parse_import_line(src.subrange(i, src.len() as int))),
            Some(j) => opt_import(parse_import_line(src.subrange(i, j))) + imports_from(src, j + 1),
        }
    }
}

pub open spec fn npm_imports(src: Seq<char>) -> Seq<(Seq<char>, Seq<Seq<char>>)> {
    imports_from(src, 0)
}


// ---------------------------------------------------------------------------
// Implementation
// ---------------------------------------------------------------------------

fn sub_vec(c: &Vec<char>, a: usize, b: usize) -> (r: Vec<char>)
    requires
        a <= b <= c@.len(),
    ensures
        r@ == c@.subrange(a as int, b as int),
{
    let mut r: Vec<char> = Vec::new();
    let mut k = a;
    while k < b
        invariant
            a <= k <= b <= c@.len(),
            r@ =~= c@.subrange(a as int, k as int),
        decreases b - k,
    {
        r.push(c[k]);
        k = k + 1;
    }
    r
}

/// `c` without leading and trailing whitespace (see `trim`).
fn trim_vec(c: &Vec<char>) -> (r: Vec<char>)
    ensures
        r@ == trim(c@),
{
    let mut a: usize = 0;
    assert(c@.subrange(0, c@.len() as int) =~= c@);
    while a < c.len() && is_ws_exec(c[a])
        invariant
            a <= c@.len(),
            ltrim(c@) == ltrim(c@.subrange(a as int, c@.len() as int)),
        decreases c@.len() - a,
    {
        assert(c@.subrange(a as int, c@.len() as int).drop_first() =~= c@.subrange(a + 1, c@.len() as int));
        a = a + 1;
    }
    let mut b: usize = c.len();
    assert(ltrim(c@) == c@.subrange(a as int, b as int));
    while b > a && is_ws_exec(c[b - 1])
        invariant
            a <= b <= c@.len(),
            trim(c@) == rtrim(c@.subrange(a as int, b as int)),
        decreases b,
    {
        assert(c@.subrange(a as int, b as int).drop_last() =~= c@.subrange(a as int, b - 1));
        b = b - 1;
    }
    sub_vec(c, a, b)
}

/// Whether `p` occurs in `s` at `i`.
fn occurs_at(s: &Vec<char>, p: &Vec<char>, i: usize) -> (r: bool)
    requires
        i + p@.len() <= s@.len(),
    ensures
        r == (s@.subrange(i as int, i + p@.len()) == p@),
{
    let n = s.len();
    let mut k: usize = 0;
    while k < p.len()
        invariant
            k <= p@.len(),
            n == s@.len(),
            i + p@.len() <= s@.len(),
            forall|t: int| 0 <= t < k ==> s@[i + t] == p@[t],
        decreases p@.len() - k,
    {
        if s[i + k] != p[k] {
            assert(s@.subrange(i as int, i + p@.len())[k as int] != p@[k as int]);
            return false;
        }
        k = k + 1;
    }
    assert(s@.subrange(i as int, i + p@.len()) =~= p@);
    true
}

/// The first occurrence of `p` in `s` at or after `i` (see `find_from`).
fn find_from_exec(s: &Vec<char>, p: &Vec<char>, i: usize) -> (r: Option<usize>)
    ensures
        match r {
            Some(j) => find_from(s@, p@, i as int) == Some(j as int),
            None => find_from(s@, p@, i as int) is None,
        },
{
    let mut k = i;
    while k <= s.len() && p.len() <= s.len() - k
        invariant
            i <= k,
            find_from(s@, p@, i as int) == find_from(s@, p@, k as int),
        decreases s@.len() + 1 - k,
    {
        if occurs_at(s, p, k) {
            return Some(k);
        }
        proof {
            if p@.len() == 0 {
                assert(s@.subrange(k as int, k as int) =~= p@);
            }
        }
        k = k + 1;
    }
    None
}

fn starts_with_exec(s: &Vec<char>, p: &Vec<char>) -> (r: bool)
    ensures
        r == starts_with(s@, p@),
{
    if s.len() < p.len() {
        return false;
    }
    let r = occurs_at(s, p, 0);
    assert(s@.subrange(0, p@.len() as int) =~= s@.take(p@.len() as int));
    r
}

fn chars_to_string(c: &Vec<char>) -> (r: String)
    ensures
        r@ == c@,
{
    let mut out = String::new();
    let mut k: usize = 0;
    while k < c.len()
        invariant
            k <= c@.len(),
            out@ =~= c@.take(k as int),
        decreases c@.len() - k,
    {
        push_char(&mut out, c[k]);
        k = k + 1;
    }
    out
}

pub open spec fn strings_view(v: Seq<String>) -> Seq<Seq<char>> {
    v.map_values(|s: String| s@)
}

/// The names of the comma-separated list `s` (see `names_from`).
fn names_exec(s: &Vec<char>) -> (r: Vec<String>)
    ensures
        strings_view(r@) == names_from(s@, 0),
{
    let comma = vec![','];
    assert(comma@ =~= seq![',']);
    let mut out: Vec<String> = Vec::new();
    let mut i: usize = 0;
    let n = s.len();
    assert(strings_view(out@) =~= Seq::<Seq<char>>::empty());
    loop
        invariant
            i <= s@.len(),
            n == s@.len(),
            comma@ == seq![','],
            names_from(s@, 0) == strings_view(out@) + names_from(s@, i as int),
        decreases s@.len() + 1 - i,
    {
        proof {
            lemma_find_from(s@, seq![','], i as int);
        }
        let (end, last) = match find_from_exec(s, &comma, i) {
            Some(j) => (j, false),
            None => (s.len(), true),
        };
        let piece = trim_vec(&sub_vec(s, i, end));
        let ghost o0 = strings_view(out@);
        if piece.len() > 0 {
            out.push(chars_to_string(&piece));
            assert(strings_view(out@) =~= o0 + nonempty(piece@));
        } else {
            assert(strings_view(out@) =~= o0 + nonempty(piece@));
        }
        if last {
            assert(names_from(s@, i as int) == nonempty(piece@));
            assert(strings_view(out@) + Seq::<Seq<char>>::empty() =~= strings_view(out@));
            assert(names_from(s@, 0) == strings_view(out@));
            return out;
        }
        assert(names_from(s@, i as int) == nonempty(piece@) + names_from(s@, end + 1));
        assert(o0 + (nonempty(piece@) + names_from(s@, end + 1)) =~= strings_view(out@) + names_from(
            s@,
            end + 1,
        ));
        i = end + 1;
    }
}


pub open spec fn imports_view(v: Seq<(String, Vec<String>)>) -> Seq<(Seq<char>, Seq<Seq<char>>)> {
    v.map_values(|x: (String, Vec<String>)| (x.0@, strings_view(x.1@)))
}

fn one_char(c: char) -> (r: Vec<char>)
    ensures
        r@ == seq![c],
{
    let r = vec![c];
    assert(r@ =~= seq![c]);
    r
}

/// The package and names a line imports (see `parse_import_line`).
fn parse_import_line_exec(line: &Vec<char>) -> (r: Option<(String, Vec<String>)>)
    ensures
        match r {
            Some(x) => parse_import_line(line@) == Some((x.0@, strings_view(x.1@))),
            None => parse_import_line(line@) is None,
        },
{
    let l = trim_vec(line);
    let kw = str_chars("import");
    if !starts_with_exec(&l, &kw) {
        return None;
    }
    let bl = match find_from_exec(&l, &one_char('{'), 0) {
        Some(j) => j,
        None => {
            return None;
        },
    };
    let br = match find_from_exec(&l, &one_char('}'), 0) {
        Some(j) => j,
        None => {
            return None;
        },
    };
    if br < bl {
        return None;
    }
    let from_kw = str_chars("from");
    proof {
        lemma_find_from(l@, seq!['}'], 0);
        lemma_find_from(l@, seq!['{'], 0);
        assert(l@.subrange(bl as int, bl + 1)[0] == '{');
        assert(l@.subrange(br as int, br + 1)[0] == '}');
    }
    let ln = l.len();
    assert(br < ln);
    let fi = match find_from_exec(&l, &from_kw, br + 1) {
        Some(j) => j,
        None => {
            return None;
        },
    };
    proof {
        reveal_strlit("from");
        lemma_find_from(l@, "from"@, br + 1);
        assert(import_marks(l@) == Some((bl as int, br as int, fi as int)));
    }
    let part = sub_vec(&l, bl + 1, br);
    let names = names_exec(&part);
    if names.len() == 0 {
        return None;
    }
    let n = l.len();
    assert(fi + 4 <= n);
    let tail = sub_vec(&l, fi + 4, n);
    assert(tail@ =~= l@.skip(fi + 4));
    let rest = trim_vec(&tail);
    if rest.len() == 0 {
        return None;
    }
    let q = rest[0];
    if q != '"' && q != '\'' {
        return None;
    }
    let r2 = sub_vec(&rest, 1, rest.len());
    assert(r2@ =~= rest@.skip(1));
    let e = match find_from_exec(&r2, &one_char(q), 0) {
        Some(e) => e,
        None => {
            return None;
        },
    };
    proof {
        lemma_find_from(r2@, seq![q], 0);
    }
    let sp = sub_vec(&r2, 0, e);
    assert(sp@ =~= r2@.take(e as int));
    let npm = str_chars("npm:");
    proof {
        reveal_strlit("npm:");
    }
    let spec_chars = if starts_with_exec(&sp, &npm) {
        let v = sub_vec(&sp, 4, sp.len());
        assert(v@ =~= sp@.skip(4));
        v
    } else {
        sp
    };
    Some((chars_to_string(&spec_chars), names))
}

fn push_import(out: &mut Vec<(String, Vec<String>)>, line: &Vec<char>)
    ensures
        imports_view(final(out)@) == imports_view(old(out)@) + opt_import(parse_import_line(line@)),
{
    let ghost o0 = imports_view(out@);
    match parse_import_line_exec(line) {
        Some(x) => {
            let ghost xv = (x.0@, strings_view(x.1@));
            out.push(x);
            assert(imports_view(out@) =~= o0.push(xv));
        },
        None => {},
    }
    assert(imports_view(out@) =~= o0 + opt_import(parse_import_line(line@)));
}

/// The npm imports of a source text: for each line such as
/// `import { a, b } from "npm:pkg"`, the package (without `npm:`) and the
/// names (see `npm_imports`).
pub fn parse_npm_imports(src: &str) -> (r: Vec<(String, Vec<String>)>)
    ensures
        imports_view(r@) == npm_imports(src@),
{
    let c = str_chars(src);
    let nl = one_char('\n');
    let n = c.len();
    let mut out: Vec<(String, Vec<String>)> = Vec::new();
    assert(imports_view(out@) =~= Seq::<(Seq<char>, Seq<Seq<char>>)>::empty());
    let mut i: usize = 0;
    loop
        invariant
            i <= c@.len(),
            n == c@.len(),
            c@ == src@,
            nl@ == seq!['\n'],
            npm_imports(src@) == imports_view(out@) + imports_from(src@, i as int),
        decreases c@.len() + 1 - i,
    {
        proof {
            lemma_find_from(c@, seq!['\n'], i as int);
        }
        let (end, last) = match find_from_exec(&c, &nl, i) {
            Some(j) => (j, false),
            None => (c.len(), true),
        };
        let line = sub_vec(&c, i, end);
        let ghost o0 = imports_view(out@);
        push_import(&mut out, &line);
        if last {
            assert(imports_view(out@) + Seq::<(Seq<char>, Seq<Seq<char>>)>::empty() =~= imports_view(
                out@,
            ));
            return out;
        }
        assert(o0 + (opt_import(parse_import_line(line@)) + imports_from(src@, end + 1))
            =~= imports_view(out@) + imports_from(src@, end + 1));
        i = end + 1;
    }
}


// ---------------------------------------------------------------------------
// Return types from a declaration file
// ---------------------------------------------------------------------------

/// What `char::is_alphanumeric` returns for `c` (Unicode `Alphabetic` or
/// `Numeric`).
pub uninterp spec fn unicode_alnum(c: char) -> bool;

pub open spec fn ascii_alnum(c: char) -> bool {
    ('a' <= c && c <= 'z') || ('A' <= c && c <= 'Z') || ('0' <= c && c <= '9')
}

/// Whether `c` is alphanumeric: for an ASCII char, a letter or a digit; for
/// any other char, what `char::is_alphanumeric` says.
pub open spec fn alnum(c: char) -> bool {
    if (c as u32) < 128 {
        ascii_alnum(c)
    } else {
        unicode_alnum(c)
    }
}

pub open spec fn ascii_alpha(c: char) -> bool {
    ('a' <= c && c <= 'z') || ('A' <= c && c <= 'Z')
}

/// `char::is_alphanumeric`: whether `c` is alphabetic or numeric in
/// Unicode, which for an ASCII char means a letter or a digit. The
/// Unicode tables themselves are not stated.
#[verifier::external_body]
fn is_alphanumeric(c: char) -> (r: bool)
    ensures
        r == unicode_alnum(c),
        (c as u32) < 128 ==> (r == ascii_alnum(c)),
{
    c.is_alphanumeric()
}

/// The leading chars of `s` that are alphanumeric or `_`.
pub open spec fn word_prefix(s: Seq<char>) -> Seq<char>
    decreases s.len(),
{
    if s.len() > 0 && (alnum(s[0]) || s[0] == '_') {
        seq![s[0]] + word_prefix(s.drop_first())
    } else {
        Seq::empty()
    }
}

/// Whether `c` can continue a name in a declaration text.
pub open spec fn name_char(c: char) -> bool {
    alnum(c) || c == '_' || c == '$'
}

/// The first occurrence of `needle` at or after `i` in `dts` that is not
/// followed by a name character (the declaration of exactly that name).
pub open spec fn find_decl(dts: Seq<char>, needle: Seq<char>, i: int) -> Option<int>
    decreases dts.len() + 1 - i,
{
    proof {
        lemma_find_from(dts, needle, i);
    }
    match find_from(dts, needle, i) {
        None => None,
        Some(p) => {
            let e = p + needle.len();
            if e < dts.len() && name_char(dts[e]) {
                if i <= p && p + 1 <= dts.len() + 1 {
                    find_decl(dts, needle, p + 1)
                } else {
                    None
                }
            } else {
                Some(p)
            }
        },
    }
}

/// The return type of `export function name...` (the function of exactly
/// that name) in a declaration text: `string`, `number` (as `f64`) or
/// `void`; a name after `:` when the parameter list says `extends string`
/// reads as `string`.
pub open spec fn infer_ret(dts: Seq<char>, name: Seq<char>) -> Option<Seq<char>> {
    let needle = "export function "@ + name;
    match find_decl(dts, needle, 0) {
        None => None,
        Some(pos) => {
            let after = dts.skip(pos + needle.len());
            match find(after, seq![')']) {
                None => None,
                Some(cp) => {
                    let ap = ltrim(after.skip(cp + 1));
                    if ap.len() == 0 || ap[0] != ':' {
                        None
                    } else {
                        let tok = word_prefix(ltrim(ap.skip(1)));
                        if tok == "string"@ {
                            Some("string"@)
                        } else if tok == "number"@ {
                            Some("f64"@)
                        } else if tok == "void"@ {
                            Some("void"@)
                        } else if find(after.take(cp), "extends string"@) is Some && tok.len() > 0
                            && ascii_alpha(tok[0]) {
                            Some("string"@)
                        } else {
                            None
                        }
                    }
                },
            }
        },
    }
}

fn ltrim_vec(c: &Vec<char>) -> (r: Vec<char>)
    ensures
        r@ == ltrim(c@),
{
    let mut a: usize = 0;
    assert(c@.subrange(0, c@.len() as int) =~= c@);
    while a < c.len() && is_ws_exec(c[a])
        invariant
            a <= c@.len(),
            ltrim(c@) == ltrim(c@.subrange(a as int, c@.len() as int)),
        decreases c@.len() - a,
    {
        assert(c@.subrange(a as int, c@.len() as int).drop_first() =~= c@.subrange(a + 1, c@.len() as int));
        a = a + 1;
    }
    sub_vec(c, a, c.len())
}

fn word_prefix_exec(c: &Vec<char>) -> (r: Vec<char>)
    ensures
        r@ == word_prefix(c@),
{
    let mut k: usize = 0;
    assert(c@.subrange(0, c@.len() as int) =~= c@);
    assert(word_prefix(c@) == c@.take(0) + word_prefix(c@.subrange(0, c@.len() as int)));
    while k < c.len() && (is_alphanumeric(c[k]) || c[k] == '_')
        invariant
            k <= c@.len(),
            word_prefix(c@) == c@.take(k as int) + word_prefix(c@.subrange(k as int, c@.len() as int)),
        decreases c@.len() - k,
    {
        let ghost rest = c@.subrange(k as int, c@.len() as int);
        assert(rest.drop_first() =~= c@.subrange(k + 1, c@.len() as int));
        assert(c@.take(k as int) + (seq![rest[0]] + word_prefix(rest.drop_first())) =~= c@.take(k + 1)
            + word_prefix(c@.subrange(k + 1, c@.len() as int)));
        k = k + 1;
    }
    assert(c@.take(k as int) + Seq::<char>::empty() =~= c@.take(k as int));
    sub_vec(c, 0, k)
}

fn same_chars(a: &Vec<char>, b: &Vec<char>) -> (r: bool)
    ensures
        r == (a@ == b@),
{
    if a.len() != b.len() {
        return false;
    }
    let r = occurs_at(a, b, 0);
    assert(a@.subrange(0, b@.len() as int) =~= a@);
    r
}

/// The declaration of exactly the name `needle` ends (see `find_decl`).
fn find_decl_exec(d: &Vec<char>, needle: &Vec<char>) -> (r: Option<usize>)
    ensures
        match r {
            Some(p) => find_decl(d@, needle@, 0) == Some(p as int) && p + needle@.len() <= d@.len(),
            None => find_decl(d@, needle@, 0) is None,
        },
{
    let mut i: usize = 0;
    let n = d.len();
    loop
        invariant
            i <= n + 1,
            n == d@.len(),
            find_decl(d@, needle@, 0) == find_decl(d@, needle@, i as int),
        decreases n + 1 - i,
    {
        proof {
            lemma_find_from(d@, needle@, i as int);
        }
        let p = match find_from_exec(d, needle, i) {
            None => {
                return None;
            },
            Some(p) => p,
        };
        let e = p + needle.len();
        if e < n && (is_alphanumeric(d[e]) || d[e] == '_' || d[e] == '$') {
            i = p + 1;
        } else {
            return Some(p);
        }
    }
}

/// The return type of function `name` in a declaration text (see
/// `infer_ret`): `string`, `f64` or `void`.
pub fn infer_fn_ret_type(dts: &str, name: &str) -> (r: Option<&'static str>)
    ensures
        match r {
            Some(t) => infer_ret(dts@, name@) == Some(t@),
            None => infer_ret(dts@, name@) is None,
        },
{
    let d = str_chars(dts);
    let mut needle = str_chars("export function ");
    let nm = str_chars(name);
    let ghost n0 = needle@;
    let mut k: usize = 0;
    while k < nm.len()
        invariant
            k <= nm@.len(),
            needle@ == n0 + nm@.take(k as int),
        decreases nm@.len() - k,
    {
        needle.push(nm[k]);
        assert(needle@ =~= n0 + nm@.take(k + 1));
        k = k + 1;
    }
    assert(nm@.take(k as int) =~= nm@);
    let pos = match find_decl_exec(&d, &needle) {
        Some(p) => p,
        None => {
            return None;
        },
    };
    let dl = d.len();
    let after = sub_vec(&d, pos + needle.len(), dl);
    assert(after@ =~= d@.skip(pos + needle@.len()));
    let cp = match find_from_exec(&after, &one_char(')'), 0) {
        Some(p) => p,
        None => {
            return None;
        },
    };
    proof {
        lemma_find_from(after@, seq![')'], 0);
    }
    let al = after.len();
    let tail = sub_vec(&after, cp + 1, al);
    assert(tail@ =~= after@.skip(cp + 1));
    let ap = ltrim_vec(&tail);
    if ap.len() == 0 || ap[0] != ':' {
        return None;
    }
    let apl = ap.len();
    let ap1 = sub_vec(&ap, 1, apl);
    assert(ap1@ =~= ap@.skip(1));
    let tok = word_prefix_exec(&ltrim_vec(&ap1));
    if same_chars(&tok, &str_chars("string")) {
        return Some("string");
    }
    if same_chars(&tok, &str_chars("number")) {
        return Some("f64");
    }
    if same_chars(&tok, &str_chars("void")) {
        return Some("void");
    }
    let head = sub_vec(&after, 0, cp);
    assert(head@ =~= after@.take(cp as int));
    let ext = find_from_exec(&head, &str_chars("extends string"), 0);
    if ext.is_some() && tok.len() > 0 && (('a' <= tok[0] && tok[0] <= 'z') || ('A' <= tok[0]
        && tok[0] <= 'Z')) {
        return Some("string");
    }
    None
}


// ---------------------------------------------------------------------------
// package.json and the generated host module
// ---------------------------------------------------------------------------

/// `    "name": "version"` for one dependency.
pub open spec fn dep_entry(d: (Seq<char>, Seq<char>)) -> Seq<char> {
    "    \""@ + d.0 + "\": \""@ + d.1 + "\""@
}

/// Each dependency entry followed by `,` and a line break.
pub open spec fn dep_lines_raw(deps: Seq<(Seq<char>, Seq<char>)>) -> Seq<char>
    decreases deps.len(),
{
    if deps.len() == 0 {
        Seq::empty()
    } else {
        dep_lines_raw(deps.drop_last()) + dep_entry(deps.last()) + ",\n"@
    }
}

/// The dependency lines, where the text ends in `,` and a line break with
/// that comma removed.
pub open spec fn dep_lines(deps: Seq<(Seq<char>, Seq<char>)>) -> Seq<char> {
    let raw = dep_lines_raw(deps);
    if raw.len() >= 2 && raw.skip(raw.len() - 2) == ",\n"@ {
        raw.take(raw.len() - 2) + "\n"@
    } else {
        raw
    }
}

/// The `package.json` of a generated npm project with the dependencies
/// `deps`.
pub open spec fn package_json_text(deps: Seq<(Seq<char>, Seq<char>)>) -> Seq<char> {
    "{\n  \"name\": \"wasmchi-project\",\n  \"private\": true,\n  \"type\": \"module\",\n  \"dependencies\": {\n"@
        + dep_lines(deps) + "  }\n}\n"@
}

/// The text to write as `package.json`, where the `existing` one (`{}`
/// where there is none) differs from it once both are trimmed; otherwise
/// `None`.
pub open spec fn package_json_update_spec(
    existing: Option<Seq<char>>,
    deps: Seq<(Seq<char>, Seq<char>)>,
) -> Option<Seq<char>> {
    let json = match existing {
        Some(s) => s,
        None => "{}"@,
    };
    let text = package_json_text(deps);
    if trim(json) != trim(text) {
        Some(text)
    } else {
        None
    }
}

pub open spec fn deps_view(v: Seq<(String, String)>) -> Seq<(Seq<char>, Seq<char>)> {
    v.map_values(|d: (String, String)| (d.0@, d.1@))
}

/// `a` comes before `b` in the order of `str` (by code point, a prefix
/// first).
pub open spec fn name_lt(a: Seq<char>, b: Seq<char>) -> bool
    decreases a.len(),
{
    if a.len() == 0 {
        b.len() > 0
    } else if b.len() == 0 {
        false
    } else if a[0] != b[0] {
        (a[0] as u32) < (b[0] as u32)
    } else {
        name_lt(a.drop_first(), b.drop_first())
    }
}

/// The dependency names are strictly ascending (so none occurs twice), as
/// in the map they come from.
pub open spec fn names_ascending(deps: Seq<(Seq<char>, Seq<char>)>) -> bool {
    forall|i: int, j: int| 0 <= i < j < deps.len() ==> name_lt(#[trigger] deps[i].0, #[trigger] deps[j].0)
}

/// The `package.json` text for the dependencies `deps` (name and version
/// each, in order).
pub fn package_json(deps: &Vec<(String, String)>) -> (r: String)
    requires
        names_ascending(deps_view(deps@)),
    ensures
        r@ == package_json_text(deps_view(deps@)),
{
    let ghost dv = deps_view(deps@);
    let mut lines = String::new();
    let mut k: usize = 0;
    assert(dv.take(0) =~= Seq::<(Seq<char>, Seq<char>)>::empty());
    while k < deps.len()
        invariant
            k <= deps@.len(),
            dv == deps_view(deps@),
            lines@ == dep_lines_raw(dv.take(k as int)),
        decreases deps@.len() - k,
    {
        let ghost l0 = lines@;
        push_str(&mut lines, "    \"");
        push_str(&mut lines, deps[k].0.as_str());
        push_str(&mut lines, "\": \"");
        push_str(&mut lines, deps[k].1.as_str());
        push_str(&mut lines, "\"");
        push_str(&mut lines, ",\n");
        proof {
            assert(dv.take(k + 1).drop_last() =~= dv.take(k as int));
            assert(dv.take(k + 1).last() == dv[k as int]);
            assert(lines@ =~= l0 + dep_entry(dv[k as int]) + ",\n"@);
        }
        k = k + 1;
    }
    assert(dv.take(deps@.len() as int) =~= dv);
    let c = str_chars(lines.as_str());
    let n = c.len();
    proof {
        reveal_strlit(",\n");
        reveal_strlit("\n");
    }
    let body = if n >= 2 && c[n - 2] == ',' && c[n - 1] == '\n' {
        assert(c@.skip(n - 2) =~= ",\n"@);
        let mut t = chars_to_string(&sub_vec(&c, 0, n - 2));
        assert(c@.subrange(0, n - 2) =~= c@.take(n - 2));
        push_str(&mut t, "\n");
        t
    } else {
        proof {
            if c@.len() >= 2 && c@.skip(c@.len() - 2) == ",\n"@ {
                assert(c@.skip(c@.len() - 2)[0] == ',');
                assert(c@.skip(c@.len() - 2)[1] == '\n');
            }
        }
        lines
    };
    let mut out = String::new();
    push_str(
        &mut out,
        "{\n  \"name\": \"wasmchi-project\",\n  \"private\": true,\n  \"type\": \"module\",\n  \"dependencies\": {\n",
    );
    push_str(&mut out, body.as_str());
    push_str(&mut out, "  }\n}\n");
    out
}

/// What to write as `package.json` for the dependencies `deps`, given the
/// text of the `existing` file: the new text (see `package_json_text`), or
/// `None` where the existing text is the same up to surrounding
/// whitespace.
pub fn package_json_update(existing: Option<&str>, deps: &Vec<(String, String)>) -> (r: Option<
    String,
>)
    requires
        names_ascending(deps_view(deps@)),
    ensures
        match r {
            Some(t) => package_json_update_spec(
                match existing {
                    Some(e) => Some(e@),
                    None => None,
                },
                deps_view(deps@),
            ) == Some(t@),
            None => package_json_update_spec(
                match existing {
                    Some(e) => Some(e@),
                    None => None,
                },
                deps_view(deps@),
            ) is None,
        },
{
    let text = package_json(deps);
    let json = match existing {
        Some(e) => str_chars(e),
        None => str_chars("{}"),
    };
    let a = trim_vec(&json);
    let b = trim_vec(&str_chars(text.as_str()));
    if same_chars(&a, &b) {
        None
    } else {
        Some(text)
    }
}

/// `a, b, c` for the names `a`, `b`, `c`.
pub open spec fn join_names(names: Seq<Seq<char>>) -> Seq<char>
    decreases names.len(),
{
    if names.len() == 0 {
        Seq::empty()
    } else if names.len() == 1 {
        names[0]
    } else {
        join_names(names.drop_last()) + ", "@ + names.last()
    }
}

/// One `import {a, b} from 'pkg'` line per package.
pub open spec fn host_import_lines(imps: Seq<(Seq<char>, Seq<Seq<char>>)>) -> Seq<char>
    decreases imps.len(),
{
    if imps.len() == 0 {
        Seq::empty()
    } else {
        host_import_lines(imps.drop_last()) + "import {"@ + join_names(imps.last().1)
            + "} from '"@ + imps.last().0 + "'\n"@
    }
}

/// `  name: name,` lines for the names.
pub open spec fn name_entries(names: Seq<Seq<char>>) -> Seq<char>
    decreases names.len(),
{
    if names.len() == 0 {
        Seq::empty()
    } else {
        name_entries(names.drop_last()) + "  "@ + names.last() + ": "@ + names.last() + ",\n"@
    }
}

pub open spec fn host_entries(imps: Seq<(Seq<char>, Seq<Seq<char>>)>) -> Seq<char>
    decreases imps.len(),
{
    if imps.len() == 0 {
        Seq::empty()
    } else {
        host_entries(imps.drop_last()) + name_entries(imps.last().1)
    }
}

/// The host module that imports the npm functions and hands them to the
/// WebAssembly module as `env`: the import lines, then a default export of
/// every imported name.
pub open spec fn auto_host_text(imps: Seq<(Seq<char>, Seq<Seq<char>>)>) -> Seq<char> {
    host_import_lines(imps) + "\nexport default {\n"@ + host_entries(imps) + "}\n"@
}

fn push_joined(out: &mut String, names: &Vec<String>)
    ensures
        final(out)@ == old(out)@ + join_names(strings_view(names@)),
{
    let ghost o0 = out@;
    let ghost nv = strings_view(names@);
    let mut i: usize = 0;
    assert(nv.take(0) =~= Seq::<Seq<char>>::empty());
    while i < names.len()
        invariant
            i <= names@.len(),
            nv == strings_view(names@),
            out@ == o0 + join_names(nv.take(i as int)),
        decreases names@.len() - i,
    {
        let ghost before = out@;
        if i > 0 {
            push_str(out, ", ");
        }
        push_str(out, names[i].as_str());
        proof {
            let t = nv.take(i + 1);
            assert(t.drop_last() =~= nv.take(i as int));
            assert(t.last() == nv[i as int]);
            if i == 0 {
                assert(t.len() == 1);
                assert(out@ =~= o0 + join_names(t));
            } else {
                assert(out@ =~= o0 + join_names(t));
            }
        }
        i = i + 1;
    }
    assert(nv.take(names@.len() as int) =~= nv);
}

fn push_entries(out: &mut String, names: &Vec<String>)
    ensures
        final(out)@ == old(out)@ + name_entries(strings_view(names@)),
{
    let ghost o0 = out@;
    let ghost nv = strings_view(names@);
    let mut i: usize = 0;
    assert(nv.take(0) =~= Seq::<Seq<char>>::empty());
    while i < names.len()
        invariant
            i <= names@.len(),
            nv == strings_view(names@),
            out@ == o0 + name_entries(nv.take(i as int)),
        decreases names@.len() - i,
    {
        push_str(out, "  ");
        push_str(out, names[i].as_str());
        push_str(out, ": ");
        push_str(out, names[i].as_str());
        push_str(out, ",\n");
        proof {
            let t = nv.take(i + 1);
            assert(t.drop_last() =~= nv.take(i as int));
            assert(t.last() == nv[i as int]);
            assert(out@ =~= o0 + name_entries(t));
        }
        i = i + 1;
    }
    assert(nv.take(names@.len() as int) =~= nv);
}

/// The text of the host module for the npm imports `imports` (see
/// `auto_host_text`).
pub fn auto_host_module(imports: &Vec<(String, Vec<String>)>) -> (r: String)
    ensures
        r@ == auto_host_text(imports_view(imports@)),
{
    let ghost iv = imports_view(imports@);
    let mut out = String::new();
    let mut k: usize = 0;
    assert(iv.take(0) =~= Seq::<(Seq<char>, Seq<Seq<char>>)>::empty());
    while k < imports.len()
        invariant
            k <= imports@.len(),
            iv == imports_view(imports@),
            out@ == host_import_lines(iv.take(k as int)),
        decreases imports@.len() - k,
    {
        let ghost o0 = out@;
        push_str(&mut out, "import {");
        push_joined(&mut out, &imports[k].1);
        push_str(&mut out, "} from '");
        push_str(&mut out, imports[k].0.as_str());
        push_str(&mut out, "'\n");
        proof {
            let t = iv.take(k + 1);
            assert(t.drop_last() =~= iv.take(k as int));
            assert(t.last() == iv[k as int]);
            assert(out@ =~= host_import_lines(t));
        }
        k = k + 1;
    }
    assert(iv.take(imports@.len() as int) =~= iv);
    let ghost head = out@;
    push_str(&mut out, "\nexport default {\n");
    let ghost mid = out@;
    let mut j: usize = 0;
    assert(iv.take(0) =~= Seq::<(Seq<char>, Seq<Seq<char>>)>::empty());
    while j < imports.len()
        invariant
            j <= imports@.len(),
            iv == imports_view(imports@),
            out@ == mid + host_entries(iv.take(j as int)),
        decreases imports@.len() - j,
    {
        let ghost o0 = out@;
        push_entries(&mut out, &imports[j].1);
        proof {
            let t = iv.take(j + 1);
            assert(t.drop_last() =~= iv.take(j as int));
            assert(t.last() == iv[j as int]);
            assert(out@ =~= mid + host_entries(t));
        }
        j = j + 1;
    }
    assert(iv.take(imports@.len() as int) =~= iv);
    push_str(&mut out, "}\n");
    assert(out@ =~= auto_host_text(iv));
    out
}

// ---------------------------------------------------------------------------
// Properties
// ---------------------------------------------------------------------------

/// Whether `s` is non-empty and neither starts nor ends with whitespace.
pub open spec fn is_name(s: Seq<char>) -> bool {
    s.len() > 0 && !is_ws(s[0]) && !is_ws(s.last())
}

proof fn lemma_ltrim(s: Seq<char>)
    ensures
        ltrim(s).len() > 0 ==> !is_ws(ltrim(s)[0]),
    decreases s.len(),
{
    if s.len() > 0 && is_ws(s[0]) {
        lemma_ltrim(s.drop_first());
    }
}

proof fn lemma_rtrim(s: Seq<char>)
    ensures
        rtrim(s).len() <= s.len(),
        rtrim(s) == s.take(rtrim(s).len() as int),
        rtrim(s).len() > 0 ==> !is_ws(rtrim(s).last()),
    decreases s.len(),
{
    if s.len() > 0 && is_ws(s.last()) {
        lemma_rtrim(s.drop_last());
        assert(s.drop_last().take(rtrim(s).len() as int) =~= s.take(rtrim(s).len() as int));
    } else {
        assert(s.take(s.len() as int) =~= s);
    }
}

proof fn lemma_trim(s: Seq<char>)
    ensures
        trim(s).len() > 0 ==> is_name(trim(s)),
{
    lemma_ltrim(s);
    lemma_rtrim(ltrim(s));
    if trim(s).len() > 0 {
        assert(trim(s)[0] == ltrim(s)[0]);
    }
}

proof fn lemma_names_from(s: Seq<char>, i: int)
    ensures
        forall|k: int| 0 <= k < names_from(s, i).len() ==> is_name(#[trigger] names_from(s, i)[k]),
    decreases s.len() + 1 - i,
{
    if 0 <= i <= s.len() {
        lemma_find_from(s, seq![','], i);
        match find_from(s, seq![','], i) {
            None => lemma_trim(s.subrange(i, s.len() as int)),
            Some(j) => {
                lemma_trim(s.subrange(i, j));
                lemma_names_from(s, j + 1);
                let h = nonempty(trim(s.subrange(i, j)));
                let r = names_from(s, j + 1);
                assert forall|k: int| 0 <= k < names_from(s, i).len() implies is_name(
                    #[trigger] names_from(s, i)[k],
                ) by {
                    if k < h.len() {
                        assert(names_from(s, i)[k] == h[k]);
                    } else {
                        assert(names_from(s, i)[k] == r[k - h.len()]);
                    }
                }
            },
        }
    }
}

/// Whether an import names at least one function and every name is
/// non-empty and trimmed.
pub open spec fn well_named(x: (Seq<char>, Seq<Seq<char>>)) -> bool {
    x.1.len() > 0 && forall|k: int| 0 <= k < x.1.len() ==> is_name(#[trigger] x.1[k])
}

proof fn lemma_import_line(line: Seq<char>)
    ensures
        parse_import_line(line) matches Some(x) ==> well_named(x),
{
    let l = trim(line);
    if let Some((bl, br, fi)) = import_marks(l) {
        lemma_names_from(l.subrange(bl + 1, br), 0);
    }
}

proof fn lemma_imports_from(src: Seq<char>, i: int)
    ensures
        forall|k: int| 0 <= k < imports_from(src, i).len() ==> well_named(#[trigger] imports_from(src, i)[k]),
    decreases src.len() + 1 - i,
{
    if 0 <= i <= src.len() {
        lemma_find_from(src, seq!['\n'], i);
        match find_from(src, seq!['\n'], i) {
            None => lemma_import_line(src.subrange(i, src.len() as int)),
            Some(j) => {
                lemma_import_line(src.subrange(i, j));
                lemma_imports_from(src, j + 1);
                let h = opt_import(parse_import_line(src.subrange(i, j)));
                let r = imports_from(src, j + 1);
                assert forall|k: int| 0 <= k < imports_from(src, i).len() implies well_named(
                    #[trigger] imports_from(src, i)[k],
                ) by {
                    if k < h.len() {
                        assert(imports_from(src, i)[k] == h[k]);
                    } else {
                        assert(imports_from(src, i)[k] == r[k - h.len()]);
                    }
                }
            },
        }
    }
}

/// Every npm import found names at least one function, and each name is
/// non-empty with no whitespace around it.
pub proof fn law_npm_imports_are_well_named(src: Seq<char>)
    ensures
        forall|k: int| 0 <= k < npm_imports(src).len() ==> well_named(#[trigger] npm_imports(src)[k]),
{
    lemma_imports_from(src, 0);
}

/// The only return types read from a declaration text are `string`, `f64`
/// (for `number`) and `void`.
pub proof fn law_inferred_return_types(dts: Seq<char>, name: Seq<char>)
    ensures
        infer_ret(dts, name) matches Some(t) ==> (t == "string"@ || t == "f64"@ || t == "void"@),
{
}

} // verus!
