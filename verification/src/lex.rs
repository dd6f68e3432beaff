//! Lexical analysis: converts raw source text into the ordered token
//! sequence, scanning left to right with a cursor. Whitespace separates
//! tokens and is skipped; digit runs and identifier runs are matched
//! greedily. A digit run adjacent to an identifier-start character, a
//! constant that does not fit a signed 32-bit value, and any unrecognized
//! character are lexing failures, reported with the unconsumed remainder of
//! the input.

use vstd::prelude::*;

use crate::types::Token;
use crate::types::TokenV;
use crate::types::token_views;

verus! {

/// The whitespace characters the lexer skips.
pub open spec fn is_space(c: char) -> bool {
    c == ' ' || c == '\t' || c == '\n' || c == '\r' || c == '\u{000b}' || c == '\u{000c}'
}

/// The characters a constant is made of.
pub open spec fn is_digit(c: char) -> bool {
    '0' <= c && c <= '9'
}

/// The characters an identifier may start with.
pub open spec fn is_ident_start(c: char) -> bool {
    ('A' <= c && c <= 'Z') || ('a' <= c && c <= 'z') || c == '_'
}

/// The characters an identifier may continue with.
pub open spec fn is_ident_char(c: char) -> bool {
    is_ident_start(c) || is_digit(c)
}

/// The value of one decimal digit character.
pub open spec fn digit_val(c: char) -> nat {
    (c as int - '0' as int) as nat
}

/// The length of the longest all-digit prefix of `s`.
pub open spec fn digit_run(s: Seq<char>) -> nat
    decreases s.len(),
{
    if s.len() == 0 || !is_digit(s[0]) {
        0
    } else {
        1 + digit_run(s.skip(1))
    }
}

/// The length of the longest identifier-character prefix of `s`.
pub open spec fn ident_run(s: Seq<char>) -> nat
    decreases s.len(),
{
    if s.len() == 0 || !is_ident_char(s[0]) {
        0
    } else {
        1 + ident_run(s.skip(1))
    }
}

/// The number an all-digit sequence denotes, most significant digit first.
pub open spec fn digits_val(s: Seq<char>) -> nat
    decreases s.len(),
{
    if s.len() == 0 {
        0
    } else {
        digits_val(s.drop_last()) * 10 + digit_val(s.last())
    }
}

/// The token an identifier run yields: one of the three fixed keywords on
/// an exact match, otherwise an identifier carrying the matched text.
pub open spec fn spec_keyword_or_id(name: Seq<char>) -> TokenV {
    if name == "int"@ {
        TokenV::KWInt
    } else if name == "return"@ {
        TokenV::KWReturn
    } else if name == "void"@ {
        TokenV::KWVoid
    } else {
        TokenV::Identifier(name)
    }
}

/// Why lexing failed.
#[derive(Debug, PartialEq, Eq, Structural, Clone, Copy)]
pub enum LexErrorKind {
    /// A digit run is immediately followed by an identifier-start character.
    MalformedConstant,
    /// A digit run denotes a value above the signed 32-bit maximum.
    ConstantTooLarge,
    /// A character starts neither punctuation, a constant nor an identifier.
    UnrecognizedCharacter,
}

/// A lexing failure: its kind, and the unconsumed remainder of the input,
/// starting at the offending run.
#[derive(Debug)]
pub struct LexError {
    pub kind: LexErrorKind,
    pub rest: String,
}

/// The mathematical model of a `LexError`.
pub struct LexErrV {
    pub kind: LexErrorKind,
    pub rest: Seq<char>,
}

impl View for LexError {
    type V = LexErrV;

    open spec fn view(&self) -> LexErrV {
        LexErrV { kind: self.kind, rest: self.rest@ }
    }
}

/// Prepends already-produced tokens to the outcome of lexing a remainder.
pub open spec fn lex_cons(prefix: Seq<TokenV>, r: Result<Seq<TokenV>, LexErrV>) -> Result<
    Seq<TokenV>,
    LexErrV,
> {
    match r {
        Ok(ts) => Ok(prefix + ts),
        Err(e) => Err(e),
    }
}

/// What lexing `s` yields: the token sequence in source order, or the first
/// failure. Empty input yields no tokens.
pub open spec fn spec_lex(s: Seq<char>) -> Result<Seq<TokenV>, LexErrV>
    decreases s.len(),
    via spec_lex_decreases
{
    if s.len() == 0 {
        Ok(Seq::<TokenV>::empty())
    } else if s[0] == '{' {
        lex_cons(seq![TokenV::OpenBrace], spec_lex(s.skip(1)))
    } else if s[0] == '}' {
        lex_cons(seq![TokenV::CloseBrace], spec_lex(s.skip(1)))
    } else if s[0] == '(' {
        lex_cons(seq![TokenV::OpenParen], spec_lex(s.skip(1)))
    } else if s[0] == ')' {
        lex_cons(seq![TokenV::CloseParen], spec_lex(s.skip(1)))
    } else if s[0] == ';' {
        lex_cons(seq![TokenV::Semicolon], spec_lex(s.skip(1)))
    } else if is_space(s[0]) {
        spec_lex(s.skip(1))
    } else if is_digit(s[0]) {
        let r = digit_run(s) as int;
        if r < s.len() && is_ident_start(s[r]) {
            Err(LexErrV { kind: LexErrorKind::MalformedConstant, rest: s })
        } else if digits_val(s.take(r)) > i32::MAX as nat {
            Err(LexErrV { kind: LexErrorKind::ConstantTooLarge, rest: s })
        } else {
            lex_cons(
                seq![TokenV::Constant(digits_val(s.take(r)) as i32)],
                spec_lex(s.skip(r)),
            )
        }
    } else if is_ident_start(s[0]) {
        let r = ident_run(s) as int;
        lex_cons(seq![spec_keyword_or_id(s.take(r))], spec_lex(s.skip(r)))
    } else {
        Err(LexErrV { kind: LexErrorKind::UnrecognizedCharacter, rest: s })
    }
}

#[via_fn]
proof fn spec_lex_decreases(s: Seq<char>) {
    lemma_digit_run_props(s);
    lemma_ident_run_props(s);
}

/// The shape of the longest all-digit prefix: it is a prefix, all its
/// characters are digits, it stops at the end or at a non-digit, and it is
/// nonempty when the sequence starts with a digit.
pub proof fn lemma_digit_run_props(s: Seq<char>)
    ensures
        digit_run(s) <= s.len(),
        forall|i: int| 0 <= i < digit_run(s) ==> is_digit(s[i]),
        digit_run(s) == s.len() || !is_digit(s[digit_run(s) as int]),
        s.len() > 0 && is_digit(s[0]) ==> digit_run(s) >= 1,
    decreases s.len(),
{
    if s.len() == 0 || !is_digit(s[0]) {
    } else {
        lemma_digit_run_props(s.skip(1));
        assert forall|i: int| 0 <= i < digit_run(s) implies is_digit(s[i]) by {
            if i > 0 {
                assert(is_digit(s.skip(1)[i - 1]));
            }
        }
    }
}

/// The length of the longest all-digit prefix is pinned by its shape.
pub proof fn lemma_digit_run_eq(s: Seq<char>, r: int)
    requires
        0 <= r <= s.len(),
        forall|i: int| 0 <= i < r ==> is_digit(s[i]),
        r == s.len() || !is_digit(s[r]),
    ensures
        digit_run(s) == r,
    decreases s.len(),
{
    if r == 0 {
    } else {
        assert(is_digit(s[0]));
        assert forall|i: int| 0 <= i < r - 1 implies is_digit(s.skip(1)[i]) by {
            assert(is_digit(s[i + 1]));
        }
        if r < s.len() {
            assert(s.skip(1)[r - 1] == s[r]);
        }
        lemma_digit_run_eq(s.skip(1), r - 1);
    }
}

/// The shape of the longest identifier-character prefix, as for digit runs.
pub proof fn lemma_ident_run_props(s: Seq<char>)
    ensures
        ident_run(s) <= s.len(),
        forall|i: int| 0 <= i < ident_run(s) ==> is_ident_char(s[i]),
        ident_run(s) == s.len() || !is_ident_char(s[ident_run(s) as int]),
        s.len() > 0 && is_ident_char(s[0]) ==> ident_run(s) >= 1,
    decreases s.len(),
{
    if s.len() == 0 || !is_ident_char(s[0]) {
    } else {
        lemma_ident_run_props(s.skip(1));
        assert forall|i: int| 0 <= i < ident_run(s) implies is_ident_char(s[i]) by {
            if i > 0 {
                assert(is_ident_char(s.skip(1)[i - 1]));
            }
        }
    }
}

/// The length of the longest identifier-character prefix is pinned by its
/// shape.
pub proof fn lemma_ident_run_eq(s: Seq<char>, r: int)
    requires
        0 <= r <= s.len(),
        forall|i: int| 0 <= i < r ==> is_ident_char(s[i]),
        r == s.len() || !is_ident_char(s[r]),
    ensures
        ident_run(s) == r,
    decreases s.len(),
{
    if r == 0 {
    } else {
        assert(is_ident_char(s[0]));
        assert forall|i: int| 0 <= i < r - 1 implies is_ident_char(s.skip(1)[i]) by {
            assert(is_ident_char(s[i + 1]));
        }
        if r < s.len() {
            assert(s.skip(1)[r - 1] == s[r]);
        }
        lemma_ident_run_eq(s.skip(1), r - 1);
    }
}

/// Extending an all-digit sequence never shrinks its value.
proof fn lemma_digits_val_mono(s: Seq<char>, j: int, k: int)
    requires
        0 <= j <= k <= s.len(),
    ensures
        digits_val(s.take(j)) <= digits_val(s.take(k)),
    decreases k - j,
{
    if j < k {
        lemma_digits_val_mono(s, j, k - 1);
        assert(s.take(k).drop_last() =~= s.take(k - 1));
        assert(digits_val(s.take(k - 1)) * 10 >= digits_val(s.take(k - 1)));
    }
}

proof fn lemma_lex_cons_concat(p1: Seq<TokenV>, p2: Seq<TokenV>, r: Result<Seq<TokenV>, LexErrV>)
    ensures
        lex_cons(p1, lex_cons(p2, r)) == lex_cons(p1 + p2, r),
{
    match r {
        Ok(ts) => {
            assert(p1 + (p2 + ts) =~= (p1 + p2) + ts);
        },
        Err(_) => {},
    }
}

/// The longest all-digit prefix does not change when text is appended
/// behind the place where the run already stopped.
proof fn lemma_digit_run_concat(a: Seq<char>, b: Seq<char>)
    requires
        digit_run(a) < a.len() || (b.len() > 0 && !is_digit(b[0])),
    ensures
        digit_run(a + b) == digit_run(a),
{
    lemma_digit_run_props(a);
    let r = digit_run(a) as int;
    assert forall|i: int| 0 <= i < r implies is_digit((a + b)[i]) by {
        assert((a + b)[i] == a[i]);
    }
    if r < a.len() {
        assert((a + b)[r] == a[r]);
    } else {
        assert((a + b)[r] == b[0]);
    }
    lemma_digit_run_eq(a + b, r);
}

/// The longest identifier-character prefix does not change when text is
/// appended behind the place where the run already stopped.
proof fn lemma_ident_run_concat(a: Seq<char>, b: Seq<char>)
    requires
        ident_run(a) < a.len() || (b.len() > 0 && !is_ident_char(b[0])),
    ensures
        ident_run(a + b) == ident_run(a),
{
    lemma_ident_run_props(a);
    let r = ident_run(a) as int;
    assert forall|i: int| 0 <= i < r implies is_ident_char((a + b)[i]) by {
        assert((a + b)[i] == a[i]);
    }
    if r < a.len() {
        assert((a + b)[r] == a[r]);
    } else {
        assert((a + b)[r] == b[0]);
    }
    lemma_ident_run_eq(a + b, r);
}

/// Lexing skips leading whitespace: any all-whitespace prefix leaves the
/// outcome unchanged.
pub proof fn lemma_lex_leading_whitespace(ws: Seq<char>, s: Seq<char>)
    requires
        forall|i: int| 0 <= i < ws.len() ==> is_space(ws[i]),
    ensures
        spec_lex(ws + s) == spec_lex(s),
    decreases ws.len(),
{
    if ws.len() == 0 {
        assert(ws + s =~= s);
    } else {
        assert((ws + s)[0] == ws[0]);
        assert(is_space(ws[0]));
        assert((ws + s).skip(1) =~= ws.skip(1) + s);
        assert forall|i: int| 0 <= i < ws.skip(1).len() implies is_space(ws.skip(1)[i]) by {
            assert(ws.skip(1)[i] == ws[i + 1]);
        }
        lemma_lex_leading_whitespace(ws.skip(1), s);
    }
}

/// Lexing is compositional at a whitespace boundary: when a text lexes
/// cleanly and what follows begins with whitespace (or is empty), the
/// concatenation lexes to the first text's tokens followed by whatever the
/// remainder lexes to.
pub proof fn lemma_lex_append_at_ws(a: Seq<char>, b: Seq<char>)
    requires
        spec_lex(a) is Ok,
        b.len() == 0 || is_space(b[0]),
    ensures
        spec_lex(a + b) == lex_cons(spec_lex(a)->Ok_0, spec_lex(b)),
    decreases a.len(),
{
    let ta = spec_lex(a)->Ok_0;
    if b.len() == 0 {
        assert(a + b =~= a);
        assert(spec_lex(b) == Ok::<Seq<TokenV>, LexErrV>(Seq::<TokenV>::empty()));
        assert(ta + Seq::<TokenV>::empty() =~= ta);
    } else if a.len() == 0 {
        assert(a + b =~= b);
        assert(ta == Seq::<TokenV>::empty());
        match spec_lex(b) {
            Ok(tb) => {
                assert(ta + tb =~= tb);
            },
            Err(_) => {},
        }
    } else {
        assert((a + b)[0] == a[0]);
        if a[0] == '{' || a[0] == '}' || a[0] == '(' || a[0] == ')' || a[0] == ';' || is_space(
            a[0],
        ) {
            assert((a + b).skip(1) =~= a.skip(1) + b);
            lemma_lex_append_at_ws(a.skip(1), b);
            if !is_space(a[0]) {
                let t = spec_lex(a)->Ok_0.first();
                assert(spec_lex(a) == lex_cons(seq![t], spec_lex(a.skip(1))));
                lemma_lex_cons_concat(seq![t], spec_lex(a.skip(1))->Ok_0, spec_lex(b));
                assert(seq![t] + spec_lex(a.skip(1))->Ok_0 =~= ta);
            }
        } else if is_digit(a[0]) {
            let r = digit_run(a) as int;
            lemma_digit_run_props(a);
            assert(!(r < a.len() && is_ident_start(a[r])));
            lemma_digit_run_concat(a, b);
            if r < (a + b).len() {
                if r < a.len() {
                    assert((a + b)[r] == a[r]);
                } else {
                    assert((a + b)[r] == b[0]);
                }
                assert(!is_ident_start((a + b)[r]));
            }
            assert((a + b).take(r) =~= a.take(r));
            assert((a + b).skip(r) =~= a.skip(r) + b);
            lemma_lex_append_at_ws(a.skip(r), b);
            let t = TokenV::Constant(digits_val(a.take(r)) as i32);
            assert(spec_lex(a) == lex_cons(seq![t], spec_lex(a.skip(r))));
            lemma_lex_cons_concat(seq![t], spec_lex(a.skip(r))->Ok_0, spec_lex(b));
            assert(seq![t] + spec_lex(a.skip(r))->Ok_0 =~= ta);
        } else if is_ident_start(a[0]) {
            let r = ident_run(a) as int;
            lemma_ident_run_props(a);
            lemma_ident_run_concat(a, b);
            assert((a + b).take(r) =~= a.take(r));
            assert((a + b).skip(r) =~= a.skip(r) + b);
            lemma_lex_append_at_ws(a.skip(r), b);
            let t = spec_keyword_or_id(a.take(r));
            assert(spec_lex(a) == lex_cons(seq![t], spec_lex(a.skip(r))));
            lemma_lex_cons_concat(seq![t], spec_lex(a.skip(r))->Ok_0, spec_lex(b));
            assert(seq![t] + spec_lex(a.skip(r))->Ok_0 =~= ta);
        } else {
            assert(spec_lex(a) is Err);
        }
    }
}

/// Whitespace between tokens is immaterial: inserting any nonempty run of
/// whitespace behind a cleanly lexed text produces exactly that text's
/// tokens followed by whatever the rest lexes to. Together with
/// `lemma_lex_leading_whitespace` this pins down that any amount of
/// whitespace inserted between tokens yields an identical token sequence.
pub proof fn lemma_lex_whitespace_between(a: Seq<char>, ws: Seq<char>, b: Seq<char>)
    requires
        spec_lex(a) is Ok,
        ws.len() > 0,
        forall|i: int| 0 <= i < ws.len() ==> is_space(ws[i]),
    ensures
        spec_lex(a + ws + b) == lex_cons(spec_lex(a)->Ok_0, spec_lex(b)),
{
    assert(a + ws + b =~= a + (ws + b));
    assert((ws + b)[0] == ws[0]);
    lemma_lex_append_at_ws(a, ws + b);
    lemma_lex_leading_whitespace(ws, b);
}

proof fn lemma_lex_cons_assoc(p: Seq<TokenV>, t: TokenV, r: Result<Seq<TokenV>, LexErrV>)
    ensures
        lex_cons(p, lex_cons(seq![t], r)) == lex_cons(p.push(t), r),
{
    match r {
        Ok(ts) => {
            assert(p + (seq![t] + ts) =~= p.push(t) + ts);
        },
        Err(_) => {},
    }
}

proof fn lemma_token_views_push(ts: Seq<Token>, t: Token)
    ensures
        token_views(ts.push(t)) == token_views(ts).push(t@),
{
    assert(token_views(ts.push(t)) =~= token_views(ts).push(t@));
}

fn is_space_char(c: char) -> (r: bool)
    ensures
        r == is_space(c),
{
    c == ' ' || c == '\t' || c == '\n' || c == '\r' || c == '\u{000b}' || c == '\u{000c}'
}

fn is_digit_char(c: char) -> (r: bool)
    ensures
        r == is_digit(c),
{
    '0' <= c && c <= '9'
}

fn is_ident_start_char(c: char) -> (r: bool)
    ensures
        r == is_ident_start(c),
{
    ('A' <= c && c <= 'Z') || ('a' <= c && c <= 'z') || c == '_'
}

fn is_ident_char_exec(c: char) -> (r: bool)
    ensures
        r == is_ident_char(c),
{
    is_ident_start_char(c) || is_digit_char(c)
}

/// Whether two string slices hold the same characters.
fn str_eq(a: &str, b: &str) -> (r: bool)
    ensures
        r == (a@ == b@),
{
    let an = a.unicode_len();
    let bn = b.unicode_len();
    if an != bn {
        return false;
    }
    let mut i: usize = 0;
    while i < an
        invariant
            an == a@.len(),
            bn == b@.len(),
            an == bn,
            i <= an,
            forall|k: int| 0 <= k < i ==> a@[k] == b@[k],
        decreases an - i,
    {
        let ca = a.get_char(i);
        let cb = b.get_char(i);
        if ca != cb {
            return false;
        }
        i = i + 1;
    }
    proof {
        assert(a@ =~= b@);
    }
    true
}

/// Turns a matched identifier run into its token: an exact keyword match
/// yields the keyword, anything else an identifier carrying the text.
fn id_to_tok(value: &str) -> (r: Token)
    ensures
        r@ == spec_keyword_or_id(value@),
{
    if str_eq(value, "int") {
        Token::KWInt
    } else if str_eq(value, "return") {
        Token::KWReturn
    } else if str_eq(value, "void") {
        Token::KWVoid
    } else {
        Token::Identifier(String::from_str(value))
    }
}

/// Lexes the whole source text, or reports the first failure.
pub fn lex(input: &str) -> (r: Result<Vec<Token>, LexError>)
    ensures
        match r {
            Ok(toks) => spec_lex(input@) == Ok::<Seq<TokenV>, LexErrV>(token_views(toks@)),
            Err(e) => spec_lex(input@) == Err::<Seq<TokenV>, LexErrV>(e@),
        },
{
    let n = input.unicode_len();
    let mut pos: usize = 0;
    let mut tokens: Vec<Token> = Vec::new();
    proof {
        assert(input@.skip(0) =~= input@);
        assert(token_views(tokens@) =~= Seq::<TokenV>::empty());
        match spec_lex(input@) {
            Ok(ts) => {
                assert(Seq::<TokenV>::empty() + ts =~= ts);
            },
            Err(_) => {},
        }
    }
    while pos < n
        invariant
            n == input@.len(),
            pos <= n,
            spec_lex(input@) == lex_cons(token_views(tokens@), spec_lex(input@.skip(pos as int))),
        decreases n - pos,
    {
        let ghost rest = input@.skip(pos as int);
        let c = input.get_char(pos);
        proof {
            assert(rest[0] == input@[pos as int]);
        }
        if c == '{' || c == '}' || c == '(' || c == ')' || c == ';' {
            let tok = if c == '{' {
                Token::OpenBrace
            } else if c == '}' {
                Token::CloseBrace
            } else if c == '(' {
                Token::OpenParen
            } else if c == ')' {
                Token::CloseParen
            } else {
                Token::Semicolon
            };
            proof {
                assert(rest.skip(1) =~= input@.skip(pos as int + 1));
                assert(spec_lex(rest) == lex_cons(seq![tok@], spec_lex(rest.skip(1))));
                lemma_lex_cons_assoc(token_views(tokens@), tok@, spec_lex(rest.skip(1)));
                lemma_token_views_push(tokens@, tok);
            }
            tokens.push(tok);
            pos = pos + 1;
        } else if is_space_char(c) {
            proof {
                assert(rest.skip(1) =~= input@.skip(pos as int + 1));
            }
            pos = pos + 1;
        } else if is_digit_char(c) {
            // Find the end of the greedy digit run.
            let mut end = pos;
            while end < n && is_digit_char(input.get_char(end))
                invariant
                    n == input@.len(),
                    pos <= end <= n,
                    forall|i: int| pos <= i < end ==> is_digit(input@[i]),
                decreases n - end,
            {
                end = end + 1;
            }
            proof {
                assert(is_digit(input@[pos as int]));
                assert(end > pos);
                assert forall|i: int| 0 <= i < end - pos implies is_digit(rest[i]) by {
                    assert(rest[i] == input@[pos + i]);
                }
                if (end as int) < n {
                    assert(rest[end - pos] == input@[end as int]);
                }
                lemma_digit_run_eq(rest, end - pos);
            }
            // A digit run may not border an identifier-start character.
            if end < n && is_ident_start_char(input.get_char(end)) {
                let rest_str = input.substring_char(pos, n);
                let err = LexError {
                    kind: LexErrorKind::MalformedConstant,
                    rest: String::from_str(rest_str),
                };
                proof {
                    assert(rest_str@ =~= rest);
                    assert(spec_lex(rest) == Err::<Seq<TokenV>, LexErrV>(err@));
                }
                return Err(err);
            }
            // Accumulate the constant's value, bailing out as soon as it
            // can no longer fit a signed 32-bit value.
            let mut acc: u64 = 0;
            let mut j = pos;
            proof {
                assert(input@.skip(pos as int).take(0) =~= Seq::<char>::empty());
            }
            while j < end
                invariant
                    n == input@.len(),
                    pos <= j <= end <= n,
                    pos < end,
                    forall|i: int| pos <= i < end ==> is_digit(input@[i]),
                    digit_run(input@.skip(pos as int)) == end - pos,
                    acc == digits_val(input@.skip(pos as int).take(j - pos)),
                    acc <= i32::MAX as u64,
                    (end as int) == n || !is_ident_start(input@[end as int]),
                    (end as int) == n || !is_digit(input@[end as int]),
                    spec_lex(input@) == lex_cons(
                        token_views(tokens@),
                        spec_lex(input@.skip(pos as int)),
                    ),
                decreases end - j,
            {
                let cj = input.get_char(j);
                proof {
                    assert(input@.skip(pos as int)[j - pos] == input@[j as int]);
                    assert(is_digit(cj));
                }
                let d: u32 = (cj as u32) - 48;
                let new_acc: u64 = acc * 10 + (d as u64);
                proof {
                    let taken = input@.skip(pos as int).take(j - pos + 1);
                    assert(taken.drop_last() =~= input@.skip(pos as int).take(j - pos));
                    assert(taken.last() == input@[j as int]);
                    assert(digit_val(input@[j as int]) == d as nat);
                    assert(new_acc == digits_val(taken));
                }
                if new_acc > 2147483647 {
                    let rest_str = input.substring_char(pos, n);
                    let err = LexError {
                        kind: LexErrorKind::ConstantTooLarge,
                        rest: String::from_str(rest_str),
                    };
                    proof {
                        let restp = input@.skip(pos as int);
                        lemma_digits_val_mono(restp, j - pos + 1, end - pos);
                        assert(digits_val(restp.take(end - pos)) > i32::MAX as nat);
                        assert(restp[0] == input@[pos as int]);
                        assert(is_digit(restp[0]));
                        assert(rest_str@ =~= restp);
                        assert(spec_lex(restp) == Err::<Seq<TokenV>, LexErrV>(err@));
                    }
                    return Err(err);
                }
                acc = new_acc;
                j = j + 1;
            }
            let tok = Token::Constant(acc as i32);
            proof {
                assert(rest.take(end - pos) == input@.skip(pos as int).take(end - pos));
                assert(digits_val(rest.take(end - pos)) <= i32::MAX as nat);
                assert(tok@ == TokenV::Constant(digits_val(rest.take(end - pos)) as i32));
                assert(rest.skip(end - pos) =~= input@.skip(end as int));
                assert(spec_lex(rest) == lex_cons(seq![tok@], spec_lex(rest.skip(end - pos))));
                lemma_lex_cons_assoc(token_views(tokens@), tok@, spec_lex(input@.skip(end as int)));
                lemma_token_views_push(tokens@, tok);
            }
            tokens.push(tok);
            pos = end;
        } else if is_ident_start_char(c) {
            // Find the end of the greedy identifier run.
            let mut end = pos;
            while end < n && is_ident_char_exec(input.get_char(end))
                invariant
                    n == input@.len(),
                    pos <= end <= n,
                    forall|i: int| pos <= i < end ==> is_ident_char(input@[i]),
                decreases n - end,
            {
                end = end + 1;
            }
            proof {
                assert(is_ident_char(input@[pos as int]));
                assert(end > pos);
                assert forall|i: int| 0 <= i < end - pos implies is_ident_char(rest[i]) by {
                    assert(rest[i] == input@[pos + i]);
                }
                if (end as int) < n {
                    assert(rest[end - pos] == input@[end as int]);
                }
                lemma_ident_run_eq(rest, end - pos);
            }
            let name = input.substring_char(pos, end);
            let tok = id_to_tok(name);
            proof {
                assert(name@ =~= rest.take(end - pos));
                assert(tok@ == spec_keyword_or_id(rest.take(end - pos)));
                assert(rest.skip(end - pos) =~= input@.skip(end as int));
                assert(spec_lex(rest) == lex_cons(seq![tok@], spec_lex(rest.skip(end - pos))));
                lemma_lex_cons_assoc(token_views(tokens@), tok@, spec_lex(input@.skip(end as int)));
                lemma_token_views_push(tokens@, tok);
            }
            tokens.push(tok);
            pos = end;
        } else {
            let rest_str = input.substring_char(pos, n);
            let err = LexError {
                kind: LexErrorKind::UnrecognizedCharacter,
                rest: String::from_str(rest_str),
            };
            proof {
                assert(rest_str@ =~= rest);
                assert(spec_lex(rest) == Err::<Seq<TokenV>, LexErrV>(err@));
            }
            return Err(err);
        }
    }
    proof {
        assert(input@.skip(n as int) =~= Seq::<char>::empty());
        assert(spec_lex(input@) == Ok::<Seq<TokenV>, LexErrV>(token_views(tokens@) + Seq::<
            TokenV,
        >::empty()));
        assert(token_views(tokens@) + Seq::<TokenV>::empty() =~= token_views(tokens@));
    }
    Ok(tokens)
}

} // verus!
