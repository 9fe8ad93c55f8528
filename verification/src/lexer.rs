//! The lexer: source text to tokens.
//!
//! Longest match wins, keywords take precedence over identifiers, and
//! whitespace and `(* ... *)` block comments (whose body may not contain
//! `*`) are skipped. Offsets count characters, not bytes. A position where no token
//! pattern matches is a `LexError`; so is an integer literal that does not
//! fit the token's machine word.

use vstd::prelude::*;
use vstd::string::*;

use crate::error::ParseError;
use crate::token::{TokKind, Token};

verus! {

broadcast use vstd::seq::group_seq_axioms;

/// Whitespace skipped between tokens.
pub open spec fn ws_char(c: char) -> bool {
    c == ' ' || c == '\t' || c == '\n' || c == '\r' || c == '\u{B}' || c == '\u{C}'
}

pub open spec fn digit_char(c: char) -> bool {
    '0' <= c <= '9'
}

pub open spec fn lower_char(c: char) -> bool {
    'a' <= c <= 'z'
}

pub open spec fn upper_char(c: char) -> bool {
    'A' <= c <= 'Z'
}

/// A character that may continue an identifier or keyword.
pub open spec fn ident_char(c: char) -> bool {
    digit_char(c) || lower_char(c) || upper_char(c) || c == '_'
}

pub fn is_ws_char(c: char) -> (r: bool)
    ensures
        r == ws_char(c),
{
    c == ' ' || c == '\t' || c == '\n' || c == '\r' || c == '\u{B}' || c == '\u{C}'
}

pub fn is_digit_char(c: char) -> (r: bool)
    ensures
        r == digit_char(c),
{
    '0' <= c && c <= '9'
}

pub fn is_lower_char(c: char) -> (r: bool)
    ensures
        r == lower_char(c),
{
    'a' <= c && c <= 'z'
}

pub fn is_upper_char(c: char) -> (r: bool)
    ensures
        r == upper_char(c),
{
    'A' <= c && c <= 'Z'
}

pub fn is_ident_char(c: char) -> (r: bool)
    ensures
        r == ident_char(c),
{
    is_digit_char(c) || is_lower_char(c) || is_upper_char(c) || c == '_'
}

/// Numeric value of a digit character.
pub open spec fn digit_val(c: char) -> int {
    c as int - '0' as int
}

/// The digit character's value as a machine integer.
pub fn digit_of(c: char) -> (d: u64)
    requires
        digit_char(c),
    ensures
        d == digit_val(c),
        d <= 9,
{
    (c as u32 - '0' as u32) as u64
}

/// Base-ten value of a digit sequence, most significant first.
pub open spec fn digits_val(s: Seq<char>) -> int
    decreases s.len(),
{
    if s.len() == 0 {
        0
    } else {
        digits_val(s.drop_last()) * 10 + digit_val(s.last())
    }
}

pub proof fn lemma_digits_val_nonneg(s: Seq<char>)
    requires
        forall|k: int| 0 <= k < s.len() ==> digit_char(#[trigger] s[k]),
    ensures
        digits_val(s) >= 0,
    decreases s.len(),
{
    if s.len() > 0 {
        lemma_digits_val_nonneg(s.drop_last());
        assert(digit_char(s.last()));
    }
}

/// Extending a digit run never shrinks its value.
pub proof fn lemma_digits_val_extend(s: Seq<char>, i: int, j: int, k: int)
    requires
        0 <= i <= j <= k <= s.len(),
        forall|m: int| i <= m < k ==> digit_char(#[trigger] s[m]),
    ensures
        digits_val(s.subrange(i, j)) <= digits_val(s.subrange(i, k)),
    decreases k - j,
{
    if j < k {
        lemma_digits_val_extend(s, i, j, k - 1);
        let a = s.subrange(i, k - 1);
        let b = s.subrange(i, k);
        assert(b.drop_last() =~= a);
        assert(digit_char(b.last()));
        assert forall|m: int| 0 <= m < a.len() implies digit_char(#[trigger] a[m]) by {
            assert(a[m] == s[i + m]);
        }
        lemma_digits_val_nonneg(a);
    }
}

/// A digit run that is maximal ends exactly at `digit_run_end`.
pub proof fn lemma_digit_run_unique(s: Seq<char>, start: int, end: int)
    requires
        0 <= start < end <= s.len(),
        forall|k: int| start <= k < end ==> digit_char(#[trigger] s[k]),
        end == s.len() || !digit_char(s[end]),
    ensures
        end == digit_run_end(s, start),
    decreases end - start,
{
    assert(digit_char(s[start]));
    assert(digit_run_end(s, start) == digit_run_end(s, start + 1));
    if start + 1 == end {
        assert(digit_run_end(s, start + 1) == start + 1);
    } else {
        lemma_digit_run_unique(s, start + 1, end);
    }
}

/// End of the maximal digit run that starts at `i`.
pub open spec fn digit_run_end(s: Seq<char>, i: int) -> int
    decreases s.len() - i,
{
    if 0 <= i < s.len() && digit_char(s[i]) {
        digit_run_end(s, i + 1)
    } else {
        i
    }
}

/// Token kind of a scanned word: a reserved keyword where the word is one,
/// otherwise an identifier classified by the case of its first character.
pub open spec fn word_kind(w: Seq<char>) -> TokKind {
    if w == "binding"@ {
        TokKind::KwBinding
    } else if w == "equiv"@ {
        TokKind::KwEquiv
    } else if w == "fix"@ {
        TokKind::KwFix
    } else if w == "fun"@ {
        TokKind::KwFun
    } else if w == "include"@ {
        TokKind::KwInclude
    } else if w == "let"@ {
        TokKind::KwLet
    } else if w == "match"@ {
        TokKind::KwMatch
    } else if w == "mu"@ {
        TokKind::KwMu
    } else if w == "of"@ {
        TokKind::KwOf
    } else if w == "satisfying"@ {
        TokKind::KwSatisfying
    } else if w == "synth"@ {
        TokKind::KwSynth
    } else if w == "type"@ {
        TokKind::KwType
    } else if w == "unit"@ {
        TokKind::KwUnit
    } else if w == "val"@ {
        TokKind::KwVal
    } else if w == "with"@ {
        TokKind::KwWith
    } else if w.len() > 0 && upper_char(w[0]) {
        TokKind::Uid
    } else {
        TokKind::Lid
    }
}

/// Classifies a scanned word as a keyword or an identifier.
pub fn keyword_kind(w: &str) -> (k: TokKind)
    requires
        w@.len() > 0,
    ensures
        k == word_kind(w@),
{
    let ws = w.to_owned();
    if ws == String::from_str("binding") {
        TokKind::KwBinding
    } else if ws == String::from_str("equiv") {
        TokKind::KwEquiv
    } else if ws == String::from_str("fix") {
        TokKind::KwFix
    } else if ws == String::from_str("fun") {
        TokKind::KwFun
    } else if ws == String::from_str("include") {
        TokKind::KwInclude
    } else if ws == String::from_str("let") {
        TokKind::KwLet
    } else if ws == String::from_str("match") {
        TokKind::KwMatch
    } else if ws == String::from_str("mu") {
        TokKind::KwMu
    } else if ws == String::from_str("of") {
        TokKind::KwOf
    } else if ws == String::from_str("satisfying") {
        TokKind::KwSatisfying
    } else if ws == String::from_str("synth") {
        TokKind::KwSynth
    } else if ws == String::from_str("type") {
        TokKind::KwType
    } else if ws == String::from_str("unit") {
        TokKind::KwUnit
    } else if ws == String::from_str("val") {
        TokKind::KwVal
    } else if ws == String::from_str("with") {
        TokKind::KwWith
    } else if is_upper_char(w.get_char(0)) {
        TokKind::Uid
    } else {
        TokKind::Lid
    }
}

/// Scans the maximal identifier run that starts at `start`.
pub fn scan_word(s: &str, n: usize, start: usize) -> (end: usize)
    requires
        n == s@.len(),
        start < n,
        ident_char(s@[start as int]),
    ensures
        start < end <= n,
        forall|k: int| start <= k < end ==> ident_char(#[trigger] s@[k]),
        end < n ==> !ident_char(s@[end as int]),
{
    let mut end = start + 1;
    while end < n
        invariant
            n == s@.len(),
            start < end <= n,
            forall|k: int| start <= k < end ==> ident_char(#[trigger] s@[k]),
        decreases n - end,
    {
        if !is_ident_char(s.get_char(end)) {
            return end;
        }
        end = end + 1;
    }
    end
}

/// Scans the maximal digit run that starts at `start` and computes its
/// value; a run whose value does not fit in a `u64` is a lexical error at
/// the run's start.
pub fn scan_int(s: &str, n: usize, start: usize) -> (r: Result<(u64, usize), ParseError>)
    requires
        n == s@.len(),
        start < n,
        digit_char(s@[start as int]),
    ensures
        match r {
            Ok((val, end)) => {
                &&& start < end <= n
                &&& end == digit_run_end(s@, start as int)
                &&& forall|k: int| start <= k < end ==> digit_char(#[trigger] s@[k])
                &&& val == digits_val(s@.subrange(start as int, end as int))
            },
            Err(e) => {
                &&& e == (ParseError::LexError { offset: start })
                &&& digits_val(s@.subrange(start as int, digit_run_end(s@, start as int)))
                    > u64::MAX
            },
        },
{
    let mut end: usize = start;
    let mut val: u64 = 0;
    proof {
        assert(s@.subrange(start as int, start as int) =~= Seq::<char>::empty());
    }
    while end < n && is_digit_char(s.get_char(end))
        invariant
            n == s@.len(),
            start <= end <= n,
            forall|k: int| start <= k < end ==> digit_char(#[trigger] s@[k]),
            val == digits_val(s@.subrange(start as int, end as int)),
            digit_run_end(s@, start as int) == digit_run_end(s@, end as int),
        decreases n - end,
    {
        let d = digit_of(s.get_char(end));
        let ghost run = s@.subrange(start as int, digit_run_end(s@, start as int));
        if val > (u64::MAX - d) / 10 {
            proof {
                lemma_digit_run_props(s@, start as int);
                let j = end + 1;
                assert(s@.subrange(start as int, j as int).drop_last() =~= s@.subrange(
                    start as int,
                    end as int,
                ));
                assert(digits_val(s@.subrange(start as int, j as int)) == val * 10 + d);
                lemma_digits_val_extend(s@, start as int, j as int, digit_run_end(s@, start as int));
            }
            return Err(ParseError::lex(start));
        }
        val = val * 10 + d;
        end = end + 1;
        proof {
            assert(s@.subrange(start as int, end as int).drop_last() =~= s@.subrange(
                start as int,
                end - 1 as int,
            ));
        }
    }
    proof {
        lemma_digit_run_props(s@, start as int);
    }
    Ok((val, end))
}

/// The maximal digit run: its end stands at or after `i`, everything
/// before it is a digit, and it is not followed by a digit.
pub proof fn lemma_digit_run_props(s: Seq<char>, i: int)
    requires
        0 <= i <= s.len(),
    ensures
        i <= digit_run_end(s, i) <= s.len(),
        forall|k: int| i <= k < digit_run_end(s, i) ==> digit_char(#[trigger] s[k]),
        digit_run_end(s, i) < s.len() ==> !digit_char(s[digit_run_end(s, i)]),
    decreases s.len() - i,
{
    if i < s.len() && digit_char(s[i]) {
        lemma_digit_run_props(s, i + 1);
    }
}

/// Scans a double-quoted string literal; the body may hold any character
/// but `"`. An unterminated literal is a lexical error at its opening
/// quote.
pub fn scan_string(s: &str, n: usize, start: usize) -> (r: Result<usize, ParseError>)
    requires
        n == s@.len(),
        start < n,
        s@[start as int] == '"',
    ensures
        match r {
            Ok(end) => {
                &&& start + 1 < end <= n
                &&& s@[end - 1] == '"'
                &&& forall|k: int| start < k < end - 1 ==> s@[k] != '"'
            },
            Err(e) => {
                &&& e == (ParseError::LexError { offset: start })
                &&& forall|k: int| start < k < n ==> s@[k] != '"'
            },
        },
{
    let mut j = start + 1;
    while j < n
        invariant
            n == s@.len(),
            start < j <= n,
            forall|k: int| start < k < j ==> s@[k] != '"',
        decreases n - j,
    {
        if s.get_char(j) == '"' {
            return Ok(j + 1);
        }
        j = j + 1;
    }
    Err(ParseError::lex(start))
}

/// A block comment opens at `i` and its closing `*)` begins at `e`; the
/// body in between contains no `*` at all.
pub open spec fn is_comment_from(s: Seq<char>, i: int, e: int) -> bool {
    &&& 0 <= i
    &&& i + 1 < s.len()
    &&& s[i] == '('
    &&& s[i + 1] == '*'
    &&& i + 2 <= e
    &&& e + 1 < s.len()
    &&& s[e] == '*'
    &&& s[e + 1] == ')'
    &&& forall|k: int| i + 2 <= k < e ==> s[k] != '*'
}

/// A well-formed block comment starts at `i`.
pub open spec fn starts_comment(s: Seq<char>, i: int) -> bool {
    exists|e: int| is_comment_from(s, i, e)
}

/// Scans the block comment that opens at `start`; `None` when its body
/// reaches a `*` that does not close it, or the input ends first.
pub fn scan_comment(s: &str, n: usize, start: usize) -> (r: Option<usize>)
    requires
        n == s@.len(),
        start + 1 < n,
        s@[start as int] == '(',
        s@[start + 1] == '*',
    ensures
        match r {
            Some(end) => start + 4 <= end <= n && is_comment_from(s@, start as int, end - 2),
            None => !starts_comment(s@, start as int),
        },
{
    let mut j = start + 2;
    while j < n && s.get_char(j) != '*'
        invariant
            n == s@.len(),
            start + 2 <= j <= n,
            forall|k: int| start + 2 <= k < j ==> s@[k] != '*',
        decreases n - j,
    {
        j = j + 1;
    }
    if j < n && j + 1 < n && s.get_char(j + 1) == ')' {
        return Some(j + 2);
    }
    proof {
        assert(!starts_comment(s@, start as int)) by {
            if starts_comment(s@, start as int) {
                let e = choose|e: int| is_comment_from(s@, start as int, e);
                if e < j {
                    assert(s@[e] != '*');
                } else if e > j {
                    assert(j < n);
                    assert(s@[j as int] != '*');
                }
            }
        }
    }
    None
}

/// The region `[a, b)` holds only whitespace and whole block comments.
pub open spec fn trivia_run(s: Seq<char>, a: int, b: int) -> bool
    decreases b - a,
{
    if a >= b {
        a == b
    } else if ws_char(s[a]) {
        trivia_run(s, a + 1, b)
    } else {
        exists|e: int| is_comment_from(s, a, e) && e + 2 <= b && trivia_run(s, e + 2, b)
    }
}

/// Adjacent trivia regions join into one.
pub proof fn lemma_trivia_run_concat(s: Seq<char>, a: int, b: int, c: int)
    requires
        trivia_run(s, a, b),
        trivia_run(s, b, c),
    ensures
        trivia_run(s, a, c),
    decreases b - a,
{
    if a < b {
        if ws_char(s[a]) {
            lemma_trivia_run_concat(s, a + 1, b, c);
        } else {
            let e = choose|e: int| is_comment_from(s, a, e) && e + 2 <= b && trivia_run(
                s,
                e + 2,
                b,
            );
            lemma_trivia_run_concat(s, e + 2, b, c);
            assert(b <= c);
        }
    }
}

/// Skips whitespace and block comments; stops at the first position where
/// neither continues, and the region skipped is trivia.
pub fn skip_trivia(s: &str, n: usize, start: usize) -> (p: usize)
    requires
        n == s@.len(),
        start <= n,
    ensures
        start <= p <= n,
        p < n ==> !ws_char(s@[p as int]) && !starts_comment(s@, p as int),
        trivia_run(s@, start as int, p as int),
    decreases n - start,
{
    if start >= n {
        return start;
    }
    let c = s.get_char(start);
    if is_ws_char(c) {
        return skip_trivia(s, n, start + 1);
    }
    if c == '(' && start + 1 < n && s.get_char(start + 1) == '*' {
        let scanned = scan_comment(s, n, start);
        match scanned {
            Some(end) => {
                return skip_trivia(s, n, end);
            },
            None => {
                return start;
            },
        }
    }
    proof {
        assert(!starts_comment(s@, start as int)) by {
            if starts_comment(s@, start as int) {
                let e = choose|e: int| is_comment_from(s@, start as int, e);
            }
        }
    }
    start
}

/// Exact lexeme of each punctuation kind at `start..end`, with the
/// longest-match exclusions for `(` against `()` and `=` against `==`.
pub open spec fn punct_shape(s: Seq<char>, k: TokKind, start: int, end: int) -> bool {
    &&& 0 <= start
    &&& end <= s.len()
    &&& match k {
        TokKind::NotEq => end == start + 2 && s[start] == '!' && s[start + 1] == '=',
        TokKind::LParen => end == start + 1 && s[start] == '(' && (end < s.len() ==> s[end]
            != ')'),
        TokKind::UnitParen => end == start + 2 && s[start] == '(' && s[start + 1] == ')',
        TokKind::RParen => end == start + 1 && s[start] == ')',
        TokKind::Star => end == start + 1 && s[start] == '*',
        TokKind::Comma => end == start + 1 && s[start] == ',',
        TokKind::Arrow => end == start + 2 && s[start] == '-' && s[start + 1] == '>',
        TokKind::Dot => end == start + 1 && s[start] == '.',
        TokKind::Colon => end == start + 1 && s[start] == ':',
        TokKind::SemiSemi => end == start + 2 && s[start] == ';' && s[start + 1] == ';',
        TokKind::Equal => end == start + 1 && s[start] == '=' && (end < s.len() ==> s[end]
            != '='),
        TokKind::EqualEqual => end == start + 2 && s[start] == '=' && s[start + 1] == '=',
        TokKind::LBrack => end == start + 1 && s[start] == '[',
        TokKind::RBrack => end == start + 1 && s[start] == ']',
        TokKind::Underscore => end == start + 1 && s[start] == '_',
        TokKind::Pipe => end == start + 1 && s[start] == '|',
        _ => false,
    }
}

/// The token's kind, span and payload agree with the source text: each
/// kind names its exact lexeme, identifiers and numbers are maximal runs,
/// and longest match decides between `(`/`()` and `=`/`==`.
pub open spec fn token_matches(s: Seq<char>, t: Token) -> bool {
    &&& t.start < t.end <= s.len()
    &&& match t.kind {
        TokKind::NotEq | TokKind::LParen | TokKind::UnitParen | TokKind::RParen | TokKind::Star
            | TokKind::Comma | TokKind::Arrow | TokKind::Dot | TokKind::Colon | TokKind::SemiSemi
            | TokKind::Equal | TokKind::EqualEqual | TokKind::LBrack | TokKind::RBrack
            | TokKind::Underscore | TokKind::Pipe => punct_shape(
            s,
            t.kind,
            t.start as int,
            t.end as int,
        ),
        TokKind::StrLit => {
            &&& t.text@ == s.subrange(t.start as int, t.end as int)
            &&& t.end >= t.start + 2
            &&& s[t.start as int] == '"'
            &&& s[t.end - 1] == '"'
            &&& forall|k: int| t.start < k < t.end - 1 ==> s[k] != '"'
        },
        TokKind::IntLit => {
            &&& forall|k: int| t.start <= k < t.end ==> digit_char(#[trigger] s[k])
            &&& (t.end < s.len() ==> !digit_char(s[t.end as int]))
            &&& t.val == digits_val(s.subrange(t.start as int, t.end as int))
        },
        _ => {
            // A keyword or an identifier: a maximal word, classified by
            // the keyword table and the case of its first character.
            &&& t.text@ == s.subrange(t.start as int, t.end as int)
            &&& forall|k: int| t.start <= k < t.end ==> ident_char(#[trigger] s[k])
            &&& (t.end < s.len() ==> !ident_char(s[t.end as int]))
            &&& (lower_char(s[t.start as int]) || upper_char(s[t.start as int]))
            &&& word_kind(t.text@) == t.kind
        },
    }
}

/// When the character classes and the punctuation table all fail at `i`,
/// no token of any kind matches there.
proof fn lemma_no_token_at(s: Seq<char>, i: int)
    requires
        0 <= i < s.len(),
        !lower_char(s[i]),
        !upper_char(s[i]),
        forall|k: TokKind, j: int| !punct_shape(s, k, i, j),
        s[i] == '"' ==> forall|k: int| i < k < s.len() ==> s[k] != '"',
        digit_char(s[i]) ==> digits_val(s.subrange(i, digit_run_end(s, i))) > u64::MAX,
    ensures
        forall|t: Token| t.start == i ==> !token_matches(s, t),
{
    assert forall|t: Token| t.start == i implies !token_matches(s, t) by {
        if token_matches(s, t) {
            match t.kind {
                TokKind::StrLit => {
                    assert(s[i] == '"');
                    assert(s[t.end - 1] == '"');
                    assert(i < t.end - 1 < s.len());
                },
                TokKind::IntLit => {
                    assert(digit_char(s[i]));
                    lemma_digit_run_unique(s, i, t.end as int);
                    assert(t.val <= u64::MAX);
                },
                TokKind::NotEq | TokKind::LParen | TokKind::UnitParen | TokKind::RParen
                    | TokKind::Star | TokKind::Comma | TokKind::Arrow | TokKind::Dot
                    | TokKind::Colon | TokKind::SemiSemi | TokKind::Equal | TokKind::EqualEqual
                    | TokKind::LBrack | TokKind::RBrack | TokKind::Underscore | TokKind::Pipe => {
                    assert(punct_shape(s, t.kind, i, t.end as int));
                },
                _ => {
                    assert(lower_char(s[i]) || upper_char(s[i]));
                },
            }
        }
    }
}

/// Reads the token that starts at the first non-trivia position at or
/// after `pos`; `Ok(None)` means only trivia remained.
pub fn next_token(s: &str, n: usize, pos: usize) -> (r: Result<Option<(Token, usize)>, ParseError>)
    requires
        n == s@.len(),
        pos <= n,
    ensures
        match r {
            Ok(Some((tok, p))) => {
                &&& pos <= tok.start
                &&& tok.end == p
                &&& p <= n
                &&& token_matches(s@, tok)
                &&& trivia_run(s@, pos as int, tok.start as int)
                &&& !ws_char(s@[tok.start as int])
                &&& !starts_comment(s@, tok.start as int)
            },
            Ok(None) => trivia_run(s@, pos as int, n as int),
            Err(e) => {
                &&& e matches ParseError::LexError { offset }
                &&& pos <= offset < n
                &&& trivia_run(s@, pos as int, offset as int)
                &&& !ws_char(s@[offset as int])
                &&& !starts_comment(s@, offset as int)
                &&& forall|t: Token| t.start == offset ==> !token_matches(s@, t)
            },
        },
{
    let start = skip_trivia(s, n, pos);
    if start >= n {
        return Ok(None);
    }
    let c = s.get_char(start);
    if is_lower_char(c) || is_upper_char(c) {
        let end = scan_word(s, n, start);
        let text = s.substring_char(start, end).to_owned();
        let kind = keyword_kind(text.as_str());
        return Ok(Some((Token { kind, text, val: 0, start, end }, end)));
    }
    if is_digit_char(c) {
        let scanned = scan_int(s, n, start);
        match scanned {
            Ok((val, end)) => {
                proof {
                    lemma_digit_run_props(s@, start as int);
                }
                let text = String::new();
                return Ok(Some((Token { kind: TokKind::IntLit, text, val, start, end }, end)));
            },
            Err(e) => {
                proof {
                    lemma_digit_run_props(s@, start as int);
                    assert forall|k: TokKind, j: int| !punct_shape(
                        s@,
                        k,
                        start as int,
                        j,
                    ) by {}
                    lemma_no_token_at(s@, start as int);
                }
                return Err(e);
            },
        }
    }
    if c == '"' {
        let scanned = scan_string(s, n, start);
        match scanned {
            Ok(end) => {
                let text = s.substring_char(start, end).to_owned();
                return Ok(Some((Token { kind: TokKind::StrLit, text, val: 0, start, end }, end)));
            },
            Err(e) => {
                proof {
                    assert forall|k: TokKind, j: int| !punct_shape(
                        s@,
                        k,
                        start as int,
                        j,
                    ) by {}
                    lemma_no_token_at(s@, start as int);
                }
                return Err(e);
            },
        }
    }
    let scanned = scan_punct(s, n, start, c);
    match scanned {
        Ok((kind, end)) => {
            let text = String::new();
            Ok(Some((Token { kind, text, val: 0, start, end }, end)))
        },
        Err(e) => {
            proof {
                lemma_no_token_at(s@, start as int);
            }
            Err(e)
        },
    }
}

/// Scans one punctuation token at `start`, whose first character is `c`;
/// longest match decides `()` against `(` and `==` against `=`. A
/// character that begins no token is a lexical error.
pub fn scan_punct(s: &str, n: usize, start: usize, c: char) -> (r: Result<
    (TokKind, usize),
    ParseError,
>)
    requires
        n == s@.len(),
        start < n,
        s@[start as int] == c,
    ensures
        match r {
            Ok((kind, end)) => start < end <= n && punct_shape(s@, kind, start as int, end as int),
            Err(e) => e == (ParseError::LexError { offset: start }) && (forall|k: TokKind, j: int|
                !punct_shape(s@, k, start as int, j)),
        },
{
    let kind: TokKind;
    let mut end = start + 1;
    if c == '(' {
        if end < n && s.get_char(end) == ')' {
            kind = TokKind::UnitParen;
            end = end + 1;
        } else {
            kind = TokKind::LParen;
        }
    } else if c == ')' {
        kind = TokKind::RParen;
    } else if c == '*' {
        kind = TokKind::Star;
    } else if c == ',' {
        kind = TokKind::Comma;
    } else if c == '-' {
        if end < n && s.get_char(end) == '>' {
            kind = TokKind::Arrow;
            end = end + 1;
        } else {
            return Err(ParseError::lex(start));
        }
    } else if c == '.' {
        kind = TokKind::Dot;
    } else if c == ':' {
        kind = TokKind::Colon;
    } else if c == ';' {
        if end < n && s.get_char(end) == ';' {
            kind = TokKind::SemiSemi;
            end = end + 1;
        } else {
            return Err(ParseError::lex(start));
        }
    } else if c == '=' {
        if end < n && s.get_char(end) == '=' {
            kind = TokKind::EqualEqual;
            end = end + 1;
        } else {
            kind = TokKind::Equal;
        }
    } else if c == '!' {
        if end < n && s.get_char(end) == '=' {
            kind = TokKind::NotEq;
            end = end + 1;
        } else {
            return Err(ParseError::lex(start));
        }
    } else if c == '[' {
        kind = TokKind::LBrack;
    } else if c == ']' {
        kind = TokKind::RBrack;
    } else if c == '_' {
        kind = TokKind::Underscore;
    } else if c == '|' {
        kind = TokKind::Pipe;
    } else {
        return Err(ParseError::lex(start));
    }
    Ok((kind, end))
}

/// Lexing is genuinely stuck at the error's offset: the offset lies on a
/// real, non-trivia character, everything before it lexes completely, and
/// no token whatsoever matches the text there.
pub open spec fn lex_stuck_at(s: Seq<char>, e: ParseError) -> bool {
    &&& e matches ParseError::LexError { offset }
    &&& 0 <= e.spec_offset() < s.len()
    &&& !ws_char(s[e.spec_offset()])
    &&& !starts_comment(s, e.spec_offset())
    &&& (forall|t: Token| t.start == e.spec_offset() ==> !token_matches(s, t))
    &&& exists|pre: Seq<Token>| tokens_tile(s, pre, e.spec_offset())
}

/// `toks` is the complete token sequence of `s[..upto]`: every token's
/// lexeme agrees with the text, every token starts at a position where
/// neither whitespace nor a comment continues, and only trivia stands
/// before the first token, between consecutive tokens, and from the last
/// token's end to `upto`.
pub open spec fn tokens_tile(s: Seq<char>, toks: Seq<Token>, upto: int) -> bool {
    &&& forall|k: int| 0 <= k < toks.len() ==> token_matches(s, #[trigger] toks[k])
    &&& forall|k: int|
        0 <= k < toks.len() ==> !ws_char(s[(#[trigger] toks[k]).start as int]) && !starts_comment(
            s,
            toks[k].start as int,
        )
    &&& if toks.len() == 0 {
        trivia_run(s, 0, upto)
    } else {
        &&& trivia_run(s, 0, toks[0].start as int)
        &&& forall|k: int|
            0 < k < toks.len() ==> trivia_run(
                s,
                toks[k - 1].end as int,
                (#[trigger] toks[k]).start as int,
            )
        &&& trivia_run(s, toks.last().end as int, upto)
    }
}

/// All tokens of the source, in order. On success the tokens tile the
/// whole text, so an input with any non-trivia content cannot lex to an
/// empty or shortened list. On failure the error is lexical and genuinely
/// stuck: everything before its offset tiles, the offset holds a real
/// non-trivia character, and no token of any kind matches there.
#[verifier::rlimit(60)]
pub fn tokenize(s: &str) -> (r: Result<Vec<Token>, ParseError>)
    ensures
        match r {
            Ok(toks) => tokens_tile(s@, toks@, s@.len() as int),
            Err(e) => lex_stuck_at(s@, e),
        },
{
    let n = s.unicode_len();
    let mut toks: Vec<Token> = Vec::new();
    let mut pos: usize = 0;
    loop
        invariant
            n == s@.len(),
            pos <= n,
            tokens_tile(s@, toks@, pos as int),
            toks@.len() > 0 ==> toks@.last().end == pos,
        decreases n - pos,
    {
        let ghost prev = pos as int;
        let stepped = next_token(s, n, pos);
        match stepped {
            Ok(Some((tok, p))) => {
                let ghost pre = toks@;
                toks.push(tok);
                pos = p;
                proof {
                    assert(toks@ =~= pre.push(tok));
                    assert forall|k: int| 0 <= k < toks@.len() implies token_matches(
                        s@,
                        #[trigger] toks@[k],
                    ) by {
                        if k < pre.len() {
                            assert(toks@[k] == pre[k]);
                        } else {
                            assert(toks@[k] == tok);
                        }
                    }
                    assert forall|k: int| 0 <= k < toks@.len() implies !ws_char(
                        s@[(#[trigger] toks@[k]).start as int],
                    ) && !starts_comment(s@, toks@[k].start as int) by {
                        if k < pre.len() {
                            assert(toks@[k] == pre[k]);
                        } else {
                            assert(toks@[k] == tok);
                        }
                    }
                    if pre.len() == 0 {
                        lemma_trivia_run_concat(s@, 0, prev, tok.start as int);
                    } else {
                        assert(toks@[0] == pre[0]);
                        assert forall|k: int| 0 < k < toks@.len() implies trivia_run(
                            s@,
                            toks@[k - 1].end as int,
                            (#[trigger] toks@[k]).start as int,
                        ) by {
                            if k < pre.len() {
                                assert(toks@[k] == pre[k] && toks@[k - 1] == pre[k - 1]);
                            } else {
                                assert(toks@[k] == tok && toks@[k - 1] == pre.last());
                            }
                        }
                    }
                    assert(trivia_run(s@, tok.end as int, p as int));
                    assert(tokens_tile(s@, toks@, p as int));
                }
            },
            Ok(None) => {
                proof {
                    if toks@.len() == 0 {
                        lemma_trivia_run_concat(s@, 0, prev, n as int);
                        assert(tokens_tile(s@, toks@, n as int));
                    }
                }
                return Ok(toks);
            },
            Err(e) => {
                proof {
                    let off = e.spec_offset();
                    if toks@.len() == 0 {
                        lemma_trivia_run_concat(s@, 0, prev, off);
                    }
                    assert(tokens_tile(s@, toks@, off));
                }
                return Err(e);
            },
        }
    }
}

/// Builds the token matcher the parser drives; the matcher holds no state
/// of its own.
pub struct MatcherBuilder {}

/// A fresh matcher builder.
pub fn new_builder() -> (m: MatcherBuilder) {
    MatcherBuilder {  }
}

impl MatcherBuilder {
    /// Lexes a whole source text, with the same complete contract as
    /// `tokenize`.
    pub fn tokenize(&self, s: &str) -> (r: Result<Vec<Token>, ParseError>)
        ensures
            match r {
                Ok(toks) => tokens_tile(s@, toks@, s@.len() as int),
                Err(e) => lex_stuck_at(s@, e),
            },
    {
        tokenize(s)
    }
}

} // verus!
