use vstd::prelude::*;

use crate::lexer::{
    block_comment_end, escape_of, is_ascii_letter, is_whitespace, is_word_char, lex, lex_from, line_end, next_step, prepend, scanned, string_end, views, word_end, word_token,
    LexErrorKind, LexerError, Step,
};
use crate::token::TokenView;

verus! {

proof fn lemma_whitespace_from(s: Seq<char>, i: nat)
    requires
        i <= s.len(),
        forall|k: int| 0 <= k < s.len() ==> is_whitespace(#[trigger] s[k]),
    ensures
        lex_from(s, i) == Ok::<Seq<TokenView>, (LexErrorKind, nat)>(seq![TokenView::EOF]),
    decreases s.len() - i,
{
    if i < s.len() {
        lemma_whitespace_from(s, i + 1);
        assert(is_whitespace(s[i as int]));
    }
}

/// Input made only of whitespace scans to `EOF` alone.
pub proof fn lemma_whitespace_only(s: Seq<char>)
    requires
        forall|k: int| 0 <= k < s.len() ==> is_whitespace(#[trigger] s[k]),
    ensures
        lex(s) == Ok::<Seq<TokenView>, (LexErrorKind, nat)>(seq![TokenView::EOF]),
{
    lemma_whitespace_from(s, 0);
}

proof fn lemma_line_end_at_end(s: Seq<char>, i: nat)
    requires
        i <= s.len(),
        forall|k: int| i <= k < s.len() ==> #[trigger] s[k] != '\n',
    ensures
        line_end(s, i) == s.len(),
    decreases s.len() - i,
{
    if i < s.len() {
        lemma_line_end_at_end(s, i + 1);
    }
}

/// Input made only of a `//` comment without a newline scans to `EOF` alone.
pub proof fn lemma_line_comment_only(body: Seq<char>)
    requires
        forall|k: int| 0 <= k < body.len() ==> #[trigger] body[k] != '\n',
    ensures
        lex(seq!['/', '/'] + body) == Ok::<Seq<TokenView>, (LexErrorKind, nat)>(
            seq![TokenView::EOF],
        ),
{
    let s = seq!['/', '/'] + body;
    assert(forall|k: int| 2 <= k < s.len() ==> s[k] == body[k - 2]);
    lemma_line_end_at_end(s, 2);
    assert(next_step(s, 0) == Step::Skip(s.len()));
    assert(next_step(s, s.len()) == Step::End);
    assert(lex_from(s, s.len()) == Ok::<Seq<TokenView>, (LexErrorKind, nat)>(seq![TokenView::EOF]));
    assert(lex_from(s, 0) == lex_from(s, s.len()));
}

proof fn lemma_block_end_at_end(s: Seq<char>, i: nat)
    requires
        2 <= i <= s.len() - 2,
        s[s.len() - 2] == '*',
        s[s.len() - 1] == '/',
        forall|k: int| i <= k < s.len() - 3 ==> !(#[trigger] s[k] == '*' && s[k + 1] == '/'),
    ensures
        block_comment_end(s, i) == Some(s.len()),
    decreases s.len() - i,
{
    if i < s.len() - 2 {
        lemma_block_end_at_end(s, i + 1);
    }
}

/// Input made only of a `/* ... */` comment whose body holds no `*/` scans to
/// `EOF` alone.
pub proof fn lemma_block_comment_only(body: Seq<char>)
    requires
        forall|k: int| 0 <= k < body.len() - 1 ==> !(#[trigger] body[k] == '*' && body[k + 1] == '/'),
    ensures
        lex(seq!['/', '*'] + body + seq!['*', '/']) == Ok::<
            Seq<TokenView>,
            (LexErrorKind, nat),
        >(seq![TokenView::EOF]),
{
    let s = seq!['/', '*'] + body + seq!['*', '/'];
    let n = s.len();
    assert(forall|k: int| 2 <= k < n - 2 ==> s[k] == body[k - 2]);
    assert(s[n - 2] == '*' && s[n - 1] == '/');
    assert forall|k: int| 2 <= k < n - 3 implies !(#[trigger] s[k] == '*' && s[k + 1] == '/') by {
        assert(s[k] == body[k - 2] && s[k + 1] == body[k - 1]);
    }
    lemma_block_end_at_end(s, 2);
    assert(next_step(s, 0) == Step::Skip(n));
    assert(next_step(s, n) == Step::End);
    assert(lex_from(s, n) == Ok::<Seq<TokenView>, (LexErrorKind, nat)>(seq![TokenView::EOF]));
    assert(lex_from(s, 0) == lex_from(s, n));
}

/// Any two results that meet the scanner's contract on the same characters
/// agree: re-scanning identical input gives identical tokens, or the same
/// error at the same position.
pub proof fn lemma_scan_repeatable(
    s: Seq<char>,
    r1: Result<Vec<crate::token::Token>, LexerError>,
    r2: Result<Vec<crate::token::Token>, LexerError>,
)
    requires
        scanned(s, 0, r1),
        scanned(s, 0, r2),
    ensures
        r1 is Ok <==> r2 is Ok,
        r1 is Ok ==> views(r1->Ok_0@) == views(r2->Ok_0@),
        r1 is Err ==> r1->Err_0.kind == r2->Err_0.kind && r1->Err_0.line == r2->Err_0.line
            && r1->Err_0.column == r2->Err_0.column,
{
}

/// How a character is written inside a string literal so that it reads
/// back as itself: the five escapable characters get their escape.
pub open spec fn escape_char(c: char) -> Seq<char> {
    if c == '\n' {
        seq!['\\', 'n']
    } else if c == '\r' {
        seq!['\\', 'r']
    } else if c == '\t' {
        seq!['\\', 't']
    } else if c == '\\' {
        seq!['\\', '\\']
    } else if c == '"' {
        seq!['\\', '"']
    } else {
        seq![c]
    }
}

/// The body of a string literal that denotes `v`.
pub open spec fn escaped(v: Seq<char>) -> Seq<char>
    decreases v.len(),
{
    if v.len() == 0 {
        Seq::empty()
    } else {
        escape_char(v[0]) + escaped(v.drop_first())
    }
}

proof fn lemma_string_body(s: Seq<char>, i: nat, acc: Seq<char>, v: Seq<char>)
    requires
        i + escaped(v).len() < s.len(),
        s.subrange(i as int, (i + escaped(v).len()) as int) == escaped(v),
        s[(i + escaped(v).len()) as int] == '"',
    ensures
        string_end(s, i, acc) == Ok::<(Seq<char>, nat), (LexErrorKind, nat)>(
            (acc + v, i + escaped(v).len() + 1),
        ),
    decreases v.len(),
{
    let ev = escaped(v);
    if v.len() == 0 {
        assert(acc + v =~= acc);
    } else {
        let c = v[0];
        let e = escape_char(c);
        let rest = v.drop_first();
        let er = escaped(rest);
        assert(ev == e + er);
        assert forall|k: int| 0 <= k < e.len() implies s[i + k] == e[k] by {
            assert(s.subrange(i as int, (i + ev.len()) as int)[k] == ev[k]);
        }
        assert(s.subrange((i + e.len()) as int, (i + e.len() + er.len()) as int) =~= er) by {
            assert forall|k: int| 0 <= k < er.len() implies s[i + e.len() + k] == er[k] by {
                assert(s.subrange(i as int, (i + ev.len()) as int)[e.len() + k] == ev[e.len() + k]);
            }
        }
        assert(acc.push(c) + rest =~= acc + v);
        lemma_string_body(s, i + e.len(), acc.push(c), rest);
        if e.len() == 2 {
            assert(s[i as int] == '\\');
            assert(escape_of(s[i + 1 as int]) == Some(c));
        } else {
            assert(s.subrange(i as int, (i + ev.len()) as int)[0] == ev[0]);
            assert(s[i as int] == c);
        }
    }
}

/// A string literal whose body escapes exactly the five escapable characters
/// scans to a `StringLiteral` holding the unescaped text, without the quotes,
/// and scanning goes on right after the closing quote.
pub proof fn lemma_string_literal(v: Seq<char>, rest: Seq<char>)
    ensures
        lex(seq!['"'] + escaped(v) + seq!['"'] + rest) == prepend(
            seq![TokenView::StringLiteral(v)],
            lex_from(seq!['"'] + escaped(v) + seq!['"'] + rest, escaped(v).len() + 2),
        ),
{
    let s = seq!['"'] + escaped(v) + seq!['"'] + rest;
    let n = escaped(v).len();
    assert(s.subrange(1, (1 + n) as int) =~= escaped(v));
    assert(s[(1 + n) as int] == '"');
    lemma_string_body(s, 1, Seq::empty(), v);
    assert(Seq::<char>::empty() + v =~= v);
    assert(next_step(s, 0) == Step::Emit(TokenView::StringLiteral(v), n + 2));
}

proof fn lemma_word_end_of(s: Seq<char>, w: Seq<char>, i: nat)
    requires
        i <= w.len(),
        w.len() <= s.len(),
        s.subrange(0, w.len() as int) == w,
        forall|k: int| 0 <= k < w.len() ==> is_word_char(#[trigger] w[k]),
        s.len() > w.len() ==> !is_word_char(s[w.len() as int]),
    ensures
        word_end(s, i) == w.len(),
    decreases w.len() - i,
{
    if i < w.len() {
        assert(s.subrange(0, w.len() as int)[i as int] == s[i as int]);
        assert(is_word_char(w[i as int]));
        lemma_word_end_of(s, w, i + 1);
    }
}

/// A maximal run of word characters that starts with a letter scans to its
/// keyword when it spells one, and otherwise to an identifier holding the
/// whole run; scanning goes on right after it.
pub proof fn lemma_word(w: Seq<char>, rest: Seq<char>)
    requires
        w.len() > 0,
        is_ascii_letter(w[0]),
        forall|k: int| 0 <= k < w.len() ==> is_word_char(#[trigger] w[k]),
        rest.len() > 0 ==> !is_word_char(rest[0]),
    ensures
        lex(w + rest) == prepend(seq![word_token(w)], lex_from(w + rest, w.len())),
{
    let s = w + rest;
    assert(s.subrange(0, w.len() as int) =~= w);
    assert(s.len() > w.len() ==> s[w.len() as int] == rest[0]);
    lemma_word_end_of(s, w, 0);
    assert(s[0] == w[0]);
    assert(next_step(s, 0) == Step::Emit(word_token(w), w.len()));
}

/// Whatever scanning returns on input made only of whitespace is `EOF` alone.
pub proof fn lemma_scan_whitespace_only(
    s: Seq<char>,
    r: Result<Vec<crate::token::Token>, LexerError>,
)
    requires
        forall|k: int| 0 <= k < s.len() ==> is_whitespace(#[trigger] s[k]),
        scanned(s, 0, r),
    ensures
        r is Ok,
        views(r->Ok_0@) == seq![TokenView::EOF],
{
    lemma_whitespace_only(s);
}

/// Whatever scanning returns on a lone `//` comment without a newline is
/// `EOF` alone.
pub proof fn lemma_scan_line_comment_only(
    body: Seq<char>,
    r: Result<Vec<crate::token::Token>, LexerError>,
)
    requires
        forall|k: int| 0 <= k < body.len() ==> #[trigger] body[k] != '\n',
        scanned(seq!['/', '/'] + body, 0, r),
    ensures
        r is Ok,
        views(r->Ok_0@) == seq![TokenView::EOF],
{
    lemma_line_comment_only(body);
}

/// Whatever scanning returns on a lone `/* ... */` comment whose body holds no
/// `*/` is `EOF` alone.
pub proof fn lemma_scan_block_comment_only(
    body: Seq<char>,
    r: Result<Vec<crate::token::Token>, LexerError>,
)
    requires
        forall|k: int| 0 <= k < body.len() - 1 ==> !(#[trigger] body[k] == '*' && body[k + 1] == '/'),
        scanned(seq!['/', '*'] + body + seq!['*', '/'], 0, r),
    ensures
        r is Ok,
        views(r->Ok_0@) == seq![TokenView::EOF],
{
    lemma_block_comment_only(body);
}

/// Whenever scanning input that starts with a maximal word run succeeds, its
/// first token is that word's keyword, or an identifier holding the whole run.
pub proof fn lemma_scan_word(
    w: Seq<char>,
    rest: Seq<char>,
    r: Result<Vec<crate::token::Token>, LexerError>,
)
    requires
        w.len() > 0,
        is_ascii_letter(w[0]),
        forall|k: int| 0 <= k < w.len() ==> is_word_char(#[trigger] w[k]),
        rest.len() > 0 ==> !is_word_char(rest[0]),
        scanned(w + rest, 0, r),
    ensures
        r is Ok ==> r->Ok_0@.len() > 0 && r->Ok_0@[0]@ == word_token(w),
{
    lemma_word(w, rest);
    if r is Ok {
        let ts = views(r->Ok_0@);
        match lex_from(w + rest, w.len()) {
            Ok(later) => {
                assert(ts == seq![word_token(w)] + later);
                assert(ts[0] == word_token(w));
            },
            Err(_) => {},
        }
        assert(ts.len() == r->Ok_0@.len());
        assert(ts[0] == r->Ok_0@[0]@);
    }
}

} // verus!
