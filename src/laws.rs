//! Properties of the lexer and of the rewrite.
use vstd::prelude::*;
use crate::token::{TokenKind, TokenView, has_payload, spelling_of, keyword_kinds};
use crate::lexer::{
    is_space, is_word_start, is_word_byte, is_digit, space_end, word_end, quote_from, number_end,
    keyword_of, find_keyword, lower_word, word_token, symbol_at, lex_from, lexed, scan_at,
};
use crate::statement::StatementView;
use crate::transformer::{
    desugared_statement, desugared_body, transformed_statement, transformed,
    returns_have_values, functions_return_values,
};

verus! {

proof fn lemma_space_run_to_end(s: Seq<u8>, i: int)
    requires
        0 <= i <= s.len(),
        forall|j: int| i <= j < s.len() ==> is_space(#[trigger] s[j]),
    ensures
        space_end(s, i) == s.len(),
    decreases s.len() - i,
{
    if i < s.len() {
        lemma_space_run_to_end(s, i + 1);
    }
}

proof fn lemma_no_closing_quote(s: Seq<u8>, i: int)
    requires
        0 <= i <= s.len(),
        forall|j: int| i <= j < s.len() ==> #[trigger] s[j] != '"' as u8,
    ensures
        quote_from(s, i) == s.len(),
    decreases s.len() - i,
{
    if i < s.len() {
        lemma_no_closing_quote(s, i + 1);
    }
}

/// A string that no quote closes yields no token, and the scan stops there:
/// nothing from the opening quote on is lexed.
pub proof fn lex_of_unterminated_string(s: Seq<u8>, i: int)
    requires
        0 <= i < s.len(),
        s[i] == '"' as u8,
        forall|j: int| i < j < s.len() ==> #[trigger] s[j] != '"' as u8,
    ensures
        lex_from(s, i) == Seq::<TokenView>::empty(),
{
    lemma_no_closing_quote(s, i + 1);
    assert(scan_at(s, i) is None);
}

/// Lexing no bytes gives no tokens.
pub proof fn lex_of_empty(s: Seq<u8>)
    requires
        s.len() == 0,
    ensures
        lexed(s) == Seq::<TokenView>::empty(),
{
}

/// Lexing bytes that are all white space gives no tokens.
pub proof fn lex_of_white_space(s: Seq<u8>)
    requires
        forall|i: int| 0 <= i < s.len() ==> is_space(#[trigger] s[i]),
    ensures
        lexed(s) == Seq::<TokenView>::empty(),
{
    if s.len() > 0 {
        lemma_space_run_to_end(s, 0);
        assert(scan_at(s, 0) == Some((None::<TokenView>, s.len() as int)));
        assert(lex_from(s, s.len() as int) == Seq::<TokenView>::empty());
        assert(lexed(s) =~= Seq::<TokenView>::empty());
    }
}

/// No statement of `body` is a `Return` with a value.
pub open spec fn free_of_returns(body: Seq<StatementView>) -> bool {
    forall|i: int| 0 <= i < body.len() ==> !(#[trigger] body[i] matches StatementView::Return { value: Some(_) })
}

proof fn lemma_desugared_body_free(name: TokenView, body: Seq<StatementView>)
    ensures
        free_of_returns(desugared_body(name, body)),
    decreases body.len(),
{
    if body.len() > 0 {
        lemma_desugared_body_free(name, body.drop_last());
        let a = desugared_body(name, body.drop_last());
        let b = desugared_statement(name, body.last());
        assert forall|i: int| 0 <= i < (a + b).len() implies !(#[trigger] (a + b)[i] matches StatementView::Return { value: Some(_) }) by {
            if i >= a.len() {
                assert((a + b)[i] == b[i - a.len()]);
            }
        }
    }
}

proof fn lemma_desugared_body_fixed(name: TokenView, body: Seq<StatementView>)
    requires
        free_of_returns(body),
    ensures
        desugared_body(name, body) == body,
    decreases body.len(),
{
    if body.len() > 0 {
        lemma_desugared_body_fixed(name, body.drop_last());
        assert(desugared_body(name, body) =~= body);
    }
}

proof fn lemma_desugared_body_valued(name: TokenView, body: Seq<StatementView>)
    requires
        returns_have_values(body),
    ensures
        returns_have_values(desugared_body(name, body)),
    decreases body.len(),
{
    if body.len() > 0 {
        lemma_desugared_body_valued(name, body.drop_last());
        let a = desugared_body(name, body.drop_last());
        let b = desugared_statement(name, body.last());
        assert(body.last() == body[body.len() - 1]);
        assert forall|i: int| 0 <= i < (a + b).len() implies !(#[trigger] (a + b)[i] matches StatementView::Return { value: None }) by {
            if i >= a.len() {
                assert((a + b)[i] == b[i - a.len()]);
            }
        }
    }
}

/// Rewriting twice gives what rewriting once gives: once rewritten, no
/// function body holds a `Return` with a value any more. The rewrite also
/// keeps what it asks of its input.
pub proof fn transform_is_idempotent(statements: Seq<StatementView>)
    ensures
        transformed(transformed(statements)) == transformed(statements),
        functions_return_values(statements) ==> functions_return_values(transformed(statements)),
{
    let once = transformed(statements);
    assert forall|i: int| 0 <= i < once.len() implies transformed_statement(#[trigger] once[i]) == once[i] by {
        match statements[i] {
            StatementView::Function { scope, name, arguments, kind, body } => {
                lemma_desugared_body_free(name, body);
                lemma_desugared_body_fixed(name, desugared_body(name, body));
            },
            _ => {},
        }
    }
    assert(transformed(once) =~= once);
    if functions_return_values(statements) {
        assert forall|i: int| 0 <= i < once.len() implies (#[trigger] once[i] matches StatementView::Function { body, .. }
            ==> returns_have_values(body)) by {
            match statements[i] {
                StatementView::Function { scope, name, arguments, kind, body } => {
                    assert(statements[i] matches StatementView::Function { body, .. } ==> returns_have_values(body));
                    lemma_desugared_body_valued(name, body);
                },
                _ => {},
            }
        }
    }
}

/// A token that the lexer can give back from its own lexeme: an identifier
/// that spells no keyword, a number, a closed string, or a symbol.
pub open spec fn relexable(t: TokenView) -> bool {
    let w = t.text;
    match t.kind {
        TokenKind::Identifier => w.len() > 0 && is_word_start(w[0]) && (forall|i: int|
            0 <= i < w.len() ==> is_word_byte(#[trigger] w[i])) && keyword_of(lower_word(w)) is None,
        TokenKind::Number => w.len() > 0 && is_digit(w[0]) && number_end(w, 0) == w.len(),
        TokenKind::String => w.len() >= 2 && w[0] == '"' as u8 && quote_from(w, 1) == w.len() - 1,
        _ => !has_payload(t.kind) && w.len() == 0 && symbol_at(t.lexeme(), 0) == Some(
            (t.kind, t.lexeme().len() as int),
        ),
    }
}

proof fn lemma_word_run_to_end(s: Seq<u8>, i: int)
    requires
        0 <= i <= s.len(),
        forall|j: int| 0 <= j < s.len() ==> is_word_byte(#[trigger] s[j]),
    ensures
        word_end(s, i) == s.len(),
    decreases s.len() - i,
{
    if i < s.len() {
        lemma_word_run_to_end(s, i + 1);
    }
}

/// Lexing the canonical lexeme of an identifier, a number, a string or a
/// symbol gives back that one token.
pub proof fn lex_of_lexeme(t: TokenView)
    requires
        relexable(t),
    ensures
        lexed(t.lexeme()) == seq![t],
{
    let w = t.lexeme();
    assert(w.len() > 0);
    assert(w.subrange(0, w.len() as int) =~= w);
    if t.kind == TokenKind::Identifier {
        lemma_word_run_to_end(w, 0);
        assert(word_token(w) == t);
        assert(scan_at(w, 0) == Some((Some(t), w.len() as int)));
    } else if t.kind == TokenKind::Number {
        assert(scan_at(w, 0) == Some((Some(t), w.len() as int)));
    } else if t.kind == TokenKind::String {
        assert(scan_at(w, 0) == Some((Some(t), w.len() as int)));
    } else {
        let c = w[0];
        assert(symbol_at(w, 0) is Some);
        assert(!is_space(c) && !is_word_start(c) && !is_digit(c) && c != '"' as u8);
        assert(t.text =~= Seq::<u8>::empty());
        assert(scan_at(w, 0) == Some((Some(t), w.len() as int)));
    }
    assert(lex_from(w, w.len() as int) == Seq::<TokenView>::empty());
    assert(lexed(w) =~= seq![t]);
}

#[verifier::spinoff_prover]
#[verifier::rlimit(100)]
proof fn lemma_keyword_found(k: TokenKind, i: int)
    requires
        0 <= i < keyword_kinds().len(),
        keyword_kinds()[i] == k,
    ensures
        keyword_of(spelling_of(k)) == Some(k),
        lower_word(spelling_of(k)) == spelling_of(k),
        spelling_of(k).len() > 0,
        is_word_start(spelling_of(k)[0]),
        forall|j: int| 0 <= j < spelling_of(k).len() ==> is_word_byte(#[trigger] spelling_of(k)[j]),
{
    assert(lower_word(spelling_of(k)) =~= spelling_of(k));
    if i == 0 {
        reveal_with_fuel(find_keyword, 1);
    } else if i == 1 {
        reveal_with_fuel(find_keyword, 2);
    } else if i == 2 {
        reveal_with_fuel(find_keyword, 3);
    } else if i == 3 {
        reveal_with_fuel(find_keyword, 4);
    } else if i == 4 {
        reveal_with_fuel(find_keyword, 5);
    } else if i == 5 {
        reveal_with_fuel(find_keyword, 6);
    } else if i == 6 {
        reveal_with_fuel(find_keyword, 7);
    } else if i == 7 {
        reveal_with_fuel(find_keyword, 8);
    } else if i == 8 {
        reveal_with_fuel(find_keyword, 9);
    } else if i == 9 {
        reveal_with_fuel(find_keyword, 10);
    } else if i == 10 {
        reveal_with_fuel(find_keyword, 11);
    } else if i == 11 {
        reveal_with_fuel(find_keyword, 12);
    } else if i == 12 {
        reveal_with_fuel(find_keyword, 13);
    } else if i == 13 {
        reveal_with_fuel(find_keyword, 14);
    } else if i == 14 {
        reveal_with_fuel(find_keyword, 15);
    } else if i == 15 {
        reveal_with_fuel(find_keyword, 16);
    } else if i == 16 {
        reveal_with_fuel(find_keyword, 17);
    } else if i == 17 {
        reveal_with_fuel(find_keyword, 18);
    } else if i == 18 {
        reveal_with_fuel(find_keyword, 19);
    } else if i == 19 {
        reveal_with_fuel(find_keyword, 20);
    } else if i == 20 {
        reveal_with_fuel(find_keyword, 21);
    } else if i == 21 {
        reveal_with_fuel(find_keyword, 22);
    } else if i == 22 {
        reveal_with_fuel(find_keyword, 23);
    } else if i == 23 {
        reveal_with_fuel(find_keyword, 24);
    } else if i == 24 {
        reveal_with_fuel(find_keyword, 25);
    } else if i == 25 {
        reveal_with_fuel(find_keyword, 26);
    } else if i == 26 {
        reveal_with_fuel(find_keyword, 27);
    } else if i == 27 {
        reveal_with_fuel(find_keyword, 28);
    } else if i == 28 {
        reveal_with_fuel(find_keyword, 29);
    } else if i == 29 {
        reveal_with_fuel(find_keyword, 30);
    } else if i == 30 {
        reveal_with_fuel(find_keyword, 31);
    }
}

/// Lexing the spelling of a keyword, in lower case as `get_lexeme` gives it,
/// gives back that keyword.
pub proof fn lex_of_keyword(k: TokenKind, i: int)
    requires
        0 <= i < keyword_kinds().len(),
        keyword_kinds()[i] == k,
    ensures
        lexed(spelling_of(k)) == seq![TokenView { kind: k, text: seq![] }],
{
    let w = spelling_of(k);
    lemma_keyword_found(k, i);
    lemma_word_run_to_end(w, 0);
    assert(w.subrange(0, w.len() as int) =~= w);
    assert(word_token(w) == TokenView { kind: k, text: seq![] });
    assert(scan_at(w, 0) == Some((Some(TokenView { kind: k, text: seq![] }), w.len() as int)));
    assert(lex_from(w, w.len() as int) == Seq::<TokenView>::empty());
    assert(lexed(w) =~= seq![TokenView { kind: k, text: seq![] }]);
}

} // verus!
