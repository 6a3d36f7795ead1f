//! The lexer: bytes to tokens, by first match among white space, words,
//! numbers, strings and symbols.
use vstd::prelude::*;
use crate::token::{Token, TokenKind, TokenView, fixed_token, spelling, spelling_of, keyword_kinds};

verus! {

/// White space as `char::is_whitespace` sees a byte read as a character.
pub open spec fn is_space(b: u8) -> bool {
    b == 32 || (9 <= b && b <= 13) || b == 0x85 || b == 0xa0
}

pub open spec fn is_letter(b: u8) -> bool {
    ('a' as u8 <= b && b <= 'z' as u8) || ('A' as u8 <= b && b <= 'Z' as u8)
}

pub open spec fn is_digit(b: u8) -> bool {
    '0' as u8 <= b && b <= '9' as u8
}

/// A byte that may begin an identifier or keyword.
pub open spec fn is_word_start(b: u8) -> bool {
    is_letter(b) || b == '_' as u8
}

/// A byte that may continue an identifier or keyword.
pub open spec fn is_word_byte(b: u8) -> bool {
    is_letter(b) || is_digit(b) || b == '_' as u8
}

pub open spec fn lower(b: u8) -> u8 {
    if 'A' as u8 <= b && b <= 'Z' as u8 {
        (b + 32) as u8
    } else {
        b
    }
}

pub open spec fn lower_word(w: Seq<u8>) -> Seq<u8> {
    w.map_values(|b: u8| lower(b))
}

/// The end of the run of white space that starts at `i`.
pub open spec fn space_end(s: Seq<u8>, i: int) -> int
    decreases s.len() - i,
{
    if 0 <= i < s.len() && is_space(s[i]) {
        space_end(s, i + 1)
    } else {
        i
    }
}

/// The end of the run of identifier bytes that starts at `i`.
pub open spec fn word_end(s: Seq<u8>, i: int) -> int
    decreases s.len() - i,
{
    if 0 <= i < s.len() && is_word_byte(s[i]) {
        word_end(s, i + 1)
    } else {
        i
    }
}

/// The end of the run of decimal digits that starts at `i`.
pub open spec fn digit_end(s: Seq<u8>, i: int) -> int
    decreases s.len() - i,
{
    if 0 <= i < s.len() && is_digit(s[i]) {
        digit_end(s, i + 1)
    } else {
        i
    }
}

/// The index of the first quote at or after `i`, or the length of `s`.
pub open spec fn quote_from(s: Seq<u8>, i: int) -> int
    decreases s.len() - i,
{
    if 0 <= i < s.len() && s[i] != '"' as u8 {
        quote_from(s, i + 1)
    } else if i < 0 {
        s.len() as int
    } else {
        i
    }
}

/// The index in `keyword_kinds()`, from `i` on, of the keyword spelled `word`.
pub open spec fn find_keyword(word: Seq<u8>, i: int) -> Option<TokenKind>
    decreases keyword_kinds().len() - i,
{
    if i < 0 || i >= keyword_kinds().len() {
        None
    } else if spelling_of(keyword_kinds()[i]) == word {
        Some(keyword_kinds()[i])
    } else {
        find_keyword(word, i + 1)
    }
}

/// The keyword whose spelling is `word`, if any.
pub open spec fn keyword_of(word: Seq<u8>) -> Option<TokenKind> {
    find_keyword(word, 0)
}

/// The token for a scanned word: the keyword it spells in any case, or else an
/// identifier keeping the bytes as written.
pub open spec fn word_token(lexeme: Seq<u8>) -> TokenView {
    match keyword_of(lower_word(lexeme)) {
        Some(k) => TokenView { kind: k, text: seq![] },
        None => TokenView { kind: TokenKind::Identifier, text: lexeme },
    }
}

/// The end of a number that starts at `i`: its digits, and a fraction when a
/// dot and at least one more digit follow.
pub open spec fn number_end(s: Seq<u8>, i: int) -> int {
    let e = digit_end(s, i);
    if e + 1 < s.len() && s[e] == '.' as u8 && is_digit(s[e + 1]) {
        digit_end(s, e + 1)
    } else {
        e
    }
}

/// The punctuation or operator at `i`, with the index after it.
pub open spec fn symbol_at(s: Seq<u8>, i: int) -> Option<(TokenKind, int)> {
    let c = s[i];
    let n = if i + 1 < s.len() { s[i + 1] } else { 0u8 };
    if c == '(' as u8 {
        Some((TokenKind::LeftParentheses, i + 1))
    } else if c == ')' as u8 {
        Some((TokenKind::RightParentheses, i + 1))
    } else if c == '[' as u8 {
        Some((TokenKind::LeftBracket, i + 1))
    } else if c == ']' as u8 {
        Some((TokenKind::RightBracket, i + 1))
    } else if c == '+' as u8 {
        Some((TokenKind::Plus, i + 1))
    } else if c == '-' as u8 {
        Some((TokenKind::Minus, i + 1))
    } else if c == '*' as u8 {
        Some((TokenKind::Times, i + 1))
    } else if c == '/' as u8 {
        Some((TokenKind::Divide, i + 1))
    } else if c == '<' as u8 && n == '=' as u8 {
        Some((TokenKind::LessOrEqual, i + 2))
    } else if c == '<' as u8 {
        Some((TokenKind::Less, i + 1))
    } else if c == '>' as u8 && n == '=' as u8 {
        Some((TokenKind::GreaterOrEqual, i + 2))
    } else if c == '>' as u8 {
        Some((TokenKind::Greater, i + 1))
    } else if c == '=' as u8 {
        Some((TokenKind::Assignment, i + 1))
    } else if c == '.' as u8 {
        Some((TokenKind::Dot, i + 1))
    } else if c == ',' as u8 {
        Some((TokenKind::Comma, i + 1))
    } else {
        None
    }
}

/// One step of the scan at `i` (with `i` inside `s`): the token found, if it
/// is not white space, and the index after it; `None` where no scanner
/// matches, which ends the scan.
pub open spec fn scan_at(s: Seq<u8>, i: int) -> Option<(Option<TokenView>, int)> {
    let c = s[i];
    if is_space(c) {
        Some((None, space_end(s, i)))
    } else if is_word_start(c) {
        let e = word_end(s, i);
        Some((Some(word_token(s.subrange(i, e))), e))
    } else if is_digit(c) {
        let e = number_end(s, i);
        Some((Some(TokenView { kind: TokenKind::Number, text: s.subrange(i, e) }), e))
    } else if c == '"' as u8 && quote_from(s, i + 1) < s.len() {
        let e = quote_from(s, i + 1) + 1;
        Some((Some(TokenView { kind: TokenKind::String, text: s.subrange(i, e) }), e))
    } else {
        match symbol_at(s, i) {
            Some((k, e)) => Some((Some(TokenView { kind: k, text: seq![] }), e)),
            None => None,
        }
    }
}

pub open spec fn option_seq(t: Option<TokenView>) -> Seq<TokenView> {
    match t {
        Some(t) => seq![t],
        None => seq![],
    }
}

/// The tokens scanned from index `i` of `s` to the end, or to the first byte
/// at which no scanner matches.
pub open spec fn lex_from(s: Seq<u8>, i: int) -> Seq<TokenView>
    decreases s.len() - i,
{
    if i < 0 || i >= s.len() {
        seq![]
    } else {
        match scan_at(s, i) {
            Some((t, e)) => if i < e <= s.len() {
                option_seq(t) + lex_from(s, e)
            } else {
                seq![]
            },
            None => seq![],
        }
    }
}

/// The tokens of a whole input.
pub open spec fn lexed(s: Seq<u8>) -> Seq<TokenView> {
    lex_from(s, 0)
}

pub open spec fn view_tokens(v: Seq<Token>) -> Seq<TokenView> {
    v.map_values(|t: Token| t@)
}

proof fn lemma_view_tokens_push(v: Seq<Token>, t: Token)
    ensures
        view_tokens(v.push(t)) == view_tokens(v).push(t@),
{
    assert(view_tokens(v.push(t)) =~= view_tokens(v).push(t@));
}

proof fn lemma_space_end(s: Seq<u8>, i: int)
    requires
        0 <= i <= s.len(),
    ensures
        i <= space_end(s, i) <= s.len(),
    decreases s.len() - i,
{
    if i < s.len() && is_space(s[i]) {
        lemma_space_end(s, i + 1);
    }
}

proof fn lemma_word_end(s: Seq<u8>, i: int)
    requires
        0 <= i <= s.len(),
    ensures
        i <= word_end(s, i) <= s.len(),
    decreases s.len() - i,
{
    if i < s.len() && is_word_byte(s[i]) {
        lemma_word_end(s, i + 1);
    }
}

proof fn lemma_digit_end(s: Seq<u8>, i: int)
    requires
        0 <= i <= s.len(),
    ensures
        i <= digit_end(s, i) <= s.len(),
    decreases s.len() - i,
{
    if i < s.len() && is_digit(s[i]) {
        lemma_digit_end(s, i + 1);
    }
}

proof fn lemma_quote_from(s: Seq<u8>, i: int)
    requires
        0 <= i <= s.len(),
    ensures
        i <= quote_from(s, i) <= s.len(),
        quote_from(s, i) < s.len() ==> s[quote_from(s, i)] == '"' as u8,
    decreases s.len() - i,
{
    if i < s.len() && s[i] != '"' as u8 {
        lemma_quote_from(s, i + 1);
    }
}

fn is_space_byte(b: u8) -> (r: bool)
    ensures
        r == is_space(b),
{
    b == 32 || (9 <= b && b <= 13) || b == 0x85 || b == 0xa0
}

fn is_letter_byte(b: u8) -> (r: bool)
    ensures
        r == is_letter(b),
{
    ('a' as u8 <= b && b <= 'z' as u8) || ('A' as u8 <= b && b <= 'Z' as u8)
}

fn is_digit_byte(b: u8) -> (r: bool)
    ensures
        r == is_digit(b),
{
    '0' as u8 <= b && b <= '9' as u8
}

/// `space_end(s, i)`, computed.
fn space_run(characters: &Vec<u8>, i: usize) -> (e: usize)
    requires
        i <= characters@.len(),
    ensures
        e as int == space_end(characters@, i as int),
        i <= e <= characters@.len(),
{
    let length = characters.len();
    let mut end = i;
    while end < length && is_space_byte(characters[end])
        invariant
            length == characters@.len(),
            i <= end <= length,
            space_end(characters@, i as int) == space_end(characters@, end as int),
        decreases length - end,
    {
        end = end + 1;
    }
    end
}

/// `word_end(s, i)`, computed.
fn word_run(characters: &Vec<u8>, i: usize) -> (e: usize)
    requires
        i <= characters@.len(),
    ensures
        e as int == word_end(characters@, i as int),
        i <= e <= characters@.len(),
{
    let length = characters.len();
    let mut end = i;
    while end < length && (is_letter_byte(characters[end]) || is_digit_byte(characters[end])
        || characters[end] == '_' as u8)
        invariant
            length == characters@.len(),
            i <= end <= length,
            word_end(characters@, i as int) == word_end(characters@, end as int),
        decreases length - end,
    {
        end = end + 1;
    }
    end
}

/// `digit_end(s, i)`, computed.
fn digit_run(characters: &Vec<u8>, i: usize) -> (e: usize)
    requires
        i <= characters@.len(),
    ensures
        e as int == digit_end(characters@, i as int),
        i <= e <= characters@.len(),
{
    let length = characters.len();
    let mut end = i;
    while end < length && is_digit_byte(characters[end])
        invariant
            length == characters@.len(),
            i <= end <= length,
            digit_end(characters@, i as int) == digit_end(characters@, end as int),
        decreases length - end,
    {
        end = end + 1;
    }
    end
}

/// `quote_from(s, i)`, computed.
fn quote_run(characters: &Vec<u8>, i: usize) -> (e: usize)
    requires
        i <= characters@.len(),
    ensures
        e as int == quote_from(characters@, i as int),
        i <= e <= characters@.len(),
{
    let length = characters.len();
    let mut end = i;
    while end < length && characters[end] != '"' as u8
        invariant
            length == characters@.len(),
            i <= end <= length,
            quote_from(characters@, i as int) == quote_from(characters@, end as int),
        decreases length - end,
    {
        end = end + 1;
    }
    end
}

/// A copy of `characters[start..end]`.
fn copy_range(characters: &Vec<u8>, start: usize, end: usize) -> (r: Vec<u8>)
    requires
        start <= end <= characters@.len(),
    ensures
        r@ == characters@.subrange(start as int, end as int),
{
    let mut r: Vec<u8> = Vec::new();
    let mut i = start;
    while i < end
        invariant
            start <= i <= end <= characters@.len(),
            r@ == characters@.subrange(start as int, i as int),
        decreases end - i,
    {
        r.push(characters[i]);
        i = i + 1;
        assert(r@ =~= characters@.subrange(start as int, i as int));
    }
    r
}

/// The bytes of `word` with ASCII capitals made small.
fn lower_bytes(word: &Vec<u8>) -> (r: Vec<u8>)
    ensures
        r@ == lower_word(word@),
{
    let mut r: Vec<u8> = Vec::new();
    let mut i: usize = 0;
    while i < word.len()
        invariant
            i <= word@.len(),
            r@ == lower_word(word@.subrange(0, i as int)),
        decreases word@.len() - i,
    {
        let b = word[i];
        let l = if 'A' as u8 <= b && b <= 'Z' as u8 {
            b + 32
        } else {
            b
        };
        r.push(l);
        i = i + 1;
        assert(r@ =~= lower_word(word@.subrange(0, i as int)));
    }
    assert(word@.subrange(0, word@.len() as int) =~= word@);
    r
}

fn same_bytes(a: &Vec<u8>, b: &Vec<u8>) -> (r: bool)
    ensures
        r == (a@ == b@),
{
    if a.len() != b.len() {
        return false;
    }
    let mut i: usize = 0;
    while i < a.len()
        invariant
            a@.len() == b@.len(),
            i <= a@.len(),
            forall|j: int| 0 <= j < i ==> a@[j] == b@[j],
        decreases a@.len() - i,
    {
        if a[i] != b[i] {
            return false;
        }
        i = i + 1;
    }
    assert(a@ =~= b@);
    true
}

fn keyword_list() -> (r: Vec<TokenKind>)
    ensures
        r@ == keyword_kinds(),
{
    vec![
        TokenKind::Public, TokenKind::Private, TokenKind::Static, TokenKind::Dim,
        TokenKind::ByVal, TokenKind::ByRef, TokenKind::As, TokenKind::If, TokenKind::Sub,
        TokenKind::Function, TokenKind::Type, TokenKind::Enum, TokenKind::Const, TokenKind::End,
        TokenKind::Exit, TokenKind::Return, TokenKind::Do, TokenKind::Loop, TokenKind::While,
        TokenKind::Wend, TokenKind::For, TokenKind::Next, TokenKind::And, TokenKind::Or,
        TokenKind::Xor, TokenKind::Attribute, TokenKind::Option, TokenKind::Explicit,
        TokenKind::Base, TokenKind::Compare, TokenKind::Module,
    ]
}

/// The keyword spelled by `word` (already in lower case), if any.
fn keyword(word: &Vec<u8>) -> (r: Option<TokenKind>)
    ensures
        r == keyword_of(word@),
{
    let kinds = keyword_list();
    let mut i: usize = 0;
    while i < kinds.len()
        invariant
            kinds@ == keyword_kinds(),
            i <= kinds@.len(),
            find_keyword(word@, 0) == find_keyword(word@, i as int),
        decreases kinds@.len() - i,
    {
        let k = kinds[i];
        if same_bytes(&spelling(k), word) {
            return Some(k);
        }
        i = i + 1;
    }
    None
}

/// Skips the white space at `position`; no token is kept for it.
fn lex_whitespace(characters: &Vec<u8>, position: &mut usize, tokens: &mut Vec<Token>) -> (r: bool)
    requires
        *old(position) < characters@.len(),
    ensures
        r == is_space(characters@[*old(position) as int]),
        r ==> *final(position) as int == space_end(characters@, *old(position) as int),
        !r ==> *final(position) == *old(position),
        final(tokens)@ == old(tokens)@,
{
    let start = *position;
    if !is_space_byte(characters[start]) {
        return false;
    }
    *position = space_run(characters, start);
    true
}

/// Scans an identifier or keyword at `position`.
fn lex_identifier(characters: &Vec<u8>, position: &mut usize, tokens: &mut Vec<Token>) -> (r: bool)
    requires
        *old(position) < characters@.len(),
    ensures
        r == is_word_start(characters@[*old(position) as int]),
        r ==> {
            let e = word_end(characters@, *old(position) as int);
            &&& *final(position) as int == e
            &&& view_tokens(final(tokens)@) == view_tokens(old(tokens)@).push(
                word_token(characters@.subrange(*old(position) as int, e)),
            )
        },
        !r ==> *final(position) == *old(position) && final(tokens)@ == old(tokens)@,
{
    let start = *position;
    let c = characters[start];
    if !(is_letter_byte(c) || c == '_' as u8) {
        return false;
    }
    let end = word_run(characters, start);
    let lexeme = copy_range(characters, start, end);
    let token = match keyword(&lower_bytes(&lexeme)) {
        Some(k) => fixed_token(k),
        None => Token::Identifier(lexeme),
    };
    proof {
        lemma_view_tokens_push(tokens@, token);
    }
    tokens.push(token);
    *position = end;
    true
}

/// Scans a number at `position`: digits, and a fraction when a dot and a
/// digit follow them.
fn lex_number(characters: &Vec<u8>, position: &mut usize, tokens: &mut Vec<Token>) -> (r: bool)
    requires
        *old(position) < characters@.len(),
    ensures
        r == is_digit(characters@[*old(position) as int]),
        r ==> {
            let e = number_end(characters@, *old(position) as int);
            &&& *final(position) as int == e
            &&& view_tokens(final(tokens)@) == view_tokens(old(tokens)@).push(
                TokenView {
                    kind: TokenKind::Number,
                    text: characters@.subrange(*old(position) as int, e),
                },
            )
        },
        !r ==> *final(position) == *old(position) && final(tokens)@ == old(tokens)@,
{
    let start = *position;
    if !is_digit_byte(characters[start]) {
        return false;
    }
    let length = characters.len();
    let mut end = digit_run(characters, start);
    if end < length && end + 1 < length && characters[end] == '.' as u8 && is_digit_byte(
        characters[end + 1],
    ) {
        end = digit_run(characters, end + 1);
    }
    let token = Token::Number(copy_range(characters, start, end));
    proof {
        lemma_view_tokens_push(tokens@, token);
    }
    tokens.push(token);
    *position = end;
    true
}

/// Scans a string literal at `position`, quotes included; fails where no
/// closing quote follows.
fn lex_string(characters: &Vec<u8>, position: &mut usize, tokens: &mut Vec<Token>) -> (r: bool)
    requires
        *old(position) < characters@.len(),
    ensures
        r == (characters@[*old(position) as int] == '"' as u8 && quote_from(
            characters@,
            *old(position) + 1,
        ) < characters@.len()),
        r ==> {
            let e = quote_from(characters@, *old(position) + 1) + 1;
            &&& *final(position) as int == e
            &&& view_tokens(final(tokens)@) == view_tokens(old(tokens)@).push(
                TokenView {
                    kind: TokenKind::String,
                    text: characters@.subrange(*old(position) as int, e),
                },
            )
        },
        !r ==> *final(position) == *old(position) && final(tokens)@ == old(tokens)@,
{
    let start = *position;
    let length = characters.len();
    if characters[start] != '"' as u8 {
        return false;
    }
    let close = quote_run(characters, start + 1);
    if close >= length {
        return false;
    }
    let token = Token::String(copy_range(characters, start, close + 1));
    proof {
        lemma_view_tokens_push(tokens@, token);
    }
    tokens.push(token);
    *position = close + 1;
    true
}

/// The punctuation or operator at `i`, with the index after it.
fn symbol(characters: &Vec<u8>, i: usize) -> (r: Option<(TokenKind, usize)>)
    requires
        i < characters@.len(),
    ensures
        match r {
            Some((k, e)) => symbol_at(characters@, i as int) == Some((k, e as int)),
            None => symbol_at(characters@, i as int) is None,
        },
{
    let length = characters.len();
    let c = characters[i];
    let n = if i + 1 < length {
        characters[i + 1]
    } else {
        0u8
    };
    if c == '(' as u8 {
        Some((TokenKind::LeftParentheses, i + 1))
    } else if c == ')' as u8 {
        Some((TokenKind::RightParentheses, i + 1))
    } else if c == '[' as u8 {
        Some((TokenKind::LeftBracket, i + 1))
    } else if c == ']' as u8 {
        Some((TokenKind::RightBracket, i + 1))
    } else if c == '+' as u8 {
        Some((TokenKind::Plus, i + 1))
    } else if c == '-' as u8 {
        Some((TokenKind::Minus, i + 1))
    } else if c == '*' as u8 {
        Some((TokenKind::Times, i + 1))
    } else if c == '/' as u8 {
        Some((TokenKind::Divide, i + 1))
    } else if c == '<' as u8 && n == '=' as u8 {
        Some((TokenKind::LessOrEqual, i + 2))
    } else if c == '<' as u8 {
        Some((TokenKind::Less, i + 1))
    } else if c == '>' as u8 && n == '=' as u8 {
        Some((TokenKind::GreaterOrEqual, i + 2))
    } else if c == '>' as u8 {
        Some((TokenKind::Greater, i + 1))
    } else if c == '=' as u8 {
        Some((TokenKind::Assignment, i + 1))
    } else if c == '.' as u8 {
        Some((TokenKind::Dot, i + 1))
    } else if c == ',' as u8 {
        Some((TokenKind::Comma, i + 1))
    } else {
        None
    }
}

/// Scans one punctuation or operator token at `position`.
fn lex_symbol(characters: &Vec<u8>, position: &mut usize, tokens: &mut Vec<Token>) -> (r: bool)
    requires
        *old(position) < characters@.len(),
    ensures
        r == symbol_at(characters@, *old(position) as int) is Some,
        r ==> {
            let (k, e) = symbol_at(characters@, *old(position) as int)->0;
            &&& *final(position) as int == e
            &&& view_tokens(final(tokens)@) == view_tokens(old(tokens)@).push(
                TokenView { kind: k, text: seq![] },
            )
        },
        !r ==> *final(position) == *old(position) && final(tokens)@ == old(tokens)@,
{
    match symbol(characters, *position) {
        Some((k, e)) => {
            let token = fixed_token(k);
            proof {
                lemma_view_tokens_push(tokens@, token);
            }
            tokens.push(token);
            *position = e;
            true
        },
        None => false,
    }
}

/// Splits `characters` into tokens, scanning left to right and trying at each
/// position white space, a word, a number, a string and a symbol, in that
/// order. Where none matches, the scan stops and the tokens so far are
/// returned.
pub fn lex(characters: &Vec<u8>) -> (r: Vec<Token>)
    ensures
        view_tokens(r@) == lexed(characters@),
{
    let mut tokens: Vec<Token> = Vec::new();
    let mut position: usize = 0;
    let length = characters.len();
    while position < length
        invariant
            length == characters@.len(),
            position <= length,
            view_tokens(tokens@) + lex_from(characters@, position as int) == lexed(characters@),
        decreases length - position,
    {
        let ghost s = characters@;
        let ghost p = position as int;
        let ghost before = view_tokens(tokens@);
        if lex_whitespace(characters, &mut position, &mut tokens) {
            proof {
                lemma_space_end(s, p + 1);
                assert(lex_from(s, p) == lex_from(s, position as int));
            }
        } else if lex_identifier(characters, &mut position, &mut tokens) {
            proof {
                lemma_word_end(s, p + 1);
                let t = word_token(s.subrange(p, position as int));
                assert(lex_from(s, p) == seq![t] + lex_from(s, position as int));
                assert(before + lex_from(s, p) =~= before.push(t) + lex_from(s, position as int));
            }
        } else if lex_number(characters, &mut position, &mut tokens) {
            proof {
                lemma_digit_end(s, p + 1);
                if digit_end(s, p) + 1 < s.len() {
                    lemma_digit_end(s, digit_end(s, p) + 1);
                }
                let t = TokenView { kind: TokenKind::Number, text: s.subrange(p, position as int) };
                assert(lex_from(s, p) == seq![t] + lex_from(s, position as int));
                assert(before + lex_from(s, p) =~= before.push(t) + lex_from(s, position as int));
            }
        } else if lex_string(characters, &mut position, &mut tokens) {
            proof {
                lemma_quote_from(s, p + 1);
                let t = TokenView { kind: TokenKind::String, text: s.subrange(p, position as int) };
                assert(lex_from(s, p) == seq![t] + lex_from(s, position as int));
                assert(before + lex_from(s, p) =~= before.push(t) + lex_from(s, position as int));
            }
        } else if lex_symbol(characters, &mut position, &mut tokens) {
            proof {
                let t = TokenView { kind: (symbol_at(s, p)->0).0, text: seq![] };
                assert(lex_from(s, p) == seq![t] + lex_from(s, position as int));
                assert(before + lex_from(s, p) =~= before.push(t) + lex_from(s, position as int));
            }
        } else {
            proof {
                assert(lex_from(s, p) == Seq::<TokenView>::empty());
                assert(before + lex_from(s, p) =~= before);
            }
            return tokens;
        }
    }
    assert(view_tokens(tokens@) + lex_from(characters@, position as int) =~= view_tokens(tokens@));
    tokens
}

} // verus!
