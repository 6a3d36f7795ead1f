//! Statements in the form that the parser builds, the tokens they are
//! written with, and the laws that tie parsing, rewriting and those tokens
//! together.
use vstd::prelude::*;
use crate::token::{TokenKind, TokenView};
use crate::statement::StatementView;
use crate::transformer::{
    desugared_statement, desugared_body, transformed_statement, transformed,
    returns_have_values, functions_return_values,
};
use crate::laws::transform_is_idempotent;
use crate::grammar::{
    class_at, is_value, is_declaration_scope, is_callable_scope, is_enum_scope, is_modifier,
    is_block, is_configuration, option_value_kind, as_kind_at, type_attribute_at,
    enum_attribute_at, argument_at, type_attributes_from, enum_attributes_from, arguments_from,
    body_statement_at, body_from, type_at, enum_at, subroutine_at, function_at, statement_at,
    statements_from, parsed,
};

verus! {

/// The token of a keyword or symbol.
pub open spec fn kw(k: TokenKind) -> TokenView {
    TokenView { kind: k, text: seq![] }
}

/// `prefix` followed by `t`, or nothing when `t` is absent.
pub open spec fn optional_tokens(prefix: Seq<TokenView>, t: Option<TokenView>) -> Seq<TokenView> {
    match t {
        Some(t) => prefix.push(t),
        None => seq![],
    }
}

/// The tokens that a statement is written with, in its canonical form.
pub open spec fn statement_tokens(s: StatementView) -> Seq<TokenView>
    decreases s, 0int,
{
    match s {
        StatementView::Function { scope, name, arguments, kind, body } => seq![
            scope,
            kw(TokenKind::Function),
            name,
            kw(TokenKind::LeftParentheses),
        ] + argument_list_tokens(arguments) + seq![kw(TokenKind::RightParentheses)]
            + optional_tokens(seq![kw(TokenKind::As)], kind) + statements_tokens(body) + seq![
            kw(TokenKind::End),
            kw(TokenKind::Function),
        ],
        StatementView::Subroutine { scope, name, arguments, body } => seq![
            scope,
            kw(TokenKind::Sub),
            name,
            kw(TokenKind::LeftParentheses),
        ] + argument_list_tokens(arguments) + seq![kw(TokenKind::RightParentheses)]
            + statements_tokens(body) + seq![kw(TokenKind::End), kw(TokenKind::Sub)],
        StatementView::Type { name, attributes } => seq![kw(TokenKind::Type), name]
            + statements_tokens(attributes) + seq![kw(TokenKind::End), kw(TokenKind::Type)],
        StatementView::TypeAttribute { name, kind } => seq![name, kw(TokenKind::As), kind],
        StatementView::Enum { scope, name, attributes } => optional_tokens(seq![], scope) + seq![
            kw(TokenKind::Enum),
            name,
        ] + statements_tokens(attributes) + seq![kw(TokenKind::End), kw(TokenKind::Enum)],
        StatementView::EnumAttribute { name, value } => seq![name] + optional_tokens(
            seq![kw(TokenKind::Assignment)],
            value,
        ),
        StatementView::Argument { modifier, name, kind } => optional_tokens(seq![], modifier)
            + seq![name, kw(TokenKind::As), kind],
        StatementView::Variable { scope, name, kind } => seq![scope, name, kw(TokenKind::As), kind],
        StatementView::Constant { scope, name, kind, length, value } => seq![
            scope,
            kw(TokenKind::Const),
            name,
        ] + optional_tokens(seq![kw(TokenKind::As)], kind) + optional_tokens(
            seq![kw(TokenKind::Times)],
            length,
        ) + seq![kw(TokenKind::Assignment), value],
        StatementView::Assignment { left, right } => seq![left, kw(TokenKind::Assignment), right],
        StatementView::Exit { block } => seq![kw(TokenKind::Exit), block],
        StatementView::Option { configuration, value } => seq![kw(TokenKind::Option), configuration]
            + optional_tokens(seq![], value),
        StatementView::Attribute { name, value } => seq![
            kw(TokenKind::Attribute),
            name,
            kw(TokenKind::Assignment),
            value,
        ],
        _ => seq![],
    }
}

/// The tokens of statements written one after the other.
pub open spec fn statements_tokens(ss: Seq<StatementView>) -> Seq<TokenView>
    decreases ss, 1int,
{
    if ss.len() == 0 {
        seq![]
    } else {
        statement_tokens(ss[0]) + statements_tokens(ss.drop_first())
    }
}

/// The tokens of an argument list: the arguments separated by commas.
pub open spec fn argument_list_tokens(arguments: Seq<StatementView>) -> Seq<TokenView>
    decreases arguments, 2int,
{
    if arguments.len() == 0 {
        seq![]
    } else if arguments.len() == 1 {
        statement_tokens(arguments[0])
    } else {
        statement_tokens(arguments[0]) + seq![kw(TokenKind::Comma)] + argument_list_tokens(
            arguments.drop_first(),
        )
    }
}

pub open spec fn is_identifier(t: TokenView) -> bool {
    t.kind == TokenKind::Identifier
}

pub open spec fn canonical_type_attribute(s: StatementView) -> bool {
    s matches StatementView::TypeAttribute { name, kind } && is_identifier(name) && is_identifier(kind)
}

pub open spec fn canonical_enum_attribute(s: StatementView) -> bool {
    s matches StatementView::EnumAttribute { name, value } && is_identifier(name) && (value is None
        || value->0.kind == TokenKind::Number)
}

pub open spec fn canonical_argument(s: StatementView) -> bool {
    s matches StatementView::Argument { modifier, name, kind } && (modifier is None || is_modifier(
        modifier->0.kind,
    )) && is_identifier(name) && is_identifier(kind)
}

pub open spec fn canonical_variable(s: StatementView) -> bool {
    s matches StatementView::Variable { scope, name, kind } && is_declaration_scope(scope.kind)
        && is_identifier(name) && is_identifier(kind)
}

pub open spec fn canonical_constant(s: StatementView) -> bool {
    s matches StatementView::Constant { scope, name, kind, length, value } && is_declaration_scope(
        scope.kind,
    ) && is_identifier(name) && (kind is None || is_identifier(kind->0)) && length is None
        && is_value(value.kind)
}

pub open spec fn canonical_assignment(s: StatementView) -> bool {
    s matches StatementView::Assignment { left, right } && is_identifier(left) && is_value(right.kind)
}

pub open spec fn canonical_exit(s: StatementView) -> bool {
    s matches StatementView::Exit { block } && is_block(block.kind)
}

pub open spec fn canonical_attribute(s: StatementView) -> bool {
    s matches StatementView::Attribute { name, value } && is_identifier(name) && is_value(value.kind)
}

pub open spec fn canonical_option(s: StatementView) -> bool {
    s matches StatementView::Option { configuration, value } && is_configuration(configuration.kind)
        && match option_value_kind(configuration.kind) {
        None => value is None,
        Some(k) => value is Some && value->0.kind == k,
    }
}

pub open spec fn canonical_return(s: StatementView) -> bool {
    s matches StatementView::Return { value } && (value is None || is_value(value->0.kind))
}

/// A statement of a body in the form that the parser builds, `Return` aside.
pub open spec fn canonical_body_statement(s: StatementView) -> bool {
    canonical_variable(s) || canonical_constant(s) || canonical_assignment(s) || canonical_exit(s)
        || canonical_attribute(s)
}

/// A statement of a body in the form that the parser builds, `Return` with
/// it when `with_returns` holds.
pub open spec fn body_statement_in_form(s: StatementView, with_returns: bool) -> bool {
    canonical_body_statement(s) || (with_returns && canonical_return(s))
}

pub open spec fn all_canonical(ss: Seq<StatementView>, f: spec_fn(StatementView) -> bool) -> bool {
    forall|i: int| 0 <= i < ss.len() ==> f(#[trigger] ss[i])
}

pub open spec fn canonical_callable_parts(
    scope: TokenView,
    name: TokenView,
    arguments: Seq<StatementView>,
    body: Seq<StatementView>,
    with_returns: bool,
) -> bool {
    &&& is_callable_scope(scope.kind)
    &&& is_identifier(name)
    &&& all_canonical(arguments, |a| canonical_argument(a))
    &&& all_canonical(body, |b| body_statement_in_form(b, with_returns))
}

/// A top-level statement in the form that the parser builds, with no
/// `Return` in its body (the generator has no form for one).
pub open spec fn canonical_statement(s: StatementView) -> bool {
    statement_in_form(s, false)
}

/// A top-level statement in the form that the parser builds: each scope
/// from the set that its declaration accepts, each name an identifier, each
/// value a value token; a `Return` inside a body only when `with_returns` holds.
pub open spec fn statement_in_form(s: StatementView, with_returns: bool) -> bool {
    match s {
        StatementView::Type { name, attributes } => is_identifier(name) && all_canonical(
            attributes,
            |a| canonical_type_attribute(a),
        ),
        StatementView::Enum { scope, name, attributes } => (scope is None || is_enum_scope(
            scope->0.kind,
        )) && is_identifier(name) && all_canonical(attributes, |a| canonical_enum_attribute(a)),
        StatementView::Subroutine { scope, name, arguments, body } => canonical_callable_parts(
            scope,
            name,
            arguments,
            body,
            with_returns,
        ),
        StatementView::Function { scope, name, arguments, kind, body } => canonical_callable_parts(
            scope,
            name,
            arguments,
            body,
            with_returns,
        ) && (kind is None || is_identifier(kind->0)),
        _ => canonical_variable(s) || canonical_constant(s) || canonical_attribute(s)
            || canonical_option(s),
    }
}

proof fn lemma_type_attributes(a: Seq<TokenView>, attributes: Seq<StatementView>, b: Seq<TokenView>)
    requires
        all_canonical(attributes, |s| canonical_type_attribute(s)),
        b.len() > 0,
        b[0].kind == TokenKind::End,
    ensures
        type_attributes_from(a + statements_tokens(attributes) + b, a.len() as int) == (
            attributes,
            (a.len() + statements_tokens(attributes).len()) as int,
        ),
    decreases attributes.len(),
{
    let t = a + statements_tokens(attributes) + b;
    let p = a.len() as int;
    if attributes.len() == 0 {
        assert(t =~= a + b);
        assert(t[p] == b[0]);
    } else {
        let first = attributes[0];
        let rest = attributes.drop_first();
        let x = statement_tokens(first);
        assert(canonical_type_attribute(first));
        assert forall|i: int| 0 <= i < rest.len() implies canonical_type_attribute(#[trigger] rest[i]) by {
            assert(rest[i] == attributes[i + 1]);
            assert(canonical_type_attribute(attributes[i + 1]));
        }
        lemma_type_attributes(a + x, rest, b);
        assert(t =~= (a + x) + statements_tokens(rest) + b);
        assert(x.len() == 3);
        assert(t[p] == x[0] && t[p + 1] == x[1] && t[p + 2] == x[2]);
        assert(type_attribute_at(t, p) == Some((first, p + 3)));
        assert(seq![first] + rest =~= attributes);
    }
}

proof fn lemma_enum_attributes(a: Seq<TokenView>, attributes: Seq<StatementView>, b: Seq<TokenView>)
    requires
        all_canonical(attributes, |s| canonical_enum_attribute(s)),
        b.len() > 0,
        b[0].kind == TokenKind::End,
    ensures
        enum_attributes_from(a + statements_tokens(attributes) + b, a.len() as int) == (
            attributes,
            (a.len() + statements_tokens(attributes).len()) as int,
        ),
    decreases attributes.len(),
{
    let t = a + statements_tokens(attributes) + b;
    let p = a.len() as int;
    if attributes.len() == 0 {
        assert(t =~= a + b);
        assert(t[p] == b[0]);
    } else {
        let first = attributes[0];
        let rest = attributes.drop_first();
        let x = statement_tokens(first);
        assert(canonical_enum_attribute(first));
        assert forall|i: int| 0 <= i < rest.len() implies canonical_enum_attribute(#[trigger] rest[i]) by {
            assert(rest[i] == attributes[i + 1]);
            assert(canonical_enum_attribute(attributes[i + 1]));
        }
        lemma_enum_attributes(a + x, rest, b);
        assert(t =~= (a + x) + statements_tokens(rest) + b);
        let y = statements_tokens(rest) + b;
        assert(y.len() > 0 && y[0].kind != TokenKind::Assignment) by {
            if rest.len() == 0 {
                assert(y =~= b);
            } else {
                assert(canonical_enum_attribute(rest[0]));
                assert(statements_tokens(rest)[0] == statement_tokens(rest[0])[0]);
            }
        }
        assert(t =~= a + x + y);
        assert forall|i: int| 0 <= i < x.len() implies t[p + i] == x[i] by {}
        assert(t[p + x.len()] == y[0]);
        assert(enum_attribute_at(t, p) == Some((first, p + x.len())));
        assert(seq![first] + rest =~= attributes);
    }
}

proof fn lemma_argument_at(a: Seq<TokenView>, argument: StatementView, b: Seq<TokenView>)
    requires
        canonical_argument(argument),
        b.len() > 0,
        b[0].kind == TokenKind::Comma || b[0].kind == TokenKind::RightParentheses,
    ensures
        argument_at(a + statement_tokens(argument) + b, a.len() as int) == Some(
            (
                argument,
                a.len() + statement_tokens(argument).len() + (if b[0].kind == TokenKind::Comma {
                    1int
                } else {
                    0int
                }),
            ),
        ),
{
    let t = a + statement_tokens(argument) + b;
    let p = a.len() as int;
    let x = statement_tokens(argument);
    assert forall|i: int| 0 <= i < x.len() implies t[p + i] == x[i] by {}
    assert(t[p + x.len()] == b[0]);
}

proof fn lemma_arguments(a: Seq<TokenView>, arguments: Seq<StatementView>, b: Seq<TokenView>)
    requires
        all_canonical(arguments, |s| canonical_argument(s)),
        b.len() > 0,
        b[0].kind == TokenKind::RightParentheses,
    ensures
        arguments_from(a + argument_list_tokens(arguments) + b, a.len() as int) == (
            arguments,
            (a.len() + argument_list_tokens(arguments).len()) as int,
        ),
    decreases arguments.len(),
{
    let t = a + argument_list_tokens(arguments) + b;
    let p = a.len() as int;
    if arguments.len() == 0 {
        assert(t =~= a + b);
        assert(t[p] == b[0]);
    } else {
        let first = arguments[0];
        let rest = arguments.drop_first();
        let x = statement_tokens(first);
        assert(canonical_argument(first));
        assert forall|i: int| 0 <= i < rest.len() implies canonical_argument(#[trigger] rest[i]) by {
            assert(rest[i] == arguments[i + 1]);
            assert(canonical_argument(arguments[i + 1]));
        }
        if arguments.len() == 1 {
            lemma_argument_at(a, first, b);
            let q = p + x.len();
            assert(t =~= a + x + b);
            assert(t[q] == b[0]);
            assert(argument_at(t, q) is None);
            assert(arguments_from(t, q) == (Seq::<StatementView>::empty(), q));
            assert(arguments =~= seq![first] + Seq::<StatementView>::empty());
            assert(x.len() > 0);
        } else {
            let c = seq![kw(TokenKind::Comma)];
            lemma_argument_at(a, first, c + argument_list_tokens(rest) + b);
            assert(t =~= a + x + (c + argument_list_tokens(rest) + b));
            lemma_arguments(a + x + c, rest, b);
            assert(t =~= (a + x + c) + argument_list_tokens(rest) + b);
            assert(seq![first] + rest =~= arguments);
        }
    }
}

proof fn lemma_body_statement_at(
    a: Seq<TokenView>,
    s: StatementView,
    b: Seq<TokenView>,
    in_function: bool,
)
    requires
        canonical_body_statement(s),
    ensures
        body_statement_at(a + statement_tokens(s) + b, a.len() as int, in_function) == Some(
            (s, (a.len() + statement_tokens(s).len()) as int),
        ),
{
    let t = a + statement_tokens(s) + b;
    let p = a.len() as int;
    let x = statement_tokens(s);
    assert forall|i: int| 0 <= i < x.len() implies t[p + i] == x[i] by {}
}

proof fn lemma_body(
    a: Seq<TokenView>,
    body: Seq<StatementView>,
    b: Seq<TokenView>,
    in_function: bool,
)
    requires
        all_canonical(body, |s| canonical_body_statement(s)),
        b.len() > 0,
        b[0].kind == TokenKind::End,
    ensures
        body_from(a + statements_tokens(body) + b, a.len() as int, in_function) == (
            body,
            (a.len() + statements_tokens(body).len()) as int,
        ),
    decreases body.len(),
{
    let t = a + statements_tokens(body) + b;
    let p = a.len() as int;
    if body.len() == 0 {
        assert(t =~= a + b);
        assert(t[p] == b[0]);
    } else {
        let first = body[0];
        let rest = body.drop_first();
        let x = statement_tokens(first);
        assert(canonical_body_statement(first));
        assert forall|i: int| 0 <= i < rest.len() implies canonical_body_statement(#[trigger] rest[i]) by {
            assert(rest[i] == body[i + 1]);
            assert(canonical_body_statement(body[i + 1]));
        }
        lemma_body_statement_at(a, first, statements_tokens(rest) + b, in_function);
        assert(t =~= a + x + (statements_tokens(rest) + b));
        lemma_body(a + x, rest, b, in_function);
        assert(t =~= (a + x) + statements_tokens(rest) + b);
        assert(x.len() > 0);
        assert(seq![first] + rest =~= body);
    }
}

proof fn lemma_type_at(a: Seq<TokenView>, s: StatementView, b: Seq<TokenView>)
    requires
        canonical_statement(s),
        s is Type,
    ensures
        type_at(a + statement_tokens(s) + b, a.len() as int) == Some(
            (s, (a.len() + statement_tokens(s).len()) as int),
        ),
{
    let t = a + statement_tokens(s) + b;
    let p = a.len() as int;
    let x = statement_tokens(s);
    assert forall|i: int| 0 <= i < x.len() implies t[p + i] == x[i] by {}
    match s {
        StatementView::Type { name, attributes } => {
        let head = seq![kw(TokenKind::Type), name];
        let tail = seq![kw(TokenKind::End), kw(TokenKind::Type)];
        assert(x == head + statements_tokens(attributes) + tail);
        lemma_type_attributes(a + head, attributes, tail + b);
        assert(t =~= (a + head) + statements_tokens(attributes) + (tail + b));
        let q = p + 2 + statements_tokens(attributes).len();
        assert(t[q] == tail[0] && t[q + 1] == tail[1]);
        assert(type_at(t, p) == Some((s, q + 2)));
        },
        _ => {},
    }
}

proof fn lemma_enum_at(a: Seq<TokenView>, s: StatementView, b: Seq<TokenView>)
    requires
        canonical_statement(s),
        s is Enum,
    ensures
        enum_at(a + statement_tokens(s) + b, a.len() as int) == Some(
            (s, (a.len() + statement_tokens(s).len()) as int),
        ),
{
    let t = a + statement_tokens(s) + b;
    let p = a.len() as int;
    let x = statement_tokens(s);
    assert forall|i: int| 0 <= i < x.len() implies t[p + i] == x[i] by {}
    match s {
        StatementView::Enum { scope, name, attributes } => {
        let head = optional_tokens(seq![], scope) + seq![kw(TokenKind::Enum), name];
        let tail = seq![kw(TokenKind::End), kw(TokenKind::Enum)];
        assert(x == head + statements_tokens(attributes) + tail);
        lemma_enum_attributes(a + head, attributes, tail + b);
        assert(t =~= (a + head) + statements_tokens(attributes) + (tail + b));
        let q = p + head.len() + statements_tokens(attributes).len();
        assert(t[q] == tail[0] && t[q + 1] == tail[1]);
        assert(enum_at(t, p) == Some((s, q + 2)));
        },
        _ => {},
    }
}

/// The tokens of `head + middle + tail` at the start of `t`, after `a`.
proof fn lemma_split(
    a: Seq<TokenView>,
    x: Seq<TokenView>,
    b: Seq<TokenView>,
    head: Seq<TokenView>,
    middle: Seq<TokenView>,
    tail: Seq<TokenView>,
)
    requires
        x =~= head + middle + tail,
    ensures
        a + x + b == (a + head) + middle + (tail + b),
{
    assert(a + x + b =~= (a + head) + middle + (tail + b));
}

/// Where the argument list and the body of a callable end, inside the tokens
/// `a + (head + args + close + stmts + tail) + b`.
#[verifier::rlimit(60)]
proof fn lemma_callable_parts(
    a: Seq<TokenView>,
    head: Seq<TokenView>,
    arguments: Seq<StatementView>,
    close: Seq<TokenView>,
    body: Seq<StatementView>,
    tail: Seq<TokenView>,
    b: Seq<TokenView>,
    in_function: bool,
)
    requires
        all_canonical(arguments, |s| canonical_argument(s)),
        all_canonical(body, |s| canonical_body_statement(s)),
        close.len() > 0,
        close[0].kind == TokenKind::RightParentheses,
        tail.len() > 0,
        tail[0].kind == TokenKind::End,
    ensures
        ({
            let args = argument_list_tokens(arguments);
            let stmts = statements_tokens(body);
            let t = a + (head + args + close + stmts + tail) + b;
            let q = (a.len() + head.len() + args.len()) as int;
            let k = q + close.len();
            &&& arguments_from(t, (a.len() + head.len()) as int) == (arguments, q)
            &&& body_from(t, k, in_function) == (body, k + stmts.len())
            &&& forall|i: int| 0 <= i < head.len() ==> t[a.len() + i] == head[i]
            &&& forall|i: int| 0 <= i < close.len() ==> t[q + i] == close[i]
            &&& forall|i: int| 0 <= i < tail.len() ==> t[k + stmts.len() + i] == tail[i]
            &&& stmts.len() > 0 ==> t[k] == stmts[0]
            &&& stmts.len() == 0 ==> t[k] == tail[0]
        }),
{
    let args = argument_list_tokens(arguments);
    let stmts = statements_tokens(body);
    let x = head + args + close + stmts + tail;
    let t = a + x + b;
    lemma_split(a, x, b, head, args, close + stmts + tail);
    lemma_arguments(a + head, arguments, close + stmts + tail + b);
    lemma_split(a, x, b, head + args + close, stmts, tail);
    assert(a + head + args + close =~= a + (head + args + close));
    lemma_body(a + head + args + close, body, tail + b, in_function);
}

proof fn lemma_subroutine_at(a: Seq<TokenView>, s: StatementView, b: Seq<TokenView>)
    requires
        canonical_statement(s),
        s is Subroutine,
    ensures
        subroutine_at(a + statement_tokens(s) + b, a.len() as int) == Some(
            (s, (a.len() + statement_tokens(s).len()) as int),
        ),
{
    match s {
        StatementView::Subroutine { scope, name, arguments, body } => {
            let head = seq![scope, kw(TokenKind::Sub), name, kw(TokenKind::LeftParentheses)];
            let close = seq![kw(TokenKind::RightParentheses)];
            let tail = seq![kw(TokenKind::End), kw(TokenKind::Sub)];
            lemma_callable_parts(a, head, arguments, close, body, tail, b, false);
            let t = a + statement_tokens(s) + b;
            let p = a.len() as int;
            assert(t[p] == head[0] && t[p + 1] == head[1] && t[p + 2] == head[2] && t[p + 3] == head[3]);
        },
        _ => {},
    }
}

#[verifier::rlimit(100)]
proof fn lemma_function_at(a: Seq<TokenView>, s: StatementView, b: Seq<TokenView>)
    requires
        canonical_statement(s),
        s is Function,
    ensures
        function_at(a + statement_tokens(s) + b, a.len() as int) == Some(
            (s, (a.len() + statement_tokens(s).len()) as int),
        ),
{
    match s {
        StatementView::Function { scope, name, arguments, kind, body } => {
            let head = seq![scope, kw(TokenKind::Function), name, kw(TokenKind::LeftParentheses)];
            let close = seq![kw(TokenKind::RightParentheses)] + optional_tokens(
                seq![kw(TokenKind::As)],
                kind,
            );
            let tail = seq![kw(TokenKind::End), kw(TokenKind::Function)];
            let args = argument_list_tokens(arguments);
            let stmts = statements_tokens(body);
            assert(statement_tokens(s) =~= head + args + close + stmts + tail);
            lemma_callable_parts(a, head, arguments, close, body, tail, b, true);
            let t = a + statement_tokens(s) + b;
            let p = a.len() as int;
            let q = p + 4 + args.len();
            let k = q + close.len();
            assert(t[p] == head[0] && t[p + 1] == head[1] && t[p + 2] == head[2] && t[p + 3] == head[3]);
            assert(t[q] == close[0]);
            if kind is Some {
                assert(t[q + 1] == close[1] && t[q + 2] == close[2]);
                assert(as_kind_at(t, q + 1) == (kind, k));
            }
            assert(t[k].kind != TokenKind::As) by {
                if body.len() > 0 {
                    assert(canonical_body_statement(body[0]));
                    assert(stmts[0] == statement_tokens(body[0])[0]);
                }
            }
            assert(as_kind_at(t, q + 1) == (kind, k));
            assert(t[k + stmts.len()] == tail[0] && t[k + stmts.len() + 1] == tail[1]);
        },
        _ => {},
    }
}

proof fn lemma_statement_at(a: Seq<TokenView>, s: StatementView, b: Seq<TokenView>)
    requires
        canonical_statement(s),
    ensures
        statement_at(a + statement_tokens(s) + b, a.len() as int) == Some(
            (s, (a.len() + statement_tokens(s).len()) as int),
        ),
{
    reveal(statement_at);
    let t = a + statement_tokens(s) + b;
    let p = a.len() as int;
    let x = statement_tokens(s);
    assert forall|i: int| 0 <= i < x.len() implies t[p + i] == x[i] by {}
    match s {
        StatementView::Type { .. } => lemma_type_at(a, s, b),
        StatementView::Enum { .. } => lemma_enum_at(a, s, b),
        StatementView::Subroutine { .. } => lemma_subroutine_at(a, s, b),
        StatementView::Function { .. } => lemma_function_at(a, s, b),
        _ => {},
    }
}

proof fn lemma_statements(a: Seq<TokenView>, ss: Seq<StatementView>)
    requires
        all_canonical(ss, |s| canonical_statement(s)),
    ensures
        statements_from(a + statements_tokens(ss), a.len() as int) == ss,
    decreases ss.len(),
{
    let t = a + statements_tokens(ss);
    let p = a.len() as int;
    if ss.len() == 0 {
        assert(t =~= a);
        assert(ss =~= Seq::<StatementView>::empty());
    } else {
        let first = ss[0];
        let rest = ss.drop_first();
        let x = statement_tokens(first);
        assert(canonical_statement(first));
        assert forall|i: int| 0 <= i < rest.len() implies canonical_statement(#[trigger] rest[i]) by {
            assert(rest[i] == ss[i + 1]);
            assert(canonical_statement(ss[i + 1]));
        }
        lemma_statement_at(a, first, statements_tokens(rest));
        assert(t =~= a + x + statements_tokens(rest));
        lemma_statements(a + x, rest);
        assert(t =~= (a + x) + statements_tokens(rest));
        assert(x.len() > 0);
        assert(seq![first] + rest =~= ss);
    }
}

/// Statements in the form that the parser builds, written out as their
/// tokens, parse back into the same statements.
pub proof fn parse_of_statement_tokens(ss: Seq<StatementView>)
    requires
        all_canonical(ss, |s| canonical_statement(s)),
    ensures
        parsed(statements_tokens(ss)) == ss,
{
    lemma_statements(Seq::<TokenView>::empty(), ss);
    assert(Seq::<TokenView>::empty() + statements_tokens(ss) =~= statements_tokens(ss));
}

proof fn lemma_all_prepend(a: StatementView, rest: Seq<StatementView>, f: spec_fn(StatementView) -> bool)
    requires
        f(a),
        all_canonical(rest, f),
    ensures
        all_canonical(seq![a] + rest, f),
{
    assert forall|i: int| 0 <= i < (seq![a] + rest).len() implies f(#[trigger] (seq![a] + rest)[i]) by {
        if i > 0 {
            assert((seq![a] + rest)[i] == rest[i - 1]);
        }
    }
}

proof fn lemma_type_attributes_form(t: Seq<TokenView>, p: int)
    ensures
        all_canonical(type_attributes_from(t, p).0, |s| canonical_type_attribute(s)),
        type_attributes_from(t, p).1 >= p,
    decreases t.len() - p,
{
    match type_attribute_at(t, p) {
        Some((a, q)) => {
            if p < q <= t.len() {
                lemma_type_attributes_form(t, q);
                lemma_all_prepend(a, type_attributes_from(t, q).0, |s| canonical_type_attribute(s));
            }
        },
        None => {},
    }
}

proof fn lemma_enum_attributes_form(t: Seq<TokenView>, p: int)
    ensures
        all_canonical(enum_attributes_from(t, p).0, |s| canonical_enum_attribute(s)),
        enum_attributes_from(t, p).1 >= p,
    decreases t.len() - p,
{
    match enum_attribute_at(t, p) {
        Some((a, q)) => {
            if p < q <= t.len() {
                lemma_enum_attributes_form(t, q);
                lemma_all_prepend(a, enum_attributes_from(t, q).0, |s| canonical_enum_attribute(s));
            }
        },
        None => {},
    }
}

proof fn lemma_arguments_form(t: Seq<TokenView>, p: int)
    ensures
        all_canonical(arguments_from(t, p).0, |s| canonical_argument(s)),
        arguments_from(t, p).1 >= p,
    decreases t.len() - p,
{
    match argument_at(t, p) {
        Some((a, q)) => {
            if p < q <= t.len() {
                lemma_arguments_form(t, q);
                lemma_all_prepend(a, arguments_from(t, q).0, |s| canonical_argument(s));
            }
        },
        None => {},
    }
}

proof fn lemma_body_form(t: Seq<TokenView>, p: int, in_function: bool)
    ensures
        all_canonical(body_from(t, p, in_function).0, |s| body_statement_in_form(s, true)),
        body_from(t, p, in_function).1 >= p,
    decreases t.len() - p,
{
    if 0 <= p < t.len() {
        match body_statement_at(t, p, in_function) {
            Some((a, q)) => {
                if p < q <= t.len() {
                    lemma_body_form(t, q, in_function);
                    lemma_all_prepend(a, body_from(t, q, in_function).0, |s| body_statement_in_form(s, true));
                }
            },
            None => {},
        }
    }
}

proof fn lemma_statement_at_form(t: Seq<TokenView>, p: int)
    requires
        statement_at(t, p) is Some,
    ensures
        statement_in_form((statement_at(t, p)->0).0, true),
{
    reveal(statement_at);
    lemma_type_attributes_form(t, p + 2);
    if class_at(t, p, |k| is_enum_scope(k)) {
        lemma_enum_attributes_form(t, p + 3);
    } else {
        lemma_enum_attributes_form(t, p + 2);
    }
    lemma_arguments_form(t, p + 4);
    let q = arguments_from(t, p + 4).1;
    lemma_body_form(t, q + 1, false);
    lemma_body_form(t, as_kind_at(t, q + 1).1, true);
}

proof fn lemma_statements_form(t: Seq<TokenView>, p: int)
    ensures
        all_canonical(statements_from(t, p), |s| statement_in_form(s, true)),
    decreases t.len() - p,
{
    if 0 <= p < t.len() {
        match statement_at(t, p) {
            Some((a, q)) => {
                if p < q <= t.len() {
                    lemma_statement_at_form(t, p);
                    lemma_statements_form(t, q);
                    lemma_all_prepend(a, statements_from(t, q), |s| statement_in_form(s, true));
                }
            },
            None => {},
        }
    }
}

/// Whatever the tokens, each statement that the parser builds has the
/// accepted shape: a variable or constant scoped `Public`, `Private`,
/// `Static` or `Dim`; a subroutine or function scoped `Public`, `Private` or
/// `Static`; an enumeration scoped `Public`, `Private` or not at all; names
/// and kinds that are identifiers; values that are identifiers, numbers or
/// strings; the value that each `Option` setting takes; and only such
/// statements inside types, enumerations, argument lists and bodies.
pub proof fn parse_builds_statements_in_form(t: Seq<TokenView>)
    ensures
        all_canonical(parsed(t), |s| statement_in_form(s, true)),
{
    lemma_statements_form(t, 0);
}

/// No subroutine among `statements` holds a `Return`: the generator has no
/// form for one.
pub open spec fn subroutines_without_returns(statements: Seq<StatementView>) -> bool {
    forall|i: int|
        0 <= i < statements.len() ==> (#[trigger] statements[i] matches StatementView::Subroutine {
            body,
            ..
        } ==> all_canonical(body, |b| body_statement_in_form(b, false)))
}

proof fn lemma_desugared_body_form(name: TokenView, body: Seq<StatementView>)
    requires
        is_identifier(name),
        all_canonical(body, |b| body_statement_in_form(b, true)),
        returns_have_values(body),
    ensures
        all_canonical(desugared_body(name, body), |b| body_statement_in_form(b, false)),
    decreases body.len(),
{
    if body.len() > 0 {
        let init = body.drop_last();
        assert forall|i: int| 0 <= i < init.len() implies body_statement_in_form(#[trigger] init[i], true) by {
            assert(init[i] == body[i]);
        }
        assert forall|i: int| 0 <= i < init.len() implies !(#[trigger] init[i] matches StatementView::Return { value: None }) by {
            assert(init[i] == body[i]);
        }
        lemma_desugared_body_form(name, init);
        let last = body[body.len() - 1];
        assert(body_statement_in_form(last, true));
        assert(!(last matches StatementView::Return { value: None }));
        let a = desugared_body(name, init);
        let b = desugared_statement(name, last);
        assert(all_canonical(b, |x| body_statement_in_form(x, false)));
        assert forall|i: int| 0 <= i < (a + b).len() implies body_statement_in_form(#[trigger] (a + b)[i], false) by {
            if i < a.len() {
                assert((a + b)[i] == a[i]);
            } else {
                assert((a + b)[i] == b[i - a.len()]);
            }
        }
    }
}

/// Statements in the form that the parser builds, once rewritten, are in the
/// form that the generator writes out, and their tokens parse back into them;
/// rewriting again changes nothing. So rewriting, writing out as tokens,
/// parsing and rewriting again gives back what the first rewrite gave.
pub proof fn rewrite_then_reparse_is_stable(statements: Seq<StatementView>)
    requires
        all_canonical(statements, |s| statement_in_form(s, true)),
        functions_return_values(statements),
        subroutines_without_returns(statements),
    ensures
        all_canonical(transformed(statements), |s| canonical_statement(s)),
        parsed(statements_tokens(transformed(statements))) == transformed(statements),
        transformed(parsed(statements_tokens(transformed(statements)))) == transformed(statements),
{
    let once = transformed(statements);
    assert forall|i: int| 0 <= i < once.len() implies canonical_statement(#[trigger] once[i]) by {
        let s = statements[i];
        assert(statement_in_form(s, true));
        assert(once[i] == transformed_statement(s));
        match s {
            StatementView::Function { scope, name, arguments, kind, body } => {
                assert(returns_have_values(body));
                lemma_desugared_body_form(name, body);
            },
            StatementView::Subroutine { .. } => {
                assert(subroutines_without_returns(statements));
            },
            _ => {},
        }
    }
    parse_of_statement_tokens(once);
    transform_is_idempotent(statements);
}

} // verus!
