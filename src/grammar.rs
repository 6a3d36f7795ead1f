//! The grammar, as spec functions over token views: each construct at a
//! position either matches, giving a statement and the position after it, or
//! does not.
use vstd::prelude::*;
use crate::token::{TokenKind, TokenView};
use crate::statement::StatementView;
use crate::transformer::{returns_have_values, functions_return_values};

verus! {

/// The token at `p` has tag `k`.
pub open spec fn kind_at(t: Seq<TokenView>, p: int, k: TokenKind) -> bool {
    0 <= p < t.len() && t[p].kind == k
}

/// A tag that may stand as a value: an identifier, a number or a string.
pub open spec fn is_value(k: TokenKind) -> bool {
    k == TokenKind::Identifier || k == TokenKind::Number || k == TokenKind::String
}

/// The scopes of a variable or constant declaration.
pub open spec fn is_declaration_scope(k: TokenKind) -> bool {
    k == TokenKind::Public || k == TokenKind::Private || k == TokenKind::Static || k
        == TokenKind::Dim
}

/// The scopes of a subroutine or function.
pub open spec fn is_callable_scope(k: TokenKind) -> bool {
    k == TokenKind::Public || k == TokenKind::Private || k == TokenKind::Static
}

/// The scopes that an enumeration may be given.
pub open spec fn is_enum_scope(k: TokenKind) -> bool {
    k == TokenKind::Public || k == TokenKind::Private
}

pub open spec fn is_modifier(k: TokenKind) -> bool {
    k == TokenKind::ByVal || k == TokenKind::ByRef
}

/// The blocks that `Exit` may leave.
pub open spec fn is_block(k: TokenKind) -> bool {
    k == TokenKind::Sub || k == TokenKind::Function
}

/// The settings that `Option` may name.
pub open spec fn is_configuration(k: TokenKind) -> bool {
    k == TokenKind::Explicit || k == TokenKind::Base || k == TokenKind::Compare || k
        == TokenKind::Private
}

/// The token at `p` has a tag that `f` accepts.
pub open spec fn class_at(t: Seq<TokenView>, p: int, f: spec_fn(TokenKind) -> bool) -> bool {
    0 <= p < t.len() && f(t[p].kind)
}

/// The first of two alternatives that matches.
pub open spec fn first_of<A>(a: Option<A>, b: Option<A>) -> Option<A> {
    if a is Some {
        a
    } else {
        b
    }
}

/// An optional `As Kind` at `p`: the kind, if an identifier follows `As`, and
/// the index after what was read.
pub open spec fn as_kind_at(t: Seq<TokenView>, p: int) -> (Option<TokenView>, int) {
    if kind_at(t, p, TokenKind::As) {
        if kind_at(t, p + 1, TokenKind::Identifier) {
            (Some(t[p + 1]), p + 2)
        } else {
            (None, p + 1)
        }
    } else {
        (None, p)
    }
}

/// `name As Kind` inside a type.
pub open spec fn type_attribute_at(t: Seq<TokenView>, p: int) -> Option<(StatementView, int)> {
    if kind_at(t, p, TokenKind::Identifier) && kind_at(t, p + 1, TokenKind::As) && kind_at(
        t,
        p + 2,
        TokenKind::Identifier,
    ) {
        Some((StatementView::TypeAttribute { name: t[p], kind: t[p + 2] }, p + 3))
    } else {
        None
    }
}

/// `name` or `name = Number` inside an enumeration.
pub open spec fn enum_attribute_at(t: Seq<TokenView>, p: int) -> Option<(StatementView, int)> {
    if !kind_at(t, p, TokenKind::Identifier) {
        None
    } else if kind_at(t, p + 1, TokenKind::Assignment) {
        if kind_at(t, p + 2, TokenKind::Number) {
            Some((StatementView::EnumAttribute { name: t[p], value: Some(t[p + 2]) }, p + 3))
        } else {
            None
        }
    } else {
        Some((StatementView::EnumAttribute { name: t[p], value: None }, p + 1))
    }
}

/// `[ByVal|ByRef] name As Kind`, with an optional comma after it.
pub open spec fn argument_at(t: Seq<TokenView>, p: int) -> Option<(StatementView, int)> {
    let (modifier, s) = if class_at(t, p, |k| is_modifier(k)) {
        (Some(t[p]), p + 1)
    } else {
        (None, p)
    };
    if kind_at(t, s, TokenKind::Identifier) && kind_at(t, s + 1, TokenKind::As) && kind_at(
        t,
        s + 2,
        TokenKind::Identifier,
    ) {
        let e = if kind_at(t, s + 3, TokenKind::Comma) {
            s + 4
        } else {
            s + 3
        };
        Some((StatementView::Argument { modifier: modifier, name: t[s], kind: t[s + 2] }, e))
    } else {
        None
    }
}

pub open spec fn type_attributes_from(t: Seq<TokenView>, p: int) -> (Seq<StatementView>, int)
    decreases t.len() - p,
{
    match type_attribute_at(t, p) {
        Some((a, q)) => if p < q <= t.len() {
            let (rest, e) = type_attributes_from(t, q);
            (seq![a] + rest, e)
        } else {
            (seq![], p)
        },
        None => (seq![], p),
    }
}

pub open spec fn enum_attributes_from(t: Seq<TokenView>, p: int) -> (Seq<StatementView>, int)
    decreases t.len() - p,
{
    match enum_attribute_at(t, p) {
        Some((a, q)) => if p < q <= t.len() {
            let (rest, e) = enum_attributes_from(t, q);
            (seq![a] + rest, e)
        } else {
            (seq![], p)
        },
        None => (seq![], p),
    }
}

pub open spec fn arguments_from(t: Seq<TokenView>, p: int) -> (Seq<StatementView>, int)
    decreases t.len() - p,
{
    match argument_at(t, p) {
        Some((a, q)) => if p < q <= t.len() {
            let (rest, e) = arguments_from(t, q);
            (seq![a] + rest, e)
        } else {
            (seq![], p)
        },
        None => (seq![], p),
    }
}

/// `Type name`, its attributes, `End Type`.
pub open spec fn type_at(t: Seq<TokenView>, p: int) -> Option<(StatementView, int)> {
    if kind_at(t, p, TokenKind::Type) && kind_at(t, p + 1, TokenKind::Identifier) {
        let (attributes, q) = type_attributes_from(t, p + 2);
        if kind_at(t, q, TokenKind::End) && kind_at(t, q + 1, TokenKind::Type) {
            Some((StatementView::Type { name: t[p + 1], attributes: attributes }, q + 2))
        } else {
            None
        }
    } else {
        None
    }
}

/// `[Public|Private] Enum name`, its attributes, `End Enum`.
pub open spec fn enum_at(t: Seq<TokenView>, p: int) -> Option<(StatementView, int)> {
    let (scope, s) = if class_at(t, p, |k| is_enum_scope(k)) {
        (Some(t[p]), p + 1)
    } else {
        (None, p)
    };
    if kind_at(t, s, TokenKind::Enum) && kind_at(t, s + 1, TokenKind::Identifier) {
        let (attributes, q) = enum_attributes_from(t, s + 2);
        if kind_at(t, q, TokenKind::End) && kind_at(t, q + 1, TokenKind::Enum) {
            Some(
                (
                    StatementView::Enum { scope: scope, name: t[s + 1], attributes: attributes },
                    q + 2,
                ),
            )
        } else {
            None
        }
    } else {
        None
    }
}

/// `scope name As Kind`.
pub open spec fn variable_at(t: Seq<TokenView>, p: int) -> Option<(StatementView, int)> {
    if class_at(t, p, |k| is_declaration_scope(k)) && kind_at(t, p + 1, TokenKind::Identifier)
        && kind_at(t, p + 2, TokenKind::As) && kind_at(t, p + 3, TokenKind::Identifier) {
        Some((StatementView::Variable { scope: t[p], name: t[p + 1], kind: t[p + 3] }, p + 4))
    } else {
        None
    }
}

/// `scope Const name [As Kind] = value`.
pub open spec fn constant_at(t: Seq<TokenView>, p: int) -> Option<(StatementView, int)> {
    if class_at(t, p, |k| is_declaration_scope(k)) && kind_at(t, p + 1, TokenKind::Const)
        && kind_at(t, p + 2, TokenKind::Identifier) {
        let (kind, q) = as_kind_at(t, p + 3);
        if kind_at(t, q, TokenKind::Assignment) && class_at(t, q + 1, |k| is_value(k)) {
            Some(
                (
                    StatementView::Constant {
                        scope: t[p],
                        name: t[p + 2],
                        kind: kind,
                        length: None,
                        value: t[q + 1],
                    },
                    q + 2,
                ),
            )
        } else {
            None
        }
    } else {
        None
    }
}

/// `name = value`.
pub open spec fn assignment_at(t: Seq<TokenView>, p: int) -> Option<(StatementView, int)> {
    if kind_at(t, p, TokenKind::Identifier) && kind_at(t, p + 1, TokenKind::Assignment)
        && class_at(t, p + 2, |k| is_value(k)) {
        Some((StatementView::Assignment { left: t[p], right: t[p + 2] }, p + 3))
    } else {
        None
    }
}

/// `Exit Sub` or `Exit Function`.
pub open spec fn exit_at(t: Seq<TokenView>, p: int) -> Option<(StatementView, int)> {
    if kind_at(t, p, TokenKind::Exit) && class_at(t, p + 1, |k| is_block(k)) {
        Some((StatementView::Exit { block: t[p + 1] }, p + 2))
    } else {
        None
    }
}

/// `Return`, with a value if one follows; inside a function the value is
/// required, as only a subroutine returns without one.
pub open spec fn return_at(t: Seq<TokenView>, p: int, in_function: bool) -> Option<
    (StatementView, int),
> {
    if !kind_at(t, p, TokenKind::Return) {
        None
    } else if class_at(t, p + 1, |k| is_value(k)) {
        Some((StatementView::Return { value: Some(t[p + 1]) }, p + 2))
    } else if in_function {
        None
    } else {
        Some((StatementView::Return { value: None }, p + 1))
    }
}

/// `Attribute name = value`.
pub open spec fn attribute_at(t: Seq<TokenView>, p: int) -> Option<(StatementView, int)> {
    if kind_at(t, p, TokenKind::Attribute) && kind_at(t, p + 1, TokenKind::Identifier) && kind_at(
        t,
        p + 2,
        TokenKind::Assignment,
    ) && class_at(t, p + 3, |k| is_value(k)) {
        Some((StatementView::Attribute { name: t[p + 1], value: t[p + 3] }, p + 4))
    } else {
        None
    }
}

/// The value that each `Option` setting takes: none after `Explicit`, a number
/// after `Base`, an identifier after `Compare`, `Module` after `Private`.
pub open spec fn option_value_kind(configuration: TokenKind) -> Option<TokenKind> {
    if configuration == TokenKind::Base {
        Some(TokenKind::Number)
    } else if configuration == TokenKind::Compare {
        Some(TokenKind::Identifier)
    } else if configuration == TokenKind::Private {
        Some(TokenKind::Module)
    } else {
        None
    }
}

/// `Option` and a setting, with the value that the setting takes.
pub open spec fn option_at(t: Seq<TokenView>, p: int) -> Option<(StatementView, int)> {
    if kind_at(t, p, TokenKind::Option) && class_at(t, p + 1, |k| is_configuration(k)) {
        match option_value_kind(t[p + 1].kind) {
            None => Some((StatementView::Option { configuration: t[p + 1], value: None }, p + 2)),
            Some(v) => if kind_at(t, p + 2, v) {
                Some(
                    (StatementView::Option { configuration: t[p + 1], value: Some(t[p + 2]) }, p + 3),
                )
            } else {
                None
            },
        }
    } else {
        None
    }
}

/// A statement inside a subroutine or function (a function when
/// `in_function` holds): the first alternative that matches, in order.
pub open spec fn body_statement_at(t: Seq<TokenView>, p: int, in_function: bool) -> Option<
    (StatementView, int),
> {
    first_of(
        variable_at(t, p),
        first_of(
            constant_at(t, p),
            first_of(
                assignment_at(t, p),
                first_of(exit_at(t, p), first_of(return_at(t, p, in_function), attribute_at(t, p))),
            ),
        ),
    )
}

/// The statements of a body from `p`, up to the first place where none
/// matches, and the index there.
pub open spec fn body_from(t: Seq<TokenView>, p: int, in_function: bool) -> (
    Seq<StatementView>,
    int,
)
    decreases t.len() - p,
{
    if p < 0 || p >= t.len() {
        (seq![], p)
    } else {
        match body_statement_at(t, p, in_function) {
            Some((s, q)) => if p < q <= t.len() {
                let (rest, e) = body_from(t, q, in_function);
                (seq![s] + rest, e)
            } else {
                (seq![], p)
            },
            None => (seq![], p),
        }
    }
}

/// The head shared by subroutines and functions: scope, keyword, name, `(`.
pub open spec fn callable_head_at(t: Seq<TokenView>, p: int, keyword: TokenKind) -> bool {
    class_at(t, p, |k| is_callable_scope(k)) && kind_at(t, p + 1, keyword) && kind_at(
        t,
        p + 2,
        TokenKind::Identifier,
    ) && kind_at(t, p + 3, TokenKind::LeftParentheses)
}

/// `scope Sub name(arguments)`, a body, `End Sub`.
pub open spec fn subroutine_at(t: Seq<TokenView>, p: int) -> Option<(StatementView, int)> {
    if callable_head_at(t, p, TokenKind::Sub) {
        let (arguments, q) = arguments_from(t, p + 4);
        if kind_at(t, q, TokenKind::RightParentheses) {
            let (body, r) = body_from(t, q + 1, false);
            if kind_at(t, r, TokenKind::End) && kind_at(t, r + 1, TokenKind::Sub) {
                Some(
                    (
                        StatementView::Subroutine {
                            scope: t[p],
                            name: t[p + 2],
                            arguments: arguments,
                            body: body,
                        },
                        r + 2,
                    ),
                )
            } else {
                None
            }
        } else {
            None
        }
    } else {
        None
    }
}

/// `scope Function name(arguments) [As Kind]`, a body, `End Function`.
pub open spec fn function_at(t: Seq<TokenView>, p: int) -> Option<(StatementView, int)> {
    if callable_head_at(t, p, TokenKind::Function) {
        let (arguments, q) = arguments_from(t, p + 4);
        if kind_at(t, q, TokenKind::RightParentheses) {
            let (kind, k) = as_kind_at(t, q + 1);
            let (body, r) = body_from(t, k, true);
            if kind_at(t, r, TokenKind::End) && kind_at(t, r + 1, TokenKind::Function) {
                Some(
                    (
                        StatementView::Function {
                            scope: t[p],
                            name: t[p + 2],
                            arguments: arguments,
                            kind: kind,
                            body: body,
                        },
                        r + 2,
                    ),
                )
            } else {
                None
            }
        } else {
            None
        }
    } else {
        None
    }
}

/// A statement at the top level: the first alternative that matches, in order.
#[verifier::opaque]
pub open spec fn statement_at(t: Seq<TokenView>, p: int) -> Option<(StatementView, int)> {
    first_of(
        type_at(t, p),
        first_of(
            variable_at(t, p),
            first_of(
                constant_at(t, p),
                first_of(
                    subroutine_at(t, p),
                    first_of(
                        function_at(t, p),
                        first_of(enum_at(t, p), first_of(attribute_at(t, p), option_at(t, p))),
                    ),
                ),
            ),
        ),
    )
}

/// The top-level statements from `p`, up to the first place where none
/// matches.
pub open spec fn statements_from(t: Seq<TokenView>, p: int) -> Seq<StatementView>
    decreases t.len() - p,
{
    if p < 0 || p >= t.len() {
        seq![]
    } else {
        match statement_at(t, p) {
            Some((s, q)) => if p < q <= t.len() {
                seq![s] + statements_from(t, q)
            } else {
                seq![]
            },
            None => seq![],
        }
    }
}

/// The statements of a whole token sequence.
pub open spec fn parsed(t: Seq<TokenView>) -> Seq<StatementView> {
    statements_from(t, 0)
}

/// A subroutine or function head at `p` whose argument list `)` does not
/// close. Once `(` is read only arguments or `)` may follow, so such input
/// is a fault rather than a mere mismatch.
pub open spec fn malformed_signature_at(t: Seq<TokenView>, p: int) -> bool {
    (callable_head_at(t, p, TokenKind::Sub) || callable_head_at(t, p, TokenKind::Function))
        && !kind_at(t, arguments_from(t, p + 4).1, TokenKind::RightParentheses)
}

/// No position that the top-level statement loop reaches from `p` holds a
/// malformed signature.
pub open spec fn signatures_closed_from(t: Seq<TokenView>, p: int) -> bool
    decreases t.len() - p,
{
    if p < 0 || p >= t.len() {
        true
    } else if malformed_signature_at(t, p) {
        false
    } else {
        match statement_at(t, p) {
            Some((s, q)) => if p < q <= t.len() {
                signatures_closed_from(t, q)
            } else {
                true
            },
            None => true,
        }
    }
}

proof fn lemma_prepend_valued(a: StatementView, rest: Seq<StatementView>)
    requires
        !(a matches StatementView::Return { value: None }),
        returns_have_values(rest),
    ensures
        returns_have_values(seq![a] + rest),
{
    assert forall|i: int| 0 <= i < (seq![a] + rest).len() implies !(#[trigger] (seq![a]
        + rest)[i] matches StatementView::Return { value: None }) by {
        if i > 0 {
            assert((seq![a] + rest)[i] == rest[i - 1]);
        }
    }
}

/// A function body, as the grammar reads it, returns only with a value.
pub proof fn lemma_function_body_valued(t: Seq<TokenView>, p: int)
    ensures
        returns_have_values(body_from(t, p, true).0),
    decreases t.len() - p,
{
    if 0 <= p < t.len() {
        match body_statement_at(t, p, true) {
            Some((a, q)) => {
                if p < q <= t.len() {
                    lemma_function_body_valued(t, q);
                    lemma_prepend_valued(a, body_from(t, q, true).0);
                }
            },
            None => {},
        }
    }
}

/// Every function among the top-level statements from `p` returns only with
/// a value.
pub proof fn lemma_statements_return_values(t: Seq<TokenView>, p: int)
    ensures
        functions_return_values(statements_from(t, p)),
    decreases t.len() - p,
{
    if 0 <= p < t.len() {
        match statement_at(t, p) {
            Some((a, q)) => {
                if p < q <= t.len() {
                    lemma_statements_return_values(t, q);
                    let rest = statements_from(t, q);
                    reveal(statement_at);
                    let k = as_kind_at(t, arguments_from(t, p + 4).1 + 1).1;
                    lemma_function_body_valued(t, k);
                    assert(a matches StatementView::Function { body, .. } ==> returns_have_values(body));
                    let all = seq![a] + rest;
                    assert forall|i: int| 0 <= i < all.len() implies (#[trigger] all[i] matches StatementView::Function {
                        body,
                        ..
                    } ==> returns_have_values(body)) by {
                        if i > 0 {
                            assert(all[i] == rest[i - 1]);
                        }
                    }
                }
            },
            None => {},
        }
    }
}

} // verus!
