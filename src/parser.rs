//! The backtracking parser, proved to follow the grammar.
use vstd::prelude::*;
use crate::token::{Token, TokenKind, TokenView};
use crate::lexer::view_tokens;
use crate::transformer::functions_return_values;
use crate::statement::{
    Statement, StatementView, TypeStatement, TypeAttributeStatement, EnumStatement,
    EnumAttributeStatement, VariableStatement, ConstantStatement, SubroutineStatement,
    FunctionStatement, ExitStatement, ArgumentStatement, AssignmentStatement, ReturnStatement,
    OptionStatement, AttributeStatement, view_statements, view_token_option,
};
use crate::grammar::{
    kind_at, class_at, is_value, is_declaration_scope, is_callable_scope, is_enum_scope,
    is_modifier, is_block, is_configuration, as_kind_at, type_attribute_at, enum_attribute_at,
    argument_at, type_attributes_from, enum_attributes_from, arguments_from, type_at, enum_at,
    variable_at, constant_at, assignment_at, exit_at, return_at, attribute_at, option_at,
    option_value_kind, malformed_signature_at, signatures_closed_from,
    lemma_statements_return_values,
    body_statement_at, body_from, subroutine_at, function_at, statement_at, statements_from,
    parsed,
};

verus! {

/// `r` is what an alternative that the spec `expected` describes returns, and
/// `pos` the position it leaves, where it matches.
pub open spec fn matched(r: Option<Statement>, expected: Option<(StatementView, int)>, pos: int) -> bool {
    match expected {
        Some((s, q)) => r is Some && r->0@ == s && pos == q,
        None => r is None,
    }
}

proof fn lemma_view_statements_push(v: Seq<Statement>, s: Statement)
    ensures
        view_statements(v.push(s)) == view_statements(v).push(s@),
{
    assert(view_statements(v.push(s)) =~= view_statements(v).push(s@));
}

proof fn lemma_view_statements_empty(v: Seq<Statement>)
    requires
        v.len() == 0,
    ensures
        view_statements(v) == Seq::<StatementView>::empty(),
{
    assert(view_statements(v) =~= Seq::<StatementView>::empty());
}

fn is_declaration_scope_kind(k: Option<TokenKind>) -> (r: bool)
    ensures
        r == (k is Some && is_declaration_scope(k->0)),
{
    matches!(k, Some(TokenKind::Public) | Some(TokenKind::Private) | Some(TokenKind::Static) | Some(TokenKind::Dim))
}

fn is_callable_scope_kind(k: Option<TokenKind>) -> (r: bool)
    ensures
        r == (k is Some && is_callable_scope(k->0)),
{
    matches!(k, Some(TokenKind::Public) | Some(TokenKind::Private) | Some(TokenKind::Static))
}

fn is_enum_scope_kind(k: Option<TokenKind>) -> (r: bool)
    ensures
        r == (k is Some && is_enum_scope(k->0)),
{
    matches!(k, Some(TokenKind::Public) | Some(TokenKind::Private))
}

fn is_modifier_kind(k: Option<TokenKind>) -> (r: bool)
    ensures
        r == (k is Some && is_modifier(k->0)),
{
    matches!(k, Some(TokenKind::ByVal) | Some(TokenKind::ByRef))
}

fn is_block_kind(k: Option<TokenKind>) -> (r: bool)
    ensures
        r == (k is Some && is_block(k->0)),
{
    matches!(k, Some(TokenKind::Sub) | Some(TokenKind::Function))
}

fn is_value_kind(k: Option<TokenKind>) -> (r: bool)
    ensures
        r == (k is Some && is_value(k->0)),
{
    matches!(k, Some(TokenKind::Identifier) | Some(TokenKind::Number) | Some(TokenKind::String))
}

/// The tag of the value that an `Option` setting takes, if any.
fn option_value(configuration: TokenKind) -> (r: Option<TokenKind>)
    ensures
        r == option_value_kind(configuration),
{
    match configuration {
        TokenKind::Base => Some(TokenKind::Number),
        TokenKind::Compare => Some(TokenKind::Identifier),
        TokenKind::Private => Some(TokenKind::Module),
        _ => None,
    }
}

fn is_configuration_kind(k: Option<TokenKind>) -> (r: bool)
    ensures
        r == (k is Some && is_configuration(k->0)),
{
    matches!(k, Some(TokenKind::Explicit) | Some(TokenKind::Base) | Some(TokenKind::Compare) | Some(TokenKind::Private))
}

/// A backtracking reader of statements over a token sequence.
pub struct Parser<'a> {
    tokens: &'a Vec<Token>,
    tokens_position: usize,
}

impl<'a> Parser<'a> {
    /// The tokens being read.
    pub closed spec fn toks(&self) -> Seq<TokenView> {
        view_tokens(self.tokens@)
    }

    /// The index of the next token to read.
    pub closed spec fn pos(&self) -> int {
        self.tokens_position as int
    }

    pub closed spec fn wf(&self) -> bool {
        self.tokens_position <= self.tokens@.len()
    }

    pub fn new(tokens: &'a Vec<Token>) -> (r: Parser<'a>)
        ensures
            r.wf(),
            r.toks() == view_tokens(tokens@),
            r.pos() == 0,
    {
        Parser { tokens: tokens, tokens_position: 0 }
    }

    /// The tag of the next token, if any.
    fn peek(&self) -> (r: Option<TokenKind>)
        requires
            self.wf(),
        ensures
            r == if self.pos() < self.toks().len() {
                Some(self.toks()[self.pos()].kind)
            } else {
                None::<TokenKind>
            },
    {
        if self.tokens_position < self.tokens.len() {
            Some(self.tokens[self.tokens_position].kind())
        } else {
            None
        }
    }

    /// Reads the next token.
    fn advance(&mut self) -> (r: Token)
        requires
            old(self).wf(),
            old(self).pos() < old(self).toks().len(),
        ensures
            final(self).wf(),
            final(self).toks() == old(self).toks(),
            final(self).pos() == old(self).pos() + 1,
            r@ == old(self).toks()[old(self).pos()],
    {
        let length = self.tokens.len();
        let token = self.tokens[self.tokens_position].clone();
        assert(self.tokens_position < length);
        self.tokens_position = self.tokens_position + 1;
        token
    }

    /// Reads the next token if its tag is `expected`, whatever the bytes.
    fn consume(&mut self, expected: TokenKind) -> (r: Option<Token>)
        requires
            old(self).wf(),
        ensures
            final(self).wf(),
            final(self).toks() == old(self).toks(),
            kind_at(old(self).toks(), old(self).pos(), expected) ==> {
                &&& r is Some
                &&& r->0@ == old(self).toks()[old(self).pos()]
                &&& final(self).pos() == old(self).pos() + 1
            },
            !kind_at(old(self).toks(), old(self).pos(), expected) ==> {
                &&& r is None
                &&& final(self).pos() == old(self).pos()
            },
    {
        if self.peek() == Some(expected) {
            Some(self.advance())
        } else {
            None
        }
    }

    /// Reads the next token if it is a value: an identifier, a number or a string.
    fn consume_value(&mut self) -> (r: Option<Token>)
        requires
            old(self).wf(),
        ensures
            final(self).wf(),
            final(self).toks() == old(self).toks(),
            class_at(old(self).toks(), old(self).pos(), |k| is_value(k)) ==> {
                &&& r is Some
                &&& r->0@ == old(self).toks()[old(self).pos()]
                &&& final(self).pos() == old(self).pos() + 1
            },
            !class_at(old(self).toks(), old(self).pos(), |k| is_value(k)) ==> {
                &&& r is None
                &&& final(self).pos() == old(self).pos()
            },
    {
        if is_value_kind(self.peek()) {
            Some(self.advance())
        } else {
            None
        }
    }

    /// An optional `As Kind`.
    fn parse_as_kind(&mut self) -> (r: Option<Token>)
        requires
            old(self).wf(),
        ensures
            final(self).wf(),
            final(self).toks() == old(self).toks(),
            view_token_option(r) == as_kind_at(old(self).toks(), old(self).pos()).0,
            final(self).pos() == as_kind_at(old(self).toks(), old(self).pos()).1,
            final(self).pos() >= old(self).pos(),
    {
        match self.consume(TokenKind::As) {
            Some(_) => self.consume(TokenKind::Identifier),
            None => None,
        }
    }

    /// `name As Kind` inside a type.
    fn parse_type_attribute(&mut self) -> (r: Option<Statement>)
        requires
            old(self).wf(),
        ensures
            final(self).wf(),
            final(self).toks() == old(self).toks(),
            r is Some ==> old(self).pos() < final(self).pos(),
            matched(r, type_attribute_at(old(self).toks(), old(self).pos()), final(self).pos()),
    {
        let name = match self.consume(TokenKind::Identifier) {
            Some(t) => t,
            None => return None,
        };
        if self.consume(TokenKind::As).is_none() {
            return None;
        }
        let kind = match self.consume(TokenKind::Identifier) {
            Some(t) => t,
            None => return None,
        };
        Some(Statement::TypeAttribute(TypeAttributeStatement { name: name, kind: kind }))
    }

    /// `name`, or `name = Number`, inside an enumeration.
    fn parse_enum_attribute(&mut self) -> (r: Option<Statement>)
        requires
            old(self).wf(),
        ensures
            final(self).wf(),
            final(self).toks() == old(self).toks(),
            r is Some ==> old(self).pos() < final(self).pos(),
            matched(r, enum_attribute_at(old(self).toks(), old(self).pos()), final(self).pos()),
    {
        let name = match self.consume(TokenKind::Identifier) {
            Some(t) => t,
            None => return None,
        };
        let value = match self.consume(TokenKind::Assignment) {
            Some(_) => match self.consume(TokenKind::Number) {
                Some(t) => Some(t),
                None => return None,
            },
            None => None,
        };
        Some(Statement::EnumAttribute(EnumAttributeStatement { name: name, value: value }))
    }

    /// `[ByVal|ByRef] name As Kind`, and the comma after it if there is one.
    fn parse_callable_argument(&mut self) -> (r: Option<Statement>)
        requires
            old(self).wf(),
        ensures
            final(self).wf(),
            final(self).toks() == old(self).toks(),
            r is Some ==> old(self).pos() < final(self).pos(),
            matched(r, argument_at(old(self).toks(), old(self).pos()), final(self).pos()),
    {
        let modifier = if is_modifier_kind(self.peek()) {
            Some(self.advance())
        } else {
            None
        };
        let name = match self.consume(TokenKind::Identifier) {
            Some(t) => t,
            None => return None,
        };
        if self.consume(TokenKind::As).is_none() {
            return None;
        }
        let kind = match self.consume(TokenKind::Identifier) {
            Some(t) => t,
            None => return None,
        };
        let _ = self.consume(TokenKind::Comma);
        Some(Statement::Argument(ArgumentStatement { modifier: modifier, name: name, kind: kind }))
    }

    /// The attributes of a type, as many as follow.
    fn parse_type_attributes(&mut self) -> (r: Vec<Statement>)
        requires
            old(self).wf(),
        ensures
            final(self).wf(),
            final(self).toks() == old(self).toks(),
            view_statements(r@) == type_attributes_from(old(self).toks(), old(self).pos()).0,
            final(self).pos() == type_attributes_from(old(self).toks(), old(self).pos()).1,
            final(self).pos() >= old(self).pos(),
    {
        let ghost t = self.toks();
        let ghost start = self.pos();
        let mut items: Vec<Statement> = Vec::new();
        let mut more = true;
        proof {
            lemma_view_statements_empty(items@);
        }
        while more
            invariant
                self.wf(),
                self.toks() == t,
                self.pos() >= start,
                more ==> view_statements(items@) + type_attributes_from(t, self.pos()).0 == type_attributes_from(t, start).0,
                more ==> type_attributes_from(t, self.pos()).1 == type_attributes_from(t, start).1,
                !more ==> view_statements(items@) == type_attributes_from(t, start).0,
                !more ==> self.pos() == type_attributes_from(t, start).1,
            decreases t.len() - self.pos() + (if more { 1int } else { 0int }),
        {
            let ghost p = self.pos();
            let ghost before = view_statements(items@);
            let save = self.tokens_position;
            match self.parse_type_attribute() {
                Some(item) => {
                    proof {
                        lemma_view_statements_push(items@, item);
                        assert(before + type_attributes_from(t, p).0 =~= before.push(item@) + type_attributes_from(t, self.pos()).0);
                    }
                    items.push(item);
                },
                None => {
                    self.tokens_position = save;
                    more = false;
                    proof {
                        assert(before + type_attributes_from(t, p).0 =~= before);
                    }
                },
            }
        }
        items
    }

    /// The attributes of an enumeration, as many as follow.
    fn parse_enum_attributes(&mut self) -> (r: Vec<Statement>)
        requires
            old(self).wf(),
        ensures
            final(self).wf(),
            final(self).toks() == old(self).toks(),
            view_statements(r@) == enum_attributes_from(old(self).toks(), old(self).pos()).0,
            final(self).pos() == enum_attributes_from(old(self).toks(), old(self).pos()).1,
            final(self).pos() >= old(self).pos(),
    {
        let ghost t = self.toks();
        let ghost start = self.pos();
        let mut items: Vec<Statement> = Vec::new();
        let mut more = true;
        proof {
            lemma_view_statements_empty(items@);
        }
        while more
            invariant
                self.wf(),
                self.toks() == t,
                self.pos() >= start,
                more ==> view_statements(items@) + enum_attributes_from(t, self.pos()).0 == enum_attributes_from(t, start).0,
                more ==> enum_attributes_from(t, self.pos()).1 == enum_attributes_from(t, start).1,
                !more ==> view_statements(items@) == enum_attributes_from(t, start).0,
                !more ==> self.pos() == enum_attributes_from(t, start).1,
            decreases t.len() - self.pos() + (if more { 1int } else { 0int }),
        {
            let ghost p = self.pos();
            let ghost before = view_statements(items@);
            let save = self.tokens_position;
            match self.parse_enum_attribute() {
                Some(item) => {
                    proof {
                        lemma_view_statements_push(items@, item);
                        assert(before + enum_attributes_from(t, p).0 =~= before.push(item@) + enum_attributes_from(t, self.pos()).0);
                    }
                    items.push(item);
                },
                None => {
                    self.tokens_position = save;
                    more = false;
                    proof {
                        assert(before + enum_attributes_from(t, p).0 =~= before);
                    }
                },
            }
        }
        items
    }

    /// The arguments of a subroutine or function, as many as follow. Where the
    /// list is not closed by `)`, the subroutine or function does not match,
    /// and the statement loop stops there as for any input that no statement
    /// matches.
    fn parse_callable_arguments(&mut self) -> (r: Vec<Statement>)
        requires
            old(self).wf(),
        ensures
            final(self).wf(),
            final(self).toks() == old(self).toks(),
            view_statements(r@) == arguments_from(old(self).toks(), old(self).pos()).0,
            final(self).pos() == arguments_from(old(self).toks(), old(self).pos()).1,
            final(self).pos() >= old(self).pos(),
    {
        let ghost t = self.toks();
        let ghost start = self.pos();
        let mut items: Vec<Statement> = Vec::new();
        let mut more = true;
        proof {
            lemma_view_statements_empty(items@);
        }
        while more
            invariant
                self.wf(),
                self.toks() == t,
                self.pos() >= start,
                more ==> view_statements(items@) + arguments_from(t, self.pos()).0 == arguments_from(t, start).0,
                more ==> arguments_from(t, self.pos()).1 == arguments_from(t, start).1,
                !more ==> view_statements(items@) == arguments_from(t, start).0,
                !more ==> self.pos() == arguments_from(t, start).1,
            decreases t.len() - self.pos() + (if more { 1int } else { 0int }),
        {
            let ghost p = self.pos();
            let ghost before = view_statements(items@);
            let save = self.tokens_position;
            match self.parse_callable_argument() {
                Some(item) => {
                    proof {
                        lemma_view_statements_push(items@, item);
                        assert(before + arguments_from(t, p).0 =~= before.push(item@) + arguments_from(t, self.pos()).0);
                    }
                    items.push(item);
                },
                None => {
                    self.tokens_position = save;
                    more = false;
                    proof {
                        assert(before + arguments_from(t, p).0 =~= before);
                    }
                },
            }
        }
        items
    }

    /// `Type name`, its attributes, `End Type`.
    fn parse_type(&mut self) -> (r: Option<Statement>)
        requires
            old(self).wf(),
        ensures
            final(self).wf(),
            final(self).toks() == old(self).toks(),
            r is Some ==> old(self).pos() < final(self).pos(),
            matched(r, type_at(old(self).toks(), old(self).pos()), final(self).pos()),
    {
        if self.consume(TokenKind::Type).is_none() {
            return None;
        }
        let name = match self.consume(TokenKind::Identifier) {
            Some(t) => t,
            None => return None,
        };
        let attributes = self.parse_type_attributes();
        if self.consume(TokenKind::End).is_none() {
            return None;
        }
        if self.consume(TokenKind::Type).is_none() {
            return None;
        }
        Some(Statement::Type(TypeStatement { name: name, attributes: attributes }))
    }

    /// `[Public|Private] Enum name`, its attributes, `End Enum`.
    fn parse_enum(&mut self) -> (r: Option<Statement>)
        requires
            old(self).wf(),
        ensures
            final(self).wf(),
            final(self).toks() == old(self).toks(),
            r is Some ==> old(self).pos() < final(self).pos(),
            matched(r, enum_at(old(self).toks(), old(self).pos()), final(self).pos()),
    {
        let scope = if is_enum_scope_kind(self.peek()) {
            Some(self.advance())
        } else {
            None
        };
        if self.consume(TokenKind::Enum).is_none() {
            return None;
        }
        let name = match self.consume(TokenKind::Identifier) {
            Some(t) => t,
            None => return None,
        };
        let attributes = self.parse_enum_attributes();
        if self.consume(TokenKind::End).is_none() {
            return None;
        }
        if self.consume(TokenKind::Enum).is_none() {
            return None;
        }
        Some(Statement::Enum(EnumStatement { scope: scope, name: name, attributes: attributes }))
    }

    /// `scope name As Kind`, with a scope among `Public`, `Private`, `Static`, `Dim`.
    fn parse_variable(&mut self) -> (r: Option<Statement>)
        requires
            old(self).wf(),
        ensures
            final(self).wf(),
            final(self).toks() == old(self).toks(),
            r is Some ==> old(self).pos() < final(self).pos(),
            matched(r, variable_at(old(self).toks(), old(self).pos()), final(self).pos()),
    {
        if !is_declaration_scope_kind(self.peek()) {
            return None;
        }
        let scope = self.advance();
        let name = match self.consume(TokenKind::Identifier) {
            Some(t) => t,
            None => return None,
        };
        if self.consume(TokenKind::As).is_none() {
            return None;
        }
        let kind = match self.consume(TokenKind::Identifier) {
            Some(t) => t,
            None => return None,
        };
        Some(Statement::Variable(VariableStatement { scope: scope, name: name, kind: kind }))
    }

    /// `scope Const name [As Kind] = value`.
    fn parse_constant(&mut self) -> (r: Option<Statement>)
        requires
            old(self).wf(),
        ensures
            final(self).wf(),
            final(self).toks() == old(self).toks(),
            r is Some ==> old(self).pos() < final(self).pos(),
            matched(r, constant_at(old(self).toks(), old(self).pos()), final(self).pos()),
    {
        if !is_declaration_scope_kind(self.peek()) {
            return None;
        }
        let scope = self.advance();
        if self.consume(TokenKind::Const).is_none() {
            return None;
        }
        let name = match self.consume(TokenKind::Identifier) {
            Some(t) => t,
            None => return None,
        };
        let kind = self.parse_as_kind();
        if self.consume(TokenKind::Assignment).is_none() {
            return None;
        }
        let value = match self.consume_value() {
            Some(t) => t,
            None => return None,
        };
        Some(
            Statement::Constant(
                ConstantStatement { scope: scope, name: name, kind: kind, length: None, value: value },
            ),
        )
    }

    /// `name = value`.
    fn parse_assignment(&mut self) -> (r: Option<Statement>)
        requires
            old(self).wf(),
        ensures
            final(self).wf(),
            final(self).toks() == old(self).toks(),
            r is Some ==> old(self).pos() < final(self).pos(),
            matched(r, assignment_at(old(self).toks(), old(self).pos()), final(self).pos()),
    {
        let left = match self.consume(TokenKind::Identifier) {
            Some(t) => t,
            None => return None,
        };
        if self.consume(TokenKind::Assignment).is_none() {
            return None;
        }
        let right = match self.consume_value() {
            Some(t) => t,
            None => return None,
        };
        Some(Statement::Assignment(AssignmentStatement { left: left, right: Box::new(right) }))
    }

    /// `Exit Sub` or `Exit Function`.
    fn parse_exit(&mut self) -> (r: Option<Statement>)
        requires
            old(self).wf(),
        ensures
            final(self).wf(),
            final(self).toks() == old(self).toks(),
            r is Some ==> old(self).pos() < final(self).pos(),
            matched(r, exit_at(old(self).toks(), old(self).pos()), final(self).pos()),
    {
        if self.consume(TokenKind::Exit).is_none() {
            return None;
        }
        if !is_block_kind(self.peek()) {
            return None;
        }
        let block = self.advance();
        Some(Statement::Exit(ExitStatement { block: block }))
    }

    /// `Return`, with the value that follows it, if any; inside a function
    /// (`in_function`) the value is required.
    fn parse_return(&mut self, in_function: bool) -> (r: Option<Statement>)
        requires
            old(self).wf(),
        ensures
            final(self).wf(),
            final(self).toks() == old(self).toks(),
            r is Some ==> old(self).pos() < final(self).pos(),
            matched(r, return_at(old(self).toks(), old(self).pos(), in_function), final(self).pos()),
    {
        if self.consume(TokenKind::Return).is_none() {
            return None;
        }
        let value = self.consume_value();
        if in_function && value.is_none() {
            return None;
        }
        Some(Statement::Return(ReturnStatement { value: value }))
    }

    /// `Attribute name = value`.
    fn parse_attribute(&mut self) -> (r: Option<Statement>)
        requires
            old(self).wf(),
        ensures
            final(self).wf(),
            final(self).toks() == old(self).toks(),
            r is Some ==> old(self).pos() < final(self).pos(),
            matched(r, attribute_at(old(self).toks(), old(self).pos()), final(self).pos()),
    {
        if self.consume(TokenKind::Attribute).is_none() {
            return None;
        }
        let name = match self.consume(TokenKind::Identifier) {
            Some(t) => t,
            None => return None,
        };
        if self.consume(TokenKind::Assignment).is_none() {
            return None;
        }
        let value = match self.consume_value() {
            Some(t) => t,
            None => return None,
        };
        Some(Statement::Attribute(AttributeStatement { name: name, value: value }))
    }

    /// `Option` and a setting, followed by the value that the setting takes:
    /// none after `Explicit`, a number after `Base`, an identifier after
    /// `Compare`, `Module` after `Private`.
    fn parse_option(&mut self) -> (r: Option<Statement>)
        requires
            old(self).wf(),
        ensures
            final(self).wf(),
            final(self).toks() == old(self).toks(),
            r is Some ==> old(self).pos() < final(self).pos(),
            r is None ==> final(self).pos() == old(self).pos(),
            matched(r, option_at(old(self).toks(), old(self).pos()), final(self).pos()),
    {
        let save = self.tokens_position;
        if self.consume(TokenKind::Option).is_none() {
            return None;
        }
        if !is_configuration_kind(self.peek()) {
            self.tokens_position = save;
            return None;
        }
        let configuration = self.advance();
        let value = match option_value(configuration.kind()) {
            None => None,
            Some(kind) => match self.consume(kind) {
                Some(t) => Some(t),
                None => {
                    self.tokens_position = save;
                    return None;
                },
            },
        };
        Some(Statement::Option(OptionStatement { configuration: configuration, value: value }))
    }

    /// A statement inside a subroutine or function: the first of the
    /// alternatives that matches, tried in order, each from the same position.
    fn parse_body_statement(&mut self, in_function: bool) -> (r: Option<Statement>)
        requires
            old(self).wf(),
        ensures
            final(self).wf(),
            final(self).toks() == old(self).toks(),
            r is Some ==> old(self).pos() < final(self).pos(),
            matched(
                r,
                body_statement_at(old(self).toks(), old(self).pos(), in_function),
                final(self).pos(),
            ),
    {
        let save = self.tokens_position;
        match self.parse_variable() {
            Some(s) => return Some(s),
            None => {
                self.tokens_position = save;
            },
        }
        match self.parse_constant() {
            Some(s) => return Some(s),
            None => {
                self.tokens_position = save;
            },
        }
        match self.parse_assignment() {
            Some(s) => return Some(s),
            None => {
                self.tokens_position = save;
            },
        }
        match self.parse_exit() {
            Some(s) => return Some(s),
            None => {
                self.tokens_position = save;
            },
        }
        match self.parse_return(in_function) {
            Some(s) => return Some(s),
            None => {
                self.tokens_position = save;
            },
        }
        match self.parse_attribute() {
            Some(s) => return Some(s),
            None => {
                self.tokens_position = save;
            },
        }
        None
    }

    /// A top-level statement: the first of the alternatives that matches, tried
    /// in order, each from the same position.
    fn parse_statement(&mut self) -> (r: Option<Statement>)
        requires
            old(self).wf(),
            !malformed_signature_at(old(self).toks(), old(self).pos()),
        ensures
            final(self).wf(),
            final(self).toks() == old(self).toks(),
            r is Some ==> old(self).pos() < final(self).pos(),
            matched(r, statement_at(old(self).toks(), old(self).pos()), final(self).pos()),
    {
        reveal(statement_at);
        let save = self.tokens_position;
        match self.parse_type() {
            Some(s) => return Some(s),
            None => {
                self.tokens_position = save;
            },
        }
        match self.parse_variable() {
            Some(s) => return Some(s),
            None => {
                self.tokens_position = save;
            },
        }
        match self.parse_constant() {
            Some(s) => return Some(s),
            None => {
                self.tokens_position = save;
            },
        }
        match self.parse_subroutine() {
            Some(s) => return Some(s),
            None => {
                self.tokens_position = save;
            },
        }
        match self.parse_function() {
            Some(s) => return Some(s),
            None => {
                self.tokens_position = save;
            },
        }
        match self.parse_enum() {
            Some(s) => return Some(s),
            None => {
                self.tokens_position = save;
            },
        }
        match self.parse_attribute() {
            Some(s) => return Some(s),
            None => {
                self.tokens_position = save;
            },
        }
        match self.parse_option() {
            Some(s) => return Some(s),
            None => {
                self.tokens_position = save;
            },
        }
        None
    }

    /// The statements of a subroutine or function body (a function's when
    /// `in_function` holds), up to the first place where none matches.
    fn parse_callable_body(&mut self, in_function: bool) -> (r: Vec<Statement>)
        requires
            old(self).wf(),
        ensures
            final(self).wf(),
            final(self).toks() == old(self).toks(),
            view_statements(r@) == body_from(old(self).toks(), old(self).pos(), in_function).0,
            final(self).pos() == body_from(old(self).toks(), old(self).pos(), in_function).1,
            final(self).pos() >= old(self).pos(),
    {
        let ghost t = self.toks();
        let ghost start = self.pos();
        let mut statements: Vec<Statement> = Vec::new();
        let mut more = true;
        proof {
            lemma_view_statements_empty(statements@);
        }
        while more && self.tokens_position < self.tokens.len()
            invariant
                self.wf(),
                self.toks() == t,
                self.toks().len() == self.tokens@.len(),
                self.pos() >= start,
                more ==> view_statements(statements@) + body_from(t, self.pos(), in_function).0 == body_from(t, start, in_function).0,
                more ==> body_from(t, self.pos(), in_function).1 == body_from(t, start, in_function).1,
                !more ==> view_statements(statements@) == body_from(t, start, in_function).0,
                !more ==> self.pos() == body_from(t, start, in_function).1,
            decreases t.len() - self.pos() + (if more { 1int } else { 0int }),
        {
            let ghost p = self.pos();
            let ghost before = view_statements(statements@);
            let save = self.tokens_position;
            match self.parse_body_statement(in_function) {
                Some(statement) => {
                    proof {
                        lemma_view_statements_push(statements@, statement);
                        assert(before + body_from(t, p, in_function).0 =~= before.push(statement@) + body_from(t, self.pos(), in_function).0);
                    }
                    statements.push(statement);
                },
                None => {
                    self.tokens_position = save;
                    more = false;
                    proof {
                        assert(before + body_from(t, p, in_function).0 =~= before);
                    }
                },
            }
        }
        proof {
            if more {
                assert(view_statements(statements@) + body_from(t, self.pos(), in_function).0 =~= view_statements(statements@));
            }
        }
        statements
    }

    /// `scope Sub name(arguments)`, a body, `End Sub`, with a scope among
    /// `Public`, `Private`, `Static`.
    #[verifier::rlimit(40)]
    fn parse_subroutine(&mut self) -> (r: Option<Statement>)
        requires
            old(self).wf(),
            !malformed_signature_at(old(self).toks(), old(self).pos()),
        ensures
            final(self).wf(),
            final(self).toks() == old(self).toks(),
            r is Some ==> old(self).pos() < final(self).pos(),
            matched(r, subroutine_at(old(self).toks(), old(self).pos()), final(self).pos()),
    {
        if !is_callable_scope_kind(self.peek()) {
            return None;
        }
        let scope = self.advance();
        if self.consume(TokenKind::Sub).is_none() {
            return None;
        }
        let name = match self.consume(TokenKind::Identifier) {
            Some(t) => t,
            None => return None,
        };
        if self.consume(TokenKind::LeftParentheses).is_none() {
            return None;
        }
        let arguments = self.parse_callable_arguments();
        if self.consume(TokenKind::RightParentheses).is_none() {
            return None;
        }
        let body = self.parse_callable_body(false);
        if self.consume(TokenKind::End).is_none() {
            return None;
        }
        if self.consume(TokenKind::Sub).is_none() {
            return None;
        }
        Some(
            Statement::Subroutine(
                SubroutineStatement { scope: scope, name: name, arguments: arguments, body: body },
            ),
        )
    }

    /// `scope Function name(arguments) [As Kind]`, a body, `End Function`.
    #[verifier::rlimit(40)]
    fn parse_function(&mut self) -> (r: Option<Statement>)
        requires
            old(self).wf(),
            !malformed_signature_at(old(self).toks(), old(self).pos()),
        ensures
            final(self).wf(),
            final(self).toks() == old(self).toks(),
            r is Some ==> old(self).pos() < final(self).pos(),
            matched(r, function_at(old(self).toks(), old(self).pos()), final(self).pos()),
    {
        if !is_callable_scope_kind(self.peek()) {
            return None;
        }
        let scope = self.advance();
        if self.consume(TokenKind::Function).is_none() {
            return None;
        }
        let name = match self.consume(TokenKind::Identifier) {
            Some(t) => t,
            None => return None,
        };
        if self.consume(TokenKind::LeftParentheses).is_none() {
            return None;
        }
        let arguments = self.parse_callable_arguments();
        if self.consume(TokenKind::RightParentheses).is_none() {
            return None;
        }
        let kind = self.parse_as_kind();
        let body = self.parse_callable_body(true);
        if self.consume(TokenKind::End).is_none() {
            return None;
        }
        if self.consume(TokenKind::Function).is_none() {
            return None;
        }
        Some(
            Statement::Function(
                FunctionStatement {
                    scope: scope,
                    name: name,
                    arguments: arguments,
                    kind: kind,
                    body: body,
                },
            ),
        )
    }

    /// The top-level statements from the current position, up to the first
    /// place where none matches; the tokens after it are left unread. Every
    /// subroutine or function reached must close its argument list with `)`
    /// (`signatures_closed` tests this); a function returns only with a value.
    pub fn parse(&mut self) -> (r: Vec<Statement>)
        requires
            old(self).wf(),
            signatures_closed_from(old(self).toks(), old(self).pos()),
        ensures
            final(self).wf(),
            final(self).toks() == old(self).toks(),
            view_statements(r@) == statements_from(old(self).toks(), old(self).pos()),
            functions_return_values(view_statements(r@)),
    {
        let ghost t = self.toks();
        let ghost start = self.pos();
        let mut statements: Vec<Statement> = Vec::new();
        let mut more = true;
        proof {
            lemma_view_statements_empty(statements@);
        }
        while more && self.tokens_position < self.tokens.len()
            invariant
                self.wf(),
                self.toks() == t,
                self.toks().len() == self.tokens@.len(),
                self.pos() >= start,
                more ==> signatures_closed_from(t, self.pos()),
                more ==> view_statements(statements@) + statements_from(t, self.pos()) == statements_from(t, start),
                !more ==> view_statements(statements@) == statements_from(t, start),
            decreases t.len() - self.pos() + (if more { 1int } else { 0int }),
        {
            let ghost p = self.pos();
            let ghost before = view_statements(statements@);
            let save = self.tokens_position;
            match self.parse_statement() {
                Some(statement) => {
                    proof {
                        lemma_view_statements_push(statements@, statement);
                        assert(before + statements_from(t, p) =~= before.push(statement@) + statements_from(t, self.pos()));
                    }
                    statements.push(statement);
                },
                None => {
                    self.tokens_position = save;
                    more = false;
                    proof {
                        assert(before + statements_from(t, p) =~= before);
                    }
                },
            }
        }
        proof {
            if more {
                assert(view_statements(statements@) + statements_from(t, self.pos()) =~= view_statements(statements@));
            }
            lemma_statements_return_values(t, start);
        }
        statements
    }

    /// Whether a subroutine or function head at the current position has an
    /// argument list that `)` does not close.
    fn malformed_signature(&self) -> (r: bool)
        requires
            self.wf(),
        ensures
            r == malformed_signature_at(self.toks(), self.pos()),
    {
        let mut probe = Parser { tokens: self.tokens, tokens_position: self.tokens_position };
        if !is_callable_scope_kind(probe.peek()) {
            return false;
        }
        let _ = probe.advance();
        let keyword = probe.peek();
        if !(keyword == Some(TokenKind::Sub) || keyword == Some(TokenKind::Function)) {
            return false;
        }
        let _ = probe.advance();
        if probe.consume(TokenKind::Identifier).is_none() {
            return false;
        }
        if probe.consume(TokenKind::LeftParentheses).is_none() {
            return false;
        }
        let _ = probe.parse_callable_arguments();
        probe.peek() != Some(TokenKind::RightParentheses)
    }
}

/// Whether every subroutine or function that `parse` reaches in `tokens`
/// closes its argument list with `)`; `parse` asks this of its input.
pub fn signatures_closed(tokens: &Vec<Token>) -> (r: bool)
    ensures
        r == signatures_closed_from(view_tokens(tokens@), 0),
{
    let mut parser = Parser::new(tokens);
    let ghost t = parser.toks();
    while parser.tokens_position < parser.tokens.len()
        invariant
            parser.wf(),
            parser.toks() == t,
            t == view_tokens(tokens@),
            parser.toks().len() == parser.tokens@.len(),
            signatures_closed_from(t, parser.pos()) == signatures_closed_from(t, 0),
        decreases t.len() - parser.pos(),
    {
        let ghost p = parser.pos();
        assert(0 <= p < t.len());
        if parser.malformed_signature() {
            assert(!signatures_closed_from(t, p));
            return false;
        }
        match parser.parse_statement() {
            Some(_) => {},
            None => {
                assert(statement_at(t, p) is None);
                assert(signatures_closed_from(t, p));
                return true;
            },
        }
    }
    true
}

/// Reads the statements of `tokens` from the start, up to the first place
/// where no statement matches; the tokens after it are dropped.
///
/// Every subroutine or function reached must close its argument list with
/// `)`: once `(` is read nothing else may follow, and input that breaks this
/// is refused (`signatures_closed` tests it). A function in the result
/// returns only with a value.
pub fn parse(tokens: &Vec<Token>) -> (r: Vec<Statement>)
    requires
        signatures_closed_from(view_tokens(tokens@), 0),
    ensures
        view_statements(r@) == parsed(view_tokens(tokens@)),
        functions_return_values(view_statements(r@)),
{
    let mut parser = Parser::new(tokens);
    parser.parse()
}

} // verus!
