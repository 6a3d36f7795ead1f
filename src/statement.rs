//! The statement tree that the parser builds, and its view.
use vstd::prelude::*;
use crate::token::{Token, TokenView};

verus! {

/// A statement of the language, each variant with its own payload.
#[derive(Debug, PartialEq)]
pub enum Statement {
    Program,
    Type(TypeStatement),
    TypeAttribute(TypeAttributeStatement),
    Enum(EnumStatement),
    EnumAttribute(EnumAttributeStatement),
    Variable(VariableStatement),
    Constant(ConstantStatement),
    Subroutine(SubroutineStatement),
    Function(FunctionStatement),
    Exit(ExitStatement),
    Argument(ArgumentStatement),
    Assignment(AssignmentStatement),
    Return(ReturnStatement),
    Option(OptionStatement),
    Attribute(AttributeStatement),
}

#[derive(Debug, PartialEq)]
pub struct TypeStatement {
    pub name: Token,
    pub attributes: Vec<Statement>,
}

#[derive(Debug, PartialEq)]
pub struct TypeAttributeStatement {
    pub name: Token,
    pub kind: Token,
}

#[derive(Debug, PartialEq)]
pub struct EnumStatement {
    pub scope: Option<Token>,
    pub name: Token,
    pub attributes: Vec<Statement>,
}

#[derive(Debug, PartialEq)]
pub struct EnumAttributeStatement {
    pub name: Token,
    pub value: Option<Token>,
}

#[derive(Debug, PartialEq)]
pub struct VariableStatement {
    pub scope: Token,
    pub name: Token,
    pub kind: Token,
}

#[derive(Debug, PartialEq)]
pub struct ConstantStatement {
    pub scope: Token,
    pub name: Token,
    pub kind: Option<Token>,
    pub length: Option<Token>,
    pub value: Token,
}

#[derive(Debug, PartialEq)]
pub struct SubroutineStatement {
    pub scope: Token,
    pub name: Token,
    pub arguments: Vec<Statement>,
    pub body: Vec<Statement>,
}

#[derive(Debug, PartialEq)]
pub struct FunctionStatement {
    pub scope: Token,
    pub name: Token,
    pub arguments: Vec<Statement>,
    pub kind: Option<Token>,
    pub body: Vec<Statement>,
}

#[derive(Debug, PartialEq)]
pub struct ExitStatement {
    pub block: Token,
}

#[derive(Debug, PartialEq)]
pub struct ArgumentStatement {
    pub modifier: Option<Token>,
    pub name: Token,
    pub kind: Token,
}

#[derive(Debug, PartialEq)]
pub struct AssignmentStatement {
    pub left: Token,
    pub right: Box<Token>,
}

#[derive(Debug, PartialEq)]
pub struct ReturnStatement {
    pub value: Option<Token>,
}

#[derive(Debug, PartialEq)]
pub struct OptionStatement {
    pub configuration: Token,
    pub value: Option<Token>,
}

#[derive(Debug, PartialEq)]
pub struct AttributeStatement {
    pub name: Token,
    pub value: Token,
}

/// What a statement means: the same tree, with each token replaced by its view.
#[allow(inconsistent_fields)]
pub enum StatementView {
    Program,
    Type { name: TokenView, attributes: Seq<StatementView> },
    TypeAttribute { name: TokenView, kind: TokenView },
    Enum { scope: Option<TokenView>, name: TokenView, attributes: Seq<StatementView> },
    EnumAttribute { name: TokenView, value: Option<TokenView> },
    Variable { scope: TokenView, name: TokenView, kind: TokenView },
    Constant {
        scope: TokenView,
        name: TokenView,
        kind: Option<TokenView>,
        length: Option<TokenView>,
        value: TokenView,
    },
    Subroutine {
        scope: TokenView,
        name: TokenView,
        arguments: Seq<StatementView>,
        body: Seq<StatementView>,
    },
    Function {
        scope: TokenView,
        name: TokenView,
        arguments: Seq<StatementView>,
        kind: Option<TokenView>,
        body: Seq<StatementView>,
    },
    Exit { block: TokenView },
    Argument { modifier: Option<TokenView>, name: TokenView, kind: TokenView },
    Assignment { left: TokenView, right: TokenView },
    Return { value: Option<TokenView> },
    Option { configuration: TokenView, value: Option<TokenView> },
    Attribute { name: TokenView, value: TokenView },
}

pub open spec fn view_token_option(t: Option<Token>) -> Option<TokenView> {
    match t {
        Some(t) => Some(t@),
        None => None,
    }
}

pub open spec fn view_statement(s: Statement) -> StatementView
    decreases s, 0int,
{
    match s {
        Statement::Program => StatementView::Program,
        Statement::Type(d) => StatementView::Type {
            name: d.name@,
            attributes: view_statements(d.attributes@),
        },
        Statement::TypeAttribute(d) => StatementView::TypeAttribute { name: d.name@, kind: d.kind@ },
        Statement::Enum(d) => StatementView::Enum {
            scope: view_token_option(d.scope),
            name: d.name@,
            attributes: view_statements(d.attributes@),
        },
        Statement::EnumAttribute(d) => StatementView::EnumAttribute {
            name: d.name@,
            value: view_token_option(d.value),
        },
        Statement::Variable(d) => StatementView::Variable {
            scope: d.scope@,
            name: d.name@,
            kind: d.kind@,
        },
        Statement::Constant(d) => StatementView::Constant {
            scope: d.scope@,
            name: d.name@,
            kind: view_token_option(d.kind),
            length: view_token_option(d.length),
            value: d.value@,
        },
        Statement::Subroutine(d) => StatementView::Subroutine {
            scope: d.scope@,
            name: d.name@,
            arguments: view_statements(d.arguments@),
            body: view_statements(d.body@),
        },
        Statement::Function(d) => StatementView::Function {
            scope: d.scope@,
            name: d.name@,
            arguments: view_statements(d.arguments@),
            kind: view_token_option(d.kind),
            body: view_statements(d.body@),
        },
        Statement::Exit(d) => StatementView::Exit { block: d.block@ },
        Statement::Argument(d) => StatementView::Argument {
            modifier: view_token_option(d.modifier),
            name: d.name@,
            kind: d.kind@,
        },
        Statement::Assignment(d) => StatementView::Assignment { left: d.left@, right: (*d.right)@ },
        Statement::Return(d) => StatementView::Return { value: view_token_option(d.value) },
        Statement::Option(d) => StatementView::Option {
            configuration: d.configuration@,
            value: view_token_option(d.value),
        },
        Statement::Attribute(d) => StatementView::Attribute { name: d.name@, value: d.value@ },
    }
}

pub open spec fn view_statements(v: Seq<Statement>) -> Seq<StatementView>
    decreases v, 1int,
{
    Seq::new(
        v.len(),
        |i: int|
            if 0 <= i < v.len() {
                view_statement(v[i])
            } else {
                StatementView::Program
            },
    )
}

impl View for Statement {
    type V = StatementView;

    open spec fn view(&self) -> StatementView {
        view_statement(*self)
    }
}

pub fn clone_token_option(t: &Option<Token>) -> (r: Option<Token>)
    ensures
        view_token_option(r) == view_token_option(*t),
{
    match t {
        Some(t) => Some(t.clone()),
        None => None,
    }
}

pub fn clone_statements(v: &Vec<Statement>) -> (r: Vec<Statement>)
    ensures
        view_statements(r@) == view_statements(v@),
    decreases v,
{
    let mut r: Vec<Statement> = Vec::new();
    let mut i: usize = 0;
    while i < v.len()
        invariant
            i <= v.len(),
            r@.len() == i,
            forall|j: int| 0 <= j < i ==> view_statement(#[trigger] r@[j]) == view_statement(v@[j]),
        decreases v.len() - i,
    {
        proof {
            assert(decreases_to!(*v => v@[i as int])) by {
                assert(decreases_to!(*v => v@));
            }
        }
        r.push(clone_statement(&v[i]));
        i = i + 1;
    }
    assert(view_statements(r@) =~= view_statements(v@));
    r
}

pub fn clone_statement(s: &Statement) -> (r: Statement)
    ensures
        r@ == s@,
    decreases s,
{
    match s {
        Statement::Program => Statement::Program,
        Statement::Type(d) => {
            proof { assert(decreases_to!(*s => s->Type_0)); assert(decreases_to!(s->Type_0 => d.attributes)); }
            Statement::Type(TypeStatement { name: d.name.clone(), attributes: clone_statements(&d.attributes) })
        },
        Statement::TypeAttribute(d) => Statement::TypeAttribute(
            TypeAttributeStatement { name: d.name.clone(), kind: d.kind.clone() },
        ),
        Statement::Enum(d) => {
            proof { assert(decreases_to!(*s => s->Enum_0)); assert(decreases_to!(s->Enum_0 => d.attributes)); }
            Statement::Enum(EnumStatement {
                scope: clone_token_option(&d.scope),
                name: d.name.clone(),
                attributes: clone_statements(&d.attributes),
            })
        },
        Statement::EnumAttribute(d) => Statement::EnumAttribute(
            EnumAttributeStatement { name: d.name.clone(), value: clone_token_option(&d.value) },
        ),
        Statement::Variable(d) => Statement::Variable(
            VariableStatement { scope: d.scope.clone(), name: d.name.clone(), kind: d.kind.clone() },
        ),
        Statement::Constant(d) => Statement::Constant(
            ConstantStatement {
                scope: d.scope.clone(),
                name: d.name.clone(),
                kind: clone_token_option(&d.kind),
                length: clone_token_option(&d.length),
                value: d.value.clone(),
            },
        ),
        Statement::Subroutine(d) => {
            proof {
                assert(decreases_to!(*s => s->Subroutine_0));
                assert(decreases_to!(s->Subroutine_0 => d.arguments));
                assert(decreases_to!(s->Subroutine_0 => d.body));
            }
            Statement::Subroutine(SubroutineStatement {
                scope: d.scope.clone(),
                name: d.name.clone(),
                arguments: clone_statements(&d.arguments),
                body: clone_statements(&d.body),
            })
        },
        Statement::Function(d) => {
            proof {
                assert(decreases_to!(*s => s->Function_0));
                assert(decreases_to!(s->Function_0 => d.arguments));
                assert(decreases_to!(s->Function_0 => d.body));
            }
            Statement::Function(FunctionStatement {
                scope: d.scope.clone(),
                name: d.name.clone(),
                arguments: clone_statements(&d.arguments),
                kind: clone_token_option(&d.kind),
                body: clone_statements(&d.body),
            })
        },
        Statement::Exit(d) => Statement::Exit(ExitStatement { block: d.block.clone() }),
        Statement::Argument(d) => Statement::Argument(
            ArgumentStatement {
                modifier: clone_token_option(&d.modifier),
                name: d.name.clone(),
                kind: d.kind.clone(),
            },
        ),
        Statement::Assignment(d) => Statement::Assignment(
            AssignmentStatement { left: d.left.clone(), right: Box::new((*d.right).clone()) },
        ),
        Statement::Return(d) => Statement::Return(ReturnStatement { value: clone_token_option(&d.value) }),
        Statement::Option(d) => Statement::Option(
            OptionStatement {
                configuration: d.configuration.clone(),
                value: clone_token_option(&d.value),
            },
        ),
        Statement::Attribute(d) => Statement::Attribute(
            AttributeStatement { name: d.name.clone(), value: d.value.clone() },
        ),
    }
}

impl Clone for Statement {
    /// A statement with the same view.
    fn clone(&self) -> (r: Statement)
        ensures
            r@ == self@,
    {
        clone_statement(self)
    }
}

} // verus!
