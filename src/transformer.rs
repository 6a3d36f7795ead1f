//! The rewrite of `Return value` inside functions into an assignment to the
//! function's name and `Exit Function`.
use vstd::prelude::*;
use crate::token::{Token, TokenKind, TokenView};
use crate::statement::{
    Statement, StatementView, FunctionStatement, AssignmentStatement, ExitStatement,
    ReturnStatement, view_statements,
};
use crate::viewer::Viewer;

verus! {

/// The `Function` keyword as a block that `Exit` leaves.
pub open spec fn function_block() -> TokenView {
    TokenView { kind: TokenKind::Function, text: seq![] }
}

/// What one statement of the body of function `name` becomes: `Return v`
/// becomes `name = v` and `Exit Function`; any other statement stays.
pub open spec fn desugared_statement(name: TokenView, s: StatementView) -> Seq<StatementView> {
    match s {
        StatementView::Return { value: Some(v) } => seq![
            StatementView::Assignment { left: name, right: v },
            StatementView::Exit { block: function_block() },
        ],
        _ => seq![s],
    }
}

/// The body of function `name`, each statement desugared in order.
pub open spec fn desugared_body(name: TokenView, body: Seq<StatementView>) -> Seq<StatementView>
    decreases body.len(),
{
    if body.len() == 0 {
        seq![]
    } else {
        desugared_body(name, body.drop_last()) + desugared_statement(name, body.last())
    }
}

/// A statement after the rewrite: a function gets its body desugared; any
/// other statement stays as it is.
pub open spec fn transformed_statement(s: StatementView) -> StatementView {
    match s {
        StatementView::Function { scope, name, arguments, kind, body } => StatementView::Function {
            scope: scope,
            name: name,
            arguments: arguments,
            kind: kind,
            body: desugared_body(name, body),
        },
        _ => s,
    }
}

pub open spec fn transformed(statements: Seq<StatementView>) -> Seq<StatementView> {
    statements.map_values(|s: StatementView| transformed_statement(s))
}

/// Every `Return` of `body` carries a value.
pub open spec fn returns_have_values(body: Seq<StatementView>) -> bool {
    forall|i: int| 0 <= i < body.len() ==> !(#[trigger] body[i] matches StatementView::Return { value: None })
}

/// Every function among `statements` returns only with a value.
pub open spec fn functions_return_values(statements: Seq<StatementView>) -> bool {
    forall|i: int|
        0 <= i < statements.len() ==> (#[trigger] statements[i] matches StatementView::Function { body, .. }
            ==> returns_have_values(body))
}

/// The function being rewritten.
pub struct Block {
    name: Token,
}

/// Rewrites a statement sequence, keeping the enclosing functions on a stack.
pub struct Transformer {
    statements: Viewer<Statement>,
    blocks: Vec<Block>,
}

impl Transformer {
    /// The statements still to rewrite.
    pub closed spec fn pending(&self) -> Seq<StatementView> {
        view_statements(self.statements.items()).subrange(
            self.statements.cursor() as int,
            self.statements.items().len() as int,
        )
    }

    pub closed spec fn wf(&self) -> bool {
        self.statements.cursor() <= self.statements.items().len()
    }

    pub fn new(statements: Vec<Statement>) -> (r: Self)
        ensures
            r.wf(),
            r.pending() == view_statements(statements@),
    {
        let r = Self { statements: Viewer::new(statements), blocks: Vec::new() };
        assert(r.pending() =~= view_statements(statements@));
        r
    }

    /// Rewrites the statements still to read, in order.
    #[verifier::rlimit(60)]
    pub fn transform(&mut self) -> (r: Vec<Statement>)
        requires
            old(self).wf(),
            functions_return_values(old(self).pending()),
        ensures
            view_statements(r@) == transformed(old(self).pending()),
    {
        let ghost items = view_statements(self.statements.items());
        let ghost start: nat = self.statements.cursor();
        let mut transformed_statements: Vec<Statement> = Vec::new();
        let mut more = true;
        while more
            invariant
                self.wf(),
                view_statements(self.statements.items()) == items,
                start <= self.statements.cursor() <= items.len(),
                functions_return_values(items.subrange(start as int, items.len() as int)),
                more ==> view_statements(transformed_statements@) == transformed(
                    items.subrange(start as int, self.statements.cursor() as int),
                ),
                !more ==> view_statements(transformed_statements@) == transformed(items.subrange(start as int, items.len() as int)),
            decreases items.len() - self.statements.cursor() + (if more { 1int } else { 0int }),
        {
            let ghost i = self.statements.cursor() as int;
            match self.statements.next() {
                Some(statement) => {
                    assert(start <= i < items.len());
                    assert(statement@ == items[i]);
                    assert(items.subrange(start as int, items.len() as int)[i - start] == items[i]);
                    assert(functions_return_values(items.subrange(start as int, items.len() as int)));
                    let rewritten = match statement {
                        Statement::Function(data) => self.transform_function(data),
                        _ => statement,
                    };
                    proof {
                        let v = view_statements(transformed_statements@);
                        assert(view_statements(transformed_statements@.push(rewritten))
                            =~= v.push(rewritten@));
                        assert(transformed(items.subrange(start as int, i + 1)) =~= transformed(
                            items.subrange(start as int, i),
                        ).push(transformed_statement(items[i])));
                    }
                    transformed_statements.push(rewritten);
                },
                None => {
                    more = false;
                    assert(items.subrange(start as int, i) =~= items.subrange(start as int, items.len() as int));
                },
            }
        }
        transformed_statements
    }

    /// Rewrites a function: its body is desugared with the function as the
    /// enclosing block.
    fn transform_function(&mut self, data: FunctionStatement) -> (r: Statement)
        requires
            returns_have_values(view_statements(data.body@)),
        ensures
            r@ == transformed_statement(Statement::Function(data)@),
            final(self).statements == old(self).statements,
            final(self).blocks@ == old(self).blocks@,
    {
        self.blocks.push(Block { name: data.name.clone() });
        let body = self.transform_function_body(data.body);
        self.blocks.pop();
        Statement::Function(
            FunctionStatement {
                scope: data.scope,
                name: data.name,
                arguments: data.arguments,
                kind: data.kind,
                body: body,
            },
        )
    }

    /// Desugars each statement of the body of the innermost function.
    fn transform_function_body(&mut self, body: Vec<Statement>) -> (r: Vec<Statement>)
        requires
            old(self).blocks@.len() > 0,
            returns_have_values(view_statements(body@)),
        ensures
            view_statements(r@) == desugared_body(
                old(self).blocks@.last().name@,
                view_statements(body@),
            ),
            final(self).statements == old(self).statements,
            final(self).blocks@ == old(self).blocks@,
    {
        let ghost name = self.blocks@.last().name@;
        let ghost items = view_statements(body@);
        let mut transformed_statements: Vec<Statement> = Vec::new();
        let mut viewer = Viewer::new(body);
        let mut more = true;
        proof {
            assert(items.subrange(0, 0) =~= Seq::<StatementView>::empty());
            assert(view_statements(transformed_statements@) =~= Seq::<StatementView>::empty());
        }
        while more
            invariant
                self.blocks@.len() > 0,
                self.blocks@.last().name@ == name,
                self.statements == old(self).statements,
                self.blocks@ == old(self).blocks@,
                view_statements(viewer.items()) == items,
                returns_have_values(items),
                viewer.cursor() <= items.len(),
                more ==> view_statements(transformed_statements@) == desugared_body(
                    name,
                    items.subrange(0, viewer.cursor() as int),
                ),
                !more ==> view_statements(transformed_statements@) == desugared_body(name, items),
            decreases items.len() - viewer.cursor() + (if more { 1int } else { 0int }),
        {
            let ghost i = viewer.cursor() as int;
            match viewer.next() {
                Some(statement) => {
                    let ghost v = view_statements(transformed_statements@);
                    assert(statement@ == items[i]);
                    assert(items.subrange(0, i + 1).drop_last() =~= items.subrange(0, i));
                    match statement {
                        Statement::Return(data) => {
                            let assignment = self.transform_function_return(data);
                            let exit = Statement::Exit(ExitStatement { block: Token::Function });
                            proof {
                                assert(view_statements(transformed_statements@.push(assignment).push(exit))
                                    =~= v + desugared_statement(name, items[i]));
                            }
                            transformed_statements.push(assignment);
                            transformed_statements.push(exit);
                        },
                        _ => {
                            proof {
                                assert(view_statements(transformed_statements@.push(statement))
                                    =~= v + desugared_statement(name, items[i]));
                            }
                            transformed_statements.push(statement);
                        },
                    }
                },
                None => {
                    more = false;
                    assert(items.subrange(0, i) =~= items);
                },
            }
        }
        transformed_statements
    }

    /// `name = value`, for `Return value` inside the innermost function `name`.
    fn transform_function_return(&mut self, data: ReturnStatement) -> (r: Statement)
        requires
            old(self).blocks@.len() > 0,
            data.value is Some,
        ensures
            r@ == (StatementView::Assignment {
                left: old(self).blocks@.last().name@,
                right: data.value->0@,
            }),
            *final(self) == *old(self),
    {
        let last = self.blocks.len() - 1;
        let left = self.blocks[last].name.clone();
        Statement::Assignment(AssignmentStatement { left: left, right: Box::new(data.value.unwrap()) })
    }
}

/// Desugars every `Return value` inside a function into an assignment to the
/// function's name followed by `Exit Function`; all else stays as it is.
pub fn transform(statements: Vec<Statement>) -> (r: Vec<Statement>)
    requires
        functions_return_values(view_statements(statements@)),
    ensures
        view_statements(r@) == transformed(view_statements(statements@)),
{
    let mut transformer = Transformer::new(statements);
    transformer.transform()
}

} // verus!
