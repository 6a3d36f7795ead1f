//! The writer of legacy-dialect text.
use vstd::prelude::*;
use crate::token::{Token, TokenKind, TokenView, spelling, spelling_of};
use crate::statement::{
    Statement, StatementView, TypeStatement, TypeAttributeStatement, EnumStatement,
    EnumAttributeStatement, VariableStatement, ConstantStatement, SubroutineStatement,
    FunctionStatement, ExitStatement, ArgumentStatement, AssignmentStatement, OptionStatement,
    AttributeStatement, view_statements, view_token_option,
};
use crate::viewer::Viewer;

verus! {

pub open spec fn space() -> Seq<u8> {
    seq![' ' as u8]
}

pub open spec fn newline() -> Seq<u8> {
    seq!['\n' as u8]
}

/// The spelling of a keyword or symbol, as written in the output.
pub open spec fn word(k: TokenKind) -> Seq<u8> {
    spelling_of(k)
}

/// The line written for a statement that has no form of its own.
pub open spec fn placeholder() -> Seq<u8> {
    seq![
        '_' as u8, '_' as u8, 'P' as u8, 'O' as u8, 'L' as u8, 'Y' as u8, 'F' as u8, 'I' as u8,
        'L' as u8, 'L' as u8, '_' as u8, '_' as u8, '\n' as u8,
    ]
}

/// `Attribute`, capitalized as the legacy dialect writes it.
pub open spec fn attribute_word() -> Seq<u8> {
    seq!['A' as u8, 't' as u8, 't' as u8, 'r' as u8, 'i' as u8, 'b' as u8, 'u' as u8, 't' as u8, 'e' as u8]
}

/// `prefix` and the lexeme of `t`, or nothing when `t` is absent.
pub open spec fn optional_text(prefix: Seq<u8>, t: Option<TokenView>) -> Seq<u8> {
    match t {
        Some(t) => prefix + t.lexeme(),
        None => seq![],
    }
}

/// `bytes` without its last two, which an argument list ends with.
pub open spec fn without_separator(bytes: Seq<u8>) -> Seq<u8> {
    if bytes.len() >= 2 {
        bytes.subrange(0, bytes.len() - 2)
    } else {
        seq![]
    }
}

/// The text of an argument list: each argument followed by `", "`, with the
/// last separator taken off.
pub open spec fn argument_list_text(arguments: Seq<StatementView>) -> Seq<u8>
    decreases arguments, 2int,
{
    if arguments.len() > 0 {
        without_separator(statements_text(arguments))
    } else {
        seq![]
    }
}

/// `, `
pub open spec fn separator() -> Seq<u8> {
    word(TokenKind::Comma) + space()
}

/// ` as `
pub open spec fn as_text() -> Seq<u8> {
    space() + word(TokenKind::As) + space()
}

/// ` = `
pub open spec fn equals_text() -> Seq<u8> {
    space() + word(TokenKind::Assignment) + space()
}

/// The signature line of a subroutine or function, up to `)`.
pub open spec fn signature_text(
    scope: TokenView,
    keyword: TokenKind,
    name: TokenView,
    arguments: Seq<StatementView>,
) -> Seq<u8>
    decreases arguments, 3int,
{
    scope.lexeme() + space() + word(keyword) + space() + name.lexeme() + word(
        TokenKind::LeftParentheses,
    ) + argument_list_text(arguments) + word(TokenKind::RightParentheses)
}

/// `end <keyword>` and a line break.
pub open spec fn end_text(keyword: TokenKind) -> Seq<u8> {
    word(TokenKind::End) + space() + word(keyword) + newline()
}

/// The legacy-dialect text of one statement.
pub open spec fn statement_text(s: StatementView) -> Seq<u8>
    decreases s, 0int,
{
    match s {
        StatementView::Function { scope, name, arguments, kind, body } => signature_text(
            scope,
            TokenKind::Function,
            name,
            arguments,
        ) + optional_text(as_text(), kind) + newline() + statements_text(body) + end_text(
            TokenKind::Function,
        ),
        StatementView::Subroutine { scope, name, arguments, body } => signature_text(
            scope,
            TokenKind::Sub,
            name,
            arguments,
        ) + newline() + statements_text(body) + end_text(TokenKind::Sub),
        StatementView::Type { name, attributes } => word(TokenKind::Type) + space() + name.lexeme()
            + newline() + statements_text(attributes) + end_text(TokenKind::Type),
        StatementView::TypeAttribute { name, kind } => name.lexeme() + as_text() + kind.lexeme()
            + newline(),
        StatementView::Enum { scope, name, attributes } => optional_text(seq![], scope)
            + (if scope is Some { space() } else { seq![] }) + word(TokenKind::Enum) + space()
            + name.lexeme() + newline() + statements_text(attributes) + end_text(TokenKind::Enum),
        StatementView::EnumAttribute { name, value } => name.lexeme() + optional_text(
            equals_text(),
            value,
        ) + newline(),
        StatementView::Argument { modifier, name, kind } => optional_text(seq![], modifier) + (
        if modifier is Some {
            space()
        } else {
            seq![]
        }) + name.lexeme() + as_text() + kind.lexeme() + separator(),
        StatementView::Variable { scope, name, kind } => scope.lexeme() + space() + name.lexeme()
            + as_text() + kind.lexeme() + newline(),
        StatementView::Constant { scope, name, kind, length, value } => scope.lexeme() + space()
            + word(TokenKind::Const) + space() + name.lexeme() + optional_text(as_text(), kind)
            + optional_text(space() + word(TokenKind::Times) + space(), length) + equals_text()
            + value.lexeme() + newline(),
        StatementView::Assignment { left, right } => left.lexeme() + equals_text() + right.lexeme()
            + newline(),
        StatementView::Exit { block } => word(TokenKind::Exit) + space() + block.lexeme()
            + newline(),
        StatementView::Option { configuration, value } => word(TokenKind::Option) + space()
            + configuration.lexeme() + optional_text(space(), value) + newline(),
        StatementView::Attribute { name, value } => attribute_word() + space() + name.lexeme()
            + equals_text() + value.lexeme() + newline(),
        _ => placeholder(),
    }
}

/// The texts of a sequence of statements, one after the other.
pub open spec fn statements_text(ss: Seq<StatementView>) -> Seq<u8>
    decreases ss, 1int,
{
    if ss.len() == 0 {
        seq![]
    } else {
        statements_text(ss.drop_last()) + statement_text(ss.last())
    }
}

/// The text of a whole program.
pub open spec fn generated(statements: Seq<StatementView>) -> Seq<u8> {
    statements_text(statements)
}

/// Appends `bytes` to `out`.
fn append(out: &mut Vec<u8>, bytes: &Vec<u8>)
    ensures
        final(out)@ == old(out)@ + bytes@,
{
    let ghost start = out@;
    let mut i: usize = 0;
    while i < bytes.len()
        invariant
            i <= bytes@.len(),
            out@ == start + bytes@.subrange(0, i as int),
        decreases bytes@.len() - i,
    {
        out.push(bytes[i]);
        i = i + 1;
        assert(out@ =~= start + bytes@.subrange(0, i as int));
    }
    assert(bytes@.subrange(0, i as int) =~= bytes@);
}

/// Appends the spelling of a keyword or symbol.
fn append_word(out: &mut Vec<u8>, kind: TokenKind)
    ensures
        final(out)@ == old(out)@ + word(kind),
{
    append(out, &spelling(kind));
}

fn append_byte(out: &mut Vec<u8>, b: u8)
    ensures
        final(out)@ == old(out)@ + seq![b],
{
    out.push(b);
    assert(out@ =~= old(out)@ + seq![b]);
}

fn append_lexeme(out: &mut Vec<u8>, token: &Token)
    ensures
        final(out)@ == old(out)@ + token@.lexeme(),
{
    append(out, &token.get_lexeme());
}

fn append_space(out: &mut Vec<u8>)
    ensures
        final(out)@ == old(out)@ + space(),
{
    append_byte(out, ' ' as u8);
}

fn append_newline(out: &mut Vec<u8>)
    ensures
        final(out)@ == old(out)@ + newline(),
{
    append_byte(out, '\n' as u8);
}

/// ` as `
fn append_as(out: &mut Vec<u8>)
    ensures
        final(out)@ == old(out)@ + as_text(),
{
    let ghost start = out@;
    append_space(out);
    append_word(out, TokenKind::As);
    append_space(out);
    assert(out@ =~= start + as_text());
}

/// ` = `
fn append_equals(out: &mut Vec<u8>)
    ensures
        final(out)@ == old(out)@ + equals_text(),
{
    let ghost start = out@;
    append_space(out);
    append_word(out, TokenKind::Assignment);
    append_space(out);
    assert(out@ =~= start + equals_text());
}

/// `end <keyword>` and a line break.
fn append_end(out: &mut Vec<u8>, keyword: TokenKind)
    ensures
        final(out)@ == old(out)@ + end_text(keyword),
{
    let ghost start = out@;
    append_word(out, TokenKind::End);
    append_space(out);
    append_word(out, keyword);
    append_newline(out);
    assert(out@ =~= start + end_text(keyword));
}

fn append_placeholder(out: &mut Vec<u8>)
    ensures
        final(out)@ == old(out)@ + placeholder(),
{
    let line: Vec<u8> = vec![
        '_' as u8, '_' as u8, 'P' as u8, 'O' as u8, 'L' as u8, 'Y' as u8, 'F' as u8, 'I' as u8,
        'L' as u8, 'L' as u8, '_' as u8, '_' as u8, '\n' as u8,
    ];
    append(out, &line);
}

/// Writes statements as legacy-dialect text.
pub struct Generator {
    statements: Viewer<Statement>,
}

impl Generator {
    /// The statements still to write.
    pub closed spec fn pending(&self) -> Seq<StatementView> {
        view_statements(self.statements.items()).subrange(
            self.statements.cursor() as int,
            self.statements.items().len() as int,
        )
    }

    pub closed spec fn wf(&self) -> bool {
        self.statements.cursor() <= self.statements.items().len()
    }

    pub fn new(statements: Vec<Statement>) -> (r: Self)
        ensures
            r.wf(),
            r.pending() == view_statements(statements@),
    {
        let r = Self { statements: Viewer::new(statements) };
        assert(r.pending() =~= view_statements(statements@));
        r
    }

    /// The text of the statements still to write, one after the other, as bytes.
    pub fn generate_bytes(&mut self) -> (r: Vec<u8>)
        requires
            old(self).wf(),
        ensures
            r@ == generated(old(self).pending()),
    {
        let ghost items = view_statements(self.statements.items());
        let ghost start: nat = self.statements.cursor();
        let mut generated_code: Vec<u8> = Vec::new();
        let mut more = true;
        proof {
            assert(items.subrange(start as int, start as int) =~= Seq::<StatementView>::empty());
            assert(statements_text(items.subrange(start as int, start as int)) == Seq::<u8>::empty());
        }
        while more
            invariant
                self.wf(),
                view_statements(self.statements.items()) == items,
                start <= self.statements.cursor() <= items.len(),
                more ==> generated_code@ == statements_text(
                    items.subrange(start as int, self.statements.cursor() as int),
                ),
                !more ==> generated_code@ == statements_text(
                    items.subrange(start as int, items.len() as int),
                ),
            decreases items.len() - self.statements.cursor() + (if more { 1int } else { 0int }),
        {
            let ghost i = self.statements.cursor() as int;
            match self.statements.next() {
                Some(statement) => {
                    assert(statement@ == items[i]);
                    self.generate_statement(&statement, &mut generated_code);
                    assert(items.subrange(start as int, i + 1).drop_last() =~= items.subrange(start as int, i));
                },
                None => {
                    more = false;
                },
            }
        }
        generated_code
    }

    /// The text of the statements still to write, one after the other.
    pub fn generate(&mut self) -> (r: String)
        requires
            old(self).wf(),
        ensures
            r@ == text_of(generated(old(self).pending())),
            is_ascii_text(generated(old(self).pending())) ==> r@ == ascii_chars(
                generated(old(self).pending()),
            ),
    {
        let bytes = self.generate_bytes();
        to_text(&bytes)
    }

    /// Appends the text of one statement.
    fn generate_statement(&self, statement: &Statement, out: &mut Vec<u8>)
        ensures
            final(out)@ == old(out)@ + statement_text(statement@),
        decreases statement, 0int,
    {
        match statement {
            Statement::Function(data) => {
                proof { assert(decreases_to!(*statement => statement->Function_0)); }
                self.generate_function(data, out)
            },
            Statement::Subroutine(data) => {
                proof { assert(decreases_to!(*statement => statement->Subroutine_0)); }
                self.generate_subroutine(data, out)
            },
            Statement::Type(data) => {
                proof { assert(decreases_to!(*statement => statement->Type_0)); }
                self.generate_type(data, out)
            },
            Statement::TypeAttribute(data) => self.generate_type_attribute(data, out),
            Statement::Enum(data) => {
                proof { assert(decreases_to!(*statement => statement->Enum_0)); }
                self.generate_enum(data, out)
            },
            Statement::EnumAttribute(data) => self.generate_enum_attribute(data, out),
            Statement::Argument(data) => self.generate_argument(data, out),
            Statement::Variable(data) => self.generate_variable(data, out),
            Statement::Constant(data) => self.generate_constant(data, out),
            Statement::Assignment(data) => self.generate_assignment(data, out),
            Statement::Exit(data) => self.generate_exit(data, out),
            Statement::Option(data) => self.generate_option(data, out),
            Statement::Attribute(data) => self.generate_attribute(data, out),
            _ => append_placeholder(out),
        }
    }

    /// Appends the texts of `statements`, one after the other.
    fn generate_statements(&self, statements: &Vec<Statement>, out: &mut Vec<u8>)
        ensures
            final(out)@ == old(out)@ + statements_text(view_statements(statements@)),
        decreases statements, 0int,
    {
        let ghost start = out@;
        let ghost items = view_statements(statements@);
        let mut i: usize = 0;
        assert(items.subrange(0, 0) =~= Seq::<StatementView>::empty());
        assert(start + statements_text(items.subrange(0, 0)) =~= start);
        while i < statements.len()
            invariant
                i <= statements@.len(),
                items == view_statements(statements@),
                out@ == start + statements_text(items.subrange(0, i as int)),
            decreases statements@.len() - i,
        {
            proof {
                assert(decreases_to!(*statements => statements@[i as int])) by {
                    assert(decreases_to!(*statements => statements@));
                }
            }
            self.generate_statement(&statements[i], out);
            assert(items.subrange(0, i + 1).drop_last() =~= items.subrange(0, i as int));
            assert(out@ =~= start + statements_text(items.subrange(0, i + 1)));
            i = i + 1;
        }
        assert(items.subrange(0, i as int) =~= items);
    }

    /// Appends `scope <keyword> name(arguments)`, the last separator of the
    /// argument list taken off.
    fn generate_signature(
        &self,
        scope: &Token,
        keyword: TokenKind,
        name: &Token,
        arguments: &Vec<Statement>,
        out: &mut Vec<u8>,
    )
        ensures
            final(out)@ == old(out)@ + signature_text(
                scope@,
                keyword,
                name@,
                view_statements(arguments@),
            ),
        decreases arguments, 1int,
    {
        let ghost start = out@;
        append_lexeme(out, scope);
        append_space(out);
        append_word(out, keyword);
        append_space(out);
        append_lexeme(out, name);
        append_word(out, TokenKind::LeftParentheses);
        let mut listed: Vec<u8> = Vec::new();
        self.generate_statements(arguments, &mut listed);
        if arguments.len() > 0 {
            if listed.len() >= 2 {
                let keep = listed.len() - 2;
                listed.truncate(keep);
            } else {
                listed = Vec::new();
            }
        }
        assert(listed@ =~= argument_list_text(view_statements(arguments@)));
        append(out, &listed);
        append_word(out, TokenKind::RightParentheses);
        assert(out@ =~= start + signature_text(scope@, keyword, name@, view_statements(arguments@)));
    }

    /// Appends the signature of a function, its `as` clause when it has a
    /// return type, and a line break.
    fn generate_function_signature(&self, data: &FunctionStatement, out: &mut Vec<u8>)
        ensures
            final(out)@ == old(out)@ + signature_text(
                data.scope@,
                TokenKind::Function,
                data.name@,
                view_statements(data.arguments@),
            ) + optional_text(as_text(), view_token_option(data.kind)) + newline(),
        decreases data, 1int,
    {
        let ghost start = out@;
        proof { assert(decreases_to!(*data => data.arguments)); }
        self.generate_signature(&data.scope, TokenKind::Function, &data.name, &data.arguments, out);
        match &data.kind {
            Some(kind) => {
                append_as(out);
                append_lexeme(out, kind);
            },
            None => {},
        }
        append_newline(out);
        assert(out@ =~= start + signature_text(
            data.scope@,
            TokenKind::Function,
            data.name@,
            view_statements(data.arguments@),
        ) + optional_text(as_text(), view_token_option(data.kind)) + newline());
    }

    /// Appends the statements of a function body.
    fn generate_function_body(&self, data: &FunctionStatement, out: &mut Vec<u8>)
        ensures
            final(out)@ == old(out)@ + statements_text(view_statements(data.body@)),
        decreases data, 1int,
    {
        proof { assert(decreases_to!(*data => data.body)); }
        self.generate_statements(&data.body, out);
    }

    fn generate_function(&self, data: &FunctionStatement, out: &mut Vec<u8>)
        ensures
            final(out)@ == old(out)@ + statement_text(Statement::Function(*data)@),
        decreases data, 2int,
    {
        let ghost start = out@;
        self.generate_function_signature(data, out);
        self.generate_function_body(data, out);
        append_end(out, TokenKind::Function);
        assert(out@ =~= start + statement_text(Statement::Function(*data)@));
    }

    fn generate_subroutine(&self, data: &SubroutineStatement, out: &mut Vec<u8>)
        ensures
            final(out)@ == old(out)@ + statement_text(Statement::Subroutine(*data)@),
        decreases data, 2int,
    {
        let ghost start = out@;
        proof {
            assert(decreases_to!(*data => data.arguments));
            assert(decreases_to!(*data => data.body));
        }
        self.generate_signature(&data.scope, TokenKind::Sub, &data.name, &data.arguments, out);
        append_newline(out);
        self.generate_statements(&data.body, out);
        append_end(out, TokenKind::Sub);
        assert(out@ =~= start + statement_text(Statement::Subroutine(*data)@));
    }

    fn generate_type(&self, data: &TypeStatement, out: &mut Vec<u8>)
        ensures
            final(out)@ == old(out)@ + statement_text(Statement::Type(*data)@),
        decreases data, 2int,
    {
        let ghost start = out@;
        proof { assert(decreases_to!(*data => data.attributes)); }
        append_word(out, TokenKind::Type);
        append_space(out);
        append_lexeme(out, &data.name);
        append_newline(out);
        self.generate_statements(&data.attributes, out);
        append_end(out, TokenKind::Type);
        assert(out@ =~= start + statement_text(Statement::Type(*data)@));
    }

    fn generate_type_attribute(&self, data: &TypeAttributeStatement, out: &mut Vec<u8>)
        ensures
            final(out)@ == old(out)@ + statement_text(Statement::TypeAttribute(*data)@),
    {
        let ghost start = out@;
        append_lexeme(out, &data.name);
        append_as(out);
        append_lexeme(out, &data.kind);
        append_newline(out);
        assert(out@ =~= start + statement_text(Statement::TypeAttribute(*data)@));
    }

    fn generate_enum(&self, data: &EnumStatement, out: &mut Vec<u8>)
        ensures
            final(out)@ == old(out)@ + statement_text(Statement::Enum(*data)@),
        decreases data, 2int,
    {
        let ghost start = out@;
        proof { assert(decreases_to!(*data => data.attributes)); }
        match &data.scope {
            Some(scope) => {
                append_lexeme(out, scope);
                append_space(out);
            },
            None => {},
        }
        append_word(out, TokenKind::Enum);
        append_space(out);
        append_lexeme(out, &data.name);
        append_newline(out);
        self.generate_statements(&data.attributes, out);
        append_end(out, TokenKind::Enum);
        assert(out@ =~= start + statement_text(Statement::Enum(*data)@));
    }

    fn generate_enum_attribute(&self, data: &EnumAttributeStatement, out: &mut Vec<u8>)
        ensures
            final(out)@ == old(out)@ + statement_text(Statement::EnumAttribute(*data)@),
    {
        let ghost start = out@;
        append_lexeme(out, &data.name);
        match &data.value {
            Some(value) => {
                append_equals(out);
                append_lexeme(out, value);
            },
            None => {},
        }
        append_newline(out);
        assert(out@ =~= start + statement_text(Statement::EnumAttribute(*data)@));
    }

    /// Appends `[modifier ]name as kind, `; the separator is taken off the last
    /// argument of a signature.
    fn generate_argument(&self, data: &ArgumentStatement, out: &mut Vec<u8>)
        ensures
            final(out)@ == old(out)@ + statement_text(Statement::Argument(*data)@),
    {
        let ghost start = out@;
        match &data.modifier {
            Some(modifier) => {
                append_lexeme(out, modifier);
                append_space(out);
            },
            None => {},
        }
        append_lexeme(out, &data.name);
        append_as(out);
        append_lexeme(out, &data.kind);
        append_word(out, TokenKind::Comma);
        append_space(out);
        assert(out@ =~= start + statement_text(Statement::Argument(*data)@));
    }

    fn generate_variable(&self, data: &VariableStatement, out: &mut Vec<u8>)
        ensures
            final(out)@ == old(out)@ + statement_text(Statement::Variable(*data)@),
    {
        let ghost start = out@;
        append_lexeme(out, &data.scope);
        append_space(out);
        append_lexeme(out, &data.name);
        append_as(out);
        append_lexeme(out, &data.kind);
        append_newline(out);
        assert(out@ =~= start + statement_text(Statement::Variable(*data)@));
    }

    #[verifier::rlimit(50)]
    fn generate_constant(&self, data: &ConstantStatement, out: &mut Vec<u8>)
        ensures
            final(out)@ == old(out)@ + statement_text(Statement::Constant(*data)@),
    {
        let ghost start = out@;
        append_lexeme(out, &data.scope);
        append_space(out);
        append_word(out, TokenKind::Const);
        append_space(out);
        append_lexeme(out, &data.name);
        match &data.kind {
            Some(kind) => {
                append_as(out);
                append_lexeme(out, kind);
            },
            None => {},
        }
        match &data.length {
            Some(length) => {
                append_space(out);
                append_word(out, TokenKind::Times);
                append_space(out);
                append_lexeme(out, length);
            },
            None => {},
        }
        append_equals(out);
        append_lexeme(out, &data.value);
        append_newline(out);
        assert(out@ =~= start + statement_text(Statement::Constant(*data)@));
    }

    fn generate_assignment(&self, data: &AssignmentStatement, out: &mut Vec<u8>)
        ensures
            final(out)@ == old(out)@ + statement_text(Statement::Assignment(*data)@),
    {
        let ghost start = out@;
        append_lexeme(out, &data.left);
        append_equals(out);
        append_lexeme(out, &data.right);
        append_newline(out);
        assert(out@ =~= start + statement_text(Statement::Assignment(*data)@));
    }

    fn generate_exit(&self, data: &ExitStatement, out: &mut Vec<u8>)
        ensures
            final(out)@ == old(out)@ + statement_text(Statement::Exit(*data)@),
    {
        let ghost start = out@;
        append_word(out, TokenKind::Exit);
        append_space(out);
        append_lexeme(out, &data.block);
        append_newline(out);
        assert(out@ =~= start + statement_text(Statement::Exit(*data)@));
    }

    fn generate_option(&self, data: &OptionStatement, out: &mut Vec<u8>)
        ensures
            final(out)@ == old(out)@ + statement_text(Statement::Option(*data)@),
    {
        let ghost start = out@;
        append_word(out, TokenKind::Option);
        append_space(out);
        append_lexeme(out, &data.configuration);
        match &data.value {
            Some(value) => {
                append_space(out);
                append_lexeme(out, value);
            },
            None => {},
        }
        append_newline(out);
        assert(out@ =~= start + statement_text(Statement::Option(*data)@));
    }

    fn generate_attribute(&self, data: &AttributeStatement, out: &mut Vec<u8>)
        ensures
            final(out)@ == old(out)@ + statement_text(Statement::Attribute(*data)@),
    {
        let ghost start = out@;
        let word: Vec<u8> = vec![
            'A' as u8, 't' as u8, 't' as u8, 'r' as u8, 'i' as u8, 'b' as u8, 'u' as u8, 't' as u8,
            'e' as u8,
        ];
        append(out, &word);
        append_space(out);
        append_lexeme(out, &data.name);
        append_equals(out);
        append_lexeme(out, &data.value);
        append_newline(out);
        assert(out@ =~= start + statement_text(Statement::Attribute(*data)@));
    }
}

/// Every byte is ASCII.
pub open spec fn is_ascii_text(bytes: Seq<u8>) -> bool {
    forall|i: int| 0 <= i < bytes.len() ==> bytes[i] < 128
}

/// ASCII bytes read one for one as characters.
pub open spec fn ascii_chars(bytes: Seq<u8>) -> Seq<char> {
    bytes.map_values(|b: u8| b as char)
}

/// The characters that `String::from_utf8_lossy` reads from `bytes`.
pub uninterp spec fn text_of(bytes: Seq<u8>) -> Seq<char>;

/// Relies on `String::from_utf8_lossy`: the result depends on the bytes alone,
/// and valid UTF-8 (ASCII in particular, one character per byte) is kept as it is.
#[verifier::external_body]
fn to_text(bytes: &Vec<u8>) -> (r: String)
    ensures
        r@ == text_of(bytes@),
        is_ascii_text(bytes@) ==> r@ == ascii_chars(bytes@),
{
    String::from_utf8_lossy(bytes).into_owned()
}

/// The legacy-dialect text of `statements`, as bytes.
pub fn generate_bytes(statements: Vec<Statement>) -> (r: Vec<u8>)
    ensures
        r@ == generated(view_statements(statements@)),
{
    let mut generator = Generator::new(statements);
    generator.generate_bytes()
}

/// The legacy-dialect text of `statements`: each statement in its own form,
/// one after the other.
pub fn generate(statements: Vec<Statement>) -> (r: String)
    ensures
        r@ == text_of(generated(view_statements(statements@))),
        is_ascii_text(generated(view_statements(statements@))) ==> r@ == ascii_chars(
            generated(view_statements(statements@)),
        ),
{
    let mut generator = Generator::new(statements);
    generator.generate()
}

} // verus!
