use basic_compiler::{
    generate, generate_bytes, lex, parse, signatures_closed, transform, ArgumentStatement, AssignmentStatement,
    ConstantStatement, EnumAttributeStatement, EnumStatement, ExitStatement, FunctionStatement,
    OptionStatement, ReturnStatement, Statement, SubroutineStatement, Token, TypeAttributeStatement,
    TypeStatement, VariableStatement, Viewer,
};

fn ident(s: &str) -> Token {
    Token::Identifier(s.as_bytes().to_vec())
}

fn compile(source: &[u8]) -> Vec<u8> {
    generate_bytes(transform(parse(&lex(&source.to_vec()))))
}

fn compile_text(source: &str) -> String {
    generate(transform(parse(&lex(&source.as_bytes().to_vec()))))
}

#[test]
fn lex_empty_input() {
    assert_eq!(lex(&Vec::new()), Vec::<Token>::new());
}

#[test]
fn lex_white_space_only() {
    assert_eq!(lex(&b" \t\r\n  \x0b\x0c".to_vec()), Vec::<Token>::new());
}

#[test]
fn lex_decimal_number() {
    assert_eq!(lex(&b"123.45".to_vec()), vec![Token::Number(b"123.45".to_vec())]);
}

#[test]
fn lex_number_with_bare_dot() {
    assert_eq!(lex(&b"123.".to_vec()), vec![Token::Number(b"123".to_vec()), Token::Dot]);
    assert_eq!(
        lex(&b"1.x".to_vec()),
        vec![Token::Number(b"1".to_vec()), Token::Dot, ident("x")]
    );
}

#[test]
fn lex_unterminated_string() {
    assert_eq!(lex(&b"\"abc".to_vec()), Vec::<Token>::new());
    assert_eq!(lex(&b"x \"abc".to_vec()), vec![ident("x")]);
}

#[test]
fn lex_string_keeps_quotes() {
    assert_eq!(
        lex(&b"\"a b\" 7".to_vec()),
        vec![Token::String(b"\"a b\"".to_vec()), Token::Number(b"7".to_vec())]
    );
}

#[test]
fn lex_keywords_in_any_case() {
    assert_eq!(
        lex(&b"PUBLIC Sub end FUNCTION".to_vec()),
        vec![Token::Public, Token::Sub, Token::End, Token::Function]
    );
}

#[test]
fn lex_identifier_keeps_case() {
    assert_eq!(lex(&b"MyVar_2 x1".to_vec()), vec![ident("MyVar_2"), ident("x1")]);
    assert_eq!(lex(&b"_a".to_vec()), vec![ident("_a")]);
    assert_eq!(lex(&b"publicity".to_vec()), vec![ident("publicity")]);
}

#[test]
fn lex_symbols() {
    assert_eq!(
        lex(&b"( ) [ ] + - * / < <= > >= = . ,".to_vec()),
        vec![
            Token::LeftParentheses,
            Token::RightParentheses,
            Token::LeftBracket,
            Token::RightBracket,
            Token::Plus,
            Token::Minus,
            Token::Times,
            Token::Divide,
            Token::Less,
            Token::LessOrEqual,
            Token::Greater,
            Token::GreaterOrEqual,
            Token::Assignment,
            Token::Dot,
            Token::Comma,
        ]
    );
    assert_eq!(lex(&b"<=>".to_vec()), vec![Token::LessOrEqual, Token::Greater]);
}

#[test]
fn lex_stops_at_unknown_byte() {
    assert_eq!(lex(&b"a # b".to_vec()), vec![ident("a")]);
    assert_eq!(lex(&b"x&".to_vec()), vec![ident("x")]);
}

#[test]
fn lexeme_of_tokens() {
    assert_eq!(Token::Public.get_lexeme(), b"public".to_vec());
    assert_eq!(Token::GreaterOrEqual.get_lexeme(), b">=".to_vec());
    assert_eq!(Token::Attribute.get_lexeme(), b"attribute".to_vec());
    assert_eq!(ident("Foo").get_lexeme(), b"Foo".to_vec());
    assert_eq!(Token::Number(b"3.5".to_vec()).get_lexeme(), b"3.5".to_vec());
}

#[test]
fn viewer_reads_marks_and_rewinds() {
    let mut viewer = Viewer::new(vec![1u32, 2, 3]);
    assert_eq!(viewer.next(), Some(1));
    viewer.mark();
    assert_eq!(viewer.next(), Some(2));
    assert_eq!(viewer.next(), Some(3));
    assert_eq!(viewer.next(), None);
    assert_eq!(viewer.next(), None);
    viewer.rewind();
    assert_eq!(viewer.next(), Some(2));
}

#[test]
fn viewer_rewinds_to_start_without_mark() {
    let mut viewer = Viewer::new(vec!['a', 'b']);
    assert_eq!(viewer.next(), Some('a'));
    viewer.rewind();
    assert_eq!(viewer.next(), Some('a'));
}

#[test]
fn parse_variable_declaration() {
    let statements = parse(&lex(&b"Dim count As Long".to_vec()));
    assert_eq!(
        statements,
        vec![Statement::Variable(VariableStatement {
            scope: Token::Dim,
            name: ident("count"),
            kind: ident("Long"),
        })]
    );
}

#[test]
fn parse_constant_with_and_without_kind() {
    let statements = parse(&lex(&b"Public Const A As Integer = 5 Private Const B = \"x\"".to_vec()));
    assert_eq!(
        statements,
        vec![
            Statement::Constant(ConstantStatement {
                scope: Token::Public,
                name: ident("A"),
                kind: Some(ident("Integer")),
                length: None,
                value: Token::Number(b"5".to_vec()),
            }),
            Statement::Constant(ConstantStatement {
                scope: Token::Private,
                name: ident("B"),
                kind: None,
                length: None,
                value: Token::String(b"\"x\"".to_vec()),
            }),
        ]
    );
}

#[test]
fn parse_type_declaration() {
    let statements = parse(&lex(&b"Type Point\n x As Long\n y As Long\nEnd Type".to_vec()));
    assert_eq!(
        statements,
        vec![Statement::Type(TypeStatement {
            name: ident("Point"),
            attributes: vec![
                Statement::TypeAttribute(TypeAttributeStatement { name: ident("x"), kind: ident("Long") }),
                Statement::TypeAttribute(TypeAttributeStatement { name: ident("y"), kind: ident("Long") }),
            ],
        })]
    );
}

#[test]
fn parse_enum_with_and_without_scope() {
    let statements = parse(&lex(&b"Enum Color\n Red = 1\n Green\nEnd Enum\nPrivate Enum E\nEnd Enum".to_vec()));
    assert_eq!(
        statements,
        vec![
            Statement::Enum(EnumStatement {
                scope: None,
                name: ident("Color"),
                attributes: vec![
                    Statement::EnumAttribute(EnumAttributeStatement {
                        name: ident("Red"),
                        value: Some(Token::Number(b"1".to_vec())),
                    }),
                    Statement::EnumAttribute(EnumAttributeStatement { name: ident("Green"), value: None }),
                ],
            }),
            Statement::Enum(EnumStatement { scope: Some(Token::Private), name: ident("E"), attributes: vec![] }),
        ]
    );
}

#[test]
fn parse_subroutine_with_arguments_and_body() {
    let source = b"Public Sub S(ByVal a As Integer, b As String)\nDim t As Long\nt = a\nReturn\nExit Sub\nEnd Sub";
    let statements = parse(&lex(&source.to_vec()));
    assert_eq!(
        statements,
        vec![Statement::Subroutine(SubroutineStatement {
            scope: Token::Public,
            name: ident("S"),
            arguments: vec![
                Statement::Argument(ArgumentStatement {
                    modifier: Some(Token::ByVal),
                    name: ident("a"),
                    kind: ident("Integer"),
                }),
                Statement::Argument(ArgumentStatement { modifier: None, name: ident("b"), kind: ident("String") }),
            ],
            body: vec![
                Statement::Variable(VariableStatement { scope: Token::Dim, name: ident("t"), kind: ident("Long") }),
                Statement::Assignment(AssignmentStatement { left: ident("t"), right: Box::new(ident("a")) }),
                Statement::Return(ReturnStatement { value: None }),
                Statement::Exit(ExitStatement { block: Token::Sub }),
            ],
        })]
    );
}

#[test]
fn parse_stops_where_nothing_matches() {
    let statements = parse(&lex(&b"Dim a As Long\nx + 1\nDim b As Long".to_vec()));
    assert_eq!(
        statements,
        vec![Statement::Variable(VariableStatement { scope: Token::Dim, name: ident("a"), kind: ident("Long") })]
    );
}

#[test]
fn parse_option_base_without_number() {
    assert_eq!(parse(&lex(&b"Option Base".to_vec())), Vec::<Statement>::new());
    assert_eq!(parse(&lex(&b"Option Base x".to_vec())), Vec::<Statement>::new());
    assert_eq!(parse(&lex(&b"Dim a As Long Option Base Dim b As Long".to_vec())).len(), 1);
    assert_eq!(
        parse(&lex(&b"Option Base 1".to_vec())),
        vec![Statement::Option(OptionStatement {
            configuration: Token::Base,
            value: Some(Token::Number(b"1".to_vec())),
        })]
    );
}

#[test]
fn parse_option_settings() {
    assert_eq!(
        parse(&lex(&b"Option Explicit Option Compare Text Option Private Module".to_vec())),
        vec![
            Statement::Option(OptionStatement { configuration: Token::Explicit, value: None }),
            Statement::Option(OptionStatement { configuration: Token::Compare, value: Some(ident("Text")) }),
            Statement::Option(OptionStatement { configuration: Token::Private, value: Some(Token::Module) }),
        ]
    );
}

#[test]
fn transform_function_return() {
    let statements = parse(&lex(&b"Public Function F(x As Integer) As Integer\nReturn x\nEnd Function".to_vec()));
    let transformed = transform(statements);
    assert_eq!(
        transformed,
        vec![Statement::Function(FunctionStatement {
            scope: Token::Public,
            name: ident("F"),
            arguments: vec![Statement::Argument(ArgumentStatement {
                modifier: None,
                name: ident("x"),
                kind: ident("Integer"),
            })],
            kind: Some(ident("Integer")),
            body: vec![
                Statement::Assignment(AssignmentStatement { left: ident("F"), right: Box::new(ident("x")) }),
                Statement::Exit(ExitStatement { block: Token::Function }),
            ],
        })]
    );
}

#[test]
fn transform_generates_function_text() {
    assert_eq!(
        compile_text("Public Function f(x As integer) As integer\nReturn x\nEnd Function"),
        "public function f(x as integer) as integer\nf = x\nexit function\nend function\n"
    );
}

#[test]
fn transform_leaves_other_statements() {
    let statements = parse(&lex(&b"Public Sub S()\nReturn 1\nEnd Sub\nDim a As Long".to_vec()));
    let expected = parse(&lex(&b"Public Sub S()\nReturn 1\nEnd Sub\nDim a As Long".to_vec()));
    assert_eq!(transform(statements), expected);
}

#[test]
fn generate_empty_argument_list() {
    assert_eq!(compile_text("Private Sub s()\nEnd Sub"), "private sub s()\nend sub\n");
    assert_eq!(compile_text("Public Function g()\nEnd Function"), "public function g()\nend function\n");
}

#[test]
fn generate_one_argument() {
    assert_eq!(compile_text("Public Sub s(x As integer)\nEnd Sub"), "public sub s(x as integer)\nend sub\n");
}

#[test]
fn generate_two_arguments() {
    assert_eq!(
        compile_text("Public Sub s(ByRef x As integer, y As long)\nEnd Sub"),
        "public sub s(byref x as integer, y as long)\nend sub\n"
    );
}

#[test]
fn generate_declarations() {
    assert_eq!(compile_text("Static n As Long"), "static n as Long\n");
    assert_eq!(compile_text("Dim Const k As Integer = 3"), "dim const k as Integer = 3\n");
    assert_eq!(compile_text("Type T\na As b\nEnd Type"), "type T\na as b\nend type\n");
    assert_eq!(compile_text("Public Enum E\nA = 1\nB\nEnd Enum"), "public enum E\nA = 1\nB\nend enum\n");
    assert_eq!(compile_text("Enum E\nEnd Enum"), "enum E\nend enum\n");
    assert_eq!(compile_text("Option Base 0"), "option base 0\n");
    assert_eq!(compile_text("Option Explicit"), "option explicit\n");
    assert_eq!(compile_text("attribute VB_Name = \"M\""), "Attribute VB_Name = \"M\"\n");
}

#[test]
fn generate_constant_with_length() {
    let statements = vec![Statement::Constant(ConstantStatement {
        scope: Token::Public,
        name: ident("s"),
        kind: Some(ident("String")),
        length: Some(Token::Number(b"10".to_vec())),
        value: Token::String(b"\"a\"".to_vec()),
    })];
    assert_eq!(generate(statements), "public const s as String * 10 = \"a\"\n");
}

#[test]
fn generate_placeholder_for_return_and_program() {
    assert_eq!(
        compile_text("Public Sub s()\nReturn\nEnd Sub"),
        "public sub s()\n__POLYFILL__\nend sub\n"
    );
    assert_eq!(generate(vec![Statement::Program]), "__POLYFILL__\n");
}

#[test]
fn generate_nothing() {
    assert_eq!(generate(Vec::new()), "");
}

#[test]
fn round_trip_is_a_fixed_point() {
    let source = b"Option Explicit\nattribute VB_Name = \"Mod1\"\nType P\nx As Long\nEnd Type\n\
Enum E\nA = 1\nB\nEnd Enum\nDim v As Integer\nPrivate Const c As Long = 2\n\
Public Function F(ByVal a As Integer, b As Long) As Integer\nDim t As Long\nt = a\nReturn t\nEnd Function\n\
Static Sub S()\nExit Sub\nEnd Sub\n";
    let once = compile(source);
    let twice = compile(&once);
    assert_eq!(twice, once);
    assert!(once.len() > 100);
}

#[test]
fn parse_then_generate_canonicalizes() {
    let once = compile(b"PUBLIC   Function  g ( )   AS   Long\n  Return  7\n END  Function");
    assert_eq!(once, b"public function g() as Long\ng = 7\nexit function\nend function\n".to_vec());
    assert_eq!(compile(&once), once);
}

#[test]
fn parse_refuses_bare_return_in_function() {
    assert_eq!(parse(&lex(&b"Public Function f()\nReturn\nEnd Function".to_vec())), Vec::<Statement>::new());
    assert_eq!(
        parse(&lex(&b"Public Sub s()\nReturn\nEnd Sub".to_vec())),
        vec![Statement::Subroutine(SubroutineStatement {
            scope: Token::Public,
            name: ident("s"),
            arguments: vec![],
            body: vec![Statement::Return(ReturnStatement { value: None })],
        })]
    );
}

#[test]
fn signatures_closed_detects_malformed_argument_lists() {
    assert!(signatures_closed(&lex(&b"Public Sub s(x As Long)\nEnd Sub".to_vec())));
    assert!(signatures_closed(&lex(&b"Dim a As Long".to_vec())));
    assert!(signatures_closed(&Vec::new()));
    assert!(!signatures_closed(&lex(&b"Public Sub s(x)\nEnd Sub".to_vec())));
    assert!(!signatures_closed(&lex(&b"Dim a As Long\nPublic Function f(ByVal)\nEnd Function".to_vec())));
    assert!(signatures_closed(&lex(&b"x Public Sub s(x)".to_vec())));
}

#[test]
fn parse_option_failure_leaves_later_input() {
    assert_eq!(parse(&lex(&b"Option Base Explicit".to_vec())), Vec::<Statement>::new());
    assert_eq!(parse(&lex(&b"Option Private x".to_vec())), Vec::<Statement>::new());
}

#[test]
fn lexeme_lexes_back_to_its_token() {
    for token in vec![
        Token::Public,
        Token::Function,
        Token::Attribute,
        Token::Module,
        Token::LessOrEqual,
        Token::Comma,
        ident("Total_1"),
        Token::Number(b"12.5".to_vec()),
        Token::String(b"\"hi there\"".to_vec()),
    ] {
        assert_eq!(lex(&token.get_lexeme()), vec![token.clone()]);
    }
}
