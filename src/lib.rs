//! A compiler from a BASIC-family source dialect to its legacy form: bytes are
//! lexed into tokens, parsed into statements, rewritten, and printed back.
pub mod token;
pub mod viewer;
pub mod statement;
pub mod lexer;
pub mod grammar;
pub mod parser;
pub mod transformer;
pub mod generator;
pub mod canonical;
pub mod laws;

pub use token::{Token, TokenKind, TokenView};
pub use viewer::Viewer;
pub use statement::{
    Statement, TypeStatement, TypeAttributeStatement, EnumStatement, EnumAttributeStatement,
    VariableStatement, ConstantStatement, SubroutineStatement, FunctionStatement, ExitStatement,
    ArgumentStatement, AssignmentStatement, ReturnStatement, OptionStatement, AttributeStatement,
};
pub use lexer::lex;
pub use parser::{parse, signatures_closed, Parser};
pub use transformer::{transform, Transformer};
pub use generator::{generate, generate_bytes, Generator};
