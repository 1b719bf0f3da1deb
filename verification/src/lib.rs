pub mod arrays;
pub mod ast;
pub mod error;
pub mod frames;
pub mod grammar;
pub mod interpreter;
pub mod lexer;
pub mod ops;
pub mod parser;
pub mod progress;
pub mod semantics;
pub mod text;
pub mod value;

pub use ast::{Ast, Node};
pub use error::{AsaErrorKind, ErrorView};
pub use interpreter::{Interpreter, DEFAULT_MAX_DEPTH};
pub use lexer::{lex, lex_bytes, Token, TokenKind, TokenView, Tokens};
pub use ops::{eval_binary_op, eval_number, eval_unary_op};
pub use parser::{
    addition, argument, arguments, assignment, block, boolean, break_statement, check_token,
    comment, comparison, continue_statement, equality, exponentiation, expression,
    function_call, function_define, function_return, identifier, if_expression, logical_and,
    logical_or, multiplication, number, primary, program, split_tokens, statement, string,
    t_alpha, t_alpha0, t_alpha1, t_alphanumeric0, t_alphanumeric1, t_digit, t_let, unary, value,
    variable_define, while_loop, ParseError, ParseErrorKind,
};
pub use semantics::Machine;
pub use text::{display_text, render};
pub use value::{Value, ValueView};
