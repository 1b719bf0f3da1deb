use asalang::{
    assignment, block, check_token, comment, expression, function_call, function_define,
    function_return, identifier, if_expression, lex, number, primary, program, split_tokens,
    statement, t_alpha, t_alpha0, t_alpha1, t_alphanumeric0, t_alphanumeric1, t_digit, t_let,
    unary, value, variable_define, while_loop, Node, ParseError, ParseErrorKind, TokenKind,
    Tokens,
};

fn ident(name: &str) -> Node {
    Node::Identifier { value: name.as_bytes().to_vec() }
}

fn num(digits: &str) -> Node {
    Node::Number { value: digits.as_bytes().to_vec() }
}

fn expr(inner: Node) -> Node {
    Node::Expression { children: vec![inner] }
}

fn binary(op: &str, left: Node, right: Node) -> Node {
    Node::BinaryExpression { name: op.as_bytes().to_vec(), children: vec![left, right] }
}

fn whole(r: Result<(Tokens, Node), ParseError>) -> Node {
    let (rest, tree) = r.expect("the rule should match");
    assert!(rest.is_done());
    tree
}

#[test]
fn variable_define_builds_the_documented_tree() {
    assert_eq!(
        whole(variable_define(lex("let a = 1 + 1"))),
        Node::VariableDefine {
            children: vec![ident("a"), expr(binary("+", num("1"), num("1")))],
        }
    );
}

#[test]
fn precedence_runs_from_or_down_to_exponent() {
    assert_eq!(
        whole(expression(lex("a || b && c == d < e + f * g ^ h"))),
        expr(binary(
            "||",
            ident("a"),
            binary(
                "&&",
                ident("b"),
                binary(
                    "==",
                    ident("c"),
                    binary(
                        "<",
                        ident("d"),
                        binary(
                            "+",
                            ident("e"),
                            binary("*", ident("f"), binary("^", ident("g"), ident("h"))),
                        ),
                    ),
                ),
            ),
        ))
    );
}

#[test]
fn binary_levels_fold_from_the_left() {
    assert_eq!(
        whole(expression(lex("1 - 2 - 3"))),
        expr(binary("-", binary("-", num("1"), num("2")), num("3")))
    );
    assert_eq!(
        whole(expression(lex("2 ^ 3 ^ 4"))),
        expr(binary("^", binary("^", num("2"), num("3")), num("4")))
    );
    assert_eq!(
        whole(expression(lex("1 % 2 / 3 != 4 >= 5 <= 6 > 7"))),
        expr(binary(
            "!=",
            binary("%", num("1"), binary("/", num("2"), num("3"))),
            binary(">", binary("<=", binary(">=", num("4"), num("5")), num("6")), num("7")),
        ))
    );
}

#[test]
fn unary_takes_one_prefix() {
    assert_eq!(
        whole(unary(lex("-x"))),
        Node::UnaryExpression { name: vec![b'-'], children: vec![ident("x")] }
    );
    assert_eq!(
        whole(unary(lex("!(a)"))),
        Node::UnaryExpression { name: vec![b'!'], children: vec![expr(ident("a"))] }
    );
    assert_eq!(whole(unary(lex("x"))), ident("x"));
    assert!(unary(lex("--x")).is_err());
}

#[test]
fn primary_forms() {
    assert_eq!(whole(primary(lex("(7)"))), expr(num("7")));
    assert_eq!(
        whole(primary(lex("[1, a]"))),
        Node::ArrayLiteral { children: vec![expr(num("1")), expr(ident("a"))] }
    );
    assert_eq!(whole(primary(lex("[]"))), Node::ArrayLiteral { children: vec![] });
    assert_eq!(
        whole(primary(lex("a[0]"))),
        Node::IndexAccess { children: vec![ident("a"), expr(num("0"))] }
    );
    assert_eq!(
        whole(primary(lex("a.length"))),
        Node::PropertyAccess { children: vec![ident("a"), ident("length")] }
    );
    assert_eq!(
        whole(primary(lex("a.insert(0, x)"))),
        Node::MethodCall {
            name: b"insert".to_vec(),
            children: vec![ident("a"), expr(num("0")), expr(ident("x"))],
        }
    );
    assert_eq!(
        whole(primary(lex("a[0].length"))),
        Node::PropertyAccess {
            children: vec![
                Node::IndexAccess { children: vec![ident("a"), expr(num("0"))] },
                ident("length"),
            ],
        }
    );
    assert_eq!(
        whole(primary(lex("\"hi there\""))),
        Node::String { value: b"hi there".to_vec() }
    );
}

#[test]
fn value_takes_the_four_literals() {
    assert_eq!(whole(value(lex("12"))), num("12"));
    assert_eq!(whole(value(lex("a1"))), ident("a1"));
    assert_eq!(whole(value(lex("false"))), Node::Bool { value: false });
    assert_eq!(whole(value(lex("\"s\""))), Node::String { value: vec![b's'] });
    assert!(value(lex("(")).is_err());
}

#[test]
fn identifier_and_number_stop_at_the_first_other_token() {
    let (rest, tree) = identifier(lex("ab1+c")).unwrap();
    assert_eq!(tree, ident("ab1"));
    assert_eq!(rest.len(), 3);
    let (rest, tree) = number(lex("12ab")).unwrap();
    assert_eq!(tree, num("12"));
    assert_eq!(rest.len(), 3);
    assert!(identifier(lex("1a")).is_err());
    assert!(number(lex("a1")).is_err());
}

#[test]
fn function_call_arguments_are_expressions() {
    assert_eq!(
        whole(function_call(lex("f(1, g(2))"))),
        Node::FunctionCall {
            name: vec![b'f'],
            children: vec![Node::FunctionArguments {
                children: vec![
                    expr(num("1")),
                    expr(Node::FunctionCall {
                        name: vec![b'g'],
                        children: vec![Node::FunctionArguments { children: vec![expr(num("2"))] }],
                    }),
                ],
            }],
        }
    );
    assert!(function_call(lex("f(1,)")).is_err());
    assert!(function_call(lex("f(1")).is_err());
}

#[test]
fn function_define_with_defaults() {
    assert_eq!(
        whole(function_define(lex("fn f(a, b = 2) { return a; }"))),
        Node::FunctionDefine {
            name: vec![b'f'],
            children: vec![
                Node::FunctionArguments {
                    children: vec![
                        Node::ArgumentDefine { children: vec![ident("a")] },
                        Node::ArgumentDefine { children: vec![ident("b"), expr(num("2"))] },
                    ],
                },
                Node::FunctionStatements {
                    children: vec![Node::FunctionReturn { children: vec![expr(ident("a"))] }],
                },
            ],
        }
    );
}

#[test]
fn if_chain_is_flattened() {
    let block = |n: &str| Node::Block {
        children: vec![Node::FunctionReturn { children: vec![expr(num(n))] }],
    };
    assert_eq!(
        whole(if_expression(lex(
            "if (a) { return 1; } else if b { return 2; } else if (c) { return 3; } else { return 4; }"
        ))),
        Node::IfExpression {
            children: vec![
                expr(ident("a")),
                block("1"),
                expr(ident("b")),
                block("2"),
                expr(ident("c")),
                block("3"),
                block("4"),
            ],
        }
    );
    assert_eq!(
        whole(if_expression(lex("if a { }"))),
        Node::IfExpression { children: vec![expr(ident("a")), Node::Block { children: vec![] }] }
    );
}

#[test]
fn while_loop_has_a_condition_and_a_block() {
    assert_eq!(
        whole(while_loop(lex("while (x > 0) { x = x - 1; break; continue; }"))),
        Node::WhileLoop {
            children: vec![
                expr(binary(">", ident("x"), num("0"))),
                Node::Block {
                    children: vec![
                        Node::Assignment {
                            children: vec![ident("x"), expr(binary("-", ident("x"), num("1")))],
                        },
                        Node::Break,
                        Node::Continue,
                    ],
                },
            ],
        }
    );
}

#[test]
fn assignment_targets() {
    assert_eq!(
        whole(assignment(lex("a[1] = 2"))),
        Node::Assignment {
            children: vec![
                Node::IndexAccess { children: vec![ident("a"), expr(num("1"))] },
                expr(num("2")),
            ],
        }
    );
    assert_eq!(
        whole(assignment(lex("a.length = 2"))),
        Node::Assignment {
            children: vec![
                Node::PropertyAccess { children: vec![ident("a"), ident("length")] },
                expr(num("2")),
            ],
        }
    );
}

#[test]
fn return_tries_a_call_first() {
    assert_eq!(
        whole(function_return(lex("return f()"))),
        Node::FunctionReturn {
            children: vec![Node::FunctionCall {
                name: vec![b'f'],
                children: vec![Node::FunctionArguments { children: vec![] }],
            }],
        }
    );
    assert_eq!(
        whole(function_return(lex("return 1 + f()"))),
        Node::FunctionReturn {
            children: vec![expr(binary(
                "+",
                num("1"),
                Node::FunctionCall {
                    name: vec![b'f'],
                    children: vec![Node::FunctionArguments { children: vec![] }],
                },
            ))],
        }
    );
}

#[test]
fn comments_run_to_the_end_of_their_line() {
    assert_eq!(whole(comment(lex("// all of this"))), Node::Null);
    assert_eq!(
        whole(program(lex("let a = 1; // first\n// alone\nlet b = 2;"))),
        Node::Program {
            children: vec![
                Node::VariableDefine { children: vec![ident("a"), expr(num("1"))] },
                Node::Null,
                Node::VariableDefine { children: vec![ident("b"), expr(num("2"))] },
            ],
        }
    );
    assert_eq!(
        whole(block(lex("// note\nbreak;"))),
        Node::Block { children: vec![Node::Null, Node::Break] }
    );
    assert!(comment(lex("/ 2")).is_err());
}

#[test]
fn statement_needs_its_semicolon() {
    assert_eq!(whole(statement(lex("break;"))), Node::Break);
    assert_eq!(
        statement(lex("break")),
        Err(ParseError { kind: ParseErrorKind::Unexpected, index: 1, line: 1, col: 6 })
    );
    assert_eq!(
        statement(lex("let a = 1")),
        Err(ParseError { kind: ParseErrorKind::Unexpected, index: 4, line: 1, col: 10 })
    );
}

#[test]
fn errors_name_the_offending_token() {
    assert_eq!(
        variable_define(lex("let = 5")),
        Err(ParseError { kind: ParseErrorKind::Unexpected, index: 1, line: 1, col: 5 })
    );
    assert_eq!(
        primary(lex("(1 + 2\n ;")),
        Err(ParseError { kind: ParseErrorKind::Unexpected, index: 4, line: 2, col: 2 })
    );
    assert_eq!(
        primary(lex("[1, 2")),
        Err(ParseError { kind: ParseErrorKind::Unexpected, index: 4, line: 1, col: 6 })
    );
    assert_eq!(
        function_define(lex("fn f( { }")),
        Err(ParseError { kind: ParseErrorKind::Unexpected, index: 3, line: 1, col: 7 })
    );
    assert_eq!(
        expression(lex("")),
        Err(ParseError { kind: ParseErrorKind::Unexpected, index: 0, line: 1, col: 1 })
    );
}

#[test]
fn empty_streams_do_not_panic() {
    let empty = || Tokens::new();
    let eof = ParseError { kind: ParseErrorKind::Eof, index: 0, line: 0, col: 0 };
    assert_eq!(expression(empty()), Err(eof));
    assert_eq!(statement(empty()), Err(eof));
    assert_eq!(function_define(empty()), Err(eof));
    assert_eq!(identifier(empty()), Err(eof));
    assert_eq!(split_tokens(empty()), Err(eof));
    assert_eq!(t_alpha(empty()), Err(eof));
    let (rest, tree) = program(empty()).unwrap();
    assert!(rest.is_empty());
    assert_eq!(tree, Node::Program { children: vec![] });
    let (rest, tree) = program(lex("")).unwrap();
    assert!(rest.is_done());
    assert_eq!(tree, Node::Program { children: vec![] });
    let cut = lex("let a").take(2);
    assert_eq!(
        variable_define(cut),
        Err(ParseError { kind: ParseErrorKind::Eof, index: 2, line: 1, col: 5 })
    );
}

#[test]
fn program_stops_where_nothing_matches() {
    let (rest, tree) = program(lex("1 ) 2")).unwrap();
    assert_eq!(tree, Node::Program { children: vec![expr(num("1"))] });
    assert_eq!(rest.len(), 3);
    assert!(!rest.is_done());
}

#[test]
fn token_helpers() {
    let (rest, first) = split_tokens(lex("a1")).unwrap();
    assert_eq!(first.kind, TokenKind::Alpha);
    assert_eq!(first.lexeme, vec![b'a']);
    assert_eq!(rest.len(), 2);
    let (rest, first) = check_token(lex("let x"), TokenKind::Let).unwrap();
    assert_eq!(first.kind, TokenKind::Let);
    assert_eq!(rest.len(), 2);
    assert_eq!(
        check_token(lex("x"), TokenKind::Let),
        Err(ParseError { kind: ParseErrorKind::Unexpected, index: 0, line: 1, col: 1 })
    );
    assert!(t_alpha(lex("a")).is_ok());
    assert!(t_alpha(lex("1")).is_err());
    assert!(t_digit(lex("1")).is_ok());
    assert!(t_digit(lex("a")).is_err());
    assert!(t_let(lex("let")).is_ok());
    assert!(t_let(lex("a")).is_err());
}

#[test]
fn token_runs() {
    let (rest, run) = t_alpha1(lex("ab1")).unwrap();
    assert_eq!(run.len(), 2);
    assert_eq!(rest.len(), 2);
    assert!(t_alpha1(lex("1ab")).is_err());
    let (rest, run) = t_alpha0(lex("1ab")).unwrap();
    assert_eq!(run.len(), 0);
    assert_eq!(rest.len(), 4);
    let (rest, run) = t_alphanumeric1(lex("a1b2+")).unwrap();
    assert_eq!(run.iter().map(|t| t.lexeme[0]).collect::<Vec<u8>>(), b"a1b2".to_vec());
    assert_eq!(rest.len(), 2);
    assert!(t_alphanumeric1(lex("+")).is_err());
    let (rest, run) = t_alphanumeric0(lex("+")).unwrap();
    assert_eq!(run.len(), 0);
    assert_eq!(rest.len(), 2);
}
