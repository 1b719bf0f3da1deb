use asalang::{
    eval_binary_op, eval_number, eval_unary_op, lex, program, render, AsaErrorKind, Interpreter,
    Node, Value,
};

fn parse(source: &str) -> Node {
    let (rest, tree) = program(lex(source)).expect("a program never fails to parse");
    assert!(rest.is_done(), "tokens left over in {:?}", source);
    tree
}

fn eval(source: &str) -> Result<Value, AsaErrorKind> {
    Interpreter::new().exec(&parse(source))
}

fn text(s: &str) -> Value {
    Value::String(s.to_string())
}

fn numbers(items: &[i32]) -> Value {
    Value::Array(items.iter().map(|n| Value::Number(*n)).collect())
}

#[test]
fn full_math_yields_three() {
    assert_eq!(eval("let x = ((2+3)*4-8)/(2^2);"), Ok(Value::Number(3)));
    assert_eq!(eval("2^3"), Ok(Value::Number(8)));
}

#[test]
fn exponent_folds_from_the_left() {
    assert_eq!(eval("2^3^2"), Ok(Value::Number(64)));
    assert_eq!(eval("2^0"), Ok(Value::Number(1)));
    assert_eq!(eval("0^0"), Ok(Value::Number(1)));
    assert_eq!(eval("0^5"), Ok(Value::Number(0)));
}

#[test]
fn while_counts_down() {
    assert_eq!(eval("let x=5; while (x>0) { x = x-1; } return x;"), Ok(Value::Number(0)));
}

#[test]
fn while_breaks_at_six() {
    assert_eq!(
        eval("let x=0; while true { x=x+1; if x>5 {break;} } return x;"),
        Ok(Value::Number(6))
    );
}

#[test]
fn continue_skips_the_rest_of_the_round() {
    assert_eq!(
        eval("let x=0; let y=0; while x<10 { x=x+1; if x>3 {continue;} y=y+1; } return y;"),
        Ok(Value::Number(3))
    );
}

#[test]
fn default_argument_greets_the_world() {
    assert_eq!(
        eval("fn greet(name=\"World\"){ return \"Hello, \"+name+\"!\"; } return greet();"),
        Ok(text("Hello, World!"))
    );
    assert_eq!(
        eval("fn greet(name=\"World\"){ return \"Hello, \"+name+\"!\"; } return greet(\"you\");"),
        Ok(text("Hello, you!"))
    );
}

#[test]
fn later_default_sees_earlier_parameter() {
    assert_eq!(eval("fn h(a, b = a + 1) { return b; } return h(3);"), Ok(Value::Number(4)));
    assert_eq!(eval("fn h(a, b = a + 1) { return b; } return h(3, 9);"), Ok(Value::Number(9)));
}

#[test]
fn division_by_zero_is_its_own_failure() {
    assert_eq!(eval("1/0"), Err(AsaErrorKind::DivisionByZero));
    assert_eq!(eval("7%0"), Err(AsaErrorKind::DivisionByZero));
    assert_eq!(eval("let z = 0; return 5 / z;"), Err(AsaErrorKind::DivisionByZero));
}

#[test]
fn division_rounds_toward_zero() {
    assert_eq!(eval("7/2"), Ok(Value::Number(3)));
    assert_eq!(eval("(0-7)/2"), Ok(Value::Number(-3)));
    assert_eq!(eval("7/(0-2)"), Ok(Value::Number(-3)));
    assert_eq!(eval("(0-7)%3"), Ok(Value::Number(-1)));
    assert_eq!(eval("7%(0-3)"), Ok(Value::Number(1)));
    assert_eq!(eval("7%3"), Ok(Value::Number(1)));
}

#[test]
fn index_out_of_range_is_its_own_failure() {
    assert_eq!(eval("let a = [1,2,3]; return a[3];"), Err(AsaErrorKind::IndexOutOfRange));
    assert_eq!(eval("let a = [1,2,3]; return a[0-1];"), Err(AsaErrorKind::IndexOutOfRange));
    assert_eq!(eval("let s = \"abc\"; return s[3];"), Err(AsaErrorKind::IndexOutOfRange));
    assert_eq!(eval("let a = [1]; a[1] = 5;"), Err(AsaErrorKind::IndexOutOfRange));
}

#[test]
fn number_against_bool_is_a_type_mismatch() {
    let expected = Err(AsaErrorKind::TypeMismatch(
        "Type error in binary expression: expected matching types".to_string(),
    ));
    assert_eq!(eval("1 > true"), expected);
    assert_eq!(eval("true < 1"), expected);
    assert_eq!(eval("1 && true"), expected);
}

#[test]
fn equality_never_fails() {
    assert_eq!(eval("1 == true"), Ok(Value::Bool(false)));
    assert_eq!(eval("1 != true"), Ok(Value::Bool(true)));
    assert_eq!(eval("[1,2] == [1,2]"), Ok(Value::Bool(true)));
    assert_eq!(eval("[1,2] == [1,3]"), Ok(Value::Bool(false)));
    assert_eq!(eval("\"a\" == \"a\""), Ok(Value::Bool(true)));
}

#[test]
fn arithmetic_overflow_is_raised() {
    assert_eq!(eval("2147483647 + 1"), Err(AsaErrorKind::NumberOverflow));
    assert_eq!(eval("0 - 2147483647 - 2"), Err(AsaErrorKind::NumberUnderflow));
    assert_eq!(eval("65536 * 65536"), Err(AsaErrorKind::NumberOverflow));
    assert_eq!(eval("65536 * (0 - 65536)"), Err(AsaErrorKind::NumberUnderflow));
    assert_eq!(eval("2^31"), Err(AsaErrorKind::NumberOverflow));
    assert_eq!(eval("2^30"), Ok(Value::Number(1073741824)));
    assert_eq!(eval("-2^31"), Ok(Value::Number(i32::MIN)));
    assert_eq!(eval("-2^33"), Err(AsaErrorKind::NumberUnderflow));
    assert_eq!(eval("-2^32"), Err(AsaErrorKind::NumberOverflow));
    assert_eq!(eval("-1^2147483647"), Ok(Value::Number(-1)));
    assert_eq!(eval("(-2^31) / (0-1)"), Err(AsaErrorKind::NumberOverflow));
    assert_eq!(eval("(-2^31) % (0-1)"), Ok(Value::Number(0)));
    assert_eq!(eval("2147483647"), Ok(Value::Number(i32::MAX)));
    assert_eq!(eval("2147483648"), Err(AsaErrorKind::NumberOverflow));
    assert_eq!(eval("99999999999999999999999999"), Err(AsaErrorKind::NumberOverflow));
}

#[test]
fn negative_exponent_is_refused() {
    assert_eq!(
        eval("2^(0-1)"),
        Err(AsaErrorKind::UnsupportedOperation("Negative exponent".to_string()))
    );
}

#[test]
fn unary_operators() {
    assert_eq!(eval("-5"), Ok(Value::Number(-5)));
    assert_eq!(eval("+5"), Ok(Value::Number(5)));
    assert_eq!(eval("!5"), Ok(Value::Number(-6)));
    assert_eq!(eval("!true"), Ok(Value::Bool(false)));
    assert_eq!(
        eval("-true"),
        Err(AsaErrorKind::TypeMismatch("Type error in unary expression".to_string()))
    );
    assert_eq!(
        eval_unary_op(b"-", Value::Number(i32::MIN)),
        Err(AsaErrorKind::NumberOverflow)
    );
    assert_eq!(eval_unary_op(b"!", Value::Number(i32::MIN)), Ok(Value::Number(i32::MAX)));
}

#[test]
fn plus_joins_text() {
    assert_eq!(eval("\"a\" + \"b\""), Ok(text("ab")));
    assert_eq!(eval("\"n=\" + 42"), Ok(text("n=42")));
    assert_eq!(eval("0 - 7 + \"!\""), Ok(text("-7!")));
    assert_eq!(eval("\"\" + 0"), Ok(text("0")));
    assert_eq!(eval("\"\" + 1000"), Ok(text("1000")));
    assert_eq!(eval("true + \" or \" + false"), Ok(text("true or false")));
    assert_eq!(
        eval("\"items: \" + [1, \"two\", true, [3]]"),
        Ok(text("items: [Number(1), String(\"two\"), Bool(true), Array([Number(3)])]"))
    );
    assert_eq!(eval("\"\" + []"), Ok(text("[]")));
    assert_eq!(eval("fn f(){ return 1; } return \"\" + f;"), Ok(text("<function>")));
    assert_eq!(
        eval("true + 1"),
        Err(AsaErrorKind::TypeMismatch("Invalid types for `+` operation".to_string()))
    );
    assert_eq!(
        eval_binary_op(b"+", text("h"), Value::Identifier(7)),
        Ok(text("h<id:7>"))
    );
}

#[test]
fn unknown_operators_are_refused() {
    assert_eq!(
        eval_binary_op(b"&&", Value::Number(1), Value::Number(2)),
        Err(AsaErrorKind::Generic("Unknown operator".to_string()))
    );
    assert_eq!(
        eval_binary_op(b"<", Value::Bool(true), Value::Bool(false)),
        Err(AsaErrorKind::Generic("Unknown operator for booleans".to_string()))
    );
    assert_eq!(
        eval_binary_op(&[0xff], Value::Number(1), Value::Number(2)),
        Err(AsaErrorKind::Generic("Invalid UTF-8 in operator".to_string()))
    );
    assert_eq!(
        eval_binary_op("\u{e9}".as_bytes(), Value::Number(1), Value::Number(2)),
        Err(AsaErrorKind::Generic("Unknown operator".to_string()))
    );
}

#[test]
fn number_literals() {
    assert_eq!(eval_number(b"123"), Ok(Value::Number(123)));
    assert_eq!(eval_number(b"007"), Ok(Value::Number(7)));
    assert_eq!(
        eval_number(b""),
        Err(AsaErrorKind::Generic("Invalid number literal".to_string()))
    );
    assert_eq!(
        eval_number(b"12a"),
        Err(AsaErrorKind::Generic("Invalid number literal".to_string()))
    );
    assert_eq!(
        eval_number(b"-5"),
        Err(AsaErrorKind::Generic("Invalid number literal".to_string()))
    );
}

#[test]
fn render_writes_the_kind_and_the_content() {
    assert_eq!(render(&Value::Number(-12)), "Number(-12)");
    assert_eq!(render(&Value::Number(i32::MIN)), "Number(-2147483648)");
    assert_eq!(render(&Value::Bool(false)), "Bool(false)");
    assert_eq!(render(&text("a\"b\n")), "String(\"a\\\"b\\n\")");
    assert_eq!(render(&Value::Identifier(u64::MAX)), "Identifier(18446744073709551615)");
    assert_eq!(render(&numbers(&[1, 2])), "Array([Number(1), Number(2)])");
    assert_eq!(
        render(&Value::Function { params: vec![], body: Box::new(Node::Null) }),
        "<function>"
    );
}

#[test]
fn print_writes_one_line_per_call() {
    let mut interpreter = Interpreter::new();
    let tree = parse("let a = print(\"hi\"); let b = print(1 + 2); return a;");
    assert_eq!(interpreter.exec(&tree), Ok(Value::Bool(true)));
    assert_eq!(interpreter.output(), vec!["String(\"hi\")".to_string(), "Number(3)".to_string()]);
    assert_eq!(eval("print()"), Err(AsaErrorKind::ArgumentCountMismatch));
    assert_eq!(eval("print(1, 2)"), Err(AsaErrorKind::ArgumentCountMismatch));
}

#[test]
fn len_counts_characters_and_items() {
    assert_eq!(eval("len(\"h\u{e9}llo\")"), Ok(Value::Number(5)));
    assert_eq!(eval("len([1,2,3])"), Ok(Value::Number(3)));
    assert_eq!(eval("len(\"\")"), Ok(Value::Number(0)));
    assert_eq!(
        eval("len(5)"),
        Err(AsaErrorKind::TypeMismatch("len() not supported on this type".to_string()))
    );
    assert_eq!(eval("len()"), Err(AsaErrorKind::ArgumentCountMismatch));
}

#[test]
fn builtins_come_before_user_functions() {
    assert_eq!(eval("fn len(x) { return 99; } return len(\"ab\");"), Ok(Value::Number(2)));
}

#[test]
fn strings_keep_what_is_between_the_quotes() {
    assert_eq!(eval("\"h\u{e9}llo, w\u{f6}rld\""), Ok(text("h\u{e9}llo, w\u{f6}rld")));
    let broken = Node::String { value: vec![b'a', 0xff, b'b'] };
    assert_eq!(Interpreter::new().exec(&broken), Ok(text("a\u{fffd}b")));
}

#[test]
fn arrays_index_and_length() {
    assert_eq!(eval("[1, 2+3, \"x\"]"), Ok(Value::Array(vec![
        Value::Number(1),
        Value::Number(5),
        text("x"),
    ])));
    assert_eq!(eval("[]"), Ok(Value::Array(vec![])));
    assert_eq!(eval("let a = [10,20,30]; return a[1];"), Ok(Value::Number(20)));
    assert_eq!(eval("[10,20,30][2]"), Ok(Value::Number(30)));
    assert_eq!(eval("let a = [[1,2],[3]]; return a[0][1];"), Ok(Value::Number(2)));
    assert_eq!(eval("let a = [10,20,30]; return a.length;"), Ok(Value::Number(3)));
    assert_eq!(eval("let s = \"h\u{e9}llo\"; return s.length;"), Ok(Value::Number(5)));
    assert_eq!(eval("let s = \"h\u{e9}llo\"; return s[1];"), Ok(text("\u{e9}")));
    assert_eq!(
        eval("let a = [1]; return a[true];"),
        Err(AsaErrorKind::TypeMismatch("Index must be a number".to_string()))
    );
    assert_eq!(
        eval("let n = 5; return n[0];"),
        Err(AsaErrorKind::TypeMismatch("Cannot index this type".to_string()))
    );
    assert_eq!(
        eval("let a = [1]; return a.size;"),
        Err(AsaErrorKind::UnsupportedOperation("Unknown property".to_string()))
    );
    assert_eq!(
        eval("let n = 1; return n.length;"),
        Err(AsaErrorKind::UnsupportedOperation(
            "Cannot access properties on this type".to_string()
        ))
    );
}

#[test]
fn array_methods_write_back() {
    assert_eq!(eval("let a = [1]; let r = a.push(2); return a;"), Ok(numbers(&[1, 2])));
    assert_eq!(eval("let a = [1]; return a.push(2);"), Ok(numbers(&[1, 2])));
    assert_eq!(eval("let a = [1,2]; let r = a.pop(); return r;"), Ok(Value::Number(2)));
    assert_eq!(eval("let a = [1,2]; let r = a.pop(); return a;"), Ok(numbers(&[1])));
    assert_eq!(eval("let a = [1,3]; let r = a.insert(1, 2); return a;"), Ok(numbers(&[1, 2, 3])));
    assert_eq!(eval("let a = [1,3]; let r = a.insert(2, 4); return a;"), Ok(numbers(&[1, 3, 4])));
    assert_eq!(eval("let a = [2]; let r = a.prepend(1); return a;"), Ok(numbers(&[1, 2])));
    assert_eq!(eval("let a = []; return a.pop();"), Err(AsaErrorKind::IndexOutOfRange));
    assert_eq!(eval("let a = [1]; return a.insert(2, 0);"), Err(AsaErrorKind::IndexOutOfRange));
    assert_eq!(
        eval("let a = [1]; return a.insert(true, 0);"),
        Err(AsaErrorKind::TypeMismatch("Index must be a number".to_string()))
    );
    assert_eq!(eval("let a = [1]; return a.push();"), Err(AsaErrorKind::ArgumentCountMismatch));
    assert_eq!(eval("let a = [1]; return a.pop(1);"), Err(AsaErrorKind::ArgumentCountMismatch));
    assert_eq!(
        eval("let a = [1]; return a.sort();"),
        Err(AsaErrorKind::UnsupportedOperation("Unknown array method".to_string()))
    );
    assert_eq!(
        eval("[1].push(2)"),
        Err(AsaErrorKind::UnsupportedOperation(
            "Method call on non-identifier object not supported yet".to_string()
        ))
    );
    assert_eq!(
        eval("let s = \"a\"; return s.push(2);"),
        Err(AsaErrorKind::UnsupportedOperation(
            "Method calls only implemented for arrays currently".to_string()
        ))
    );
}

#[test]
fn array_operations_agree_with_a_vec() {
    let mut model: Vec<i32> = vec![5];
    let mut source = String::from("let a = [5]; ");
    let steps: [(u8, i32, i32); 12] = [
        (0, 1, 0),
        (0, 2, 0),
        (3, 9, 0),
        (2, 1, 7),
        (1, 0, 0),
        (2, 0, 4),
        (2, 4, 8),
        (1, 0, 0),
        (3, 3, 0),
        (0, 6, 0),
        (1, 0, 0),
        (2, 2, 2),
    ];
    for (i, (kind, x, y)) in steps.iter().enumerate() {
        match kind {
            0 => {
                model.push(*x);
                source.push_str(&format!("let t{} = a.push({}); ", i, x));
            }
            1 => {
                model.pop();
                source.push_str(&format!("let t{} = a.pop(); ", i));
            }
            2 => {
                model.insert(*x as usize, *y);
                source.push_str(&format!("let t{} = a.insert({}, {}); ", i, x, y));
            }
            _ => {
                model.insert(0, *x);
                source.push_str(&format!("let t{} = a.prepend({}); ", i, x));
            }
        }
    }
    source.push_str("return a;");
    assert_eq!(eval(&source), Ok(numbers(&model)));
}

#[test]
fn arrays_are_copied_on_binding() {
    assert_eq!(
        eval("let a = [1]; let b = a; let t = a.push(2); return b;"),
        Ok(numbers(&[1]))
    );
    assert_eq!(
        eval("let a = [1]; let b = a; b[0] = 9; return a;"),
        Ok(numbers(&[1]))
    );
}

#[test]
fn index_assignment() {
    assert_eq!(eval("let a = [1,2,3]; a[1] = 9; return a;"), Ok(numbers(&[1, 9, 3])));
    assert_eq!(eval("let a = [1,2,3]; a[1] = 9;"), Ok(Value::Number(9)));
    assert_eq!(
        eval("let n = 1; n[0] = 9;"),
        Err(AsaErrorKind::TypeMismatch("Cannot index into non-array".to_string()))
    );
    assert_eq!(
        eval("let a = [1]; a[true] = 9;"),
        Err(AsaErrorKind::TypeMismatch("Index must be a number".to_string()))
    );
    assert_eq!(eval("q[0] = 9;"), Err(AsaErrorKind::UndefinedFunction));
    assert_eq!(
        eval("let a = [[1]]; a[0][0] = 9;"),
        Err(AsaErrorKind::UnsupportedOperation(
            "Left side of assignment must be a variable".to_string()
        ))
    );
    assert_eq!(
        eval("let a = [1]; a.length = 9;"),
        Err(AsaErrorKind::UnsupportedOperation("Property assignment not supported.".to_string()))
    );
}

#[test]
fn calls_check_their_arguments() {
    assert_eq!(eval("fn f(a) { return a; } return f(1, 2);"), Err(AsaErrorKind::ArgumentCountMismatch));
    assert_eq!(eval("fn f(a) { return a; } return f();"), Err(AsaErrorKind::ArgumentCountMismatch));
    assert_eq!(
        eval("let f = 1; return f();"),
        Err(AsaErrorKind::TypeMismatch("Attempted to call a non-function value".to_string()))
    );
    assert_eq!(eval("return nothing();"), Err(AsaErrorKind::UndefinedFunction));
    assert_eq!(eval("fn f(a, b) { return a - b; } return f(5, 3);"), Ok(Value::Number(2)));
}

#[test]
fn function_definition_yields_true_and_body_value_is_the_result() {
    assert_eq!(eval("fn f() { return 1; }"), Ok(Value::Bool(true)));
    assert_eq!(eval("fn f() { let x = 4; } f()"), Ok(Value::Number(4)));
    assert_eq!(eval("fn f() { } f()"), Ok(Value::Bool(true)));
}

#[test]
fn recursion_works_within_the_depth() {
    assert_eq!(
        eval("fn fact(n) { if n <= 1 { return 1; } return n * fact(n - 1); } return fact(10);"),
        Ok(Value::Number(3628800))
    );
}

#[test]
fn endless_recursion_is_stopped() {
    assert_eq!(eval("fn f() { return f(); } return f();"), Err(AsaErrorKind::CallDepthExceeded));
    let mut shallow = Interpreter::with_limits(2, 100);
    let tree = parse("fn f(n) { if n <= 1 { return 1; } return f(n - 1); } return f(2);");
    assert_eq!(shallow.exec(&tree), Ok(Value::Number(1)));
    let mut shallow = Interpreter::with_limits(2, 100);
    let tree = parse("fn f(n) { if n <= 1 { return 1; } return f(n - 1); } return f(3);");
    assert_eq!(shallow.exec(&tree), Err(AsaErrorKind::CallDepthExceeded));
    let mut none = Interpreter::with_limits(0, 100);
    assert_eq!(none.exec(&parse("fn f() { return 1; } return f();")), Err(AsaErrorKind::CallDepthExceeded));
}

#[test]
fn endless_loop_is_stopped() {
    let mut bounded = Interpreter::with_limits(8, 10);
    assert_eq!(bounded.exec(&parse("while true { }")), Err(AsaErrorKind::LoopLimitExceeded));
    let mut bounded = Interpreter::with_limits(8, 10);
    assert_eq!(
        bounded.exec(&parse("let x = 0; while x < 10 { x = x + 1; } return x;")),
        Ok(Value::Number(10))
    );
    let mut bounded = Interpreter::with_limits(8, 10);
    assert_eq!(
        bounded.exec(&parse("let x = 0; while x < 11 { x = x + 1; } return x;")),
        Err(AsaErrorKind::LoopLimitExceeded)
    );
}

#[test]
fn frames_are_popped_after_a_failed_call() {
    let mut interpreter = Interpreter::new();
    let tree = parse("let x = 1; fn f() { let x = 2; return 1 / 0; } f()");
    assert_eq!(interpreter.exec(&tree), Err(AsaErrorKind::DivisionByZero));
    assert_eq!(
        interpreter.get_variable(Interpreter::hash_identifier(b"x")),
        Ok(Value::Number(1))
    );
}

#[test]
fn scoping_follows_the_call_stack() {
    assert_eq!(eval("let y = 5; fn g() { return y; } return g();"), Ok(Value::Number(5)));
    assert_eq!(
        eval("fn g() { return z; } fn f() { let z = 7; return g(); } return f();"),
        Ok(Value::Number(7))
    );
    assert_eq!(
        eval("let v = 1; fn f() { let v = 2; return v; } let t = f(); return v;"),
        Ok(Value::Number(1))
    );
    assert_eq!(
        eval("let v = 1; fn f() { v = 2; return v; } let t = f(); return v;"),
        Ok(Value::Number(1))
    );
    assert_eq!(
        eval("let a = 5; fn f(a, b) { return b; } return f(1, a);"),
        Ok(Value::Number(5))
    );
}

#[test]
fn signals_that_escape() {
    assert_eq!(eval("break;"), Err(AsaErrorKind::BreakSignal));
    assert_eq!(eval("continue;"), Err(AsaErrorKind::ContinueSignal));
    assert_eq!(eval("return 4; return 5;"), Ok(Value::Number(4)));
    assert_eq!(
        Interpreter::new().exec(&Node::FunctionReturn { children: vec![Node::Bool { value: true }] }),
        Err(AsaErrorKind::ReturnSignal(Value::Bool(true)))
    );
}

#[test]
fn conditions_must_be_boolean() {
    assert_eq!(
        eval("if 1 { return 2; }"),
        Err(AsaErrorKind::TypeMismatch("If/Else-If condition must be boolean".to_string()))
    );
    assert_eq!(
        eval("while 1 { }"),
        Err(AsaErrorKind::TypeMismatch("While condition must be boolean".to_string()))
    );
    assert_eq!(eval("if false { return 2; }"), Ok(Value::Bool(true)));
    assert_eq!(eval("while false { }"), Ok(Value::Bool(true)));
    assert_eq!(eval(""), Ok(Value::Bool(true)));
}

#[test]
fn malformed_trees_fail_without_panicking() {
    let mut interpreter = Interpreter::new();
    let generic = |s: &str| Err(AsaErrorKind::Generic(s.to_string()));
    assert_eq!(interpreter.exec(&Node::Expression { children: vec![] }), generic("Invalid expression"));
    assert_eq!(
        interpreter.exec(&Node::BinaryExpression { name: vec![43], children: vec![Node::Null] }),
        generic("Invalid binary expression")
    );
    assert_eq!(interpreter.exec(&Node::WhileLoop { children: vec![] }), generic("Invalid while loop"));
    assert_eq!(interpreter.exec(&Node::IfExpression { children: vec![] }), Ok(Value::Bool(true)));
    assert_eq!(
        interpreter.exec(&Node::IfExpression { children: vec![Node::Number { value: vec![55] }] }),
        Ok(Value::Number(7))
    );
    assert_eq!(
        interpreter.exec(&Node::FunctionArguments { children: vec![] }),
        generic("FunctionArguments node should not be executed directly")
    );
    assert_eq!(
        interpreter.exec(&Node::ArgumentDefine { children: vec![] }),
        generic("ArgumentDefine node should not be executed directly")
    );
    assert_eq!(
        interpreter.exec(&Node::Identifier { value: vec![0xff] }),
        generic("Invalid UTF-8 in identifier")
    );
    assert_eq!(
        interpreter.exec(&Node::VariableDefine { children: vec![Node::Null, Node::Null] }),
        generic("Invalid variable define")
    );
    assert_eq!(
        interpreter.exec(&Node::Assignment { children: vec![Node::Null, Node::Null] }),
        generic("Invalid lvalue in assignment.")
    );
    assert_eq!(
        interpreter.exec(&Node::FunctionDefine {
            name: vec![102],
            children: vec![
                Node::FunctionArguments { children: vec![Node::Null] },
                Node::FunctionStatements { children: vec![] },
            ],
        }),
        generic("Invalid argument node in function definition")
    );
    assert_eq!(
        interpreter.exec(&Node::FunctionDefine {
            name: vec![102],
            children: vec![
                Node::FunctionArguments {
                    children: vec![Node::ArgumentDefine { children: vec![Node::Null] }],
                },
                Node::FunctionStatements { children: vec![] },
            ],
        }),
        generic("Invalid parameter definition")
    );
    assert_eq!(
        interpreter.exec(&Node::Number { value: vec![b'x'] }),
        generic("Invalid number literal")
    );
}

#[test]
fn handles_and_variables() {
    assert_eq!(Interpreter::hash_identifier(b"main"), Interpreter::hash_identifier(b"main"));
    assert_ne!(Interpreter::hash_identifier(b"main"), Interpreter::hash_identifier(b"mian"));
    let mut interpreter = Interpreter::new();
    assert_eq!(
        interpreter.get_variable(Interpreter::hash_identifier(b"x")),
        Err(AsaErrorKind::UndefinedFunction)
    );
    assert_eq!(interpreter.exec(&parse("let x = 3;")), Ok(Value::Number(3)));
    assert_eq!(
        interpreter.get_variable(Interpreter::hash_identifier(b"x")),
        Ok(Value::Number(3))
    );
}

#[test]
fn call_function_runs_main() {
    let mut interpreter = Interpreter::new();
    let tree = parse("let base = 40; fn main() { return base + 2; } fn twice(n) { return n * 2; }");
    assert_eq!(interpreter.exec(&tree), Ok(Value::Bool(true)));
    let main = interpreter.get_variable(Interpreter::hash_identifier(b"main")).unwrap();
    assert_eq!(interpreter.call_function(main.clone(), &[]), Ok(Value::Number(42)));
    assert_eq!(
        interpreter.call_function(main, &[Node::Null]),
        Err(AsaErrorKind::ArgumentCountMismatch)
    );
    let twice = interpreter.get_variable(Interpreter::hash_identifier(b"twice")).unwrap();
    assert_eq!(
        interpreter.call_function(twice, &[Node::Number { value: b"21".to_vec() }]),
        Ok(Value::Number(42))
    );
    assert_eq!(
        interpreter.call_function(Value::Number(1), &[]),
        Err(AsaErrorKind::TypeMismatch("Attempted to call a non-function value".to_string()))
    );
}

#[test]
fn values_compare_and_copy_in_depth() {
    let a = Value::Array(vec![text("x"), numbers(&[1, 2])]);
    let b = a.clone();
    assert_eq!(a, b);
    assert_eq!(eval_binary_op(b"==", a.clone(), b), Ok(Value::Bool(true)));
    assert_eq!(eval_binary_op(b"!=", a, numbers(&[])), Ok(Value::Bool(true)));
    let f = Value::Function {
        params: vec![(1, None), (2, Some(Node::Null))],
        body: Box::new(Node::Break),
    };
    let g = Value::Function {
        params: vec![(1, None), (2, Some(Node::Continue))],
        body: Box::new(Node::Break),
    };
    assert_eq!(eval_binary_op(b"==", f.clone(), f.clone()), Ok(Value::Bool(true)));
    assert_eq!(eval_binary_op(b"==", f, g), Ok(Value::Bool(false)));
}

#[test]
fn default_depth_allows_a_hundred_nested_calls() {
    assert_eq!(asalang::DEFAULT_MAX_DEPTH, 128);
    assert_eq!(
        eval("fn s(n) { if n <= 0 { return 0; } return n + s(n - 1); } return s(100);"),
        Ok(Value::Number(5050))
    );
    assert_eq!(
        eval("fn s(n) { if n <= 0 { return 0; } return n + s(n - 1); } return s(127);"),
        Ok(Value::Number(8128))
    );
    assert_eq!(
        eval("fn s(n) { if n <= 0 { return 0; } return n + s(n - 1); } return s(128);"),
        Err(AsaErrorKind::CallDepthExceeded)
    );
}
