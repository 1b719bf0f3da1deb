use asalang::{lex, program, AsaErrorKind, Interpreter, Value};


fn run(source: &str) -> Result<Value, AsaErrorKind> {
    let tokens = lex(source);
    match program(tokens) {
        Ok((rest, tree)) => {
            assert_eq!(rest.is_done(), true);
            let mut interpreter = Interpreter::new();
            interpreter.exec(&tree)
        }
        Err(e) => Err(AsaErrorKind::Generic(format!("{:?}", e))),
    }
}

#[test]
fn interpreter_numeric() {
    assert_eq!(run(r#"123"#), Ok(Value::Number(123)));
}

#[test]
fn interpreter_string() {
    assert_eq!(run(r#""hello""#), Ok(Value::String("hello".to_string())));
}

#[test]
fn interpreter_bool_true() {
    assert_eq!(run(r#"true"#), Ok(Value::Bool(true)));
}

#[test]
fn interpreter_bool_false() {
    assert_eq!(run(r#"false"#), Ok(Value::Bool(false)));
}

#[test]
fn interpreter_identifier() {
    assert_eq!(run(r#"x"#), Err(AsaErrorKind::UndefinedFunction));
}

#[test]
fn interpreter_variable_define() {
    assert_eq!(run(r#"let x = 123;"#), Ok(Value::Number(123)));
}

#[test]
fn interpreter_variable_init() {
    assert_eq!(run(r#"let x = 1;"#), Ok(Value::Number(1)));
}

#[test]
fn interpreter_variable_bool() {
    assert_eq!(run(r#"let bool = true;"#), Ok(Value::Bool(true)));
}

#[test]
fn interpreter_variable_string() {
    assert_eq!(run(r#"let string = "Hello";"#), Ok(Value::String("Hello".to_string())));
}

#[test]
fn interpreter_variable_init_no_space() {
    assert_eq!(run(r#"let x=1;"#), Ok(Value::Number(1)));
}

#[test]
fn interpreter_math() {
    assert_eq!(run(r#"1 + 1"#), Ok(Value::Number(2)));
}

#[test]
fn interpreter_math_no_space() {
    assert_eq!(run(r#"1-1"#), Ok(Value::Number(0)));
}

#[test]
fn interpreter_math_multiply() {
    assert_eq!(run(r#"2 + 4"#), Ok(Value::Number(6)));
}

#[test]
fn interpreter_assign_math() {
    assert_eq!(run(r#"let x = 1 + 1;"#), Ok(Value::Number(2)));
}

#[test]
fn interpreter_define_full_program() {
    assert_eq!(run(r#"let x = 1 + 1; let y = 5 - 2; let z = x + y;"#), Ok(Value::Number(5)));
}

#[test]
fn interpreter_full_math() {
    assert_eq!(run(r#"let x = ((2 + 3) * 4 - 8) / (2 ^ 2);"#), Ok(Value::Number(3)));
}

#[test]
fn interpreter_unary_negative() {
    assert_eq!(run(r#"let x = -5;"#), Ok(Value::Number(-5)));
}

#[test]
fn interpreter_unary_positive() {
    assert_eq!(run(r#"let x = +5;"#), Ok(Value::Number(5)));
}

#[test]
fn interpreter_complex_expression() {
    assert_eq!(run(r#"((1 + 2) * (3 + 4))"#), Ok(Value::Number(21)));
}

#[test]
fn interpreter_exponentiation() {
    assert_eq!(run(r#"2 ^ 3"#), Ok(Value::Number(8)));
}

#[test]
fn interpreter_division_result() {
    assert_eq!(run(r#"0/1"#), Ok(Value::Number(0)));
}

#[test]
fn interpreter_reuse_variable() {
    assert_eq!(run(r#"let a = 10; let b = a + 5;"#), Ok(Value::Number(15)));
}

#[test]
fn interpreter_return_variable_value() {
    assert_eq!(run(r#"let a = 2; a"#), Ok(Value::Number(2)));
}

#[test]
fn interpreter_boolean_comparison() {
    assert_eq!(run(r#"(2 > 1)"#), Ok(Value::Bool(true)));
}

#[test]
fn interpreter_variable_string_return() {
    assert_eq!(run(r#"let s = "SomeString"; s"#), Ok(Value::String("SomeString".to_string())));
}

#[test]
fn interpreter_equality_check() {
    assert_eq!(run(r#"let foo = true; let bar = false; let baz = foo == bar; return baz;"#), Ok(Value::Bool(false)));
}

#[test]
fn interpreter_comparison_check() {
    assert_eq!(run(r#"return !(1 > 0) && true;"#), Ok(Value::Bool(false)));
}

#[test]
fn conditional_simple_false() {
    assert_eq!(run(r#"1 > 2"#), Ok(Value::Bool(false)));
}

#[test]
fn conditional_simple_true() {
    assert_eq!(run(r#"2 > 1"#), Ok(Value::Bool(true)));
}

#[test]
fn conditional_boolean_equality_true() {
    assert_eq!(run(r#"true == true"#), Ok(Value::Bool(true)));
}

#[test]
fn conditional_boolean_equality_false() {
    assert_eq!(run(r#"true == false"#), Ok(Value::Bool(false)));
}

#[test]
fn conditional_variable_comparison() {
    assert_eq!(run(r#"let x = true; x == false"#), Ok(Value::Bool(false)));
}

#[test]
fn conditional_variable_compare_booleans() {
    assert_eq!(run(r#"let x = true; let y = false; x > y"#), Err(AsaErrorKind::Generic("Unknown operator for booleans".to_string())));
}

#[test]
fn invalid_comparison_number_boolean() {
    assert_eq!(run(r#"1 > true"#), Err(AsaErrorKind::TypeMismatch("Type error in binary expression: expected matching types".to_string())));
}

#[test]
fn invalid_math_number_boolean() {
    assert_eq!(run(r#"5 - false"#), Err(AsaErrorKind::TypeMismatch("Type error in binary expression: expected matching types".to_string())));
}

#[test]
fn operator_precedence_example() {
    assert_eq!(run(r#"let x = 10; let y = 5; let result = x > y == true; result"#), Ok(Value::Bool(true)));
}

#[test]
fn precedence_complex_1() {
    assert_eq!(run(r#"((3 + 4) * 5 > 2^2) == true"#), Ok(Value::Bool(true)));
}

#[test]
fn precedence_complex_2() {
    assert_eq!(run(r#"(10 / 2 + (7 - 3) == 2 * 3) == false"#), Ok(Value::Bool(true)));
}

#[test]
fn precedence_complex_3() {
    assert_eq!(run(r#"(4^2 - 3 * 5 < 20 && 6 > 2) == true"#), Ok(Value::Bool(true)));
}

#[test]
fn precedence_complex_4() {
    assert_eq!(run(r#"((8 - 2) * 3 != 5 * 2 || 10 > 2^3) == true"#), Ok(Value::Bool(true)));
}

#[test]
fn precedence_complex_5() {
    assert_eq!(run(r#"((6 + 3) * 2 == 15 && ((4 * 2) > 7)) == false"#), Ok(Value::Bool(true)));
}

#[test]
fn full_math_expression_1() {
    assert_eq!(run(r#"let x = ((2 + 3) * 4 - 8) / (2 ^ 2);"#), Ok(Value::Number(3)));
}

#[test]
fn full_math_expression_2() {
    assert_eq!(run(r#"((1 + 2) * (3 + 4))"#), Ok(Value::Number(21)));
}

#[test]
fn full_math_expression_3() {
    assert_eq!(run(r#"2 ^ 3"#), Ok(Value::Number(8)));
}

#[test]
fn full_math_expression_4() {
    assert_eq!(run(r#"0 / 1"#), Ok(Value::Number(0)));
}

#[test]
fn full_math_expression_5() {
    assert_eq!(run(r#"let a = 10; let b = a + 5;"#), Ok(Value::Number(15)));
}

#[test]
fn boolean_comparison_true() {
    assert_eq!(run(r#"(2 > 1)"#), Ok(Value::Bool(true)));
}

#[test]
fn boolean_comparison_false() {
    assert_eq!(run(r#"(1 > 2)"#), Ok(Value::Bool(false)));
}

#[test]
fn boolean_equality_check() {
    assert_eq!(run(r#"let foo = true; let bar = false; let baz = foo == bar; return baz;"#), Ok(Value::Bool(false)));
}

#[test]
fn boolean_not_operator() {
    assert_eq!(run(r#"return !(1 > 0) && true;"#), Ok(Value::Bool(false)));
}

#[test]
fn boolean_complex_expression() {
    assert_eq!(run(r#"(2 > 1 && 3 > 2) || (5 < 4)"#), Ok(Value::Bool(true)));
}

#[test]
fn if_simple_true() {
    assert_eq!(run(r#"if true { return false; } else { return true; }"#), Ok(Value::Bool(false)));
}

#[test]
fn if_simple_false() {
    assert_eq!(run(r#"if false { return false; } else { return true; }"#), Ok(Value::Bool(true)));
}

#[test]
fn if_variable_assign_true() {
    assert_eq!(run(r#"let x = if true { return false; } else { return true; }; return x;"#), Ok(Value::Bool(false)));
}

#[test]
fn if_variable_assign_false() {
    assert_eq!(run(r#"let x = if false { return false; } else { return true; }; return x;"#), Ok(Value::Bool(true)));
}

#[test]
fn if_else_if() {
    assert_eq!(run(r#"let x = 5; if x > 5 { return 1; } else if x == 5 { return 2; } else { return 3; }"#), Ok(Value::Number(2)));
}

#[test]
fn double_if_statement() {
    assert_eq!(run(r#"let x = 0; let y = 0; if (x < 10) { if (y < 5) { y = 5; } x = 10; } return x + y;"#), Ok(Value::Number(15)));
}

#[test]
fn while_loop_decrement() {
    assert_eq!(run(r#"let x = 5; while (x > 0) { x = x - 1; } return x;"#), Ok(Value::Number(0)));
}

#[test]
fn double_while_loop() {
    assert_eq!(run(r#"let x = 0; let y = 0; while (x < 10) { while (y < 5) { y = y + 1; } x = x + 1; } return x + y;"#), Ok(Value::Number(15)));
}

#[test]
fn while_with_break() {
    assert_eq!(run(r#"let x = 0; while true { x = x + 1; if x > 5 {break;} } return x;"#), Ok(Value::Number(6)));
}

#[test]
fn while_condition_update() {
    assert_eq!(run(r#"
        let result = 0;
        while (result < 5) {
            result = result + 1;
        }
        return result;
    "#), Ok(Value::Number(5)));
}
