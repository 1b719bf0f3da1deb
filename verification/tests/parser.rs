use asalang::Node::{
    ArgumentDefine, BinaryExpression, Bool, Expression, FunctionArguments, FunctionCall,
    FunctionDefine, FunctionReturn, FunctionStatements, Identifier, Number, String,
    VariableDefine,
};
use asalang::{lex, addition, boolean, function_call, function_define, identifier, number, string, variable_define};

#[test]
fn parser_ident() {
    let tokens = lex(r#"hello"#);
    match identifier(tokens) {
        Ok((tokens, tree)) => {
            assert_eq!(tokens.is_done(), true);
            assert_eq!(tree, Identifier{value: vec![104, 101, 108, 108, 111]})
        }
        _ => assert!(false),
    }
}

#[test]
fn parser_number() {
    let tokens = lex(r#"123"#);
    match number(tokens) {
        Ok((tokens, tree)) => {
            assert_eq!(tokens.is_done(), true);
            assert_eq!(tree, Number{value: vec![49, 50, 51]})
        }
        _ => assert!(false),
    }
}

#[test]
fn parser_bool() {
    let tokens = lex(r#"true"#);
    match boolean(tokens) {
        Ok((tokens, tree)) => {
            assert_eq!(tokens.is_done(), true);
            assert_eq!(tree, Bool{value: true})
        }
        _ => assert!(false),
    }
}

#[test]
fn parser_string() {
    let tokens = lex(r#""hello""#);
    match string(tokens) {
        Ok((tokens, tree)) => {
            assert_eq!(tokens.is_done(), true);
            assert_eq!(tree, String{value: vec![104, 101, 108, 108, 111]})
        }
        _ => assert!(false),
    }
}

#[test]
fn parser_function_call() {
    let tokens = lex(r#"foo()"#);
    match function_call(tokens) {
        Ok((tokens, tree)) => {
            assert_eq!(tokens.is_done(), true);
            assert_eq!(tree, FunctionCall{name: vec![102, 111, 111], children: vec![
  FunctionArguments{ children: vec![
  ]}
]})
        }
        _ => assert!(false),
    }
}

#[test]
fn parser_function_call_one_arg() {
    let tokens = lex(r#"foo(a)"#);
    match function_call(tokens) {
        Ok((tokens, tree)) => {
            assert_eq!(tokens.is_done(), true);
            assert_eq!(tree, FunctionCall{name: vec![102, 111, 111], children: vec![
  FunctionArguments{ children: vec![
    Expression { children: vec![Identifier { value: vec![97] }]}
  ]}
]})
        }
        _ => assert!(false),
    }
}

#[test]
fn parser_variable_define_number() {
    let tokens = lex(r#"let a = 123"#);
    match variable_define(tokens) {
        Ok((tokens, tree)) => {
            assert_eq!(tokens.is_done(), true);
            assert_eq!(tree, VariableDefine{children: vec![
  Identifier { value: vec![97] },
  Expression { children: vec![Number{value: vec![49, 50, 51]}]}
]})
        }
        _ => assert!(false),
    }
}

#[test]
fn parser_variable_define_bool() {
    let tokens = lex(r#"let a = true"#);
    match variable_define(tokens) {
        Ok((tokens, tree)) => {
            assert_eq!(tokens.is_done(), true);
            assert_eq!(tree, VariableDefine{children: vec![
  Identifier { value: vec![97] },
  Expression { children: vec![Bool{value: true}]}
]})
        }
        _ => assert!(false),
    }
}

#[test]
fn parser_math_expr() {
    let tokens = lex(r#"1+1"#);
    match addition(tokens) {
        Ok((tokens, tree)) => {
            assert_eq!(tokens.is_done(), true);
            assert_eq!(tree, BinaryExpression {name: vec![43], children: vec![
      Number{value: vec![49]},
      Number{value: vec![49]}
    ]})
        }
        _ => assert!(false),
    }
}

#[test]
fn parser_variable_define_math_expr() {
    let tokens = lex(r#"let a = 1 + 1"#);
    match variable_define(tokens) {
        Ok((tokens, tree)) => {
            assert_eq!(tokens.is_done(), true);
            assert_eq!(tree, VariableDefine{children: vec![
  Identifier { value: vec![97] },
  Expression { children: vec![
    BinaryExpression {name: vec![43], children: vec![
      Number{value: vec![49]},
      Number{value: vec![49]}
    ]}
  ]}
]})
        }
        _ => assert!(false),
    }
}

#[test]
fn parser_variable_function_call() {
    let tokens = lex(r#"let a = foo()"#);
    match variable_define(tokens) {
        Ok((tokens, tree)) => {
            assert_eq!(tokens.is_done(), true);
            assert_eq!(tree, VariableDefine{children: vec![
  Identifier { value: vec![97] },
  Expression { children: vec![
    FunctionCall{name: vec![102, 111, 111], children: vec![
      FunctionArguments{ children: vec![
      ]}
    ]}
  ]}
]})
        }
        _ => assert!(false),
    }
}

#[test]
fn parser_function_define() {
    let tokens = lex(r#"fn a(){return 1;}"#);
    match function_define(tokens) {
        Ok((tokens, tree)) => {
            assert_eq!(tokens.is_done(), true);
            assert_eq!(tree, FunctionDefine{
  name: vec![97],
  children: vec![
    FunctionArguments{ children: vec![] },
    FunctionStatements{ children: vec![
      FunctionReturn{ children: vec![ 
        Expression { children: vec![Number{value: vec![49]}]}
      ]}
    ]}
  ]
})
        }
        _ => assert!(false),
    }
}

#[test]
fn parser_function_define_multi_statements() {
    let tokens = lex(r#"fn add(a,b){let x=a+b;return x;}"#);
    match function_define(tokens) {
        Ok((tokens, tree)) => {
            assert_eq!(tokens.is_done(), true);
            assert_eq!(tree, FunctionDefine{
  name: vec![97, 100, 100],
  children: vec![
    FunctionArguments{ children: vec![
      ArgumentDefine { children: vec![Identifier { value: vec![97] }] },
      ArgumentDefine { children: vec![Identifier { value: vec![98] }] },
    ] },
    FunctionStatements{ children: vec![
      VariableDefine{children: vec![
        Identifier { value: vec![120] },
        Expression { children: vec![
          BinaryExpression {name: vec![43], children: vec![
            Identifier{value: vec![97]},
            Identifier{value: vec![98]}
          ]}
        ]}
      ]},
      FunctionReturn{ children: vec![ 
        Expression { children: vec![Identifier{value: vec![120] }]}
      ]}
    ]}
  ]
})
        }
        _ => assert!(false),
    }
}
