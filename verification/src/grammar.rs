use crate::ast::Ast;
use crate::lexer::{TokenKind, TokenView};
use vstd::prelude::*;

verus! {

/// What a grammar rule yields in the model: the index behind what it took
/// and the tree it built, or the index of the offending token.
pub type Parsed = Result<(int, Ast), int>;

/// Whether the token at index `pos` exists and has kind `kind`.
pub open spec fn is_kind(ts: Seq<TokenView>, pos: int, kind: TokenKind) -> bool {
    0 <= pos < ts.len() && ts[pos].kind == kind
}

/// `r`, where it is a success that took at least one token and stayed
/// within the stream; else a failure at `pos`.
pub open spec fn progress(r: Parsed, pos: int, len: nat) -> Parsed {
    match r {
        Ok((p, _)) => if pos < p <= len {
            r
        } else {
            Err(pos)
        },
        Err(_) => r,
    }
}

/// The index behind the run of digits, or of letters and digits, that
/// starts at `pos`.
pub open spec fn run_end(ts: Seq<TokenView>, pos: int, letters: bool) -> int
    decreases ts.len() - pos,
{
    if is_kind(ts, pos, TokenKind::Digit) || (letters && is_kind(ts, pos, TokenKind::Alpha)) {
        run_end(ts, pos + 1, letters)
    } else {
        pos
    }
}

/// The lexemes of the tokens from `from` up to `to`, joined.
pub open spec fn spelled(ts: Seq<TokenView>, from: int, to: int) -> Seq<u8>
    decreases to - from,
{
    if from < 0 || to <= from || to > ts.len() {
        Seq::empty()
    } else {
        spelled(ts, from, to - 1) + ts[to - 1].lexeme
    }
}

/// identifier = alpha , { alpha | digit } ;
pub open spec fn g_identifier(ts: Seq<TokenView>, pos: int) -> Parsed {
    if is_kind(ts, pos, TokenKind::Alpha) {
        let end = run_end(ts, pos + 1, true);
        Ok((end, Ast::Identifier { value: spelled(ts, pos, end) }))
    } else {
        Err(pos)
    }
}

/// number = digit , { digit } ;
pub open spec fn g_number(ts: Seq<TokenView>, pos: int) -> Parsed {
    if is_kind(ts, pos, TokenKind::Digit) {
        let end = run_end(ts, pos + 1, false);
        Ok((end, Ast::Number { value: spelled(ts, pos, end) }))
    } else {
        Err(pos)
    }
}

/// boolean = "true" | "false" ;
pub open spec fn g_boolean(ts: Seq<TokenView>, pos: int) -> Parsed {
    if is_kind(ts, pos, TokenKind::True) {
        Ok((pos + 1, Ast::Bool { value: true }))
    } else if is_kind(ts, pos, TokenKind::False) {
        Ok((pos + 1, Ast::Bool { value: false }))
    } else {
        Err(pos)
    }
}

/// string = a string literal token ;
pub open spec fn g_string(ts: Seq<TokenView>, pos: int) -> Parsed {
    if is_kind(ts, pos, TokenKind::StringLiteral) {
        Ok((pos + 1, Ast::String { value: ts[pos].lexeme }))
    } else {
        Err(pos)
    }
}

/// value = number | identifier | boolean | string ;
pub open spec fn g_value(ts: Seq<TokenView>, pos: int) -> Parsed {
    if g_number(ts, pos) is Ok {
        g_number(ts, pos)
    } else if g_identifier(ts, pos) is Ok {
        g_identifier(ts, pos)
    } else if g_boolean(ts, pos) is Ok {
        g_boolean(ts, pos)
    } else {
        g_string(ts, pos)
    }
}

/// The spelling of the binary operator of kind `kind`, where precedence
/// level `level` has one. Levels run from 0, which binds loosest, to 6:
/// `||`; `&&`; `==` `!=`; `<` `>` `<=` `>=`; `+` `-` `%`; `*` `/`; `^`.
pub open spec fn level_op(level: int, kind: TokenKind) -> Option<Seq<u8>> {
    if level == 0 && kind == TokenKind::LogicalOr {
        Some(seq![124u8, 124u8])
    } else if level == 1 && kind == TokenKind::LogicalAnd {
        Some(seq![38u8, 38u8])
    } else if level == 2 && kind == TokenKind::EqualEqual {
        Some(seq![61u8, 61u8])
    } else if level == 2 && kind == TokenKind::NotEqual {
        Some(seq![33u8, 61u8])
    } else if level == 3 && kind == TokenKind::LessThan {
        Some(seq![60u8])
    } else if level == 3 && kind == TokenKind::GreaterThan {
        Some(seq![62u8])
    } else if level == 3 && kind == TokenKind::LessThanOrEqual {
        Some(seq![60u8, 61u8])
    } else if level == 3 && kind == TokenKind::GreaterThanOrEqual {
        Some(seq![62u8, 61u8])
    } else if level == 4 && kind == TokenKind::Plus {
        Some(seq![43u8])
    } else if level == 4 && kind == TokenKind::Dash {
        Some(seq![45u8])
    } else if level == 4 && kind == TokenKind::Modulus {
        Some(seq![37u8])
    } else if level == 5 && kind == TokenKind::Multiply {
        Some(seq![42u8])
    } else if level == 5 && kind == TokenKind::Slash {
        Some(seq![47u8])
    } else if level == 6 && kind == TokenKind::Exponent {
        Some(seq![94u8])
    } else {
        None
    }
}

/// The spelling of the prefix operator of kind `kind`, where it is one.
pub open spec fn prefix_op(kind: TokenKind) -> Option<Seq<u8>> {
    if kind == TokenKind::Plus {
        Some(seq![43u8])
    } else if kind == TokenKind::Dash {
        Some(seq![45u8])
    } else if kind == TokenKind::Not {
        Some(seq![33u8])
    } else {
        None
    }
}

/// A list of expressions parted by commas, from `pos` on; empty where no
/// expression stands there. A comma that no expression follows is not taken.
pub open spec fn g_list(ts: Seq<TokenView>, pos: int) -> (int, Seq<Ast>)
    decreases ts.len() - pos, 75int,
{
    match progress(g_expression(ts, pos), pos, ts.len()) {
        Ok((p, first)) => g_list_more(ts, p, seq![first]),
        Err(_) => (pos, Seq::empty()),
    }
}

/// The rest of a list of which `acc` has been read.
pub open spec fn g_list_more(ts: Seq<TokenView>, pos: int, acc: Seq<Ast>) -> (int, Seq<Ast>)
    decreases ts.len() - pos, 75int,
{
    if is_kind(ts, pos, TokenKind::Comma) {
        match progress(g_expression(ts, pos + 1), pos + 1, ts.len()) {
            Ok((p, next)) => g_list_more(ts, p, acc.push(next)),
            Err(_) => (pos, acc),
        }
    } else {
        (pos, acc)
    }
}

/// function_call = identifier , "(" , [ expression , { "," , expression } ] , ")" ;
pub open spec fn g_function_call(ts: Seq<TokenView>, pos: int) -> Parsed
    decreases ts.len() - pos, 20int,
{
    match progress(g_identifier(ts, pos), pos, ts.len()) {
        Ok((p, id)) => if is_kind(ts, p, TokenKind::LeftParen) {
            let (q, args) = g_list(ts, p + 1);
            if is_kind(ts, q, TokenKind::RightParen) {
                Ok(
                    (
                        q + 1,
                        Ast::FunctionCall {
                            name: id->Identifier_value,
                            children: seq![Ast::FunctionArguments { children: args }],
                        },
                    ),
                )
            } else {
                Err(q)
            }
        } else {
            Err(p)
        },
        Err(e) => Err(e),
    }
}

/// The forms that may follow a primary: an index in square brackets, a
/// property behind a dot, or a method call behind a dot; `acc` is what
/// has been read so far.
pub open spec fn g_postfix(ts: Seq<TokenView>, pos: int, acc: Ast) -> (int, Ast)
    decreases ts.len() - pos, 10int,
{
    if is_kind(ts, pos, TokenKind::LeftBracket) {
        match progress(g_expression(ts, pos + 1), pos + 1, ts.len()) {
            Ok((p, index)) => if is_kind(ts, p, TokenKind::RightBracket) {
                g_postfix(ts, p + 1, Ast::IndexAccess { children: seq![acc, index] })
            } else {
                (pos, acc)
            },
            Err(_) => (pos, acc),
        }
    } else if is_kind(ts, pos, TokenKind::Dot) {
        match progress(g_identifier(ts, pos + 1), pos + 1, ts.len()) {
            Ok((p, id)) => {
                let property = Ast::PropertyAccess { children: seq![acc, id] };
                if is_kind(ts, p, TokenKind::LeftParen) {
                    let (q, args) = g_list(ts, p + 1);
                    if p < q && is_kind(ts, q, TokenKind::RightParen) {
                        g_postfix(
                            ts,
                            q + 1,
                            Ast::MethodCall {
                                name: id->Identifier_value,
                                children: seq![acc] + args,
                            },
                        )
                    } else {
                        (p, property)
                    }
                } else {
                    g_postfix(ts, p, property)
                }
            },
            Err(_) => (pos, acc),
        }
    } else {
        (pos, acc)
    }
}

/// The first part of a primary, chosen by the token it starts with: a
/// call or an identifier, a number, a boolean, a string, an array in
/// square brackets, or an expression in round brackets.
pub open spec fn g_atom(ts: Seq<TokenView>, pos: int) -> Parsed
    decreases ts.len() - pos, 25int,
{
    if is_kind(ts, pos, TokenKind::Alpha) {
        if g_function_call(ts, pos) is Ok {
            g_function_call(ts, pos)
        } else {
            g_identifier(ts, pos)
        }
    } else if is_kind(ts, pos, TokenKind::Digit) {
        g_number(ts, pos)
    } else if is_kind(ts, pos, TokenKind::True) || is_kind(ts, pos, TokenKind::False) {
        g_boolean(ts, pos)
    } else if is_kind(ts, pos, TokenKind::StringLiteral) {
        g_string(ts, pos)
    } else if is_kind(ts, pos, TokenKind::LeftBracket) {
        let (q, items) = g_list(ts, pos + 1);
        if is_kind(ts, q, TokenKind::RightBracket) {
            Ok((q + 1, Ast::ArrayLiteral { children: items }))
        } else {
            Err(q)
        }
    } else if is_kind(ts, pos, TokenKind::LeftParen) {
        match g_expression(ts, pos + 1) {
            Ok((p, inner)) => if is_kind(ts, p, TokenKind::RightParen) {
                Ok((p + 1, inner))
            } else {
                Err(p)
            },
            Err(e) => Err(e),
        }
    } else {
        Err(pos)
    }
}

/// primary = atom , { "[" , expression , "]" | "." , identifier , [ "(" , list , ")" ] } ;
pub open spec fn g_primary(ts: Seq<TokenView>, pos: int) -> Parsed
    decreases ts.len() - pos, 30int,
{
    match progress(g_atom(ts, pos), pos, ts.len()) {
        Ok((p, atom)) => Ok(g_postfix(ts, p, atom)),
        Err(e) => Err(e),
    }
}

/// unary = [ "+" | "-" | "!" ] , primary ;
pub open spec fn g_unary(ts: Seq<TokenView>, pos: int) -> Parsed
    decreases ts.len() - pos, 35int,
{
    if 0 <= pos < ts.len() && prefix_op(ts[pos].kind) is Some {
        match g_primary(ts, pos + 1) {
            Ok((p, operand)) => Ok(
                (
                    p,
                    Ast::UnaryExpression {
                        name: prefix_op(ts[pos].kind).unwrap(),
                        children: seq![operand],
                    },
                ),
            ),
            Err(e) => Err(e),
        }
    } else {
        g_primary(ts, pos)
    }
}

/// An operand of precedence level `level`: the next tighter level, or a
/// unary expression below the tightest.
pub open spec fn g_operand(ts: Seq<TokenView>, pos: int, level: int) -> Parsed
    decreases ts.len() - pos, 59 - 2 * level,
{
    if level < 0 || level > 6 {
        Err(pos)
    } else if level == 6 {
        g_unary(ts, pos)
    } else {
        g_binary(ts, pos, level + 1)
    }
}

/// The binary expressions of precedence level `level`: operands joined by
/// the operators of that level, folded from the left.
pub open spec fn g_binary(ts: Seq<TokenView>, pos: int, level: int) -> Parsed
    decreases ts.len() - pos, 60 - 2 * level,
{
    if level < 0 || level > 6 {
        Err(pos)
    } else {
        match progress(g_operand(ts, pos, level), pos, ts.len()) {
            Ok((p, left)) => Ok(g_binary_more(ts, p, level, left)),
            Err(e) => Err(e),
        }
    }
}

/// The rest of a chain of level `level` whose left part is `acc`. An
/// operator that no operand follows is not taken.
pub open spec fn g_binary_more(ts: Seq<TokenView>, pos: int, level: int, acc: Ast) -> (int, Ast)
    decreases ts.len() - pos, 80int,
{
    if 0 <= level <= 6 && 0 <= pos < ts.len() && level_op(level, ts[pos].kind) is Some {
        match progress(g_operand(ts, pos + 1, level), pos + 1, ts.len()) {
            Ok((p, right)) => g_binary_more(
                ts,
                p,
                level,
                Ast::BinaryExpression {
                    name: level_op(level, ts[pos].kind).unwrap(),
                    children: seq![acc, right],
                },
            ),
            Err(_) => (pos, acc),
        }
    } else {
        (pos, acc)
    }
}

/// A condition: an expression in round brackets or, failing that, a bare
/// expression.
pub open spec fn g_condition(ts: Seq<TokenView>, pos: int) -> Parsed
    decreases ts.len() - pos, 75int,
{
    let bare = g_expression(ts, pos);
    if is_kind(ts, pos, TokenKind::LeftParen) {
        match progress(g_expression(ts, pos + 1), pos + 1, ts.len()) {
            Ok((p, inner)) => if is_kind(ts, p, TokenKind::RightParen) {
                Ok((p + 1, inner))
            } else {
                bare
            },
            Err(_) => bare,
        }
    } else {
        bare
    }
}

/// A condition and a block in curly brackets.
pub open spec fn g_branch(ts: Seq<TokenView>, pos: int) -> Result<(int, Ast, Ast), int>
    decreases ts.len() - pos, 76int,
{
    match progress(g_condition(ts, pos), pos, ts.len()) {
        Ok((p, condition)) => match g_braced(ts, p) {
            Ok((q, block)) => Ok((q, condition, block)),
            Err(e) => Err(e),
        },
        Err(e) => Err(e),
    }
}

/// "{" , block , "}"
pub open spec fn g_braced(ts: Seq<TokenView>, pos: int) -> Parsed
    decreases ts.len() - pos, 96int,
{
    if is_kind(ts, pos, TokenKind::LeftCurly) {
        let (p, items) = g_block_from(ts, pos + 1, Seq::empty());
        if is_kind(ts, p, TokenKind::RightCurly) {
            Ok((p + 1, Ast::Block { children: items }))
        } else {
            Err(p)
        }
    } else {
        Err(pos)
    }
}

/// The clauses `else if condition { block }` from `pos` on, added to `acc`.
pub open spec fn g_else_ifs(ts: Seq<TokenView>, pos: int, acc: Seq<Ast>) -> (int, Seq<Ast>)
    decreases ts.len() - pos, 80int,
{
    if is_kind(ts, pos, TokenKind::Else) && is_kind(ts, pos + 1, TokenKind::If) {
        match g_branch(ts, pos + 2) {
            Ok((p, condition, block)) => if pos + 2 < p <= ts.len() {
                g_else_ifs(ts, p, acc.push(condition).push(block))
            } else {
                (pos, acc)
            },
            Err(_) => (pos, acc),
        }
    } else {
        (pos, acc)
    }
}

/// if_expression = "if" , condition , "{" , block , "}" ,
///   { "else" , "if" , condition , "{" , block , "}" } , [ "else" , "{" , block , "}" ] ;
pub open spec fn g_if(ts: Seq<TokenView>, pos: int) -> Parsed
    decreases ts.len() - pos, 60int,
{
    if is_kind(ts, pos, TokenKind::If) {
        match g_branch(ts, pos + 1) {
            Ok((p, condition, block)) => if pos + 1 < p <= ts.len() {
                let (q, pairs) = g_else_ifs(ts, p, seq![condition, block]);
                if p <= q && is_kind(ts, q, TokenKind::Else) && g_braced(ts, q + 1) is Ok {
                    let (r, last) = g_braced(ts, q + 1)->Ok_0;
                    Ok((r, Ast::IfExpression { children: pairs.push(last) }))
                } else {
                    Ok((q, Ast::IfExpression { children: pairs }))
                }
            } else {
                Err(pos)
            },
            Err(e) => Err(e),
        }
    } else {
        Err(pos)
    }
}

/// while_loop = "while" , condition , "{" , block , "}" ;
pub open spec fn g_while(ts: Seq<TokenView>, pos: int) -> Parsed
    decreases ts.len() - pos, 60int,
{
    if is_kind(ts, pos, TokenKind::While) {
        match g_branch(ts, pos + 1) {
            Ok((p, condition, block)) => Ok((p, Ast::WhileLoop { children: seq![condition, block] })),
            Err(e) => Err(e),
        }
    } else {
        Err(pos)
    }
}

/// expression = if_expression | logical_or ; the result is wrapped in an
/// `Expression` node.
pub open spec fn g_expression(ts: Seq<TokenView>, pos: int) -> Parsed
    decreases ts.len() - pos, 70int,
{
    let inner = if is_kind(ts, pos, TokenKind::If) {
        g_if(ts, pos)
    } else {
        g_binary(ts, pos, 0)
    };
    match inner {
        Ok((p, node)) => Ok((p, Ast::Expression { children: seq![node] })),
        Err(e) => Err(e),
    }
}

/// break_statement = "break" ;
pub open spec fn g_break(ts: Seq<TokenView>, pos: int) -> Parsed {
    if is_kind(ts, pos, TokenKind::Break) {
        Ok((pos + 1, Ast::Break))
    } else {
        Err(pos)
    }
}

/// continue_statement = "continue" ;
pub open spec fn g_continue(ts: Seq<TokenView>, pos: int) -> Parsed {
    if is_kind(ts, pos, TokenKind::Continue) {
        Ok((pos + 1, Ast::Continue))
    } else {
        Err(pos)
    }
}

/// function_return = "return" , ( function_call | expression ) ;
pub open spec fn g_return(ts: Seq<TokenView>, pos: int) -> Parsed
    decreases ts.len() - pos, 78int,
{
    if is_kind(ts, pos, TokenKind::Return) {
        let inner = if g_function_call(ts, pos + 1) is Ok {
            g_function_call(ts, pos + 1)
        } else {
            g_expression(ts, pos + 1)
        };
        match inner {
            Ok((p, node)) => Ok((p, Ast::FunctionReturn { children: seq![node] })),
            Err(e) => Err(e),
        }
    } else {
        Err(pos)
    }
}

/// assignment = identifier , { postfix } , "=" , expression ;
pub open spec fn g_assignment(ts: Seq<TokenView>, pos: int) -> Parsed
    decreases ts.len() - pos, 78int,
{
    match progress(g_identifier(ts, pos), pos, ts.len()) {
        Ok((p, id)) => {
            let (q, target) = g_postfix(ts, p, id);
            if p <= q && is_kind(ts, q, TokenKind::Equal) {
                match g_expression(ts, q + 1) {
                    Ok((r, value)) => Ok((r, Ast::Assignment { children: seq![target, value] })),
                    Err(e) => Err(e),
                }
            } else {
                Err(q)
            }
        },
        Err(e) => Err(e),
    }
}

/// variable_define = "let" , identifier , "=" , expression ;
pub open spec fn g_variable_define(ts: Seq<TokenView>, pos: int) -> Parsed
    decreases ts.len() - pos, 78int,
{
    if is_kind(ts, pos, TokenKind::Let) {
        match progress(g_identifier(ts, pos + 1), pos + 1, ts.len()) {
            Ok((p, id)) => if is_kind(ts, p, TokenKind::Equal) {
                match g_expression(ts, p + 1) {
                    Ok((r, value)) => Ok((r, Ast::VariableDefine { children: seq![id, value] })),
                    Err(e) => Err(e),
                }
            } else {
                Err(p)
            },
            Err(e) => Err(e),
        }
    } else {
        Err(pos)
    }
}

/// The index behind the tokens from `pos` on that start on line `line`,
/// the end marker not among them.
pub open spec fn line_end(ts: Seq<TokenView>, pos: int, line: u32) -> int
    decreases ts.len() - pos,
{
    if 0 <= pos < ts.len() && ts[pos].kind != TokenKind::EOF && ts[pos].start_line == line {
        line_end(ts, pos + 1, line)
    } else {
        pos
    }
}

/// comment = "/" , "/" , the tokens that follow on the line of the second slash ;
pub open spec fn g_comment(ts: Seq<TokenView>, pos: int) -> Parsed {
    if is_kind(ts, pos, TokenKind::Slash) {
        if is_kind(ts, pos + 1, TokenKind::Slash) {
            Ok((line_end(ts, pos + 2, ts[pos + 1].start_line), Ast::Null))
        } else {
            Err(pos + 1)
        }
    } else {
        Err(pos)
    }
}

/// `r` followed by a semicolon.
pub open spec fn closed(ts: Seq<TokenView>, r: Parsed) -> Parsed {
    match r {
        Ok((p, node)) => if is_kind(ts, p, TokenKind::Semicolon) {
            Ok((p + 1, node))
        } else {
            Err(p)
        },
        Err(e) => Err(e),
    }
}

/// The statement proper, chosen by the token it starts with.
pub open spec fn g_statement_core(ts: Seq<TokenView>, pos: int) -> Parsed
    decreases ts.len() - pos, 79int,
{
    if is_kind(ts, pos, TokenKind::Let) {
        closed(ts, g_variable_define(ts, pos))
    } else if is_kind(ts, pos, TokenKind::Alpha) {
        closed(ts, g_assignment(ts, pos))
    } else if is_kind(ts, pos, TokenKind::Return) {
        closed(ts, g_return(ts, pos))
    } else if is_kind(ts, pos, TokenKind::Break) {
        closed(ts, g_break(ts, pos))
    } else if is_kind(ts, pos, TokenKind::Continue) {
        closed(ts, g_continue(ts, pos))
    } else if is_kind(ts, pos, TokenKind::If) {
        g_if(ts, pos)
    } else {
        g_while(ts, pos)
    }
}

/// statement = ( variable_define , ";" | assignment , ";" | function_return , ";"
///   | break_statement , ";" | continue_statement , ";" | if_expression | while_loop ) , [ comment ] ;
pub open spec fn g_statement(ts: Seq<TokenView>, pos: int) -> Parsed
    decreases ts.len() - pos, 80int,
{
    match g_statement_core(ts, pos) {
        Ok((p, node)) => match g_comment(ts, p) {
            Ok((q, _)) => Ok((q, node)),
            Err(_) => Ok((p, node)),
        },
        Err(e) => Err(e),
    }
}

/// The members of a block from `pos` on, added to `acc`: statements and
/// comments, as many as there are.
pub open spec fn g_block_from(ts: Seq<TokenView>, pos: int, acc: Seq<Ast>) -> (int, Seq<Ast>)
    decreases ts.len() - pos, 95int,
{
    let member = if g_statement(ts, pos) is Ok {
        g_statement(ts, pos)
    } else {
        g_comment(ts, pos)
    };
    match progress(member, pos, ts.len()) {
        Ok((p, node)) => g_block_from(ts, p, acc.push(node)),
        Err(_) => (pos, acc),
    }
}

/// block = { statement | comment } ;
pub open spec fn g_block(ts: Seq<TokenView>, pos: int) -> Parsed {
    let (p, items) = g_block_from(ts, pos, Seq::empty());
    Ok((p, Ast::Block { children: items }))
}

/// argument = identifier , [ "=" , expression ] ;
pub open spec fn g_argument(ts: Seq<TokenView>, pos: int) -> Parsed
    decreases ts.len() - pos, 72int,
{
    match progress(g_identifier(ts, pos), pos, ts.len()) {
        Ok((p, id)) => if is_kind(ts, p, TokenKind::Equal) && g_expression(ts, p + 1) is Ok {
            let (q, default) = g_expression(ts, p + 1)->Ok_0;
            Ok((q, Ast::ArgumentDefine { children: seq![id, default] }))
        } else {
            Ok((p, Ast::ArgumentDefine { children: seq![id] }))
        },
        Err(e) => Err(e),
    }
}

/// The rest of a parameter list of which `acc` has been read.
pub open spec fn g_arguments_more(ts: Seq<TokenView>, pos: int, acc: Seq<Ast>) -> (int, Seq<Ast>)
    decreases ts.len() - pos, 75int,
{
    if is_kind(ts, pos, TokenKind::Comma) {
        match progress(g_argument(ts, pos + 1), pos + 1, ts.len()) {
            Ok((p, next)) => g_arguments_more(ts, p, acc.push(next)),
            Err(_) => (pos, acc),
        }
    } else {
        (pos, acc)
    }
}

/// arguments = [ argument , { "," , argument } ] ;
pub open spec fn g_arguments(ts: Seq<TokenView>, pos: int) -> Parsed
    decreases ts.len() - pos, 76int,
{
    let (p, items) = match progress(g_argument(ts, pos), pos, ts.len()) {
        Ok((p, first)) => g_arguments_more(ts, p, seq![first]),
        Err(_) => (pos, Seq::empty()),
    };
    Ok((p, Ast::FunctionArguments { children: items }))
}

/// The statements of a function body from `pos` on, added to `acc`.
pub open spec fn g_statements_from(ts: Seq<TokenView>, pos: int, acc: Seq<Ast>) -> (int, Seq<Ast>)
    decreases ts.len() - pos, 95int,
{
    match progress(g_statement(ts, pos), pos, ts.len()) {
        Ok((p, node)) => g_statements_from(ts, p, acc.push(node)),
        Err(_) => (pos, acc),
    }
}

/// function_define = "fn" , identifier , "(" , arguments , ")" , "{" , { statement } , "}" ;
pub open spec fn g_function_define(ts: Seq<TokenView>, pos: int) -> Parsed
    decreases ts.len() - pos, 97int,
{
    if is_kind(ts, pos, TokenKind::Fn) {
        match progress(g_identifier(ts, pos + 1), pos + 1, ts.len()) {
            Ok((p, id)) => if is_kind(ts, p, TokenKind::LeftParen) {
                let (q, params) = g_arguments(ts, p + 1)->Ok_0;
                if p < q && is_kind(ts, q, TokenKind::RightParen) {
                    if is_kind(ts, q + 1, TokenKind::LeftCurly) {
                        let (r, body) = g_statements_from(ts, q + 2, Seq::empty());
                        if is_kind(ts, r, TokenKind::RightCurly) {
                            Ok(
                                (
                                    r + 1,
                                    Ast::FunctionDefine {
                                        name: id->Identifier_value,
                                        children: seq![
                                            params,
                                            Ast::FunctionStatements { children: body },
                                        ],
                                    },
                                ),
                            )
                        } else {
                            Err(r)
                        }
                    } else {
                        Err(q + 1)
                    }
                } else {
                    Err(q)
                }
            } else {
                Err(p)
            },
            Err(e) => Err(e),
        }
    } else {
        Err(pos)
    }
}

/// One member of a program: the first of a function definition, a
/// statement, an expression and a comment that matches.
pub open spec fn g_member(ts: Seq<TokenView>, pos: int) -> Parsed
    decreases ts.len() - pos, 98int,
{
    if g_function_define(ts, pos) is Ok {
        g_function_define(ts, pos)
    } else if g_statement(ts, pos) is Ok {
        g_statement(ts, pos)
    } else if g_expression(ts, pos) is Ok {
        g_expression(ts, pos)
    } else {
        g_comment(ts, pos)
    }
}

/// The members of a program from `pos` on, added to `acc`.
pub open spec fn g_program_from(ts: Seq<TokenView>, pos: int, acc: Seq<Ast>) -> (int, Seq<Ast>)
    decreases ts.len() - pos, 99int,
{
    match progress(g_member(ts, pos), pos, ts.len()) {
        Ok((p, node)) => g_program_from(ts, p, acc.push(node)),
        Err(_) => (pos, acc),
    }
}

/// program = { function_define | statement | expression | comment } ;
pub open spec fn g_program(ts: Seq<TokenView>, pos: int) -> Parsed {
    let (p, items) = g_program_from(ts, pos, Seq::empty());
    Ok((p, Ast::Program { children: items }))
}

} // verus!
