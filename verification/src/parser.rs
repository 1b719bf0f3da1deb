use crate::ast::{nodes_view, Ast, Node};
use crate::grammar::{
    closed, g_argument, g_arguments, g_arguments_more, g_assignment, g_atom, g_binary,
    g_binary_more, g_block, g_block_from, g_boolean, g_braced, g_branch, g_break, g_comment,
    g_condition, g_continue, g_else_ifs, g_expression, g_function_call, g_function_define,
    g_identifier, g_if, g_list, g_list_more, g_member, g_number, g_operand, g_postfix, g_primary,
    g_program, g_program_from, g_return, g_statement, g_statement_core, g_statements_from,
    g_string, g_unary, g_value, g_variable_define, g_while, is_kind, level_op, line_end, prefix_op,
    run_end, spelled, Parsed,
};
use crate::lexer::{copy_bytes, token_views, Token, TokenKind, TokenView, Tokens};
use vstd::prelude::*;

verus! {

/// Why a grammar rule did not match.
#[derive(Debug, PartialEq, Eq, Clone, Copy, Structural)]
pub enum ParseErrorKind {
    /// The stream ended where a token was needed.
    Eof,
    /// A token stands where the rule cannot take it.
    Unexpected,
}

/// The failure of a grammar rule, with the place of the offending token.
#[derive(Debug, PartialEq, Eq, Clone, Copy, Structural)]
pub struct ParseError {
    pub kind: ParseErrorKind,
    /// The index of the offending token in the stream the rule was given.
    pub index: usize,
    /// The line on which the offending token starts, or on which the last
    /// token ends where the stream ran out; 0 for an empty stream.
    pub line: u32,
    /// The column, found like the line.
    pub col: u32,
}

/// The error reported for a failure at token index `index`.
pub open spec fn error_at(ts: Seq<TokenView>, index: int) -> ParseError {
    if 0 <= index < ts.len() {
        ParseError {
            kind: ParseErrorKind::Unexpected,
            index: index as usize,
            line: ts[index].start_line,
            col: ts[index].start_col,
        }
    } else if ts.len() > 0 {
        ParseError {
            kind: ParseErrorKind::Eof,
            index: ts.len() as usize,
            line: ts.last().end_line,
            col: ts.last().end_col,
        }
    } else {
        ParseError { kind: ParseErrorKind::Eof, index: 0, line: 0, col: 0 }
    }
}

/// The model's reading of what an executable rule returned.
pub open spec fn parsed_view(r: Result<(usize, Node), usize>) -> Parsed {
    match r {
        Ok((p, node)) => Ok((p as int, node@)),
        Err(e) => Err(e as int),
    }
}

/// Whether an executable rule kept within a stream of `len` tokens and,
/// where it matched, took at least one token from `pos` on.
pub open spec fn in_bounds(r: Result<(usize, Node), usize>, pos: usize, len: usize) -> bool {
    match r {
        Ok((p, _)) => pos < p <= len,
        Err(e) => pos <= e <= len,
    }
}

fn kind_is(ts: &Vec<Token>, pos: usize, kind: TokenKind) -> (r: bool)
    ensures
        r == is_kind(token_views(ts@), pos as int, kind),
{
    pos < ts.len() && ts[pos].kind == kind
}

fn single(a: Node) -> (v: Vec<Node>)
    ensures
        nodes_view(v@) == seq![a@],
{
    let mut v: Vec<Node> = Vec::new();
    v.push(a);
    assert(nodes_view(v@) =~= seq![a@]);
    v
}

fn pair(a: Node, b: Node) -> (v: Vec<Node>)
    ensures
        nodes_view(v@) == seq![a@, b@],
{
    let mut v: Vec<Node> = Vec::new();
    v.push(a);
    v.push(b);
    assert(nodes_view(v@) =~= seq![a@, b@]);
    v
}

fn add_node(v: &mut Vec<Node>, a: Node)
    ensures
        nodes_view(final(v)@) == nodes_view(old(v)@).push(a@),
{
    v.push(a);
    assert(nodes_view(v@) =~= nodes_view(old(v)@).push(a@));
}

fn no_nodes() -> (v: Vec<Node>)
    ensures
        nodes_view(v@) == Seq::<Ast>::empty(),
{
    let v: Vec<Node> = Vec::new();
    assert(nodes_view(v@) =~= Seq::<Ast>::empty());
    v
}

fn scan_run(ts: &Vec<Token>, pos: usize, letters: bool) -> (r: usize)
    requires
        pos <= ts.len(),
    ensures
        r == run_end(token_views(ts@), pos as int, letters),
        pos <= r <= ts.len(),
{
    let mut k: usize = pos;
    while k < ts.len() && (ts[k].kind == TokenKind::Digit || (letters && ts[k].kind
        == TokenKind::Alpha))
        invariant
            pos <= k <= ts.len(),
            run_end(token_views(ts@), k as int, letters) == run_end(
                token_views(ts@),
                pos as int,
                letters,
            ),
        decreases ts.len() - k,
    {
        k += 1;
    }
    k
}

fn spell(ts: &Vec<Token>, from: usize, to: usize) -> (r: Vec<u8>)
    requires
        from <= to <= ts.len(),
    ensures
        r@ == spelled(token_views(ts@), from as int, to as int),
{
    let mut out: Vec<u8> = Vec::new();
    let mut k: usize = from;
    while k < to
        invariant
            from <= k <= to <= ts.len(),
            out@ == spelled(token_views(ts@), from as int, k as int),
        decreases to - k,
    {
        let lexeme = &ts[k].lexeme;
        let mut j: usize = 0;
        while j < lexeme.len()
            invariant
                j <= lexeme.len(),
                out@ == spelled(token_views(ts@), from as int, k as int) + lexeme@.take(j as int),
            decreases lexeme.len() - j,
        {
            out.push(lexeme[j]);
            assert(lexeme@.take(j + 1) =~= lexeme@.take(j as int).push(lexeme@[j as int]));
            j += 1;
        }
        assert(lexeme@.take(lexeme.len() as int) =~= lexeme@);
        k += 1;
    }
    out
}

fn p_name(ts: &Vec<Token>, pos: usize) -> (r: Result<(usize, Vec<u8>), usize>)
    requires
        pos <= ts.len(),
    ensures
        match r {
            Ok((p, name)) => g_identifier(token_views(ts@), pos as int) == Ok::<(int, Ast), int>(
                (p as int, Ast::Identifier { value: name@ }),
            ) && pos < p <= ts.len(),
            Err(e) => g_identifier(token_views(ts@), pos as int) == Err::<(int, Ast), int>(
                e as int,
            ) && e == pos,
        },
{
    if kind_is(ts, pos, TokenKind::Alpha) {
        let end = scan_run(ts, pos + 1, true);
        Ok((end, spell(ts, pos, end)))
    } else {
        Err(pos)
    }
}

fn p_identifier(ts: &Vec<Token>, pos: usize) -> (r: Result<(usize, Node), usize>)
    requires
        pos <= ts.len(),
    ensures
        parsed_view(r) == g_identifier(token_views(ts@), pos as int),
        in_bounds(r, pos, ts.len()),
{
    match p_name(ts, pos) {
        Ok((p, name)) => Ok((p, Node::Identifier { value: name })),
        Err(e) => Err(e),
    }
}

fn p_number(ts: &Vec<Token>, pos: usize) -> (r: Result<(usize, Node), usize>)
    requires
        pos <= ts.len(),
    ensures
        parsed_view(r) == g_number(token_views(ts@), pos as int),
        in_bounds(r, pos, ts.len()),
{
    if kind_is(ts, pos, TokenKind::Digit) {
        let end = scan_run(ts, pos + 1, false);
        Ok((end, Node::Number { value: spell(ts, pos, end) }))
    } else {
        Err(pos)
    }
}

fn p_boolean(ts: &Vec<Token>, pos: usize) -> (r: Result<(usize, Node), usize>)
    requires
        pos <= ts.len(),
    ensures
        parsed_view(r) == g_boolean(token_views(ts@), pos as int),
        in_bounds(r, pos, ts.len()),
{
    if kind_is(ts, pos, TokenKind::True) {
        Ok((pos + 1, Node::Bool { value: true }))
    } else if kind_is(ts, pos, TokenKind::False) {
        Ok((pos + 1, Node::Bool { value: false }))
    } else {
        Err(pos)
    }
}

fn p_string(ts: &Vec<Token>, pos: usize) -> (r: Result<(usize, Node), usize>)
    requires
        pos <= ts.len(),
    ensures
        parsed_view(r) == g_string(token_views(ts@), pos as int),
        in_bounds(r, pos, ts.len()),
{
    if kind_is(ts, pos, TokenKind::StringLiteral) {
        Ok((pos + 1, Node::String { value: copy_bytes(&ts[pos].lexeme) }))
    } else {
        Err(pos)
    }
}

fn p_value(ts: &Vec<Token>, pos: usize) -> (r: Result<(usize, Node), usize>)
    requires
        pos <= ts.len(),
    ensures
        parsed_view(r) == g_value(token_views(ts@), pos as int),
        in_bounds(r, pos, ts.len()),
{
    match p_number(ts, pos) {
        Ok(found) => Ok(found),
        Err(_) => match p_identifier(ts, pos) {
            Ok(found) => Ok(found),
            Err(_) => match p_boolean(ts, pos) {
                Ok(found) => Ok(found),
                Err(_) => p_string(ts, pos),
            },
        },
    }
}

fn binary_operator(level: u8, kind: TokenKind) -> (r: Option<Vec<u8>>)
    ensures
        match r {
            Some(name) => level_op(level as int, kind) == Some(name@),
            None => level_op(level as int, kind) is None,
        },
{
    let name: Vec<u8> = if level == 0 && kind == TokenKind::LogicalOr {
        vec![124u8, 124u8]
    } else if level == 1 && kind == TokenKind::LogicalAnd {
        vec![38u8, 38u8]
    } else if level == 2 && kind == TokenKind::EqualEqual {
        vec![61u8, 61u8]
    } else if level == 2 && kind == TokenKind::NotEqual {
        vec![33u8, 61u8]
    } else if level == 3 && kind == TokenKind::LessThan {
        vec![60u8]
    } else if level == 3 && kind == TokenKind::GreaterThan {
        vec![62u8]
    } else if level == 3 && kind == TokenKind::LessThanOrEqual {
        vec![60u8, 61u8]
    } else if level == 3 && kind == TokenKind::GreaterThanOrEqual {
        vec![62u8, 61u8]
    } else if level == 4 && kind == TokenKind::Plus {
        vec![43u8]
    } else if level == 4 && kind == TokenKind::Dash {
        vec![45u8]
    } else if level == 4 && kind == TokenKind::Modulus {
        vec![37u8]
    } else if level == 5 && kind == TokenKind::Multiply {
        vec![42u8]
    } else if level == 5 && kind == TokenKind::Slash {
        vec![47u8]
    } else if level == 6 && kind == TokenKind::Exponent {
        vec![94u8]
    } else {
        return None;
    };
    Some(name)
}

fn prefix_operator(kind: TokenKind) -> (r: Option<Vec<u8>>)
    ensures
        match r {
            Some(name) => prefix_op(kind) == Some(name@),
            None => prefix_op(kind) is None,
        },
{
    if kind == TokenKind::Plus {
        Some(vec![43u8])
    } else if kind == TokenKind::Dash {
        Some(vec![45u8])
    } else if kind == TokenKind::Not {
        Some(vec![33u8])
    } else {
        None
    }
}

fn p_comment(ts: &Vec<Token>, pos: usize) -> (r: Result<(usize, Node), usize>)
    requires
        pos <= ts.len(),
    ensures
        parsed_view(r) == g_comment(token_views(ts@), pos as int),
        in_bounds(r, pos, ts.len()),
{
    if kind_is(ts, pos, TokenKind::Slash) {
        if kind_is(ts, pos + 1, TokenKind::Slash) {
            let line = ts[pos + 1].start_line;
            let mut k: usize = pos + 2;
            while k < ts.len() && ts[k].kind != TokenKind::EOF && ts[k].start_line == line
                invariant
                    pos + 2 <= k <= ts.len(),
                    line_end(token_views(ts@), k as int, line) == line_end(
                        token_views(ts@),
                        pos + 2,
                        line,
                    ),
                decreases ts.len() - k,
            {
                k += 1;
            }
            Ok((k, Node::Null))
        } else {
            Err(pos + 1)
        }
    } else {
        Err(pos)
    }
}

fn p_break(ts: &Vec<Token>, pos: usize) -> (r: Result<(usize, Node), usize>)
    requires
        pos <= ts.len(),
    ensures
        parsed_view(r) == g_break(token_views(ts@), pos as int),
        in_bounds(r, pos, ts.len()),
{
    if kind_is(ts, pos, TokenKind::Break) {
        Ok((pos + 1, Node::Break))
    } else {
        Err(pos)
    }
}

fn p_continue(ts: &Vec<Token>, pos: usize) -> (r: Result<(usize, Node), usize>)
    requires
        pos <= ts.len(),
    ensures
        parsed_view(r) == g_continue(token_views(ts@), pos as int),
        in_bounds(r, pos, ts.len()),
{
    if kind_is(ts, pos, TokenKind::Continue) {
        Ok((pos + 1, Node::Continue))
    } else {
        Err(pos)
    }
}

fn p_closed(ts: &Vec<Token>, r: Result<(usize, Node), usize>, Ghost(pos): Ghost<usize>) -> (out:
    Result<(usize, Node), usize>)
    requires
        in_bounds(r, pos, ts.len()),
    ensures
        parsed_view(out) == closed(token_views(ts@), parsed_view(r)),
        in_bounds(out, pos, ts.len()),
{
    match r {
        Ok((p, node)) => if kind_is(ts, p, TokenKind::Semicolon) {
            Ok((p + 1, node))
        } else {
            Err(p)
        },
        Err(e) => Err(e),
    }
}

fn p_list(ts: &Vec<Token>, pos: usize) -> (r: (usize, Vec<Node>))
    requires
        pos <= ts.len(),
    ensures
        (r.0 as int, nodes_view(r.1@)) == g_list(token_views(ts@), pos as int),
        pos <= r.0 <= ts.len(),
    decreases ts.len() - pos, 75int,
{
    match p_expression(ts, pos) {
        Err(_) => (pos, no_nodes()),
        Ok((p, first)) => {
            let mut items = single(first);
            let mut cur: usize = p;
            let mut done = false;
            while !done
                invariant
                    pos < cur <= ts.len(),
                    g_list_more(token_views(ts@), cur as int, nodes_view(items@)) == g_list(
                        token_views(ts@),
                        pos as int,
                    ),
                    done ==> g_list_more(token_views(ts@), cur as int, nodes_view(items@)) == (
                        cur as int,
                        nodes_view(items@),
                    ),
                decreases ts.len() - cur, (if done { 0int } else { 1int }),
            {
                if kind_is(ts, cur, TokenKind::Comma) {
                    match p_expression(ts, cur + 1) {
                        Ok((p2, next)) => {
                            add_node(&mut items, next);
                            cur = p2;
                        },
                        Err(_) => {
                            done = true;
                        },
                    }
                } else {
                    done = true;
                }
            }
            (cur, items)
        },
    }
}

fn p_function_call(ts: &Vec<Token>, pos: usize) -> (r: Result<(usize, Node), usize>)
    requires
        pos <= ts.len(),
    ensures
        parsed_view(r) == g_function_call(token_views(ts@), pos as int),
        in_bounds(r, pos, ts.len()),
    decreases ts.len() - pos, 20int,
{
    match p_name(ts, pos) {
        Ok((p, name)) => if kind_is(ts, p, TokenKind::LeftParen) {
            let (q, args) = p_list(ts, p + 1);
            if kind_is(ts, q, TokenKind::RightParen) {
                let arguments = Node::FunctionArguments { children: args };
                Ok((q + 1, Node::FunctionCall { name, children: single(arguments) }))
            } else {
                Err(q)
            }
        } else {
            Err(p)
        },
        Err(e) => Err(e),
    }
}

fn p_postfix(ts: &Vec<Token>, pos: usize, acc: Node) -> (r: (usize, Node))
    requires
        pos <= ts.len(),
    ensures
        (r.0 as int, r.1@) == g_postfix(token_views(ts@), pos as int, acc@),
        pos <= r.0 <= ts.len(),
    decreases ts.len() - pos, 10int,
{
    if kind_is(ts, pos, TokenKind::LeftBracket) {
        match p_expression(ts, pos + 1) {
            Ok((p, index)) => if kind_is(ts, p, TokenKind::RightBracket) {
                p_postfix(ts, p + 1, Node::IndexAccess { children: pair(acc, index) })
            } else {
                (pos, acc)
            },
            Err(_) => (pos, acc),
        }
    } else if kind_is(ts, pos, TokenKind::Dot) {
        match p_name(ts, pos + 1) {
            Ok((p, name)) => {
                if kind_is(ts, p, TokenKind::LeftParen) {
                    let (q, args) = p_list(ts, p + 1);
                    if kind_is(ts, q, TokenKind::RightParen) {
                        let mut children: Vec<Node> = Vec::new();
                        let mut rest = args;
                        let ghost arg_views = nodes_view(rest@);
                        children.push(acc);
                        children.append(&mut rest);
                        assert(nodes_view(children@) =~= seq![acc@] + arg_views);
                        p_postfix(ts, q + 1, Node::MethodCall { name, children })
                    } else {
                        let id = Node::Identifier { value: name };
                        (p, Node::PropertyAccess { children: pair(acc, id) })
                    }
                } else {
                    let id = Node::Identifier { value: name };
                    p_postfix(ts, p, Node::PropertyAccess { children: pair(acc, id) })
                }
            },
            Err(_) => (pos, acc),
        }
    } else {
        (pos, acc)
    }
}

fn p_atom(ts: &Vec<Token>, pos: usize) -> (r: Result<(usize, Node), usize>)
    requires
        pos <= ts.len(),
    ensures
        parsed_view(r) == g_atom(token_views(ts@), pos as int),
        in_bounds(r, pos, ts.len()),
    decreases ts.len() - pos, 25int,
{
    if kind_is(ts, pos, TokenKind::Alpha) {
        match p_function_call(ts, pos) {
            Ok(found) => Ok(found),
            Err(_) => p_identifier(ts, pos),
        }
    } else if kind_is(ts, pos, TokenKind::Digit) {
        p_number(ts, pos)
    } else if kind_is(ts, pos, TokenKind::True) || kind_is(ts, pos, TokenKind::False) {
        p_boolean(ts, pos)
    } else if kind_is(ts, pos, TokenKind::StringLiteral) {
        p_string(ts, pos)
    } else if kind_is(ts, pos, TokenKind::LeftBracket) {
        let (q, items) = p_list(ts, pos + 1);
        if kind_is(ts, q, TokenKind::RightBracket) {
            Ok((q + 1, Node::ArrayLiteral { children: items }))
        } else {
            Err(q)
        }
    } else if kind_is(ts, pos, TokenKind::LeftParen) {
        match p_expression(ts, pos + 1) {
            Ok((p, inner)) => if kind_is(ts, p, TokenKind::RightParen) {
                Ok((p + 1, inner))
            } else {
                Err(p)
            },
            Err(e) => Err(e),
        }
    } else {
        Err(pos)
    }
}

fn p_primary(ts: &Vec<Token>, pos: usize) -> (r: Result<(usize, Node), usize>)
    requires
        pos <= ts.len(),
    ensures
        parsed_view(r) == g_primary(token_views(ts@), pos as int),
        in_bounds(r, pos, ts.len()),
    decreases ts.len() - pos, 30int,
{
    match p_atom(ts, pos) {
        Ok((p, atom)) => Ok(p_postfix(ts, p, atom)),
        Err(e) => Err(e),
    }
}

fn p_unary(ts: &Vec<Token>, pos: usize) -> (r: Result<(usize, Node), usize>)
    requires
        pos <= ts.len(),
    ensures
        parsed_view(r) == g_unary(token_views(ts@), pos as int),
        in_bounds(r, pos, ts.len()),
    decreases ts.len() - pos, 35int,
{
    if pos < ts.len() {
        match prefix_operator(ts[pos].kind) {
            Some(name) => {
                return match p_primary(ts, pos + 1) {
                    Ok((p, operand)) => Ok(
                        (p, Node::UnaryExpression { name, children: single(operand) }),
                    ),
                    Err(e) => Err(e),
                };
            },
            None => {},
        }
    }
    p_primary(ts, pos)
}

fn p_operand(ts: &Vec<Token>, pos: usize, level: u8) -> (r: Result<(usize, Node), usize>)
    requires
        pos <= ts.len(),
        level <= 6,
    ensures
        parsed_view(r) == g_operand(token_views(ts@), pos as int, level as int),
        in_bounds(r, pos, ts.len()),
    decreases ts.len() - pos, 59 - 2 * level,
{
    if level == 6 {
        p_unary(ts, pos)
    } else {
        p_binary(ts, pos, level + 1)
    }
}

fn p_binary(ts: &Vec<Token>, pos: usize, level: u8) -> (r: Result<(usize, Node), usize>)
    requires
        pos <= ts.len(),
        level <= 6,
    ensures
        parsed_view(r) == g_binary(token_views(ts@), pos as int, level as int),
        in_bounds(r, pos, ts.len()),
    decreases ts.len() - pos, 60 - 2 * level,
{
    match p_operand(ts, pos, level) {
        Err(e) => Err(e),
        Ok((p, left)) => {
            let mut node = left;
            let mut cur: usize = p;
            let mut done = false;
            while !done
                invariant
                    pos < cur <= ts.len(),
                    level <= 6,
                    g_binary_more(token_views(ts@), cur as int, level as int, node@)
                        == g_binary_more(token_views(ts@), p as int, level as int, left@),
                    done ==> g_binary_more(token_views(ts@), cur as int, level as int, node@) == (
                        cur as int,
                        node@,
                    ),
                decreases ts.len() - cur, (if done { 0int } else { 1int }),
            {
                let name = if cur < ts.len() {
                    binary_operator(level, ts[cur].kind)
                } else {
                    None
                };
                match name {
                    Some(name) => match p_operand(ts, cur + 1, level) {
                        Ok((p2, right)) => {
                            node = Node::BinaryExpression { name, children: pair(node, right) };
                            cur = p2;
                        },
                        Err(_) => {
                            done = true;
                        },
                    },
                    None => {
                        done = true;
                    },
                }
            }
            Ok((cur, node))
        },
    }
}

fn p_condition(ts: &Vec<Token>, pos: usize) -> (r: Result<(usize, Node), usize>)
    requires
        pos <= ts.len(),
    ensures
        parsed_view(r) == g_condition(token_views(ts@), pos as int),
        in_bounds(r, pos, ts.len()),
    decreases ts.len() - pos, 75int,
{
    if kind_is(ts, pos, TokenKind::LeftParen) {
        match p_expression(ts, pos + 1) {
            Ok((p, inner)) => {
                if kind_is(ts, p, TokenKind::RightParen) {
                    return Ok((p + 1, inner));
                }
            },
            Err(_) => {},
        }
    }
    p_expression(ts, pos)
}

fn p_branch(ts: &Vec<Token>, pos: usize) -> (r: Result<(usize, Node, Node), usize>)
    requires
        pos <= ts.len(),
    ensures
        match r {
            Ok((p, condition, block)) => g_branch(token_views(ts@), pos as int) == Ok::<
                (int, Ast, Ast),
                int,
            >((p as int, condition@, block@)) && pos + 2 < p <= ts.len(),
            Err(e) => g_branch(token_views(ts@), pos as int) == Err::<(int, Ast, Ast), int>(
                e as int,
            ) && pos <= e <= ts.len(),
        },
    decreases ts.len() - pos, 76int,
{
    match p_condition(ts, pos) {
        Ok((p, condition)) => match p_braced(ts, p) {
            Ok((q, block)) => Ok((q, condition, block)),
            Err(e) => Err(e),
        },
        Err(e) => Err(e),
    }
}

fn p_block_items(ts: &Vec<Token>, pos: usize) -> (r: (usize, Vec<Node>))
    requires
        pos <= ts.len(),
    ensures
        (r.0 as int, nodes_view(r.1@)) == g_block_from(
            token_views(ts@),
            pos as int,
            Seq::<Ast>::empty(),
        ),
        pos <= r.0 <= ts.len(),
    decreases ts.len() - pos, 95int,
{
    let mut items = no_nodes();
    let mut cur: usize = pos;
    let mut done = false;
    while !done
        invariant
            pos <= cur <= ts.len(),
            g_block_from(token_views(ts@), cur as int, nodes_view(items@)) == g_block_from(
                token_views(ts@),
                pos as int,
                Seq::<Ast>::empty(),
            ),
            done ==> g_block_from(token_views(ts@), cur as int, nodes_view(items@)) == (
                cur as int,
                nodes_view(items@),
            ),
        decreases ts.len() - cur, (if done { 0int } else { 1int }),
    {
        let member = match p_statement(ts, cur) {
            Ok(found) => Ok(found),
            Err(_) => p_comment(ts, cur),
        };
        match member {
            Ok((p, node)) => {
                add_node(&mut items, node);
                cur = p;
            },
            Err(_) => {
                done = true;
            },
        }
    }
    (cur, items)
}

fn p_braced(ts: &Vec<Token>, pos: usize) -> (r: Result<(usize, Node), usize>)
    requires
        pos <= ts.len(),
    ensures
        parsed_view(r) == g_braced(token_views(ts@), pos as int),
        in_bounds(r, pos, ts.len()),
        r is Ok ==> pos + 1 < r->Ok_0.0,
    decreases ts.len() - pos, 96int,
{
    if kind_is(ts, pos, TokenKind::LeftCurly) {
        let (p, items) = p_block_items(ts, pos + 1);
        if kind_is(ts, p, TokenKind::RightCurly) {
            Ok((p + 1, Node::Block { children: items }))
        } else {
            Err(p)
        }
    } else {
        Err(pos)
    }
}

fn p_if(ts: &Vec<Token>, pos: usize) -> (r: Result<(usize, Node), usize>)
    requires
        pos <= ts.len(),
    ensures
        parsed_view(r) == g_if(token_views(ts@), pos as int),
        in_bounds(r, pos, ts.len()),
    decreases ts.len() - pos, 60int,
{
    if !kind_is(ts, pos, TokenKind::If) {
        return Err(pos);
    }
    match p_branch(ts, pos + 1) {
        Err(e) => Err(e),
        Ok((p, condition, block)) => {
            let mut children = pair(condition, block);
            let mut cur: usize = p;
            let mut done = false;
            while !done
                invariant
                    pos + 1 < p <= cur <= ts.len(),
                    g_else_ifs(token_views(ts@), cur as int, nodes_view(children@)) == g_else_ifs(
                        token_views(ts@),
                        p as int,
                        seq![condition@, block@],
                    ),
                    done ==> g_else_ifs(token_views(ts@), cur as int, nodes_view(children@)) == (
                        cur as int,
                        nodes_view(children@),
                    ),
                decreases ts.len() - cur, (if done { 0int } else { 1int }),
            {
                if kind_is(ts, cur, TokenKind::Else) && kind_is(ts, cur + 1, TokenKind::If) {
                    match p_branch(ts, cur + 2) {
                        Ok((p2, c2, b2)) => {
                            add_node(&mut children, c2);
                            add_node(&mut children, b2);
                            cur = p2;
                        },
                        Err(_) => {
                            done = true;
                        },
                    }
                } else {
                    done = true;
                }
            }
            if kind_is(ts, cur, TokenKind::Else) {
                match p_braced(ts, cur + 1) {
                    Ok((r, last)) => {
                        add_node(&mut children, last);
                        return Ok((r, Node::IfExpression { children }));
                    },
                    Err(_) => {},
                }
            }
            Ok((cur, Node::IfExpression { children }))
        },
    }
}

fn p_while(ts: &Vec<Token>, pos: usize) -> (r: Result<(usize, Node), usize>)
    requires
        pos <= ts.len(),
    ensures
        parsed_view(r) == g_while(token_views(ts@), pos as int),
        in_bounds(r, pos, ts.len()),
    decreases ts.len() - pos, 60int,
{
    if kind_is(ts, pos, TokenKind::While) {
        match p_branch(ts, pos + 1) {
            Ok((p, condition, block)) => Ok(
                (p, Node::WhileLoop { children: pair(condition, block) }),
            ),
            Err(e) => Err(e),
        }
    } else {
        Err(pos)
    }
}

fn p_expression(ts: &Vec<Token>, pos: usize) -> (r: Result<(usize, Node), usize>)
    requires
        pos <= ts.len(),
    ensures
        parsed_view(r) == g_expression(token_views(ts@), pos as int),
        in_bounds(r, pos, ts.len()),
    decreases ts.len() - pos, 70int,
{
    let inner = if kind_is(ts, pos, TokenKind::If) {
        p_if(ts, pos)
    } else {
        p_binary(ts, pos, 0)
    };
    match inner {
        Ok((p, node)) => Ok((p, Node::Expression { children: single(node) })),
        Err(e) => Err(e),
    }
}

fn p_return(ts: &Vec<Token>, pos: usize) -> (r: Result<(usize, Node), usize>)
    requires
        pos <= ts.len(),
    ensures
        parsed_view(r) == g_return(token_views(ts@), pos as int),
        in_bounds(r, pos, ts.len()),
    decreases ts.len() - pos, 78int,
{
    if kind_is(ts, pos, TokenKind::Return) {
        let inner = match p_function_call(ts, pos + 1) {
            Ok(found) => Ok(found),
            Err(_) => p_expression(ts, pos + 1),
        };
        match inner {
            Ok((p, node)) => Ok((p, Node::FunctionReturn { children: single(node) })),
            Err(e) => Err(e),
        }
    } else {
        Err(pos)
    }
}

fn p_assignment(ts: &Vec<Token>, pos: usize) -> (r: Result<(usize, Node), usize>)
    requires
        pos <= ts.len(),
    ensures
        parsed_view(r) == g_assignment(token_views(ts@), pos as int),
        in_bounds(r, pos, ts.len()),
    decreases ts.len() - pos, 78int,
{
    match p_identifier(ts, pos) {
        Ok((p, id)) => {
            let (q, target) = p_postfix(ts, p, id);
            if kind_is(ts, q, TokenKind::Equal) {
                match p_expression(ts, q + 1) {
                    Ok((r, value)) => Ok((r, Node::Assignment { children: pair(target, value) })),
                    Err(e) => Err(e),
                }
            } else {
                Err(q)
            }
        },
        Err(e) => Err(e),
    }
}

fn p_variable_define(ts: &Vec<Token>, pos: usize) -> (r: Result<(usize, Node), usize>)
    requires
        pos <= ts.len(),
    ensures
        parsed_view(r) == g_variable_define(token_views(ts@), pos as int),
        in_bounds(r, pos, ts.len()),
    decreases ts.len() - pos, 78int,
{
    if kind_is(ts, pos, TokenKind::Let) {
        match p_identifier(ts, pos + 1) {
            Ok((p, id)) => if kind_is(ts, p, TokenKind::Equal) {
                match p_expression(ts, p + 1) {
                    Ok((r, value)) => Ok((r, Node::VariableDefine { children: pair(id, value) })),
                    Err(e) => Err(e),
                }
            } else {
                Err(p)
            },
            Err(e) => Err(e),
        }
    } else {
        Err(pos)
    }
}

fn p_statement_core(ts: &Vec<Token>, pos: usize) -> (r: Result<(usize, Node), usize>)
    requires
        pos <= ts.len(),
    ensures
        parsed_view(r) == g_statement_core(token_views(ts@), pos as int),
        in_bounds(r, pos, ts.len()),
    decreases ts.len() - pos, 79int,
{
    if kind_is(ts, pos, TokenKind::Let) {
        p_closed(ts, p_variable_define(ts, pos), Ghost(pos))
    } else if kind_is(ts, pos, TokenKind::Alpha) {
        p_closed(ts, p_assignment(ts, pos), Ghost(pos))
    } else if kind_is(ts, pos, TokenKind::Return) {
        p_closed(ts, p_return(ts, pos), Ghost(pos))
    } else if kind_is(ts, pos, TokenKind::Break) {
        p_closed(ts, p_break(ts, pos), Ghost(pos))
    } else if kind_is(ts, pos, TokenKind::Continue) {
        p_closed(ts, p_continue(ts, pos), Ghost(pos))
    } else if kind_is(ts, pos, TokenKind::If) {
        p_if(ts, pos)
    } else {
        p_while(ts, pos)
    }
}

fn p_statement(ts: &Vec<Token>, pos: usize) -> (r: Result<(usize, Node), usize>)
    requires
        pos <= ts.len(),
    ensures
        parsed_view(r) == g_statement(token_views(ts@), pos as int),
        in_bounds(r, pos, ts.len()),
    decreases ts.len() - pos, 80int,
{
    match p_statement_core(ts, pos) {
        Ok((p, node)) => match p_comment(ts, p) {
            Ok((q, _)) => Ok((q, node)),
            Err(_) => Ok((p, node)),
        },
        Err(e) => Err(e),
    }
}

fn p_block(ts: &Vec<Token>, pos: usize) -> (r: Result<(usize, Node), usize>)
    requires
        pos <= ts.len(),
    ensures
        parsed_view(r) == g_block(token_views(ts@), pos as int),
        r is Ok,
        pos <= r->Ok_0.0 <= ts.len(),
{
    let (p, items) = p_block_items(ts, pos);
    Ok((p, Node::Block { children: items }))
}

fn p_argument(ts: &Vec<Token>, pos: usize) -> (r: Result<(usize, Node), usize>)
    requires
        pos <= ts.len(),
    ensures
        parsed_view(r) == g_argument(token_views(ts@), pos as int),
        in_bounds(r, pos, ts.len()),
    decreases ts.len() - pos, 72int,
{
    match p_identifier(ts, pos) {
        Ok((p, id)) => {
            if kind_is(ts, p, TokenKind::Equal) {
                match p_expression(ts, p + 1) {
                    Ok((q, default)) => {
                        return Ok((q, Node::ArgumentDefine { children: pair(id, default) }));
                    },
                    Err(_) => {},
                }
            }
            Ok((p, Node::ArgumentDefine { children: single(id) }))
        },
        Err(e) => Err(e),
    }
}

fn p_arguments(ts: &Vec<Token>, pos: usize) -> (r: Result<(usize, Node), usize>)
    requires
        pos <= ts.len(),
    ensures
        parsed_view(r) == g_arguments(token_views(ts@), pos as int),
        r is Ok,
        pos <= r->Ok_0.0 <= ts.len(),
    decreases ts.len() - pos, 76int,
{
    match p_argument(ts, pos) {
        Err(_) => Ok((pos, Node::FunctionArguments { children: no_nodes() })),
        Ok((p, first)) => {
            let mut items = single(first);
            let mut cur: usize = p;
            let mut done = false;
            while !done
                invariant
                    pos < p <= cur <= ts.len(),
                    g_arguments_more(token_views(ts@), cur as int, nodes_view(items@))
                        == g_arguments_more(token_views(ts@), p as int, seq![first@]),
                    done ==> g_arguments_more(token_views(ts@), cur as int, nodes_view(items@)) == (
                        cur as int,
                        nodes_view(items@),
                    ),
                decreases ts.len() - cur, (if done { 0int } else { 1int }),
            {
                if kind_is(ts, cur, TokenKind::Comma) {
                    match p_argument(ts, cur + 1) {
                        Ok((p2, next)) => {
                            add_node(&mut items, next);
                            cur = p2;
                        },
                        Err(_) => {
                            done = true;
                        },
                    }
                } else {
                    done = true;
                }
            }
            Ok((cur, Node::FunctionArguments { children: items }))
        },
    }
}

fn p_statements(ts: &Vec<Token>, pos: usize) -> (r: (usize, Vec<Node>))
    requires
        pos <= ts.len(),
    ensures
        (r.0 as int, nodes_view(r.1@)) == g_statements_from(
            token_views(ts@),
            pos as int,
            Seq::<Ast>::empty(),
        ),
        pos <= r.0 <= ts.len(),
    decreases ts.len() - pos, 95int,
{
    let mut items = no_nodes();
    let mut cur: usize = pos;
    let mut done = false;
    while !done
        invariant
            pos <= cur <= ts.len(),
            g_statements_from(token_views(ts@), cur as int, nodes_view(items@))
                == g_statements_from(token_views(ts@), pos as int, Seq::<Ast>::empty()),
            done ==> g_statements_from(token_views(ts@), cur as int, nodes_view(items@)) == (
                cur as int,
                nodes_view(items@),
            ),
        decreases ts.len() - cur, (if done { 0int } else { 1int }),
    {
        match p_statement(ts, cur) {
            Ok((p, node)) => {
                add_node(&mut items, node);
                cur = p;
            },
            Err(_) => {
                done = true;
            },
        }
    }
    (cur, items)
}

fn p_function_define(ts: &Vec<Token>, pos: usize) -> (r: Result<(usize, Node), usize>)
    requires
        pos <= ts.len(),
    ensures
        parsed_view(r) == g_function_define(token_views(ts@), pos as int),
        in_bounds(r, pos, ts.len()),
    decreases ts.len() - pos, 97int,
{
    if !kind_is(ts, pos, TokenKind::Fn) {
        return Err(pos);
    }
    match p_name(ts, pos + 1) {
        Err(e) => Err(e),
        Ok((p, name)) => {
            if !kind_is(ts, p, TokenKind::LeftParen) {
                return Err(p);
            }
            match p_arguments(ts, p + 1) {
                Err(e) => Err(e),
                Ok((q, params)) => {
                    if !kind_is(ts, q, TokenKind::RightParen) {
                        return Err(q);
                    }
                    if !kind_is(ts, q + 1, TokenKind::LeftCurly) {
                        return Err(q + 1);
                    }
                    let (r, body) = p_statements(ts, q + 2);
                    if !kind_is(ts, r, TokenKind::RightCurly) {
                        return Err(r);
                    }
                    let statements = Node::FunctionStatements { children: body };
                    Ok((r + 1, Node::FunctionDefine { name, children: pair(params, statements) }))
                },
            }
        },
    }
}

fn p_member(ts: &Vec<Token>, pos: usize) -> (r: Result<(usize, Node), usize>)
    requires
        pos <= ts.len(),
    ensures
        parsed_view(r) == g_member(token_views(ts@), pos as int),
        in_bounds(r, pos, ts.len()),
    decreases ts.len() - pos, 98int,
{
    match p_function_define(ts, pos) {
        Ok(found) => Ok(found),
        Err(_) => match p_statement(ts, pos) {
            Ok(found) => Ok(found),
            Err(_) => match p_expression(ts, pos) {
                Ok(found) => Ok(found),
                Err(_) => p_comment(ts, pos),
            },
        },
    }
}

fn p_program(ts: &Vec<Token>, pos: usize) -> (r: Result<(usize, Node), usize>)
    requires
        pos <= ts.len(),
    ensures
        parsed_view(r) == g_program(token_views(ts@), pos as int),
        r is Ok,
        pos <= r->Ok_0.0 <= ts.len(),
{
    let mut items = no_nodes();
    let mut cur: usize = pos;
    let mut done = false;
    while !done
        invariant
            pos <= cur <= ts.len(),
            g_program_from(token_views(ts@), cur as int, nodes_view(items@)) == g_program_from(
                token_views(ts@),
                pos as int,
                Seq::<Ast>::empty(),
            ),
            done ==> g_program_from(token_views(ts@), cur as int, nodes_view(items@)) == (
                cur as int,
                nodes_view(items@),
            ),
        decreases ts.len() - cur, (if done { 0int } else { 1int }),
    {
        match p_member(ts, cur) {
            Ok((p, node)) => {
                add_node(&mut items, node);
                cur = p;
            },
            Err(_) => {
                done = true;
            },
        }
    }
    Ok((cur, Node::Program { children: items }))
}

/// Whether `r` is what a rule hands back on the stream `input`, given the
/// model's result: the tree and the tokens left, or the error for the
/// offending token.
pub open spec fn delivers(
    input: Seq<TokenView>,
    model: Parsed,
    r: Result<(Tokens, Node), ParseError>,
) -> bool {
    match model {
        Ok((p, ast)) => r is Ok && r->Ok_0.1@ == ast && r->Ok_0.0@ == input.skip(p),
        Err(e) => r == Err::<(Tokens, Node), ParseError>(error_at(input, e)),
    }
}

fn make_error(input: &Tokens, index: usize) -> (r: ParseError)
    ensures
        r == error_at(input@, index as int),
{
    let n = input.tokens.len();
    if index < n {
        ParseError {
            kind: ParseErrorKind::Unexpected,
            index,
            line: input.tokens[index].start_line,
            col: input.tokens[index].start_col,
        }
    } else if n > 0 {
        ParseError {
            kind: ParseErrorKind::Eof,
            index: n,
            line: input.tokens[n - 1].end_line,
            col: input.tokens[n - 1].end_col,
        }
    } else {
        ParseError { kind: ParseErrorKind::Eof, index: 0, line: 0, col: 0 }
    }
}

fn finish(input: &Tokens, r: Result<(usize, Node), usize>) -> (out: Result<
    (Tokens, Node),
    ParseError,
>)
    requires
        r is Ok ==> r->Ok_0.0 <= input@.len(),
    ensures
        delivers(input@, parsed_view(r), out),
{
    match r {
        Ok((p, node)) => Ok((input.slice(p, input.tokens.len()), node)),
        Err(e) => Err(make_error(input, e)),
    }
}

/// Takes the first token off the stream; fails on an empty stream.
pub fn split_tokens(input: Tokens) -> (r: Result<(Tokens, Token), ParseError>)
    ensures
        match r {
            Ok((rest, first)) => input@.len() > 0 && first@ == input@[0] && rest@ == input@.skip(1),
            Err(e) => input@.len() == 0 && e == error_at(input@, 0),
        },
{
    if input.tokens.len() == 0 {
        Err(make_error(&input, 0))
    } else {
        let first = input.tokens[0].clone();
        Ok((input.slice(1, input.tokens.len()), first))
    }
}

/// Takes the first token off the stream where it has kind `kind`.
pub fn check_token(input: Tokens, kind: TokenKind) -> (r: Result<(Tokens, Token), ParseError>)
    ensures
        match r {
            Ok((rest, first)) => is_kind(input@, 0, kind) && first@ == input@[0] && rest@
                == input@.skip(1),
            Err(e) => !is_kind(input@, 0, kind) && e == error_at(input@, 0),
        },
{
    if input.tokens.len() > 0 && input.tokens[0].kind == kind {
        let first = input.tokens[0].clone();
        Ok((input.slice(1, input.tokens.len()), first))
    } else {
        Err(make_error(&input, 0))
    }
}

/// Takes one letter token.
pub fn t_alpha(input: Tokens) -> (r: Result<(Tokens, Token), ParseError>)
    ensures
        match r {
            Ok((rest, first)) => is_kind(input@, 0, TokenKind::Alpha) && first@ == input@[0]
                && rest@ == input@.skip(1),
            Err(e) => !is_kind(input@, 0, TokenKind::Alpha) && e == error_at(input@, 0),
        },
{
    check_token(input, TokenKind::Alpha)
}

/// Takes one digit token.
pub fn t_digit(input: Tokens) -> (r: Result<(Tokens, Token), ParseError>)
    ensures
        match r {
            Ok((rest, first)) => is_kind(input@, 0, TokenKind::Digit) && first@ == input@[0]
                && rest@ == input@.skip(1),
            Err(e) => !is_kind(input@, 0, TokenKind::Digit) && e == error_at(input@, 0),
        },
{
    check_token(input, TokenKind::Digit)
}

/// Takes the keyword `let`.
pub fn t_let(input: Tokens) -> (r: Result<(Tokens, Token), ParseError>)
    ensures
        match r {
            Ok((rest, first)) => is_kind(input@, 0, TokenKind::Let) && first@ == input@[0]
                && rest@ == input@.skip(1),
            Err(e) => !is_kind(input@, 0, TokenKind::Let) && e == error_at(input@, 0),
        },
{
    check_token(input, TokenKind::Let)
}

/// The index behind the run of letters, or of letters and digits, that
/// starts at `pos`.
pub open spec fn letters_end(ts: Seq<TokenView>, pos: int, digits: bool) -> int
    decreases ts.len() - pos,
{
    if is_kind(ts, pos, TokenKind::Alpha) || (digits && is_kind(ts, pos, TokenKind::Digit)) {
        letters_end(ts, pos + 1, digits)
    } else {
        pos
    }
}

/// Whether `r` holds the first `end` tokens of `input` and the rest; where
/// `needs_one` is set and the run is empty, whether it is the error at the
/// first token.
pub open spec fn delivers_run(
    input: Seq<TokenView>,
    end: int,
    needs_one: bool,
    r: Result<(Tokens, Vec<Token>), ParseError>,
) -> bool {
    if needs_one && end == 0 {
        r == Err::<(Tokens, Vec<Token>), ParseError>(error_at(input, 0))
    } else {
        r is Ok && token_views(r->Ok_0.1@) == input.take(end) && r->Ok_0.0@ == input.skip(end)
    }
}

fn take_run(input: &Tokens, digits: bool, needs_one: bool) -> (r: Result<
    (Tokens, Vec<Token>),
    ParseError,
>)
    ensures
        delivers_run(input@, letters_end(input@, 0, digits), needs_one, r),
{
    let mut k: usize = 0;
    while k < input.tokens.len() && (input.tokens[k].kind == TokenKind::Alpha || (digits
        && input.tokens[k].kind == TokenKind::Digit))
        invariant
            k <= input.tokens.len(),
            letters_end(input@, k as int, digits) == letters_end(input@, 0, digits),
        decreases input.tokens.len() - k,
    {
        k += 1;
    }
    if needs_one && k == 0 {
        Err(make_error(input, 0))
    } else {
        let taken = input.slice(0, k);
        assert(input@.subrange(0, k as int) =~= input@.take(k as int));
        Ok((input.slice(k, input.tokens.len()), taken.tokens))
    }
}

/// Takes one or more letter tokens.
pub fn t_alpha1(input: Tokens) -> (r: Result<(Tokens, Vec<Token>), ParseError>)
    ensures
        delivers_run(input@, letters_end(input@, 0, false), true, r),
{
    take_run(&input, false, true)
}

/// Takes the letter tokens at the front, as many as there are.
pub fn t_alpha0(input: Tokens) -> (r: Result<(Tokens, Vec<Token>), ParseError>)
    ensures
        delivers_run(input@, letters_end(input@, 0, false), false, r),
{
    take_run(&input, false, false)
}

/// Takes one or more letter or digit tokens.
pub fn t_alphanumeric1(input: Tokens) -> (r: Result<(Tokens, Vec<Token>), ParseError>)
    ensures
        delivers_run(input@, letters_end(input@, 0, true), true, r),
{
    take_run(&input, true, true)
}

/// Takes the letter and digit tokens at the front, as many as there are.
pub fn t_alphanumeric0(input: Tokens) -> (r: Result<(Tokens, Vec<Token>), ParseError>)
    ensures
        delivers_run(input@, letters_end(input@, 0, true), false, r),
{
    take_run(&input, true, false)
}

/// identifier = alpha , { alpha | digit } ; the lexemes joined are its spelling.
pub fn identifier(input: Tokens) -> (r: Result<(Tokens, Node), ParseError>)
    ensures
        delivers(input@, g_identifier(input@, 0), r),
{
    finish(&input, p_identifier(&input.tokens, 0))
}

/// number = digit , { digit } ;
pub fn number(input: Tokens) -> (r: Result<(Tokens, Node), ParseError>)
    ensures
        delivers(input@, g_number(input@, 0), r),
{
    finish(&input, p_number(&input.tokens, 0))
}

/// boolean = "true" | "false" ;
pub fn boolean(input: Tokens) -> (r: Result<(Tokens, Node), ParseError>)
    ensures
        delivers(input@, g_boolean(input@, 0), r),
{
    finish(&input, p_boolean(&input.tokens, 0))
}

/// string = one string literal token ; its lexeme is the text.
pub fn string(input: Tokens) -> (r: Result<(Tokens, Node), ParseError>)
    ensures
        delivers(input@, g_string(input@, 0), r),
{
    finish(&input, p_string(&input.tokens, 0))
}

/// function_call = identifier , "(" , [ expression , { "," , expression } ] , ")" ;
pub fn function_call(input: Tokens) -> (r: Result<(Tokens, Node), ParseError>)
    ensures
        delivers(input@, g_function_call(input@, 0), r),
{
    finish(&input, p_function_call(&input.tokens, 0))
}

/// value = number | identifier | boolean | string ;
pub fn value(input: Tokens) -> (r: Result<(Tokens, Node), ParseError>)
    ensures
        delivers(input@, g_value(input@, 0), r),
{
    finish(&input, p_value(&input.tokens, 0))
}

/// expression = if_expression | logical_or ; wrapped in an `Expression` node.
pub fn expression(input: Tokens) -> (r: Result<(Tokens, Node), ParseError>)
    ensures
        delivers(input@, g_expression(input@, 0), r),
{
    finish(&input, p_expression(&input.tokens, 0))
}

/// An `if` with its `else if` clauses and its `else`, flattened into one list of children.
pub fn if_expression(input: Tokens) -> (r: Result<(Tokens, Node), ParseError>)
    ensures
        delivers(input@, g_if(input@, 0), r),
{
    finish(&input, p_if(&input.tokens, 0))
}

/// while_loop = "while" , condition , "{" , block , "}" ;
pub fn while_loop(input: Tokens) -> (r: Result<(Tokens, Node), ParseError>)
    ensures
        delivers(input@, g_while(input@, 0), r),
{
    finish(&input, p_while(&input.tokens, 0))
}

/// break_statement = "break" ;
pub fn break_statement(input: Tokens) -> (r: Result<(Tokens, Node), ParseError>)
    ensures
        delivers(input@, g_break(input@, 0), r),
{
    finish(&input, p_break(&input.tokens, 0))
}

/// continue_statement = "continue" ;
pub fn continue_statement(input: Tokens) -> (r: Result<(Tokens, Node), ParseError>)
    ensures
        delivers(input@, g_continue(input@, 0), r),
{
    finish(&input, p_continue(&input.tokens, 0))
}

/// unary = [ "+" | "-" | "!" ] , primary ;
pub fn unary(input: Tokens) -> (r: Result<(Tokens, Node), ParseError>)
    ensures
        delivers(input@, g_unary(input@, 0), r),
{
    finish(&input, p_unary(&input.tokens, 0))
}

/// A literal, an identifier, a call, an array or a bracketed expression, with the index, property and method forms that follow it.
pub fn primary(input: Tokens) -> (r: Result<(Tokens, Node), ParseError>)
    ensures
        delivers(input@, g_primary(input@, 0), r),
{
    finish(&input, p_primary(&input.tokens, 0))
}

/// One statement, with the comment that follows it.
pub fn statement(input: Tokens) -> (r: Result<(Tokens, Node), ParseError>)
    ensures
        delivers(input@, g_statement(input@, 0), r),
{
    finish(&input, p_statement(&input.tokens, 0))
}

/// function_return = "return" , ( function_call | expression ) ;
pub fn function_return(input: Tokens) -> (r: Result<(Tokens, Node), ParseError>)
    ensures
        delivers(input@, g_return(input@, 0), r),
{
    finish(&input, p_return(&input.tokens, 0))
}

/// assignment = target , "=" , expression ;
pub fn assignment(input: Tokens) -> (r: Result<(Tokens, Node), ParseError>)
    ensures
        delivers(input@, g_assignment(input@, 0), r),
{
    finish(&input, p_assignment(&input.tokens, 0))
}

/// variable_define = "let" , identifier , "=" , expression ;
pub fn variable_define(input: Tokens) -> (r: Result<(Tokens, Node), ParseError>)
    ensures
        delivers(input@, g_variable_define(input@, 0), r),
{
    finish(&input, p_variable_define(&input.tokens, 0))
}

/// argument = identifier , [ "=" , expression ] ;
pub fn argument(input: Tokens) -> (r: Result<(Tokens, Node), ParseError>)
    ensures
        delivers(input@, g_argument(input@, 0), r),
{
    finish(&input, p_argument(&input.tokens, 0))
}

/// arguments = [ argument , { "," , argument } ] ; never fails.
pub fn arguments(input: Tokens) -> (r: Result<(Tokens, Node), ParseError>)
    ensures
        delivers(input@, g_arguments(input@, 0), r),
{
    finish(&input, p_arguments(&input.tokens, 0))
}

/// function_define = "fn" , identifier , "(" , arguments , ")" , "{" , { statement } , "}" ;
pub fn function_define(input: Tokens) -> (r: Result<(Tokens, Node), ParseError>)
    ensures
        delivers(input@, g_function_define(input@, 0), r),
{
    finish(&input, p_function_define(&input.tokens, 0))
}

/// comment = "/" , "/" , the tokens that follow on the same line ; yields `Null`.
pub fn comment(input: Tokens) -> (r: Result<(Tokens, Node), ParseError>)
    ensures
        delivers(input@, g_comment(input@, 0), r),
{
    finish(&input, p_comment(&input.tokens, 0))
}

/// program = { function_define | statement | expression | comment } ; never fails.
pub fn program(input: Tokens) -> (r: Result<(Tokens, Node), ParseError>)
    ensures
        delivers(input@, g_program(input@, 0), r),
{
    finish(&input, p_program(&input.tokens, 0))
}

/// block = { statement | comment } ; never fails.
pub fn block(input: Tokens) -> (r: Result<(Tokens, Node), ParseError>)
    ensures
        delivers(input@, g_block(input@, 0), r),
{
    finish(&input, p_block(&input.tokens, 0))
}

/// logical_or = logical_and , { "||" , logical_and } ;
pub fn logical_or(input: Tokens) -> (r: Result<(Tokens, Node), ParseError>)
    ensures
        delivers(input@, g_binary(input@, 0, 0), r),
{
    finish(&input, p_binary(&input.tokens, 0, 0))
}

/// logical_and = equality , { "&&" , equality } ;
pub fn logical_and(input: Tokens) -> (r: Result<(Tokens, Node), ParseError>)
    ensures
        delivers(input@, g_binary(input@, 0, 1), r),
{
    finish(&input, p_binary(&input.tokens, 0, 1))
}

/// equality = comparison , { ( "==" | "!=" ) , comparison } ;
pub fn equality(input: Tokens) -> (r: Result<(Tokens, Node), ParseError>)
    ensures
        delivers(input@, g_binary(input@, 0, 2), r),
{
    finish(&input, p_binary(&input.tokens, 0, 2))
}

/// comparison = addition , { ( "<" | ">" | "<=" | ">=" ) , addition } ;
pub fn comparison(input: Tokens) -> (r: Result<(Tokens, Node), ParseError>)
    ensures
        delivers(input@, g_binary(input@, 0, 3), r),
{
    finish(&input, p_binary(&input.tokens, 0, 3))
}

/// addition = multiplication , { ( "+" | "-" | "%" ) , multiplication } ;
pub fn addition(input: Tokens) -> (r: Result<(Tokens, Node), ParseError>)
    ensures
        delivers(input@, g_binary(input@, 0, 4), r),
{
    finish(&input, p_binary(&input.tokens, 0, 4))
}

/// multiplication = exponentiation , { ( "*" | "/" ) , exponentiation } ;
pub fn multiplication(input: Tokens) -> (r: Result<(Tokens, Node), ParseError>)
    ensures
        delivers(input@, g_binary(input@, 0, 5), r),
{
    finish(&input, p_binary(&input.tokens, 0, 5))
}

/// exponentiation = unary , { "^" , unary } ; folded from the left like the other levels.
pub fn exponentiation(input: Tokens) -> (r: Result<(Tokens, Node), ParseError>)
    ensures
        delivers(input@, g_binary(input@, 0, 6), r),
{
    finish(&input, p_binary(&input.tokens, 0, 6))
}
} // verus!
