use crate::ast::Ast;
use crate::lexer::{TokenKind, TokenView};
use crate::grammar::{
    closed, g_argument, g_arguments, g_arguments_more, g_assignment, g_atom, g_binary,
    g_binary_more, g_block, g_block_from, g_boolean, g_braced, g_branch, g_break, g_comment,
    g_condition, g_continue, g_else_ifs, g_expression, g_function_call, g_function_define,
    g_identifier, g_if, g_list, g_list_more, g_member, g_number, g_operand, g_postfix, g_primary,
    g_program, g_program_from, g_return, g_statement, g_statement_core, g_statements_from,
    g_string, g_unary, g_value, g_variable_define, g_while, is_kind, level_op, line_end, prefix_op,
    progress, run_end, Parsed,
};
use vstd::prelude::*;

verus! {

/// Whether a result keeps within a stream of `len` tokens: a match ends
/// behind at least one token taken from `pos` on, and a failure points at
/// `pos` or behind it.
pub open spec fn advances(r: Parsed, pos: int, len: nat) -> bool {
    match r {
        Ok((p, _)) => pos < p <= len,
        Err(e) => pos <= e <= len,
    }
}

/// Whether the end of a repetition lies at `pos` or behind it, within the
/// stream.
pub open spec fn reaches<T>(r: (int, T), pos: int, len: nat) -> bool {
    pos <= r.0 <= len
}

proof fn lemma_run_end(ts: Seq<TokenView>, pos: int, letters: bool)
    requires
        0 <= pos <= ts.len(),
    ensures
        pos <= run_end(ts, pos, letters) <= ts.len(),
    decreases ts.len() - pos,
{
    if is_kind(ts, pos, TokenKind::Digit) || (letters && is_kind(ts, pos, TokenKind::Alpha)) {
        lemma_run_end(ts, pos + 1, letters);
    }
}

proof fn lemma_line_end(ts: Seq<TokenView>, pos: int, line: u32)
    requires
        0 <= pos <= ts.len(),
    ensures
        pos <= line_end(ts, pos, line) <= ts.len(),
    decreases ts.len() - pos,
{
    if 0 <= pos < ts.len() && ts[pos].kind != TokenKind::EOF && ts[pos].start_line == line {
        lemma_line_end(ts, pos + 1, line);
    }
}

proof fn lemma_leaves(ts: Seq<TokenView>, pos: int)
    requires
        0 <= pos <= ts.len(),
    ensures
        advances(g_identifier(ts, pos), pos, ts.len()),
        advances(g_number(ts, pos), pos, ts.len()),
        advances(g_boolean(ts, pos), pos, ts.len()),
        advances(g_string(ts, pos), pos, ts.len()),
        advances(g_value(ts, pos), pos, ts.len()),
        advances(g_comment(ts, pos), pos, ts.len()),
        advances(g_break(ts, pos), pos, ts.len()),
        advances(g_continue(ts, pos), pos, ts.len()),
{
    if pos < ts.len() {
        lemma_run_end(ts, pos + 1, true);
        lemma_run_end(ts, pos + 1, false);
        if pos + 1 < ts.len() {
            lemma_line_end(ts, pos + 2, ts[pos + 1].start_line);
        }
    }
}

proof fn lemma_closed(ts: Seq<TokenView>, r: Parsed, pos: int)
    requires
        advances(r, pos, ts.len()),
    ensures
        advances(closed(ts, r), pos, ts.len()),
{
}

proof fn lemma_list(ts: Seq<TokenView>, pos: int)
    requires
        0 <= pos <= ts.len(),
    ensures
        reaches(g_list(ts, pos), pos, ts.len()),
    decreases ts.len() - pos, 75int,
{
    match progress(g_expression(ts, pos), pos, ts.len()) {
        Ok((p, first)) => lemma_list_more(ts, p, seq![first]),
        Err(_) => {},
    }
}

proof fn lemma_list_more(ts: Seq<TokenView>, pos: int, acc: Seq<Ast>)
    requires
        0 <= pos <= ts.len(),
    ensures
        reaches(g_list_more(ts, pos, acc), pos, ts.len()),
    decreases ts.len() - pos, 75int,
{
    if is_kind(ts, pos, TokenKind::Comma) {
        match progress(g_expression(ts, pos + 1), pos + 1, ts.len()) {
            Ok((p, next)) => lemma_list_more(ts, p, acc.push(next)),
            Err(_) => {},
        }
    }
}

proof fn lemma_function_call(ts: Seq<TokenView>, pos: int)
    requires
        0 <= pos <= ts.len(),
    ensures
        advances(g_function_call(ts, pos), pos, ts.len()),
    decreases ts.len() - pos, 20int,
{
    lemma_leaves(ts, pos);
    match progress(g_identifier(ts, pos), pos, ts.len()) {
        Ok((p, _)) => {
            if is_kind(ts, p, TokenKind::LeftParen) {
                lemma_list(ts, p + 1);
            }
        },
        Err(_) => {},
    }
}

proof fn lemma_postfix(ts: Seq<TokenView>, pos: int, acc: Ast)
    requires
        0 <= pos <= ts.len(),
    ensures
        reaches(g_postfix(ts, pos, acc), pos, ts.len()),
    decreases ts.len() - pos, 10int,
{
    if is_kind(ts, pos, TokenKind::LeftBracket) {
        match progress(g_expression(ts, pos + 1), pos + 1, ts.len()) {
            Ok((p, index)) => {
                if is_kind(ts, p, TokenKind::RightBracket) {
                    lemma_postfix(ts, p + 1, Ast::IndexAccess { children: seq![acc, index] });
                }
            },
            Err(_) => {},
        }
    } else if is_kind(ts, pos, TokenKind::Dot) {
        match progress(g_identifier(ts, pos + 1), pos + 1, ts.len()) {
            Ok((p, id)) => {
                let property = Ast::PropertyAccess { children: seq![acc, id] };
                if is_kind(ts, p, TokenKind::LeftParen) {
                    lemma_list(ts, p + 1);
                    let (q, args) = g_list(ts, p + 1);
                    if p < q && is_kind(ts, q, TokenKind::RightParen) {
                        lemma_postfix(
                            ts,
                            q + 1,
                            Ast::MethodCall {
                                name: id->Identifier_value,
                                children: seq![acc] + args,
                            },
                        );
                    }
                } else {
                    lemma_postfix(ts, p, property);
                }
            },
            Err(_) => {},
        }
    }
}

proof fn lemma_atom(ts: Seq<TokenView>, pos: int)
    requires
        0 <= pos <= ts.len(),
    ensures
        advances(g_atom(ts, pos), pos, ts.len()),
    decreases ts.len() - pos, 25int,
{
    lemma_leaves(ts, pos);
    if is_kind(ts, pos, TokenKind::Alpha) {
        lemma_function_call(ts, pos);
    } else if is_kind(ts, pos, TokenKind::LeftBracket) {
        lemma_list(ts, pos + 1);
    } else if is_kind(ts, pos, TokenKind::LeftParen) {
        lemma_expression(ts, pos + 1);
    }
}

proof fn lemma_primary(ts: Seq<TokenView>, pos: int)
    requires
        0 <= pos <= ts.len(),
    ensures
        advances(g_primary(ts, pos), pos, ts.len()),
    decreases ts.len() - pos, 30int,
{
    lemma_atom(ts, pos);
    match progress(g_atom(ts, pos), pos, ts.len()) {
        Ok((p, atom)) => lemma_postfix(ts, p, atom),
        Err(_) => {},
    }
}

proof fn lemma_unary(ts: Seq<TokenView>, pos: int)
    requires
        0 <= pos <= ts.len(),
    ensures
        advances(g_unary(ts, pos), pos, ts.len()),
    decreases ts.len() - pos, 35int,
{
    if 0 <= pos < ts.len() && prefix_op(ts[pos].kind) is Some {
        lemma_primary(ts, pos + 1);
    } else {
        lemma_primary(ts, pos);
    }
}

proof fn lemma_operand(ts: Seq<TokenView>, pos: int, level: int)
    requires
        0 <= pos <= ts.len(),
    ensures
        advances(g_operand(ts, pos, level), pos, ts.len()),
    decreases ts.len() - pos, 59 - 2 * level,
{
    if 0 <= level <= 6 {
        if level == 6 {
            lemma_unary(ts, pos);
        } else {
            lemma_binary(ts, pos, level + 1);
        }
    }
}

proof fn lemma_binary(ts: Seq<TokenView>, pos: int, level: int)
    requires
        0 <= pos <= ts.len(),
    ensures
        advances(g_binary(ts, pos, level), pos, ts.len()),
    decreases ts.len() - pos, 60 - 2 * level,
{
    if 0 <= level <= 6 {
        lemma_operand(ts, pos, level);
        match progress(g_operand(ts, pos, level), pos, ts.len()) {
            Ok((p, left)) => lemma_binary_more(ts, p, level, left),
            Err(_) => {},
        }
    }
}

proof fn lemma_binary_more(ts: Seq<TokenView>, pos: int, level: int, acc: Ast)
    requires
        0 <= pos <= ts.len(),
    ensures
        reaches(g_binary_more(ts, pos, level, acc), pos, ts.len()),
    decreases ts.len() - pos, 80int,
{
    if 0 <= level <= 6 && 0 <= pos < ts.len() && level_op(level, ts[pos].kind) is Some {
        match progress(g_operand(ts, pos + 1, level), pos + 1, ts.len()) {
            Ok((p, right)) => lemma_binary_more(
                ts,
                p,
                level,
                Ast::BinaryExpression {
                    name: level_op(level, ts[pos].kind).unwrap(),
                    children: seq![acc, right],
                },
            ),
            Err(_) => {},
        }
    }
}

proof fn lemma_condition(ts: Seq<TokenView>, pos: int)
    requires
        0 <= pos <= ts.len(),
    ensures
        advances(g_condition(ts, pos), pos, ts.len()),
    decreases ts.len() - pos, 75int,
{
    lemma_expression(ts, pos);
}

proof fn lemma_branch(ts: Seq<TokenView>, pos: int)
    requires
        0 <= pos <= ts.len(),
    ensures
        match g_branch(ts, pos) {
            Ok((p, _, _)) => pos < p <= ts.len(),
            Err(e) => pos <= e <= ts.len(),
        },
    decreases ts.len() - pos, 76int,
{
    lemma_condition(ts, pos);
    match progress(g_condition(ts, pos), pos, ts.len()) {
        Ok((p, _)) => lemma_braced(ts, p),
        Err(_) => {},
    }
}

proof fn lemma_braced(ts: Seq<TokenView>, pos: int)
    requires
        0 <= pos <= ts.len(),
    ensures
        advances(g_braced(ts, pos), pos, ts.len()),
    decreases ts.len() - pos, 96int,
{
    if is_kind(ts, pos, TokenKind::LeftCurly) {
        lemma_block_from(ts, pos + 1, Seq::empty());
    }
}

proof fn lemma_else_ifs(ts: Seq<TokenView>, pos: int, acc: Seq<Ast>)
    requires
        0 <= pos <= ts.len(),
    ensures
        reaches(g_else_ifs(ts, pos, acc), pos, ts.len()),
    decreases ts.len() - pos, 80int,
{
    if is_kind(ts, pos, TokenKind::Else) && is_kind(ts, pos + 1, TokenKind::If) {
        match g_branch(ts, pos + 2) {
            Ok((p, condition, block)) => {
                if pos + 2 < p <= ts.len() {
                    lemma_else_ifs(ts, p, acc.push(condition).push(block));
                }
            },
            Err(_) => {},
        }
    }
}

proof fn lemma_if(ts: Seq<TokenView>, pos: int)
    requires
        0 <= pos <= ts.len(),
    ensures
        advances(g_if(ts, pos), pos, ts.len()),
    decreases ts.len() - pos, 60int,
{
    if is_kind(ts, pos, TokenKind::If) {
        lemma_branch(ts, pos + 1);
        match g_branch(ts, pos + 1) {
            Ok((p, condition, block)) => {
                lemma_else_ifs(ts, p, seq![condition, block]);
                let (q, _) = g_else_ifs(ts, p, seq![condition, block]);
                if is_kind(ts, q, TokenKind::Else) {
                    lemma_braced(ts, q + 1);
                }
            },
            Err(_) => {},
        }
    }
}

proof fn lemma_while(ts: Seq<TokenView>, pos: int)
    requires
        0 <= pos <= ts.len(),
    ensures
        advances(g_while(ts, pos), pos, ts.len()),
    decreases ts.len() - pos, 60int,
{
    if is_kind(ts, pos, TokenKind::While) {
        lemma_branch(ts, pos + 1);
    }
}

proof fn lemma_expression(ts: Seq<TokenView>, pos: int)
    requires
        0 <= pos <= ts.len(),
    ensures
        advances(g_expression(ts, pos), pos, ts.len()),
    decreases ts.len() - pos, 70int,
{
    if is_kind(ts, pos, TokenKind::If) {
        lemma_if(ts, pos);
    } else {
        lemma_binary(ts, pos, 0);
    }
}

proof fn lemma_return(ts: Seq<TokenView>, pos: int)
    requires
        0 <= pos <= ts.len(),
    ensures
        advances(g_return(ts, pos), pos, ts.len()),
    decreases ts.len() - pos, 78int,
{
    if is_kind(ts, pos, TokenKind::Return) {
        lemma_function_call(ts, pos + 1);
        lemma_expression(ts, pos + 1);
    }
}

proof fn lemma_assignment(ts: Seq<TokenView>, pos: int)
    requires
        0 <= pos <= ts.len(),
    ensures
        advances(g_assignment(ts, pos), pos, ts.len()),
    decreases ts.len() - pos, 78int,
{
    lemma_leaves(ts, pos);
    match progress(g_identifier(ts, pos), pos, ts.len()) {
        Ok((p, id)) => {
            lemma_postfix(ts, p, id);
            let (q, _) = g_postfix(ts, p, id);
            if is_kind(ts, q, TokenKind::Equal) {
                lemma_expression(ts, q + 1);
            }
        },
        Err(_) => {},
    }
}

proof fn lemma_variable_define(ts: Seq<TokenView>, pos: int)
    requires
        0 <= pos <= ts.len(),
    ensures
        advances(g_variable_define(ts, pos), pos, ts.len()),
    decreases ts.len() - pos, 78int,
{
    if is_kind(ts, pos, TokenKind::Let) {
        lemma_leaves(ts, pos + 1);
        match progress(g_identifier(ts, pos + 1), pos + 1, ts.len()) {
            Ok((p, _)) => {
                if is_kind(ts, p, TokenKind::Equal) {
                    lemma_expression(ts, p + 1);
                }
            },
            Err(_) => {},
        }
    }
}

proof fn lemma_statement_core(ts: Seq<TokenView>, pos: int)
    requires
        0 <= pos <= ts.len(),
    ensures
        advances(g_statement_core(ts, pos), pos, ts.len()),
    decreases ts.len() - pos, 79int,
{
    lemma_leaves(ts, pos);
    if is_kind(ts, pos, TokenKind::Let) {
        lemma_variable_define(ts, pos);
        lemma_closed(ts, g_variable_define(ts, pos), pos);
    } else if is_kind(ts, pos, TokenKind::Alpha) {
        lemma_assignment(ts, pos);
        lemma_closed(ts, g_assignment(ts, pos), pos);
    } else if is_kind(ts, pos, TokenKind::Return) {
        lemma_return(ts, pos);
        lemma_closed(ts, g_return(ts, pos), pos);
    } else if is_kind(ts, pos, TokenKind::Break) {
        lemma_closed(ts, g_break(ts, pos), pos);
    } else if is_kind(ts, pos, TokenKind::Continue) {
        lemma_closed(ts, g_continue(ts, pos), pos);
    } else if is_kind(ts, pos, TokenKind::If) {
        lemma_if(ts, pos);
    } else {
        lemma_while(ts, pos);
    }
}

proof fn lemma_statement(ts: Seq<TokenView>, pos: int)
    requires
        0 <= pos <= ts.len(),
    ensures
        advances(g_statement(ts, pos), pos, ts.len()),
    decreases ts.len() - pos, 80int,
{
    lemma_statement_core(ts, pos);
    match g_statement_core(ts, pos) {
        Ok((p, _)) => lemma_leaves(ts, p),
        Err(_) => {},
    }
}

proof fn lemma_block_from(ts: Seq<TokenView>, pos: int, acc: Seq<Ast>)
    requires
        0 <= pos <= ts.len(),
    ensures
        reaches(g_block_from(ts, pos, acc), pos, ts.len()),
    decreases ts.len() - pos, 95int,
{
    let member = if g_statement(ts, pos) is Ok {
        g_statement(ts, pos)
    } else {
        g_comment(ts, pos)
    };
    match progress(member, pos, ts.len()) {
        Ok((p, node)) => lemma_block_from(ts, p, acc.push(node)),
        Err(_) => {},
    }
}

proof fn lemma_argument(ts: Seq<TokenView>, pos: int)
    requires
        0 <= pos <= ts.len(),
    ensures
        advances(g_argument(ts, pos), pos, ts.len()),
    decreases ts.len() - pos, 72int,
{
    lemma_leaves(ts, pos);
    match progress(g_identifier(ts, pos), pos, ts.len()) {
        Ok((p, _)) => {
            if is_kind(ts, p, TokenKind::Equal) {
                lemma_expression(ts, p + 1);
            }
        },
        Err(_) => {},
    }
}

proof fn lemma_arguments_more(ts: Seq<TokenView>, pos: int, acc: Seq<Ast>)
    requires
        0 <= pos <= ts.len(),
    ensures
        reaches(g_arguments_more(ts, pos, acc), pos, ts.len()),
    decreases ts.len() - pos, 75int,
{
    if is_kind(ts, pos, TokenKind::Comma) {
        match progress(g_argument(ts, pos + 1), pos + 1, ts.len()) {
            Ok((p, next)) => lemma_arguments_more(ts, p, acc.push(next)),
            Err(_) => {},
        }
    }
}

proof fn lemma_arguments(ts: Seq<TokenView>, pos: int)
    requires
        0 <= pos <= ts.len(),
    ensures
        g_arguments(ts, pos) is Ok,
        pos <= g_arguments(ts, pos)->Ok_0.0 <= ts.len(),
    decreases ts.len() - pos, 76int,
{
    match progress(g_argument(ts, pos), pos, ts.len()) {
        Ok((p, first)) => lemma_arguments_more(ts, p, seq![first]),
        Err(_) => {},
    }
}

proof fn lemma_statements_from(ts: Seq<TokenView>, pos: int, acc: Seq<Ast>)
    requires
        0 <= pos <= ts.len(),
    ensures
        reaches(g_statements_from(ts, pos, acc), pos, ts.len()),
    decreases ts.len() - pos, 95int,
{
    match progress(g_statement(ts, pos), pos, ts.len()) {
        Ok((p, node)) => lemma_statements_from(ts, p, acc.push(node)),
        Err(_) => {},
    }
}

proof fn lemma_function_define(ts: Seq<TokenView>, pos: int)
    requires
        0 <= pos <= ts.len(),
    ensures
        advances(g_function_define(ts, pos), pos, ts.len()),
    decreases ts.len() - pos, 97int,
{
    if is_kind(ts, pos, TokenKind::Fn) {
        lemma_leaves(ts, pos + 1);
        match progress(g_identifier(ts, pos + 1), pos + 1, ts.len()) {
            Ok((p, _)) => {
                if is_kind(ts, p, TokenKind::LeftParen) {
                    lemma_arguments(ts, p + 1);
                    let (q, _) = g_arguments(ts, p + 1)->Ok_0;
                    if is_kind(ts, q, TokenKind::RightParen) && is_kind(
                        ts,
                        q + 1,
                        TokenKind::LeftCurly,
                    ) {
                        lemma_statements_from(ts, q + 2, Seq::empty());
                    }
                }
            },
            Err(_) => {},
        }
    }
}

proof fn lemma_program_from(ts: Seq<TokenView>, pos: int, acc: Seq<Ast>)
    requires
        0 <= pos <= ts.len(),
    ensures
        reaches(g_program_from(ts, pos, acc), pos, ts.len()),
    decreases ts.len() - pos, 99int,
{
    match progress(g_member(ts, pos), pos, ts.len()) {
        Ok((p, node)) => lemma_program_from(ts, p, acc.push(node)),
        Err(_) => {},
    }
}

/// Every rule that can fail takes at least one token where it matches and
/// never reads past the end of the stream; a failure points at a token at
/// or behind the start, or just behind the last one.
pub proof fn lemma_rules_advance(ts: Seq<TokenView>, pos: int)
    requires
        0 <= pos <= ts.len(),
    ensures
        advances(g_identifier(ts, pos), pos, ts.len()),
        advances(g_number(ts, pos), pos, ts.len()),
        advances(g_boolean(ts, pos), pos, ts.len()),
        advances(g_string(ts, pos), pos, ts.len()),
        advances(g_value(ts, pos), pos, ts.len()),
        advances(g_comment(ts, pos), pos, ts.len()),
        advances(g_break(ts, pos), pos, ts.len()),
        advances(g_continue(ts, pos), pos, ts.len()),
        advances(g_function_call(ts, pos), pos, ts.len()),
        advances(g_primary(ts, pos), pos, ts.len()),
        advances(g_unary(ts, pos), pos, ts.len()),
        forall|level: int| 0 <= level <= 6 ==> advances(#[trigger] g_binary(ts, pos, level), pos, ts.len()),
        advances(g_expression(ts, pos), pos, ts.len()),
        advances(g_if(ts, pos), pos, ts.len()),
        advances(g_while(ts, pos), pos, ts.len()),
        advances(g_return(ts, pos), pos, ts.len()),
        advances(g_assignment(ts, pos), pos, ts.len()),
        advances(g_variable_define(ts, pos), pos, ts.len()),
        advances(g_statement(ts, pos), pos, ts.len()),
        advances(g_argument(ts, pos), pos, ts.len()),
        advances(g_function_define(ts, pos), pos, ts.len()),
{
    lemma_leaves(ts, pos);
    lemma_function_call(ts, pos);
    lemma_primary(ts, pos);
    lemma_unary(ts, pos);
    assert forall|level: int| 0 <= level <= 6 implies advances(
        #[trigger] g_binary(ts, pos, level),
        pos,
        ts.len(),
    ) by {
        lemma_binary(ts, pos, level);
    }
    lemma_expression(ts, pos);
    lemma_if(ts, pos);
    lemma_while(ts, pos);
    lemma_return(ts, pos);
    lemma_assignment(ts, pos);
    lemma_variable_define(ts, pos);
    lemma_statement(ts, pos);
    lemma_argument(ts, pos);
    lemma_function_define(ts, pos);
}

/// The rules that cannot fail end at or behind their start, within the
/// stream.
pub proof fn lemma_repetitions_stay_inside(ts: Seq<TokenView>, pos: int)
    requires
        0 <= pos <= ts.len(),
    ensures
        g_block(ts, pos) is Ok,
        pos <= g_block(ts, pos)->Ok_0.0 <= ts.len(),
        g_program(ts, pos) is Ok,
        pos <= g_program(ts, pos)->Ok_0.0 <= ts.len(),
        g_arguments(ts, pos) is Ok,
        pos <= g_arguments(ts, pos)->Ok_0.0 <= ts.len(),
{
    lemma_block_from(ts, pos, Seq::empty());
    lemma_program_from(ts, pos, Seq::empty());
    lemma_arguments(ts, pos);
}

} // verus!
