use crate::ast::Ast;
use crate::error::ErrorView;
use crate::semantics::{
    apply, bind, bind_params, call, call_arguments, eval, eval_all, eval_assignment, eval_binary,
    eval_call, eval_define, eval_if, eval_index, eval_let, eval_list, eval_method, eval_property,
    eval_while, handle, handle_of, lookup, method_result, name_insert, name_len, name_pop,
    name_print, name_push, pop_frame, push_frame, store_item, write_line, Machine,
};
use crate::value::ValueView;
use vstd::prelude::*;

verus! {

/// Whether `after` can follow `before` in one activation: the call stack
/// is as deep as it was, every frame but the innermost is as it was, the
/// limits are the same, and what was written is still there, with
/// further lines behind it at most.
pub open spec fn settled(before: Machine, after: Machine) -> bool {
    &&& after.stack.len() == before.stack.len()
    &&& after.stack.drop_last() == before.stack.drop_last()
    &&& after.max_depth == before.max_depth
    &&& after.max_rounds == before.max_rounds
    &&& after.output.len() >= before.output.len()
    &&& after.output.take(before.output.len() as int) == before.output
}

/// A state follows itself.
pub proof fn lemma_settled_same(m: Machine)
    ensures
        settled(m, m),
{
    assert(m.output.take(m.output.len() as int) =~= m.output);
}

/// What follows a state that follows `a` follows `a`.
pub proof fn lemma_settled_chain(a: Machine, b: Machine, c: Machine)
    requires
        settled(a, b),
        settled(b, c),
    ensures
        settled(a, c),
{
    assert(c.output.take(a.output.len() as int) =~= b.output.take(a.output.len() as int)) by {
        assert(c.output.take(b.output.len() as int) == b.output);
        assert forall|i: int| 0 <= i < a.output.len() implies c.output[i] == b.output[i] by {
            assert(c.output.take(b.output.len() as int)[i] == b.output[i]);
        }
    }
}

proof fn lemma_bind_settles(m: Machine, id: u64, v: ValueView)
    ensures
        settled(m, bind(m, id, v)),
{
    lemma_settled_same(m);
    if m.stack.len() > 0 {
        assert(bind(m, id, v).stack.drop_last() =~= m.stack.drop_last());
    }
}

proof fn lemma_method_settles(
    name: Seq<u8>,
    id: u64,
    items: Seq<ValueView>,
    args: Seq<ValueView>,
    m: Machine,
)
    ensures
        settled(m, method_result(name, id, items, args, m).0),
{
    lemma_settled_same(m);
    let after = method_result(name, id, items, args, m).0;
    if after != m {
        assert(exists|v: ValueView| after == bind(m, id, v)) by {
            if name == crate::semantics::name_push() {
                assert(after == bind(m, id, ValueView::Array(items.push(args[0]))));
            } else if name == crate::semantics::name_pop() {
                assert(after == bind(m, id, ValueView::Array(items.drop_last())));
            } else if name == crate::semantics::name_insert() {
                let n = args[0]->Number_0;
                assert(after == bind(m, id, ValueView::Array(items.insert(n, args[1]))));
            } else {
                assert(after == bind(m, id, ValueView::Array(items.insert(0, args[0]))));
            }
        }
        let v = choose|v: ValueView| after == bind(m, id, v);
        lemma_bind_settles(m, id, v);
    }
}

proof fn lemma_store_settles(name: Seq<u8>, index: ValueView, val: ValueView, m: Machine)
    ensures
        settled(m, store_item(name, index, val, m).0),
{
    lemma_settled_same(m);
    let after = store_item(name, index, val, m).0;
    if after != m {
        let id = handle_of(name)->Ok_0;
        let items = lookup(m.stack, id)->Some_0->Array_0;
        let n = index->Number_0;
        lemma_bind_settles(m, id, ValueView::Array(items.update(n, val)));
    }
}

proof fn lemma_define_settles(name: Seq<u8>, children: Seq<Ast>, m: Machine)
    ensures
        settled(m, eval_define(name, children, m).0),
{
    lemma_settled_same(m);
    let after = eval_define(name, children, m).0;
    if after != m {
        assert(exists|id: u64, v: ValueView| after == bind(m, id, v));
        let (id, v) = choose|id: u64, v: ValueView| after == bind(m, id, v);
        lemma_bind_settles(m, id, v);
    }
}

proof fn lemma_all_settles(nodes: Seq<Ast>, from: int, m: Machine, depth: nat, last: ValueView)
    ensures
        settled(m, eval_all(nodes, from, m, depth, last).0),
    decreases 3 * depth + 2, nodes, nodes.len() - from,
{
    lemma_settled_same(m);
    if 0 <= from < nodes.len() {
        lemma_eval_settles(nodes[from], m, depth);
        let (m1, r) = eval(nodes[from], m, depth);
        match r {
            Ok(v) => {
                lemma_all_settles(nodes, from + 1, m1, depth, v);
                lemma_settled_chain(m, m1, eval_all(nodes, from + 1, m1, depth, v).0);
            },
            Err(_) => {},
        }
    }
}

proof fn lemma_list_settles(
    nodes: Seq<Ast>,
    from: int,
    m: Machine,
    depth: nat,
    acc: Seq<ValueView>,
)
    ensures
        settled(m, eval_list(nodes, from, m, depth, acc).0),
    decreases 3 * depth + 2, nodes, nodes.len() - from,
{
    lemma_settled_same(m);
    if 0 <= from < nodes.len() {
        lemma_eval_settles(nodes[from], m, depth);
        let (m1, r) = eval(nodes[from], m, depth);
        match r {
            Ok(v) => {
                lemma_list_settles(nodes, from + 1, m1, depth, acc.push(v));
                lemma_settled_chain(m, m1, eval_list(nodes, from + 1, m1, depth, acc.push(v)).0);
            },
            Err(_) => {},
        }
    }
}

proof fn lemma_if_settles(children: Seq<Ast>, i: int, m: Machine, depth: nat)
    ensures
        settled(m, eval_if(children, i, m, depth).0),
    decreases 3 * depth + 2, children, children.len() - i,
{
    lemma_settled_same(m);
    if i >= 0 {
        if i + 1 < children.len() {
            lemma_eval_settles(children[i], m, depth);
            let (m1, r) = eval(children[i], m, depth);
            match r {
                Ok(ValueView::Bool(true)) => {
                    lemma_eval_settles(children[i + 1], m1, depth);
                    lemma_settled_chain(m, m1, eval(children[i + 1], m1, depth).0);
                },
                Ok(ValueView::Bool(false)) => {
                    lemma_if_settles(children, i + 2, m1, depth);
                    lemma_settled_chain(m, m1, eval_if(children, i + 2, m1, depth).0);
                },
                _ => {},
            }
        } else if children.len() % 2 == 1 {
            lemma_eval_settles(children.last(), m, depth);
        }
    }
}

proof fn lemma_while_settles(children: Seq<Ast>, m: Machine, depth: nat, rounds: nat)
    ensures
        settled(m, eval_while(children, m, depth, rounds).0),
    decreases 3 * depth + 2, children, rounds,
{
    lemma_settled_same(m);
    if children.len() >= 2 {
        lemma_eval_settles(children[0], m, depth);
        let (m1, r) = eval(children[0], m, depth);
        if r == Ok::<ValueView, ErrorView>(ValueView::Bool(true)) && rounds > 0 {
            lemma_eval_settles(children[1], m1, depth);
            let (m2, r2) = eval(children[1], m1, depth);
            lemma_settled_chain(m, m1, m2);
            if r2 is Ok || r2 == Err::<ValueView, ErrorView>(ErrorView::ContinueSignal) {
                lemma_while_settles(children, m2, depth, (rounds - 1) as nat);
                lemma_settled_chain(
                    m,
                    m2,
                    eval_while(children, m2, depth, (rounds - 1) as nat).0,
                );
            }
        }
    }
}

proof fn lemma_params_settle(
    params: Seq<(u64, Option<Ast>)>,
    args: Seq<ValueView>,
    i: int,
    m: Machine,
    depth: nat,
)
    ensures
        settled(m, bind_params(params, args, i, m, depth).0),
    decreases 3 * depth, params, params.len() - i,
{
    lemma_settled_same(m);
    if 0 <= i < params.len() && depth > 0 {
        if i < args.len() {
            let m1 = bind(m, params[i].0, args[i]);
            lemma_bind_settles(m, params[i].0, args[i]);
            lemma_params_settle(params, args, i + 1, m1, depth);
            lemma_settled_chain(m, m1, bind_params(params, args, i + 1, m1, depth).0);
        } else {
            match params[i].1 {
                Some(default) => {
                    lemma_eval_settles(default, m, (depth - 1) as nat);
                    let (m1, r) = eval(default, m, (depth - 1) as nat);
                    match r {
                        Ok(v) => {
                            let m2 = bind(m1, params[i].0, v);
                            lemma_bind_settles(m1, params[i].0, v);
                            lemma_settled_chain(m, m1, m2);
                            lemma_params_settle(params, args, i + 1, m2, depth);
                            lemma_settled_chain(
                                m,
                                m2,
                                bind_params(params, args, i + 1, m2, depth).0,
                            );
                        },
                        Err(_) => {},
                    }
                },
                None => {},
            }
        }
    }
}

/// A call leaves the caller's frames exactly as they were: the frame that
/// it pushes is popped whatever comes of the call, and nothing below it
/// is touched.
pub proof fn lemma_apply_restores(func: ValueView, args: Seq<ValueView>, m: Machine, depth: nat)
    ensures
        apply(func, args, m, depth).0.stack == m.stack,
        settled(m, apply(func, args, m, depth).0),
    decreases 3 * depth + 1,
{
    lemma_settled_same(m);
    match func {
        ValueView::Function { params, body } => {
            if args.len() <= params.len() && depth > 0 {
                let m0 = push_frame(m);
                assert(m0.stack.drop_last() =~= m.stack);
                lemma_params_settle(params, args, 0, m0, depth);
                let (m1, fault) = bind_params(params, args, 0, m0, depth);
                match fault {
                    Some(_) => {
                        assert(pop_frame(m1).stack == m.stack);
                    },
                    None => {
                        lemma_eval_settles(body, m1, (depth - 1) as nat);
                        let m2 = eval(body, m1, (depth - 1) as nat).0;
                        lemma_settled_chain(m0, m1, m2);
                        assert(pop_frame(m2).stack == m.stack);
                    },
                }
                assert(m.stack.drop_last() == m.stack.drop_last());
            }
        },
        _ => {},
    }
}

proof fn lemma_call_settles(func: ValueView, arg_nodes: Seq<Ast>, m: Machine, depth: nat)
    ensures
        settled(m, call(func, arg_nodes, m, depth).0),
    decreases 3 * depth + 2, arg_nodes, arg_nodes.len() + 1,
{
    lemma_settled_same(m);
    match func {
        ValueView::Function { params, body } => {
            if arg_nodes.len() <= params.len() && depth > 0 {
                lemma_list_settles(arg_nodes, 0, m, depth, Seq::empty());
                let (m1, r) = eval_list(arg_nodes, 0, m, depth, Seq::empty());
                match r {
                    Ok(args) => {
                        lemma_apply_restores(func, args, m1, depth);
                        lemma_settled_chain(m, m1, apply(func, args, m1, depth).0);
                    },
                    Err(_) => {},
                }
            }
        },
        _ => {},
    }
}

proof fn lemma_eval_call_settles(name: Seq<u8>, children: Seq<Ast>, m: Machine, depth: nat)
    ensures
        settled(m, eval_call(name, children, m, depth).0),
    decreases 3 * depth + 2, children, 0int,
{
    lemma_settled_same(m);
    if name == crate::semantics::name_print() || name == crate::semantics::name_len() {
        match call_arguments(children) {
            Some(args) => {
                if args.len() == 1 {
                    lemma_eval_settles(args[0], m, depth);
                    let (m1, r) = eval(args[0], m, depth);
                    if name == crate::semantics::name_print() && r is Ok {
                        let line = crate::text::debug_text(r->Ok_0);
                        let m2 = crate::semantics::write_line(m1, line);
                        assert(m2.output.take(m1.output.len() as int) =~= m1.output);
                        assert(settled(m1, m2));
                        lemma_settled_chain(m, m1, m2);
                    }
                }
            },
            None => {},
        }
    } else {
        match handle_of(name) {
            Ok(id) => match lookup(m.stack, id) {
                Some(func) => match call_arguments(children) {
                    Some(args) => {
                        lemma_call_settles(func, args, m, depth);
                    },
                    None => {
                        lemma_apply_restores(func, Seq::empty(), m, depth);
                    },
                },
                None => {},
            },
            Err(_) => {},
        }
    }
}

proof fn lemma_eval_method_settles(name: Seq<u8>, children: Seq<Ast>, m: Machine, depth: nat)
    ensures
        settled(m, eval_method(name, children, m, depth).0),
    decreases 3 * depth + 2, children, children.len() + 1,
{
    lemma_settled_same(m);
    if children.len() > 0 {
        lemma_eval_settles(children[0], m, depth);
        let (m1, r) = eval(children[0], m, depth);
        if r is Ok {
            lemma_list_settles(children, 1, m1, depth, Seq::empty());
            let (m2, r2) = eval_list(children, 1, m1, depth, Seq::empty());
            lemma_settled_chain(m, m1, m2);
            if r2 is Ok {
                match (r->Ok_0, children[0]) {
                    (ValueView::Array(items), Ast::Identifier { value }) => {
                        let id = crate::semantics::handle(value);
                        lemma_method_settles(name, id, items, r2->Ok_0, m2);
                        lemma_settled_chain(
                            m,
                            m2,
                            method_result(name, id, items, r2->Ok_0, m2).0,
                        );
                    },
                    _ => {},
                }
            }
        }
    }
}

proof fn lemma_eval_assignment_settles(children: Seq<Ast>, m: Machine, depth: nat)
    ensures
        settled(m, eval_assignment(children, m, depth).0),
    decreases 3 * depth + 2, children, 0int,
{
    lemma_settled_same(m);
    if children.len() >= 2 {
        lemma_eval_settles(children[1], m, depth);
        let (m1, r) = eval(children[1], m, depth);
        match r {
            Ok(val) => match children[0] {
                Ast::Identifier { value } => match handle_of(value) {
                    Ok(id) => {
                        lemma_bind_settles(m1, id, val);
                        lemma_settled_chain(m, m1, bind(m1, id, val));
                    },
                    Err(_) => {},
                },
                Ast::IndexAccess { children: target } => {
                    if target.len() >= 2 {
                        lemma_eval_settles(target[1], m1, depth);
                        let (m2, r2) = eval(target[1], m1, depth);
                        lemma_settled_chain(m, m1, m2);
                        match r2 {
                            Ok(index) => match target[0] {
                                Ast::Identifier { value } => {
                                    lemma_store_settles(value, index, val, m2);
                                    lemma_settled_chain(
                                        m,
                                        m2,
                                        store_item(value, index, val, m2).0,
                                    );
                                },
                                _ => {},
                            },
                            Err(_) => {},
                        }
                    }
                },
                _ => {},
            },
            Err(_) => {},
        }
    }
}

proof fn lemma_eval_binary_settles(name: Seq<u8>, children: Seq<Ast>, m: Machine, depth: nat)
    ensures
        settled(m, eval_binary(name, children, m, depth).0),
    decreases 3 * depth + 2, children, 0int,
{
    lemma_settled_same(m);
    if children.len() >= 2 {
        lemma_eval_settles(children[0], m, depth);
        let (m1, r) = eval(children[0], m, depth);
        if r is Ok {
            lemma_eval_settles(children[1], m1, depth);
            lemma_settled_chain(m, m1, eval(children[1], m1, depth).0);
        }
    }
}

proof fn lemma_eval_index_settles(children: Seq<Ast>, m: Machine, depth: nat)
    ensures
        settled(m, eval_index(children, m, depth).0),
    decreases 3 * depth + 2, children, 0int,
{
    lemma_settled_same(m);
    if children.len() >= 2 {
        lemma_eval_settles(children[0], m, depth);
        let (m1, r) = eval(children[0], m, depth);
        if r is Ok {
            lemma_eval_settles(children[1], m1, depth);
            lemma_settled_chain(m, m1, eval(children[1], m1, depth).0);
        }
    }
}

proof fn lemma_eval_property_settles(children: Seq<Ast>, m: Machine, depth: nat)
    ensures
        settled(m, eval_property(children, m, depth).0),
    decreases 3 * depth + 2, children, 0int,
{
    lemma_settled_same(m);
    if children.len() >= 2 {
        lemma_eval_settles(children[0], m, depth);
    }
}

proof fn lemma_eval_let_settles(children: Seq<Ast>, m: Machine, depth: nat)
    ensures
        settled(m, eval_let(children, m, depth).0),
    decreases 3 * depth + 2, children, 0int,
{
    lemma_settled_same(m);
    if children.len() >= 2 {
        match children[0] {
            Ast::Identifier { value } => match handle_of(value) {
                Ok(id) => {
                    lemma_eval_settles(children[1], m, depth);
                    let (m1, r) = eval(children[1], m, depth);
                    match r {
                        Ok(v) => {
                            lemma_bind_settles(m1, id, v);
                            lemma_settled_chain(m, m1, bind(m1, id, v));
                        },
                        Err(_) => {},
                    }
                },
                Err(_) => {},
            },
            _ => {},
        }
    }
}

/// Whatever a node is and however its evaluation ends, the call stack is
/// rolled back to the depth it had, only the innermost frame may have
/// changed, the limits stand, and nothing written is lost.
pub proof fn lemma_eval_settles(node: Ast, m: Machine, depth: nat)
    ensures
        settled(m, eval(node, m, depth).0),
    decreases 3 * depth + 2, node, 0int,
{
    lemma_settled_same(m);
    match node {
        Ast::Program { children } => lemma_all_settles(children, 0, m, depth, ValueView::Bool(true)),
        Ast::Block { children } => lemma_all_settles(children, 0, m, depth, ValueView::Bool(true)),
        Ast::Statement { children } => lemma_all_settles(
            children,
            0,
            m,
            depth,
            ValueView::Bool(true),
        ),
        Ast::FunctionStatements { children } => lemma_all_settles(
            children,
            0,
            m,
            depth,
            ValueView::Bool(true),
        ),
        Ast::FunctionDefine { name, children } => lemma_define_settles(name, children, m),
        Ast::IfExpression { children } => lemma_if_settles(children, 0, m, depth),
        Ast::WhileLoop { children } => lemma_while_settles(children, m, depth, m.max_rounds),
        Ast::Expression { children } => {
            if children.len() >= 1 {
                lemma_eval_settles(children[0], m, depth);
            }
        },
        Ast::FunctionCall { name, children } => lemma_eval_call_settles(name, children, m, depth),
        Ast::VariableDefine { children } => lemma_eval_let_settles(children, m, depth),
        Ast::Assignment { children } => lemma_eval_assignment_settles(children, m, depth),
        Ast::FunctionReturn { children } => {
            if children.len() >= 1 {
                lemma_eval_settles(children[0], m, depth);
            }
        },
        Ast::UnaryExpression { name, children } => {
            if children.len() >= 1 {
                lemma_eval_settles(children[0], m, depth);
            }
        },
        Ast::BinaryExpression { name, children } => lemma_eval_binary_settles(
            name,
            children,
            m,
            depth,
        ),
        Ast::ArrayLiteral { children } => lemma_list_settles(children, 0, m, depth, Seq::empty()),
        Ast::IndexAccess { children } => lemma_eval_index_settles(children, m, depth),
        Ast::PropertyAccess { children } => lemma_eval_property_settles(children, m, depth),
        Ast::MethodCall { name, children } => lemma_eval_method_settles(name, children, m, depth),
        _ => {},
    }
}

} // verus!
