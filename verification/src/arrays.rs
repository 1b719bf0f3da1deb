use crate::ast::Ast;
use crate::error::ErrorView;
use crate::semantics::{
    bind, eval, eval_list, eval_method, handle, lookup, method_result, name_insert, name_pop,
    name_prepend, name_push, Machine,
};
use crate::value::ValueView;
use vstd::prelude::*;
use vstd::utf8::valid_utf8;

verus! {

/// One operation on an array: what the methods `push`, `pop`, `insert`
/// and `prepend` do, as a value.
pub enum ArrayOp {
    Push(ValueView),
    Pop,
    Insert(int, ValueView),
    Prepend(ValueView),
}

/// Whether the operation can be made on `items`.
pub open spec fn op_fits(op: ArrayOp, items: Seq<ValueView>) -> bool {
    match op {
        ArrayOp::Push(_) => true,
        ArrayOp::Pop => items.len() > 0,
        ArrayOp::Insert(i, _) => 0 <= i <= items.len(),
        ArrayOp::Prepend(_) => true,
    }
}

/// What the operation makes of `items`, on plain sequences.
pub open spec fn op_model(op: ArrayOp, items: Seq<ValueView>) -> Seq<ValueView> {
    match op {
        ArrayOp::Push(v) => items.push(v),
        ArrayOp::Pop => items.drop_last(),
        ArrayOp::Insert(i, v) => items.insert(i, v),
        ArrayOp::Prepend(v) => seq![v] + items,
    }
}

/// The name of the method that makes the operation.
pub open spec fn op_method(op: ArrayOp) -> Seq<u8> {
    match op {
        ArrayOp::Push(_) => name_push(),
        ArrayOp::Pop => name_pop(),
        ArrayOp::Insert(_, _) => name_insert(),
        ArrayOp::Prepend(_) => name_prepend(),
    }
}

/// The arguments that the method is called with.
pub open spec fn op_arguments(op: ArrayOp) -> Seq<ValueView> {
    match op {
        ArrayOp::Push(v) => seq![v],
        ArrayOp::Pop => Seq::empty(),
        ArrayOp::Insert(i, v) => seq![ValueView::Number(i), v],
        ArrayOp::Prepend(v) => seq![v],
    }
}

/// Whether the first `n` operations can be made one after the other,
/// starting from `items`.
pub open spec fn ops_fit(ops: Seq<ArrayOp>, n: nat, items: Seq<ValueView>) -> bool
    decreases n,
{
    if n == 0 || n > ops.len() {
        true
    } else {
        ops_fit(ops, (n - 1) as nat, items) && op_fits(
            ops[n - 1],
            ops_model(ops, (n - 1) as nat, items),
        )
    }
}

/// What the first `n` operations make of `items`, on plain sequences.
pub open spec fn ops_model(ops: Seq<ArrayOp>, n: nat, items: Seq<ValueView>) -> Seq<ValueView>
    decreases n,
{
    if n == 0 || n > ops.len() {
        items
    } else {
        op_model(ops[n - 1], ops_model(ops, (n - 1) as nat, items))
    }
}

/// The state after the first `n` operations were made as method calls on
/// the variable `id`, each on the array that the variable then held.
pub open spec fn ops_run(ops: Seq<ArrayOp>, n: nat, id: u64, m: Machine) -> Machine
    decreases n,
{
    if n == 0 || n > ops.len() {
        m
    } else {
        let before = ops_run(ops, (n - 1) as nat, id, m);
        match lookup(before.stack, id) {
            Some(ValueView::Array(items)) => method_result(
                op_method(ops[n - 1]),
                id,
                items,
                op_arguments(ops[n - 1]),
                before,
            ).0,
            _ => before,
        }
    }
}

proof fn lemma_bind_then_lookup(m: Machine, id: u64, v: ValueView)
    requires
        m.stack.len() > 0,
    ensures
        lookup(bind(m, id, v).stack, id) == Some(v),
        bind(m, id, v).stack.len() == m.stack.len(),
{
}

proof fn lemma_method_names_differ()
    ensures
        name_push() != name_pop(),
        name_push() != name_insert(),
        name_push() != name_prepend(),
        name_pop() != name_insert(),
        name_pop() != name_prepend(),
        name_insert() != name_prepend(),
{
    assert(name_push().len() == 4);
    assert(name_pop().len() == 3);
    assert(name_insert().len() == 6);
    assert(name_prepend().len() == 7);
}

/// One method call on an array that a variable holds does to the
/// variable what the operation does to a plain sequence, and `pop` yields
/// the item that was last.
pub proof fn lemma_method_agrees_with_model(op: ArrayOp, id: u64, items: Seq<ValueView>, m: Machine)
    requires
        m.stack.len() > 0,
        op_fits(op, items),
    ensures
        ({
            let (after, r) = method_result(op_method(op), id, items, op_arguments(op), m);
            &&& lookup(after.stack, id) == Some(ValueView::Array(op_model(op, items)))
            &&& after.stack.len() == m.stack.len()
            &&& r == Ok::<ValueView, ErrorView>(
                match op {
                    ArrayOp::Pop => items.last(),
                    _ => ValueView::Array(op_model(op, items)),
                },
            )
        }),
{
    lemma_method_names_differ();
    match op {
        ArrayOp::Push(v) => {
            lemma_bind_then_lookup(m, id, ValueView::Array(items.push(v)));
        },
        ArrayOp::Pop => {
            lemma_bind_then_lookup(m, id, ValueView::Array(items.drop_last()));
        },
        ArrayOp::Insert(i, v) => {
            lemma_bind_then_lookup(m, id, ValueView::Array(items.insert(i, v)));
        },
        ArrayOp::Prepend(v) => {
            assert(items.insert(0, v) =~= seq![v] + items);
            lemma_bind_then_lookup(m, id, ValueView::Array(items.insert(0, v)));
        },
    }
}

/// A method call on a variable that holds an array, with arguments whose
/// evaluation leaves the state as it is (literals do), is the method made
/// on that array.
pub proof fn lemma_method_call_on_variable(
    name: Seq<u8>,
    children: Seq<Ast>,
    m: Machine,
    depth: nat,
    items: Seq<ValueView>,
    args: Seq<ValueView>,
)
    requires
        children.len() >= 1,
        children[0] is Identifier,
        valid_utf8(children[0]->Identifier_value),
        lookup(m.stack, handle(children[0]->Identifier_value)) == Some(ValueView::Array(items)),
        eval_list(children, 1, m, depth, Seq::empty()) == (
            m,
            Ok::<Seq<ValueView>, ErrorView>(args),
        ),
    ensures
        eval(Ast::MethodCall { name, children }, m, depth) == method_result(
            name,
            handle(children[0]->Identifier_value),
            items,
            args,
            m,
        ),
{
    assert(eval(children[0], m, depth) == (m, Ok::<ValueView, ErrorView>(ValueView::Array(items))));
    assert(eval_method(name, children, m, depth) == method_result(
        name,
        handle(children[0]->Identifier_value),
        items,
        args,
        m,
    ));
}

/// A run of `push`, `pop`, `insert` and `prepend` calls on one variable
/// that holds an array leaves the variable bound to what the same
/// operations make of the array as a plain sequence.
pub proof fn lemma_array_round_trip(
    ops: Seq<ArrayOp>,
    n: nat,
    id: u64,
    items: Seq<ValueView>,
    m: Machine,
)
    requires
        n <= ops.len(),
        m.stack.len() > 0,
        lookup(m.stack, id) == Some(ValueView::Array(items)),
        ops_fit(ops, n, items),
    ensures
        lookup(ops_run(ops, n, id, m).stack, id) == Some(
            ValueView::Array(ops_model(ops, n, items)),
        ),
        ops_run(ops, n, id, m).stack.len() == m.stack.len(),
    decreases n,
{
    if n > 0 {
        lemma_array_round_trip(ops, (n - 1) as nat, id, items, m);
        let before = ops_run(ops, (n - 1) as nat, id, m);
        lemma_method_agrees_with_model(
            ops[n - 1],
            id,
            ops_model(ops, (n - 1) as nat, items),
            before,
        );
    }
}

} // verus!
