use crate::ast::Ast;
use crate::error::{ErrorView, Outcome};
use crate::ops::{binary_result, number_literal, number_result, unary_result};
use crate::text::{debug_text, lossy_text};
use crate::value::ValueView;
use std::collections::hash_map::DefaultHasher;
use vstd::prelude::*;
use vstd::std_specs::hash::DefaultHasherAdditionalSpecFns;
use vstd::utf8::valid_utf8;

verus! {

/// The bindings of one activation: from the handle of a variable to its value.
pub type Frame = Map<u64, ValueView>;

/// The state of an interpreter in the model.
pub struct Machine {
    /// The call stack, the innermost frame last.
    pub stack: Seq<Frame>,
    /// The lines that `print` has written, oldest first.
    pub output: Seq<Seq<char>>,
    /// How deep calls may nest.
    pub max_depth: nat,
    /// How many rounds one loop may make.
    pub max_rounds: nat,
}

/// The state after an evaluation and what it yielded.
pub type Step = (Machine, Outcome);

/// The handle of a name: its hash under the standard library's default
/// hasher, fed the bytes of the name in one write.
pub open spec fn handle(name: Seq<u8>) -> u64 {
    DefaultHasher::spec_finish(seq![name])
}

/// The handle of an identifier; spellings that are not UTF-8 are refused.
pub open spec fn handle_of(name: Seq<u8>) -> Result<u64, ErrorView> {
    if valid_utf8(name) {
        Ok(handle(name))
    } else {
        Err(ErrorView::Generic("Invalid UTF-8 in identifier"@))
    }
}

/// The value bound to `id` in the innermost frame that binds it.
pub open spec fn lookup(stack: Seq<Frame>, id: u64) -> Option<ValueView>
    decreases stack.len(),
{
    if stack.len() == 0 {
        None
    } else if stack.last().contains_key(id) {
        Some(stack.last()[id])
    } else {
        lookup(stack.drop_last(), id)
    }
}

/// What reading a variable yields.
pub open spec fn fetch(stack: Seq<Frame>, id: u64) -> Outcome {
    match lookup(stack, id) {
        Some(v) => Ok(v),
        None => Err(ErrorView::UndefinedFunction),
    }
}

/// `m` with `id` bound to `v` in the innermost frame.
pub open spec fn bind(m: Machine, id: u64, v: ValueView) -> Machine {
    if m.stack.len() == 0 {
        m
    } else {
        Machine {
            stack: m.stack.update(m.stack.len() - 1, m.stack.last().insert(id, v)),
            ..m
        }
    }
}

/// `m` with a new, empty innermost frame.
pub open spec fn push_frame(m: Machine) -> Machine {
    Machine { stack: m.stack.push(Map::empty()), ..m }
}

/// `m` without its innermost frame.
pub open spec fn pop_frame(m: Machine) -> Machine {
    if m.stack.len() == 0 {
        m
    } else {
        Machine { stack: m.stack.drop_last(), ..m }
    }
}

/// `m` with one more line written.
pub open spec fn write_line(m: Machine, line: Seq<char>) -> Machine {
    Machine { output: m.output.push(line), ..m }
}

/// A failure with a message that fits nothing more exact.
pub open spec fn generic(text: Seq<char>) -> Outcome {
    Err(ErrorView::Generic(text))
}

/// The bytes of `print`.
pub open spec fn name_print() -> Seq<u8> {
    seq![112u8, 114u8, 105u8, 110u8, 116u8]
}

/// The bytes of `len`.
pub open spec fn name_len() -> Seq<u8> {
    seq![108u8, 101u8, 110u8]
}

/// The bytes of `length`.
pub open spec fn name_length() -> Seq<u8> {
    seq![108u8, 101u8, 110u8, 103u8, 116u8, 104u8]
}

/// The bytes of `push`.
pub open spec fn name_push() -> Seq<u8> {
    seq![112u8, 117u8, 115u8, 104u8]
}

/// The bytes of `pop`.
pub open spec fn name_pop() -> Seq<u8> {
    seq![112u8, 111u8, 112u8]
}

/// The bytes of `insert`.
pub open spec fn name_insert() -> Seq<u8> {
    seq![105u8, 110u8, 115u8, 101u8, 114u8, 116u8]
}

/// The bytes of `prepend`.
pub open spec fn name_prepend() -> Seq<u8> {
    seq![112u8, 114u8, 101u8, 112u8, 101u8, 110u8, 100u8]
}

/// The number of items of an array or characters of a string, as a value.
pub open spec fn length_result(v: ValueView) -> Option<Outcome> {
    match v {
        ValueView::String(s) => Some(number_result(s.len() as int)),
        ValueView::Array(items) => Some(number_result(items.len() as int)),
        _ => None,
    }
}

/// What `object[index]` yields: one character of a string as a string, or
/// one item of an array.
pub open spec fn index_result(object: ValueView, index: ValueView) -> Outcome {
    match index {
        ValueView::Number(n) => match object {
            ValueView::String(s) => if 0 <= n < s.len() {
                Ok(ValueView::String(seq![s[n]]))
            } else {
                Err(ErrorView::IndexOutOfRange)
            },
            ValueView::Array(items) => if 0 <= n < items.len() {
                Ok(items[n])
            } else {
                Err(ErrorView::IndexOutOfRange)
            },
            _ => Err(ErrorView::TypeMismatch("Cannot index this type"@)),
        },
        _ => Err(ErrorView::TypeMismatch("Index must be a number"@)),
    }
}

/// What `object.property` yields: only `length` is known, on strings and arrays.
pub open spec fn property_result(object: ValueView, property: Seq<u8>) -> Outcome {
    match length_result(object) {
        Some(length) => if property == name_length() {
            length
        } else {
            Err(ErrorView::UnsupportedOperation("Unknown property"@))
        },
        None => Err(ErrorView::UnsupportedOperation("Cannot access properties on this type"@)),
    }
}

/// What `len(v)` yields.
pub open spec fn len_result(v: ValueView) -> Outcome {
    match length_result(v) {
        Some(length) => length,
        None => Err(ErrorView::TypeMismatch("len() not supported on this type"@)),
    }
}

/// What a method does to the array `items` bound to `id`, called with
/// `args`: the array after the call is bound to `id` in the innermost
/// frame. `push`, `insert` and `prepend` yield that array, `pop` the item
/// it took off the end.
pub open spec fn method_result(
    name: Seq<u8>,
    id: u64,
    items: Seq<ValueView>,
    args: Seq<ValueView>,
    m: Machine,
) -> Step {
    if name == name_push() {
        if args.len() != 1 {
            (m, Err(ErrorView::ArgumentCountMismatch))
        } else {
            let after = ValueView::Array(items.push(args[0]));
            (bind(m, id, after), Ok(after))
        }
    } else if name == name_pop() {
        if args.len() != 0 {
            (m, Err(ErrorView::ArgumentCountMismatch))
        } else if items.len() == 0 {
            (m, Err(ErrorView::IndexOutOfRange))
        } else {
            (bind(m, id, ValueView::Array(items.drop_last())), Ok(items.last()))
        }
    } else if name == name_insert() {
        if args.len() != 2 {
            (m, Err(ErrorView::ArgumentCountMismatch))
        } else {
            match args[0] {
                ValueView::Number(n) => if 0 <= n <= items.len() {
                    let after = ValueView::Array(items.insert(n, args[1]));
                    (bind(m, id, after), Ok(after))
                } else {
                    (m, Err(ErrorView::IndexOutOfRange))
                },
                _ => (m, Err(ErrorView::TypeMismatch("Index must be a number"@))),
            }
        }
    } else if name == name_prepend() {
        if args.len() != 1 {
            (m, Err(ErrorView::ArgumentCountMismatch))
        } else {
            let after = ValueView::Array(items.insert(0, args[0]));
            (bind(m, id, after), Ok(after))
        }
    } else {
        (m, Err(ErrorView::UnsupportedOperation("Unknown array method"@)))
    }
}

/// The parameter that a node of a parameter list declares.
pub open spec fn param_of(node: Ast) -> Result<(u64, Option<Ast>), ErrorView> {
    match node {
        Ast::ArgumentDefine { children } => if 1 <= children.len() <= 2 {
            match children[0] {
                Ast::Identifier { value } => match handle_of(value) {
                    Ok(id) => Ok(
                        (
                            id,
                            if children.len() == 2 {
                                Some(children[1])
                            } else {
                                None
                            },
                        ),
                    ),
                    Err(e) => Err(e),
                },
                _ => Err(ErrorView::Generic("Invalid parameter definition"@)),
            }
        } else {
            Err(ErrorView::Generic("Invalid parameter definition"@))
        },
        _ => Err(ErrorView::Generic("Invalid argument node in function definition"@)),
    }
}

/// The parameters that the first `n` nodes declare, or the first fault
/// among them.
pub open spec fn params_of(nodes: Seq<Ast>, n: nat) -> Result<Seq<(u64, Option<Ast>)>, ErrorView>
    decreases n,
{
    if n == 0 || n > nodes.len() {
        Ok(Seq::empty())
    } else {
        match params_of(nodes, (n - 1) as nat) {
            Ok(before) => match param_of(nodes[n - 1]) {
                Ok(p) => Ok(before.push(p)),
                Err(e) => Err(e),
            },
            Err(e) => Err(e),
        }
    }
}

/// What a call returns, given what its body yielded: a `return` inside
/// the body ends at the call.
pub open spec fn returned(r: Outcome) -> Outcome {
    match r {
        Err(ErrorView::ReturnSignal(v)) => Ok(v),
        _ => r,
    }
}

/// Evaluates `nodes` from index `from` on, in order, up to the first that
/// fails; yields the value of the last, or `last` where none is left.
pub open spec fn eval_all(nodes: Seq<Ast>, from: int, m: Machine, depth: nat, last: ValueView) -> Step
    decreases 3 * depth + 2, nodes, nodes.len() - from,
{
    if from < 0 || from >= nodes.len() {
        (m, Ok(last))
    } else {
        match eval(nodes[from], m, depth) {
            (m1, Ok(v)) => eval_all(nodes, from + 1, m1, depth, v),
            (m1, Err(e)) => (m1, Err(e)),
        }
    }
}

/// Evaluates `nodes` from index `from` on, in order, up to the first that
/// fails; yields `acc` with their values added.
pub open spec fn eval_list(
    nodes: Seq<Ast>,
    from: int,
    m: Machine,
    depth: nat,
    acc: Seq<ValueView>,
) -> (Machine, Result<Seq<ValueView>, ErrorView>)
    decreases 3 * depth + 2, nodes, nodes.len() - from,
{
    if from < 0 || from >= nodes.len() {
        (m, Ok(acc))
    } else {
        match eval(nodes[from], m, depth) {
            (m1, Ok(v)) => eval_list(nodes, from + 1, m1, depth, acc.push(v)),
            (m1, Err(e)) => (m1, Err(e)),
        }
    }
}

/// Evaluates the conditions of an `if` from index `i` on: the block of the
/// first condition that holds is the result; where none holds, a last
/// child without a partner is, and `true` where there is none.
pub open spec fn eval_if(children: Seq<Ast>, i: int, m: Machine, depth: nat) -> Step
    decreases 3 * depth + 2, children, children.len() - i,
{
    if i < 0 {
        (m, Ok(ValueView::Bool(true)))
    } else if i + 1 < children.len() {
        match eval(children[i], m, depth) {
            (m1, Ok(ValueView::Bool(true))) => eval(children[i + 1], m1, depth),
            (m1, Ok(ValueView::Bool(false))) => eval_if(children, i + 2, m1, depth),
            (m1, Ok(_)) => (
                m1,
                Err(ErrorView::TypeMismatch("If/Else-If condition must be boolean"@)),
            ),
            (m1, Err(e)) => (m1, Err(e)),
        }
    } else if children.len() % 2 == 1 {
        eval(children.last(), m, depth)
    } else {
        (m, Ok(ValueView::Bool(true)))
    }
}

/// Runs a loop that may make `rounds` more rounds: `children` holds its
/// condition and its block. `break` ends the loop, `continue` ends the
/// round; the loop yields `true`.
pub open spec fn eval_while(children: Seq<Ast>, m: Machine, depth: nat, rounds: nat) -> Step
    decreases 3 * depth + 2, children, rounds,
{
    if children.len() < 2 {
        (m, generic("Invalid while loop"@))
    } else {
        match eval(children[0], m, depth) {
            (m1, Ok(ValueView::Bool(true))) => if rounds == 0 {
                (m1, Err(ErrorView::LoopLimitExceeded))
            } else {
                match eval(children[1], m1, depth) {
                    (m2, Ok(_)) => eval_while(children, m2, depth, (rounds - 1) as nat),
                    (m2, Err(ErrorView::ContinueSignal)) => eval_while(
                        children,
                        m2,
                        depth,
                        (rounds - 1) as nat,
                    ),
                    (m2, Err(ErrorView::BreakSignal)) => (m2, Ok(ValueView::Bool(true))),
                    (m2, Err(e)) => (m2, Err(e)),
                }
            },
            (m1, Ok(ValueView::Bool(false))) => (m1, Ok(ValueView::Bool(true))),
            (m1, Ok(_)) => (m1, Err(ErrorView::TypeMismatch("While condition must be boolean"@))),
            (m1, Err(e)) => (m1, Err(e)),
        }
    }
}

/// Binds the parameters from index `i` on in the innermost frame: to the
/// argument in the same place, or else to the value of the default,
/// evaluated there and then, so that it sees the parameters before it.
pub open spec fn bind_params(
    params: Seq<(u64, Option<Ast>)>,
    args: Seq<ValueView>,
    i: int,
    m: Machine,
    depth: nat,
) -> (Machine, Option<ErrorView>)
    decreases 3 * depth, params, params.len() - i,
{
    if i < 0 || i >= params.len() || depth == 0 {
        (m, None)
    } else if i < args.len() {
        bind_params(params, args, i + 1, bind(m, params[i].0, args[i]), depth)
    } else {
        match params[i].1 {
            Some(default) => match eval(default, m, (depth - 1) as nat) {
                (m1, Ok(v)) => bind_params(params, args, i + 1, bind(m1, params[i].0, v), depth),
                (m1, Err(e)) => (m1, Some(e)),
            },
            None => (m, Some(ErrorView::ArgumentCountMismatch)),
        }
    }
}

/// Calls `func` on argument values: a new frame is pushed, the parameters
/// are bound, the body is evaluated one level deeper, and the frame is
/// popped whatever came of it.
pub open spec fn apply(func: ValueView, args: Seq<ValueView>, m: Machine, depth: nat) -> Step
    decreases 3 * depth + 1,
{
    match func {
        ValueView::Function { params, body } => if args.len() > params.len() {
            (m, Err(ErrorView::ArgumentCountMismatch))
        } else if depth == 0 {
            (m, Err(ErrorView::CallDepthExceeded))
        } else {
            match bind_params(params, args, 0, push_frame(m), depth) {
                (m1, Some(e)) => (pop_frame(m1), Err(e)),
                (m1, None) => {
                    let (m2, r) = eval(body, m1, (depth - 1) as nat);
                    (pop_frame(m2), returned(r))
                },
            }
        },
        _ => (m, Err(ErrorView::TypeMismatch("Attempted to call a non-function value"@))),
    }
}

/// Calls `func` on argument expressions: they are evaluated in the
/// caller's frame, in order and once each, before the call is made.
pub open spec fn call(func: ValueView, arg_nodes: Seq<Ast>, m: Machine, depth: nat) -> Step
    decreases 3 * depth + 2, arg_nodes, arg_nodes.len() + 1,
{
    match func {
        ValueView::Function { params, body } => if arg_nodes.len() > params.len() {
            (m, Err(ErrorView::ArgumentCountMismatch))
        } else if depth == 0 {
            (m, Err(ErrorView::CallDepthExceeded))
        } else {
            match eval_list(arg_nodes, 0, m, depth, Seq::empty()) {
                (m1, Ok(args)) => apply(func, args, m1, depth),
                (m1, Err(e)) => (m1, Err(e)),
            }
        },
        _ => (m, Err(ErrorView::TypeMismatch("Attempted to call a non-function value"@))),
    }
}

/// The arguments that the children of a call node hold.
pub open spec fn call_arguments(children: Seq<Ast>) -> Option<Seq<Ast>> {
    if children.len() >= 1 {
        match children[0] {
            Ast::FunctionArguments { children: args } => Some(args),
            _ => None,
        }
    } else {
        None
    }
}

/// Evaluates a call by name. `print` and `len` are built in and come
/// before any binding of their names.
pub open spec fn eval_call(name: Seq<u8>, children: Seq<Ast>, m: Machine, depth: nat) -> Step
    decreases 3 * depth + 2, children, 0int,
{
    if name == name_print() {
        match call_arguments(children) {
            Some(args) => if args.len() != 1 {
                (m, Err(ErrorView::ArgumentCountMismatch))
            } else {
                match eval(args[0], m, depth) {
                    (m1, Ok(v)) => (write_line(m1, debug_text(v)), Ok(ValueView::Bool(true))),
                    (m1, Err(e)) => (m1, Err(e)),
                }
            },
            None => (m, generic("Invalid print args"@)),
        }
    } else if name == name_len() {
        match call_arguments(children) {
            Some(args) => if args.len() != 1 {
                (m, Err(ErrorView::ArgumentCountMismatch))
            } else {
                match eval(args[0], m, depth) {
                    (m1, Ok(v)) => (m1, len_result(v)),
                    (m1, Err(e)) => (m1, Err(e)),
                }
            },
            None => (m, generic("Invalid len args"@)),
        }
    } else {
        match handle_of(name) {
            Err(e) => (m, Err(e)),
            Ok(id) => match lookup(m.stack, id) {
                None => (m, Err(ErrorView::UndefinedFunction)),
                Some(func) => match call_arguments(children) {
                    Some(args) => call(func, args, m, depth),
                    None => apply(func, Seq::empty(), m, depth),
                },
            },
        }
    }
}

/// Evaluates a method call: the object, then the arguments in order, then
/// the method. Only an array that a plain identifier names has methods.
pub open spec fn eval_method(name: Seq<u8>, children: Seq<Ast>, m: Machine, depth: nat) -> Step
    decreases 3 * depth + 2, children, children.len() + 1,
{
    if children.len() == 0 {
        (m, generic("Invalid method call"@))
    } else {
        match eval(children[0], m, depth) {
            (m1, Err(e)) => (m1, Err(e)),
            (m1, Ok(object)) => match eval_list(children, 1, m1, depth, Seq::empty()) {
                (m2, Err(e)) => (m2, Err(e)),
                (m2, Ok(args)) => match object {
                    ValueView::Array(items) => match children[0] {
                        Ast::Identifier { value } => method_result(
                            name,
                            handle(value),
                            items,
                            args,
                            m2,
                        ),
                        _ => (
                            m2,
                            Err(
                                ErrorView::UnsupportedOperation(
                                    "Method call on non-identifier object not supported yet"@,
                                ),
                            ),
                        ),
                    },
                    _ => (
                        m2,
                        Err(
                            ErrorView::UnsupportedOperation(
                                "Method calls only implemented for arrays currently"@,
                            ),
                        ),
                    ),
                },
            },
        }
    }
}

/// Stores `val` in the array that `name` is bound to, at the place that
/// `index` gives, and binds the array again in the innermost frame.
pub open spec fn store_item(name: Seq<u8>, index: ValueView, val: ValueView, m: Machine) -> Step {
    match index {
        ValueView::Number(n) => match handle_of(name) {
            Err(e) => (m, Err(e)),
            Ok(id) => match lookup(m.stack, id) {
                None => (m, Err(ErrorView::UndefinedFunction)),
                Some(ValueView::Array(items)) => if 0 <= n < items.len() {
                    (bind(m, id, ValueView::Array(items.update(n, val))), Ok(val))
                } else {
                    (m, Err(ErrorView::IndexOutOfRange))
                },
                Some(_) => (m, Err(ErrorView::TypeMismatch("Cannot index into non-array"@))),
            },
        },
        _ => (m, Err(ErrorView::TypeMismatch("Index must be a number"@))),
    }
}

/// Evaluates an assignment: the expression first, then the target. An
/// identifier is bound in the innermost frame; an index into an array
/// that an identifier names stores one item; nothing else can be assigned.
pub open spec fn eval_assignment(children: Seq<Ast>, m: Machine, depth: nat) -> Step
    decreases 3 * depth + 2, children, 0int,
{
    if children.len() < 2 {
        (m, generic("Invalid assignment"@))
    } else {
        match eval(children[1], m, depth) {
            (m1, Err(e)) => (m1, Err(e)),
            (m1, Ok(val)) => match children[0] {
                Ast::Identifier { value } => match handle_of(value) {
                    Ok(id) => (bind(m1, id, val), Ok(val)),
                    Err(e) => (m1, Err(e)),
                },
                Ast::IndexAccess { children: target } => if target.len() < 2 {
                    (m1, generic("Invalid index access"@))
                } else {
                    match eval(target[1], m1, depth) {
                        (m2, Err(e)) => (m2, Err(e)),
                        (m2, Ok(index)) => match target[0] {
                            Ast::Identifier { value } => store_item(value, index, val, m2),
                            _ => match index {
                                ValueView::Number(_) => (
                                    m2,
                                    Err(
                                        ErrorView::UnsupportedOperation(
                                            "Left side of assignment must be a variable"@,
                                        ),
                                    ),
                                ),
                                _ => (m2, Err(ErrorView::TypeMismatch("Index must be a number"@))),
                            },
                        },
                    }
                },
                Ast::PropertyAccess { .. } => (
                    m1,
                    Err(ErrorView::UnsupportedOperation("Property assignment not supported."@)),
                ),
                _ => (m1, generic("Invalid lvalue in assignment."@)),
            },
        }
    }
}

/// Evaluates a function definition: binds the function under its name in
/// the innermost frame and yields `true`.
pub open spec fn eval_define(name: Seq<u8>, children: Seq<Ast>, m: Machine) -> Step {
    if children.len() < 2 {
        (m, generic("Invalid function definition"@))
    } else {
        match handle_of(name) {
            Err(e) => (m, Err(e)),
            Ok(id) => {
                let params = match children[0] {
                    Ast::FunctionArguments { children: nodes } => params_of(nodes, nodes.len()),
                    _ => Ok(Seq::empty()),
                };
                match params {
                    Err(e) => (m, Err(e)),
                    Ok(params) => (
                        bind(m, id, ValueView::Function { params, body: children[1] }),
                        Ok(ValueView::Bool(true)),
                    ),
                }
            },
        }
    }
}

/// Evaluates the two operands of a binary expression, left first, and
/// applies the operator.
pub open spec fn eval_binary(name: Seq<u8>, children: Seq<Ast>, m: Machine, depth: nat) -> Step
    decreases 3 * depth + 2, children, 0int,
{
    if children.len() < 2 {
        (m, generic("Invalid binary expression"@))
    } else {
        match eval(children[0], m, depth) {
            (m1, Err(e)) => (m1, Err(e)),
            (m1, Ok(left)) => match eval(children[1], m1, depth) {
                (m2, Err(e)) => (m2, Err(e)),
                (m2, Ok(right)) => (m2, binary_result(name, left, right)),
            },
        }
    }
}

/// Evaluates an object and an index expression and reads the item.
pub open spec fn eval_index(children: Seq<Ast>, m: Machine, depth: nat) -> Step
    decreases 3 * depth + 2, children, 0int,
{
    if children.len() < 2 {
        (m, generic("Invalid index access"@))
    } else {
        match eval(children[0], m, depth) {
            (m1, Err(e)) => (m1, Err(e)),
            (m1, Ok(object)) => match eval(children[1], m1, depth) {
                (m2, Err(e)) => (m2, Err(e)),
                (m2, Ok(index)) => (m2, index_result(object, index)),
            },
        }
    }
}

/// Evaluates an object and reads a property of it.
pub open spec fn eval_property(children: Seq<Ast>, m: Machine, depth: nat) -> Step
    decreases 3 * depth + 2, children, 0int,
{
    if children.len() < 2 {
        (m, generic("Invalid property access"@))
    } else {
        match eval(children[0], m, depth) {
            (m1, Err(e)) => (m1, Err(e)),
            (m1, Ok(object)) => match children[1] {
                Ast::Identifier { value } => (m1, property_result(object, value)),
                _ => (m1, generic("Invalid property name"@)),
            },
        }
    }
}

/// Evaluates a variable definition: the expression, then the binding in
/// the innermost frame; yields the value bound.
pub open spec fn eval_let(children: Seq<Ast>, m: Machine, depth: nat) -> Step
    decreases 3 * depth + 2, children, 0int,
{
    if children.len() < 2 {
        (m, generic("Invalid variable define"@))
    } else {
        match children[0] {
            Ast::Identifier { value } => match handle_of(value) {
                Err(e) => (m, Err(e)),
                Ok(id) => match eval(children[1], m, depth) {
                    (m1, Ok(v)) => (bind(m1, id, v), Ok(v)),
                    (m1, Err(e)) => (m1, Err(e)),
                },
            },
            _ => (m, generic("Invalid variable define"@)),
        }
    }
}

/// The meaning of a node: the state after its evaluation in state `m`,
/// with `depth` levels of calls to spare, and the value or failure that
/// it yields.
pub open spec fn eval(node: Ast, m: Machine, depth: nat) -> Step
    decreases 3 * depth + 2, node, 0int,
{
    match node {
        Ast::Program { children } => {
            let (m1, r) = eval_all(children, 0, m, depth, ValueView::Bool(true));
            (m1, returned(r))
        },
        Ast::Block { children } => eval_all(children, 0, m, depth, ValueView::Bool(true)),
        Ast::Statement { children } => eval_all(children, 0, m, depth, ValueView::Bool(true)),
        Ast::FunctionStatements { children } => eval_all(
            children,
            0,
            m,
            depth,
            ValueView::Bool(true),
        ),
        Ast::FunctionDefine { name, children } => eval_define(name, children, m),
        Ast::FunctionArguments { .. } => (
            m,
            generic("FunctionArguments node should not be executed directly"@),
        ),
        Ast::ArgumentDefine { .. } => (
            m,
            generic("ArgumentDefine node should not be executed directly"@),
        ),
        Ast::IfExpression { children } => eval_if(children, 0, m, depth),
        Ast::WhileLoop { children } => eval_while(children, m, depth, m.max_rounds),
        Ast::Expression { children } => if children.len() < 1 {
            (m, generic("Invalid expression"@))
        } else {
            eval(children[0], m, depth)
        },
        Ast::FunctionCall { name, children } => eval_call(name, children, m, depth),
        Ast::VariableDefine { children } => eval_let(children, m, depth),
        Ast::Assignment { children } => eval_assignment(children, m, depth),
        Ast::FunctionReturn { children } => if children.len() < 1 {
            (m, generic("Invalid return"@))
        } else {
            match eval(children[0], m, depth) {
                (m1, Ok(v)) => (m1, Err(ErrorView::ReturnSignal(v))),
                (m1, Err(e)) => (m1, Err(e)),
            }
        },
        Ast::UnaryExpression { name, children } => if children.len() < 1 {
            (m, generic("Invalid unary expression"@))
        } else {
            match eval(children[0], m, depth) {
                (m1, Ok(v)) => (m1, unary_result(name, v)),
                (m1, Err(e)) => (m1, Err(e)),
            }
        },
        Ast::BinaryExpression { name, children } => eval_binary(name, children, m, depth),
        Ast::ArrayLiteral { children } => match eval_list(children, 0, m, depth, Seq::empty()) {
            (m1, Ok(items)) => (m1, Ok(ValueView::Array(items))),
            (m1, Err(e)) => (m1, Err(e)),
        },
        Ast::IndexAccess { children } => eval_index(children, m, depth),
        Ast::PropertyAccess { children } => eval_property(children, m, depth),
        Ast::MethodCall { name, children } => eval_method(name, children, m, depth),
        Ast::Number { value } => (m, number_literal(value)),
        Ast::Bool { value } => (m, Ok(ValueView::Bool(value))),
        Ast::Identifier { value } => match handle_of(value) {
            Ok(id) => (m, fetch(m.stack, id)),
            Err(e) => (m, Err(e)),
        },
        Ast::String { value } => (m, Ok(ValueView::String(lossy_text(value)))),
        Ast::Null => (m, Ok(ValueView::Bool(true))),
        Ast::Break => (m, Err(ErrorView::BreakSignal)),
        Ast::Continue => (m, Err(ErrorView::ContinueSignal)),
    }
}

/// Reading an array or a string at an index outside it fails as
/// `IndexOutOfRange`.
pub proof fn lemma_index_out_of_range(object: ValueView, n: int)
    requires
        match object {
            ValueView::Array(items) => n < 0 || n >= items.len(),
            ValueView::String(s) => n < 0 || n >= s.len(),
            _ => false,
        },
    ensures
        index_result(object, ValueView::Number(n)) == Err::<ValueView, ErrorView>(
            ErrorView::IndexOutOfRange,
        ),
{
}

/// A binary expression whose operator is `/` or `%` and whose right
/// operand evaluates to zero fails as `DivisionByZero`, in the state that
/// the evaluation of the operands left.
pub proof fn lemma_eval_division_by_zero(
    name: Seq<u8>,
    children: Seq<Ast>,
    m: Machine,
    depth: nat,
    a: int,
)
    requires
        name == seq![47u8] || name == seq![37u8],
        children.len() >= 2,
        eval(children[0], m, depth).1 == Ok::<ValueView, ErrorView>(ValueView::Number(a)),
        eval(children[1], eval(children[0], m, depth).0, depth).1 == Ok::<ValueView, ErrorView>(
            ValueView::Number(0),
        ),
    ensures
        eval(Ast::BinaryExpression { name, children }, m, depth) == (
            eval(children[1], eval(children[0], m, depth).0, depth).0,
            Err::<ValueView, ErrorView>(ErrorView::DivisionByZero),
        ),
{
    crate::ops::lemma_division_by_zero(a);
    let first = eval(children[0], m, depth);
    let second = eval(children[1], first.0, depth);
    assert(eval_binary(name, children, m, depth) == (
        second.0,
        binary_result(name, ValueView::Number(a), ValueView::Number(0)),
    ));
}

} // verus!
