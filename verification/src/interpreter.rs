use crate::ast::{copy_node, nodes_view, Ast, Node};
use crate::error::{outcome_view, AsaErrorKind, ErrorView};
use crate::ops::{eval_binary_op, eval_number, eval_unary_op, number_result};
use crate::semantics::{
    apply, bind, bind_params, call, eval, eval_all, eval_assignment, eval_binary, eval_call,
    eval_define, eval_if, eval_index, eval_let, eval_list, eval_method, eval_property, eval_while,
    fetch, generic, handle, handle_of, index_result, len_result, length_result, lookup,
    method_result, name_insert, name_len, name_length, name_pop, name_prepend, name_print,
    name_push, param_of, params_of, pop_frame, property_result, push_frame, store_item, write_line,
    Frame, Machine,
};
use crate::text::{is_utf8, render, text_of_bytes};
use crate::value::{
    copy_value, copy_values, param_view, params_view, values_view, Value, ValueView,
};
use std::collections::hash_map::DefaultHasher;
use std::collections::HashMap;
use std::hash::Hasher;
use vstd::prelude::*;

verus! {

broadcast use vstd::std_specs::hash::group_hash_axioms;

/// How deep calls may nest in an interpreter made by `Interpreter::new`.
pub const DEFAULT_MAX_DEPTH: usize = 128;

/// A tree-walking evaluator with its call stack.
#[derive(Debug)]
pub struct Interpreter {
    stack: Vec<HashMap<u64, Value>>,
    output: Vec<String>,
    max_depth: usize,
    max_rounds: u64,
}

/// The model of one frame.
pub open spec fn frame_view(frame: Map<u64, Value>) -> Frame {
    frame.map_values(|v: Value| v@)
}

/// The model of a call stack.
pub open spec fn frames_view(stack: Seq<HashMap<u64, Value>>) -> Seq<Frame> {
    Seq::new(stack.len(), |i: int| frame_view(stack[i]@))
}

/// The model of the lines written.
pub open spec fn lines_view(lines: Seq<String>) -> Seq<Seq<char>> {
    Seq::new(lines.len(), |i: int| lines[i]@)
}

impl View for Interpreter {
    type V = Machine;

    closed spec fn view(&self) -> Machine {
        Machine {
            stack: frames_view(self.stack@),
            output: lines_view(self.output@),
            max_depth: self.max_depth as nat,
            max_rounds: self.max_rounds as nat,
        }
    }
}

/// The model's reading of a list of values or a failure.
pub open spec fn list_view(r: Result<Vec<Value>, AsaErrorKind>) -> Result<
    Seq<ValueView>,
    ErrorView,
> {
    match r {
        Ok(values) => Ok(values_view(values@)),
        Err(e) => Err(e@),
    }
}

/// The model's reading of a failure or none.
pub open spec fn fault_view(r: Option<AsaErrorKind>) -> Option<ErrorView> {
    match r {
        Some(e) => Some(e@),
        None => None,
    }
}

fn same_bytes(a: &[u8], b: &[u8]) -> (r: bool)
    ensures
        r == (a@ == b@),
{
    if a.len() != b.len() {
        return false;
    }
    let mut i: usize = 0;
    while i < a.len()
        invariant
            i <= a.len(),
            a.len() == b.len(),
            a@.take(i as int) == b@.take(i as int),
        decreases a.len() - i,
    {
        if a[i] != b[i] {
            return false;
        }
        assert(a@.take(i + 1) =~= a@.take(i as int).push(a@[i as int]));
        assert(b@.take(i + 1) =~= b@.take(i as int).push(b@[i as int]));
        i += 1;
    }
    assert(a@ =~= a@.take(a.len() as int));
    assert(b@ =~= b@.take(b.len() as int));
    true
}

fn is_print(name: &[u8]) -> (r: bool)
    ensures
        r == (name@ == name_print()),
{
    let word: Vec<u8> = vec![112u8, 114u8, 105u8, 110u8, 116u8];
    same_bytes(name, word.as_slice())
}

fn is_len(name: &[u8]) -> (r: bool)
    ensures
        r == (name@ == name_len()),
{
    let word: Vec<u8> = vec![108u8, 101u8, 110u8];
    same_bytes(name, word.as_slice())
}

fn is_length(name: &[u8]) -> (r: bool)
    ensures
        r == (name@ == name_length()),
{
    let word: Vec<u8> = vec![108u8, 101u8, 110u8, 103u8, 116u8, 104u8];
    same_bytes(name, word.as_slice())
}

fn is_push(name: &[u8]) -> (r: bool)
    ensures
        r == (name@ == name_push()),
{
    let word: Vec<u8> = vec![112u8, 117u8, 115u8, 104u8];
    same_bytes(name, word.as_slice())
}

fn is_pop(name: &[u8]) -> (r: bool)
    ensures
        r == (name@ == name_pop()),
{
    let word: Vec<u8> = vec![112u8, 111u8, 112u8];
    same_bytes(name, word.as_slice())
}

fn is_insert(name: &[u8]) -> (r: bool)
    ensures
        r == (name@ == name_insert()),
{
    let word: Vec<u8> = vec![105u8, 110u8, 115u8, 101u8, 114u8, 116u8];
    same_bytes(name, word.as_slice())
}

fn is_prepend(name: &[u8]) -> (r: bool)
    ensures
        r == (name@ == name_prepend()),
{
    let word: Vec<u8> = vec![112u8, 114u8, 101u8, 112u8, 101u8, 110u8, 100u8];
    same_bytes(name, word.as_slice())
}

fn fail(text: &str) -> (r: Result<Value, AsaErrorKind>)
    ensures
        outcome_view(r) == generic(text@),
{
    Err(AsaErrorKind::Generic(String::from_str(text)))
}

fn mismatch(text: &str) -> (r: Result<Value, AsaErrorKind>)
    ensures
        outcome_view(r) == Err::<ValueView, ErrorView>(ErrorView::TypeMismatch(text@)),
{
    Err(AsaErrorKind::TypeMismatch(String::from_str(text)))
}

fn unsupported(text: &str) -> (r: Result<Value, AsaErrorKind>)
    ensures
        outcome_view(r) == Err::<ValueView, ErrorView>(ErrorView::UnsupportedOperation(text@)),
{
    Err(AsaErrorKind::UnsupportedOperation(String::from_str(text)))
}

fn handle_for(name: &[u8]) -> (r: Result<u64, AsaErrorKind>)
    ensures
        match r {
            Ok(id) => handle_of(name@) == Ok::<u64, ErrorView>(id),
            Err(e) => handle_of(name@) == Err::<u64, ErrorView>(e@),
        },
{
    if is_utf8(name) {
        Ok(Interpreter::hash_identifier(name))
    } else {
        Err(AsaErrorKind::Generic(String::from_str("Invalid UTF-8 in identifier")))
    }
}

fn count_value(n: usize) -> (r: Result<Value, AsaErrorKind>)
    ensures
        outcome_view(r) == number_result(n as int),
{
    if n > i32::MAX as usize {
        Err(AsaErrorKind::NumberOverflow)
    } else {
        Ok(Value::Number(n as i32))
    }
}

fn length_of(v: &Value) -> (r: Option<Result<Value, AsaErrorKind>>)
    ensures
        match r {
            Some(found) => length_result(v@) == Some(outcome_view(found)),
            None => length_result(v@) is None,
        },
{
    match v {
        Value::String(s) => Some(count_value(s.as_str().unicode_len())),
        Value::Array(items) => Some(count_value(items.len())),
        _ => None,
    }
}

fn index_value(object: &Value, index: &Value) -> (r: Result<Value, AsaErrorKind>)
    ensures
        outcome_view(r) == index_result(object@, index@),
{
    match index {
        Value::Number(n) => match object {
            Value::String(s) => {
                let text = s.as_str();
                let len = text.unicode_len();
                if *n < 0 || *n as usize >= len {
                    Err(AsaErrorKind::IndexOutOfRange)
                } else {
                    let i = *n as usize;
                    let one = text.substring_char(i, i + 1);
                    assert(one@ =~= seq![s@[i as int]]);
                    Ok(Value::String(String::from_str(one)))
                }
            },
            Value::Array(items) => {
                if *n < 0 || *n as usize >= items.len() {
                    Err(AsaErrorKind::IndexOutOfRange)
                } else {
                    Ok(copy_value(&items[*n as usize]))
                }
            },
            _ => mismatch("Cannot index this type"),
        },
        _ => mismatch("Index must be a number"),
    }
}

fn property_value(object: &Value, property: &[u8]) -> (r: Result<Value, AsaErrorKind>)
    ensures
        outcome_view(r) == property_result(object@, property@),
{
    match length_of(object) {
        Some(length) => if is_length(property) {
            length
        } else {
            unsupported("Unknown property")
        },
        None => unsupported("Cannot access properties on this type"),
    }
}

fn len_value(v: &Value) -> (r: Result<Value, AsaErrorKind>)
    ensures
        outcome_view(r) == len_result(v@),
{
    match length_of(v) {
        Some(length) => length,
        None => mismatch("len() not supported on this type"),
    }
}

fn convert_param(node: &Node) -> (r: Result<(u64, Option<Node>), AsaErrorKind>)
    ensures
        match r {
            Ok(p) => param_of(node@) == Ok::<(u64, Option<Ast>), ErrorView>(param_view(p)),
            Err(e) => param_of(node@) == Err::<(u64, Option<Ast>), ErrorView>(e@),
        },
{
    match node {
        Node::ArgumentDefine { children } => {
            proof {
                assert(forall|i: int|
                    0 <= i < children@.len() ==> nodes_view(children@)[i] == (
                    #[trigger] children@[i])@);
            }
            if children.len() < 1 || children.len() > 2 {
                return Err(
                    AsaErrorKind::Generic(String::from_str("Invalid parameter definition")),
                );
            }
            match &children[0] {
                Node::Identifier { value } => match handle_for(value.as_slice()) {
                    Ok(id) => {
                        if children.len() == 2 {
                            Ok((id, Some(copy_node(&children[1]))))
                        } else {
                            Ok((id, None))
                        }
                    },
                    Err(e) => Err(e),
                },
                _ => Err(AsaErrorKind::Generic(String::from_str("Invalid parameter definition"))),
            }
        },
        _ => Err(
            AsaErrorKind::Generic(
                String::from_str("Invalid argument node in function definition"),
            ),
        ),
    }
}

fn convert_params(nodes: &Vec<Node>) -> (r: Result<Vec<(u64, Option<Node>)>, AsaErrorKind>)
    ensures
        match r {
            Ok(ps) => params_of(nodes_view(nodes@), nodes@.len()) == Ok::<
                Seq<(u64, Option<Ast>)>,
                ErrorView,
            >(params_view(ps@)),
            Err(e) => params_of(nodes_view(nodes@), nodes@.len()) == Err::<
                Seq<(u64, Option<Ast>)>,
                ErrorView,
            >(e@),
        },
{
    let mut out: Vec<(u64, Option<Node>)> = Vec::new();
    let mut i: usize = 0;
    assert(params_view(out@) =~= Seq::<(u64, Option<Ast>)>::empty());
    while i < nodes.len()
        invariant
            i <= nodes.len(),
            params_of(nodes_view(nodes@), i as nat) == Ok::<Seq<(u64, Option<Ast>)>, ErrorView>(
                params_view(out@),
            ),
        decreases nodes.len() - i,
    {
        match convert_param(&nodes[i]) {
            Ok(p) => {
                proof {
                    assert(params_view(out@.push(p)) =~= params_view(out@).push(param_view(p)));
                }
                out.push(p);
            },
            Err(e) => {
                proof {
                    lemma_params_fault(nodes_view(nodes@), (i + 1) as nat, nodes@.len());
                }
                return Err(e);
            },
        }
        i += 1;
    }
    Ok(out)
}

proof fn lemma_params_fault(nodes: Seq<Ast>, k: nat, n: nat)
    requires
        1 <= k <= n <= nodes.len(),
        params_of(nodes, k) is Err,
    ensures
        params_of(nodes, n) == params_of(nodes, k),
    decreases n - k,
{
    if k < n {
        lemma_params_fault(nodes, k, (n - 1) as nat);
    }
}

impl Interpreter {
    /// An interpreter with one empty frame, the global one, nothing
    /// written, and the default limits.
    pub fn new() -> (r: Interpreter)
        ensures
            r@ == (Machine {
                stack: seq![Map::<u64, ValueView>::empty()],
                output: Seq::<Seq<char>>::empty(),
                max_depth: DEFAULT_MAX_DEPTH as nat,
                max_rounds: u64::MAX as nat,
            }),
    {
        Interpreter::with_limits(DEFAULT_MAX_DEPTH, u64::MAX)
    }

    /// An interpreter with one empty frame and the given limits on the
    /// depth of calls and on the rounds of one loop.
    pub fn with_limits(max_depth: usize, max_rounds: u64) -> (r: Interpreter)
        ensures
            r@ == (Machine {
                stack: seq![Map::<u64, ValueView>::empty()],
                output: Seq::<Seq<char>>::empty(),
                max_depth: max_depth as nat,
                max_rounds: max_rounds as nat,
            }),
    {
        let mut stack: Vec<HashMap<u64, Value>> = Vec::new();
        stack.push(HashMap::new());
        let r = Interpreter { stack, output: Vec::new(), max_depth, max_rounds };
        proof {
            assert(frame_view(r.stack@[0]@) =~= Map::<u64, ValueView>::empty());
            assert(r@.stack =~= seq![Map::<u64, ValueView>::empty()]);
            assert(r@.output =~= Seq::<Seq<char>>::empty());
        }
        r
    }

    /// The handle of a name.
    pub fn hash_identifier(name: &[u8]) -> (r: u64)
        ensures
            r == handle(name@),
    {
        let mut hasher = DefaultHasher::new();
        hasher.write(name);
        assert(hasher@ =~= seq![name@]);
        hasher.finish()
    }

    /// The lines that `print` has written so far, oldest first.
    pub fn output(&self) -> (r: Vec<String>)
        ensures
            lines_view(r@) == self@.output,
    {
        let mut out: Vec<String> = Vec::new();
        let mut i: usize = 0;
        while i < self.output.len()
            invariant
                i <= self.output.len(),
                out@.len() == i,
                forall|j: int| 0 <= j < i ==> (#[trigger] out@[j])@ == self.output@[j]@,
            decreases self.output.len() - i,
        {
            out.push(self.output[i].clone());
            i += 1;
        }
        assert(lines_view(out@) =~= self@.output);
        out
    }

    /// Reads a variable: the frames are searched from the innermost outward.
    pub fn get_variable(&self, id: u64) -> (r: Result<Value, AsaErrorKind>)
        ensures
            outcome_view(r) == fetch(self@.stack, id),
    {
        let mut i: usize = self.stack.len();
        assert(self@.stack.take(i as int) =~= self@.stack);
        while i > 0
            invariant
                i <= self.stack.len(),
                lookup(self@.stack.take(i as int), id) == lookup(self@.stack, id),
            decreases i,
        {
            i -= 1;
            proof {
                assert(self@.stack.take(i + 1).drop_last() =~= self@.stack.take(i as int));
                assert(self@.stack.take(i + 1).last() == frame_view(self.stack@[i as int]@));
            }
            match self.stack[i].get(&id) {
                Some(v) => {
                    return Ok(copy_value(v));
                },
                None => {},
            }
        }
        Err(AsaErrorKind::UndefinedFunction)
    }

    fn set_variable(&mut self, id: u64, val: Value)
        ensures
            final(self)@ == bind(old(self)@, id, val@),
    {
        if self.stack.len() > 0 {
            let mut frame = self.stack.pop().unwrap();
            let ghost before = frame@;
            frame.insert(id, val);
            proof {
                assert(frame_view(frame@) =~= frame_view(before).insert(id, val@));
            }
            self.stack.push(frame);
            proof {
                assert(self@.stack =~= bind(old(self)@, id, val@).stack);
            }
        }
    }

    fn enter(&mut self)
        ensures
            final(self)@ == push_frame(old(self)@),
    {
        self.stack.push(HashMap::new());
        proof {
            assert(frame_view(self.stack@.last()@) =~= Map::<u64, ValueView>::empty());
            assert(self@.stack =~= push_frame(old(self)@).stack);
        }
    }

    fn leave(&mut self)
        ensures
            final(self)@ == pop_frame(old(self)@),
    {
        if self.stack.len() > 0 {
            self.stack.pop();
            proof {
                assert(self@.stack =~= pop_frame(old(self)@).stack);
            }
        }
    }

    fn write(&mut self, line: String)
        ensures
            final(self)@ == write_line(old(self)@, line@),
    {
        self.output.push(line);
        proof {
            assert(self@.output =~= old(self)@.output.push(line@));
        }
    }

    fn run_all(&mut self, nodes: &[Node], depth: usize) -> (r: Result<Value, AsaErrorKind>)
        ensures
            (final(self)@, outcome_view(r)) == eval_all(
                nodes_view(nodes@),
                0,
                old(self)@,
                depth as nat,
                ValueView::Bool(true),
            ),
        decreases 3 * depth + 2, nodes@, nodes@.len(),
    {
        let ghost start = self@;
        let mut last = Value::Bool(true);
        let mut i: usize = 0;
        while i < nodes.len()
            invariant
                i <= nodes.len(),
                start == old(self)@,
                eval_all(nodes_view(nodes@), i as int, self@, depth as nat, last@) == eval_all(
                    nodes_view(nodes@),
                    0,
                    start,
                    depth as nat,
                    ValueView::Bool(true),
                ),
            decreases nodes.len() - i,
        {
            match self.run(&nodes[i], depth) {
                Ok(v) => {
                    last = v;
                },
                Err(e) => {
                    return Err(e);
                },
            }
            i += 1;
        }
        Ok(last)
    }

    fn run_list(&mut self, nodes: &[Node], from: usize, depth: usize) -> (r: Result<
        Vec<Value>,
        AsaErrorKind,
    >)
        ensures
            (final(self)@, list_view(r)) == eval_list(
                nodes_view(nodes@),
                from as int,
                old(self)@,
                depth as nat,
                Seq::<ValueView>::empty(),
            ),
        decreases 3 * depth + 2, nodes@, nodes@.len(),
    {
        let ghost start = self@;
        let mut out: Vec<Value> = Vec::new();
        let mut i: usize = from;
        assert(values_view(out@) =~= Seq::<ValueView>::empty());
        while i < nodes.len()
            invariant
                start == old(self)@,
                eval_list(nodes_view(nodes@), i as int, self@, depth as nat, values_view(out@))
                    == eval_list(
                    nodes_view(nodes@),
                    from as int,
                    start,
                    depth as nat,
                    Seq::<ValueView>::empty(),
                ),
            decreases nodes.len() - i,
        {
            match self.run(&nodes[i], depth) {
                Ok(v) => {
                    proof {
                        assert(values_view(out@.push(v)) =~= values_view(out@).push(v@));
                    }
                    out.push(v);
                },
                Err(e) => {
                    return Err(e);
                },
            }
            i += 1;
        }
        Ok(out)
    }

    fn run_if(&mut self, children: &[Node], depth: usize) -> (r: Result<Value, AsaErrorKind>)
        ensures
            (final(self)@, outcome_view(r)) == eval_if(
                nodes_view(children@),
                0,
                old(self)@,
                depth as nat,
            ),
        decreases 3 * depth + 2, children@, children@.len(),
    {
        let ghost start = self@;
        let len = children.len();
        let mut i: usize = 0;
        while i < len && len - i > 1
            invariant
                i <= len,
                len == children@.len(),
                start == old(self)@,
                eval_if(nodes_view(children@), i as int, self@, depth as nat) == eval_if(
                    nodes_view(children@),
                    0,
                    start,
                    depth as nat,
                ),
            decreases len - i,
        {
            match self.run(&children[i], depth) {
                Ok(Value::Bool(true)) => {
                    return self.run(&children[i + 1], depth);
                },
                Ok(Value::Bool(false)) => {},
                Ok(_) => {
                    return mismatch("If/Else-If condition must be boolean");
                },
                Err(e) => {
                    return Err(e);
                },
            }
            i += 2;
        }
        if len % 2 == 1 {
            self.run(&children[len - 1], depth)
        } else {
            Ok(Value::Bool(true))
        }
    }

    fn run_while(&mut self, children: &[Node], depth: usize) -> (r: Result<Value, AsaErrorKind>)
        ensures
            (final(self)@, outcome_view(r)) == eval_while(
                nodes_view(children@),
                old(self)@,
                depth as nat,
                old(self)@.max_rounds,
            ),
        decreases 3 * depth + 2, children@, children@.len(),
    {
        if children.len() < 2 {
            return fail("Invalid while loop");
        }
        let ghost start = self@;
        let mut rounds: u64 = self.max_rounds;
        loop
            invariant
                children@.len() >= 2,
                start == old(self)@,
                eval_while(nodes_view(children@), self@, depth as nat, rounds as nat)
                    == eval_while(nodes_view(children@), start, depth as nat, start.max_rounds),
            decreases rounds,
        {
            match self.run(&children[0], depth) {
                Ok(Value::Bool(true)) => {
                    if rounds == 0 {
                        return Err(AsaErrorKind::LoopLimitExceeded);
                    }
                    match self.run(&children[1], depth) {
                        Ok(_) => {},
                        Err(AsaErrorKind::ContinueSignal) => {},
                        Err(AsaErrorKind::BreakSignal) => {
                            return Ok(Value::Bool(true));
                        },
                        Err(e) => {
                            return Err(e);
                        },
                    }
                    rounds -= 1;
                },
                Ok(Value::Bool(false)) => {
                    return Ok(Value::Bool(true));
                },
                Ok(_) => {
                    return mismatch("While condition must be boolean");
                },
                Err(e) => {
                    return Err(e);
                },
            }
        }
    }

    fn bind_values(
        &mut self,
        params: &Vec<(u64, Option<Node>)>,
        args: &Vec<Value>,
        depth: usize,
    ) -> (r: Option<AsaErrorKind>)
        requires
            depth > 0,
        ensures
            (final(self)@, fault_view(r)) == bind_params(
                params_view(params@),
                values_view(args@),
                0,
                old(self)@,
                depth as nat,
            ),
        decreases 3 * depth, params@, params@.len(),
    {
        let ghost start = self@;
        let mut i: usize = 0;
        while i < params.len()
            invariant
                i <= params.len(),
                depth > 0,
                start == old(self)@,
                bind_params(
                    params_view(params@),
                    values_view(args@),
                    i as int,
                    self@,
                    depth as nat,
                ) == bind_params(
                    params_view(params@),
                    values_view(args@),
                    0,
                    start,
                    depth as nat,
                ),
            decreases params.len() - i,
        {
            if i < args.len() {
                self.set_variable(params[i].0, copy_value(&args[i]));
            } else {
                match &params[i].1 {
                    Some(default) => match self.run(default, depth - 1) {
                        Ok(v) => {
                            self.set_variable(params[i].0, v);
                        },
                        Err(e) => {
                            return Some(e);
                        },
                    },
                    None => {
                        return Some(AsaErrorKind::ArgumentCountMismatch);
                    },
                }
            }
            i += 1;
        }
        None
    }

    fn apply_values(&mut self, func: &Value, args: &Vec<Value>, depth: usize) -> (r: Result<
        Value,
        AsaErrorKind,
    >)
        ensures
            (final(self)@, outcome_view(r)) == apply(
                func@,
                values_view(args@),
                old(self)@,
                depth as nat,
            ),
        decreases 3 * depth + 1,
    {
        match func {
            Value::Function { params, body } => {
                if args.len() > params.len() {
                    return Err(AsaErrorKind::ArgumentCountMismatch);
                }
                if depth == 0 {
                    return Err(AsaErrorKind::CallDepthExceeded);
                }
                self.enter();
                match self.bind_values(params, args, depth) {
                    Some(e) => {
                        self.leave();
                        Err(e)
                    },
                    None => {
                        let inner: &Node = &**body;
                        let r = self.run(inner, depth - 1);
                        self.leave();
                        match r {
                            Err(AsaErrorKind::ReturnSignal(v)) => Ok(v),
                            other => other,
                        }
                    },
                }
            },
            _ => mismatch("Attempted to call a non-function value"),
        }
    }

    fn call_nodes(&mut self, func: &Value, arg_nodes: &[Node], depth: usize) -> (r: Result<
        Value,
        AsaErrorKind,
    >)
        ensures
            (final(self)@, outcome_view(r)) == call(
                func@,
                nodes_view(arg_nodes@),
                old(self)@,
                depth as nat,
            ),
        decreases 3 * depth + 2, arg_nodes@, arg_nodes@.len() + 1,
    {
        match func {
            Value::Function { params, body } => {
                if arg_nodes.len() > params.len() {
                    return Err(AsaErrorKind::ArgumentCountMismatch);
                }
                if depth == 0 {
                    return Err(AsaErrorKind::CallDepthExceeded);
                }
                match self.run_list(arg_nodes, 0, depth) {
                    Ok(args) => self.apply_values(func, &args, depth),
                    Err(e) => Err(e),
                }
            },
            _ => mismatch("Attempted to call a non-function value"),
        }
    }

    fn run_call(&mut self, name: &Vec<u8>, children: &Vec<Node>, depth: usize) -> (r: Result<
        Value,
        AsaErrorKind,
    >)
        ensures
            (final(self)@, outcome_view(r)) == eval_call(
                name@,
                nodes_view(children@),
                old(self)@,
                depth as nat,
            ),
        decreases 3 * depth + 2, children@, 0int,
    {
        proof {
            assert(forall|i: int|
                0 <= i < children@.len() ==> nodes_view(children@)[i] == (#[trigger] children@[i])@);
        }
        let builtin_print = is_print(name.as_slice());
        let builtin_len = !builtin_print && is_len(name.as_slice());
        if builtin_print || builtin_len {
            if children.len() >= 1 {
                match &children[0] {
                    Node::FunctionArguments { children: args } => {
                        if args.len() != 1 {
                            return Err(AsaErrorKind::ArgumentCountMismatch);
                        }
                        return match self.run(&args[0], depth) {
                            Ok(v) => {
                                if builtin_print {
                                    let line = render(&v);
                                    self.write(line);
                                    Ok(Value::Bool(true))
                                } else {
                                    len_value(&v)
                                }
                            },
                            Err(e) => Err(e),
                        };
                    },
                    _ => {},
                }
            }
            return if builtin_print {
                fail("Invalid print args")
            } else {
                fail("Invalid len args")
            };
        }
        let id = match handle_for(name.as_slice()) {
            Ok(id) => id,
            Err(e) => {
                return Err(e);
            },
        };
        let func = match self.get_variable(id) {
            Ok(func) => func,
            Err(e) => {
                return Err(e);
            },
        };
        if children.len() >= 1 {
            match &children[0] {
                Node::FunctionArguments { children: args } => {
                    return self.call_nodes(&func, args.as_slice(), depth);
                },
                _ => {},
            }
        }
        let none: Vec<Value> = Vec::new();
        assert(values_view(none@) =~= Seq::<ValueView>::empty());
        self.apply_values(&func, &none, depth)
    }

    fn method(&mut self, name: &[u8], id: u64, items: Vec<Value>, args: &Vec<Value>) -> (r: Result<
        Value,
        AsaErrorKind,
    >)
        ensures
            (final(self)@, outcome_view(r)) == method_result(
                name@,
                id,
                values_view(items@),
                values_view(args@),
                old(self)@,
            ),
    {
        let mut items = items;
        let ghost before = values_view(items@);
        if is_push(name) {
            if args.len() != 1 {
                return Err(AsaErrorKind::ArgumentCountMismatch);
            }
            let item = copy_value(&args[0]);
            items.push(item);
            assert(values_view(items@) =~= before.push(args@[0]@));
            let result = Value::Array(copy_values(&items));
            self.set_variable(id, Value::Array(items));
            Ok(result)
        } else if is_pop(name) {
            if args.len() != 0 {
                return Err(AsaErrorKind::ArgumentCountMismatch);
            }
            match items.pop() {
                Some(item) => {
                    assert(values_view(items@) =~= before.drop_last());
                    self.set_variable(id, Value::Array(items));
                    Ok(item)
                },
                None => Err(AsaErrorKind::IndexOutOfRange),
            }
        } else if is_insert(name) {
            if args.len() != 2 {
                return Err(AsaErrorKind::ArgumentCountMismatch);
            }
            match &args[0] {
                Value::Number(n) => {
                    if *n < 0 || *n as usize > items.len() {
                        return Err(AsaErrorKind::IndexOutOfRange);
                    }
                    let item = copy_value(&args[1]);
                    items.insert(*n as usize, item);
                    assert(values_view(items@) =~= before.insert(*n as int, args@[1]@));
                    let result = Value::Array(copy_values(&items));
                    self.set_variable(id, Value::Array(items));
                    Ok(result)
                },
                _ => mismatch("Index must be a number"),
            }
        } else if is_prepend(name) {
            if args.len() != 1 {
                return Err(AsaErrorKind::ArgumentCountMismatch);
            }
            let item = copy_value(&args[0]);
            items.insert(0, item);
            assert(values_view(items@) =~= before.insert(0, args@[0]@));
            let result = Value::Array(copy_values(&items));
            self.set_variable(id, Value::Array(items));
            Ok(result)
        } else {
            unsupported("Unknown array method")
        }
    }

    fn run_method(&mut self, name: &Vec<u8>, children: &Vec<Node>, depth: usize) -> (r: Result<
        Value,
        AsaErrorKind,
    >)
        ensures
            (final(self)@, outcome_view(r)) == eval_method(
                name@,
                nodes_view(children@),
                old(self)@,
                depth as nat,
            ),
        decreases 3 * depth + 2, children@, children@.len() + 1,
    {
        proof {
            assert(forall|i: int|
                0 <= i < children@.len() ==> nodes_view(children@)[i] == (#[trigger] children@[i])@);
        }
        if children.len() == 0 {
            return fail("Invalid method call");
        }
        let object = match self.run(&children[0], depth) {
            Ok(object) => object,
            Err(e) => {
                return Err(e);
            },
        };
        let args = match self.run_list(children.as_slice(), 1, depth) {
            Ok(args) => args,
            Err(e) => {
                return Err(e);
            },
        };
        match object {
            Value::Array(items) => match &children[0] {
                Node::Identifier { value } => {
                    let id = Interpreter::hash_identifier(value.as_slice());
                    self.method(name.as_slice(), id, items, &args)
                },
                _ => unsupported("Method call on non-identifier object not supported yet"),
            },
            _ => unsupported("Method calls only implemented for arrays currently"),
        }
    }

    fn store(&mut self, name: &[u8], index: &Value, val: Value) -> (r: Result<Value, AsaErrorKind>)
        ensures
            (final(self)@, outcome_view(r)) == store_item(name@, index@, val@, old(self)@),
    {
        match index {
            Value::Number(n) => {
                let id = match handle_for(name) {
                    Ok(id) => id,
                    Err(e) => {
                        return Err(e);
                    },
                };
                match self.get_variable(id) {
                    Err(e) => Err(e),
                    Ok(Value::Array(items)) => {
                        let mut items = items;
                        if *n < 0 || *n as usize >= items.len() {
                            return Err(AsaErrorKind::IndexOutOfRange);
                        }
                        let ghost before = values_view(items@);
                        let kept = copy_value(&val);
                        items.set(*n as usize, val);
                        assert(values_view(items@) =~= before.update(*n as int, val@));
                        self.set_variable(id, Value::Array(items));
                        Ok(kept)
                    },
                    Ok(_) => mismatch("Cannot index into non-array"),
                }
            },
            _ => mismatch("Index must be a number"),
        }
    }

    fn run_assignment(&mut self, children: &Vec<Node>, depth: usize) -> (r: Result<
        Value,
        AsaErrorKind,
    >)
        ensures
            (final(self)@, outcome_view(r)) == eval_assignment(
                nodes_view(children@),
                old(self)@,
                depth as nat,
            ),
        decreases 3 * depth + 2, children@, 0int,
    {
        proof {
            assert(forall|i: int|
                0 <= i < children@.len() ==> nodes_view(children@)[i] == (#[trigger] children@[i])@);
        }
        if children.len() < 2 {
            return fail("Invalid assignment");
        }
        let val = match self.run(&children[1], depth) {
            Ok(val) => val,
            Err(e) => {
                return Err(e);
            },
        };
        match &children[0] {
            Node::Identifier { value } => match handle_for(value.as_slice()) {
                Ok(id) => {
                    let kept = copy_value(&val);
                    self.set_variable(id, val);
                    Ok(kept)
                },
                Err(e) => Err(e),
            },
            Node::IndexAccess { children: target } => {
                proof {
                    assert(forall|i: int|
                        0 <= i < target@.len() ==> nodes_view(target@)[i] == (
                        #[trigger] target@[i])@);
                }
                if target.len() < 2 {
                    return fail("Invalid index access");
                }
                let index = match self.run(&target[1], depth) {
                    Ok(index) => index,
                    Err(e) => {
                        return Err(e);
                    },
                };
                match &target[0] {
                    Node::Identifier { value } => self.store(value.as_slice(), &index, val),
                    _ => match index {
                        Value::Number(_) => unsupported(
                            "Left side of assignment must be a variable",
                        ),
                        _ => mismatch("Index must be a number"),
                    },
                }
            },
            Node::PropertyAccess { .. } => unsupported("Property assignment not supported."),
            _ => fail("Invalid lvalue in assignment."),
        }
    }

    fn run_define(&mut self, name: &Vec<u8>, children: &Vec<Node>) -> (r: Result<
        Value,
        AsaErrorKind,
    >)
        ensures
            (final(self)@, outcome_view(r)) == eval_define(
                name@,
                nodes_view(children@),
                old(self)@,
            ),
    {
        proof {
            assert(forall|i: int|
                0 <= i < children@.len() ==> nodes_view(children@)[i] == (#[trigger] children@[i])@);
        }
        if children.len() < 2 {
            return fail("Invalid function definition");
        }
        let id = match handle_for(name.as_slice()) {
            Ok(id) => id,
            Err(e) => {
                return Err(e);
            },
        };
        let params = match &children[0] {
            Node::FunctionArguments { children: nodes } => match convert_params(nodes) {
                Ok(params) => params,
                Err(e) => {
                    return Err(e);
                },
            },
            _ => {
                let none: Vec<(u64, Option<Node>)> = Vec::new();
                assert(params_view(none@) =~= Seq::<(u64, Option<Ast>)>::empty());
                none
            },
        };
        let body = Box::new(copy_node(&children[1]));
        self.set_variable(id, Value::Function { params, body });
        Ok(Value::Bool(true))
    }

    fn run_binary(&mut self, name: &Vec<u8>, children: &Vec<Node>, depth: usize) -> (r: Result<
        Value,
        AsaErrorKind,
    >)
        ensures
            (final(self)@, outcome_view(r)) == eval_binary(
                name@,
                nodes_view(children@),
                old(self)@,
                depth as nat,
            ),
        decreases 3 * depth + 2, children@, 0int,
    {
        proof {
            assert(forall|i: int|
                0 <= i < children@.len() ==> nodes_view(children@)[i] == (#[trigger] children@[i])@);
        }
        if children.len() < 2 {
            return fail("Invalid binary expression");
        }
        let left = match self.run(&children[0], depth) {
            Ok(left) => left,
            Err(e) => {
                return Err(e);
            },
        };
        let right = match self.run(&children[1], depth) {
            Ok(right) => right,
            Err(e) => {
                return Err(e);
            },
        };
        eval_binary_op(name.as_slice(), left, right)
    }

    fn run_index(&mut self, children: &Vec<Node>, depth: usize) -> (r: Result<Value, AsaErrorKind>)
        ensures
            (final(self)@, outcome_view(r)) == eval_index(
                nodes_view(children@),
                old(self)@,
                depth as nat,
            ),
        decreases 3 * depth + 2, children@, 0int,
    {
        proof {
            assert(forall|i: int|
                0 <= i < children@.len() ==> nodes_view(children@)[i] == (#[trigger] children@[i])@);
        }
        if children.len() < 2 {
            return fail("Invalid index access");
        }
        let object = match self.run(&children[0], depth) {
            Ok(object) => object,
            Err(e) => {
                return Err(e);
            },
        };
        let index = match self.run(&children[1], depth) {
            Ok(index) => index,
            Err(e) => {
                return Err(e);
            },
        };
        index_value(&object, &index)
    }

    fn run_property(&mut self, children: &Vec<Node>, depth: usize) -> (r: Result<
        Value,
        AsaErrorKind,
    >)
        ensures
            (final(self)@, outcome_view(r)) == eval_property(
                nodes_view(children@),
                old(self)@,
                depth as nat,
            ),
        decreases 3 * depth + 2, children@, 0int,
    {
        proof {
            assert(forall|i: int|
                0 <= i < children@.len() ==> nodes_view(children@)[i] == (#[trigger] children@[i])@);
        }
        if children.len() < 2 {
            return fail("Invalid property access");
        }
        let object = match self.run(&children[0], depth) {
            Ok(object) => object,
            Err(e) => {
                return Err(e);
            },
        };
        match &children[1] {
            Node::Identifier { value } => property_value(&object, value.as_slice()),
            _ => fail("Invalid property name"),
        }
    }

    fn run_let(&mut self, children: &Vec<Node>, depth: usize) -> (r: Result<Value, AsaErrorKind>)
        ensures
            (final(self)@, outcome_view(r)) == eval_let(
                nodes_view(children@),
                old(self)@,
                depth as nat,
            ),
        decreases 3 * depth + 2, children@, 0int,
    {
        proof {
            assert(forall|i: int|
                0 <= i < children@.len() ==> nodes_view(children@)[i] == (#[trigger] children@[i])@);
        }
        if children.len() < 2 {
            return fail("Invalid variable define");
        }
        match &children[0] {
            Node::Identifier { value } => {
                let id = match handle_for(value.as_slice()) {
                    Ok(id) => id,
                    Err(e) => {
                        return Err(e);
                    },
                };
                match self.run(&children[1], depth) {
                    Ok(v) => {
                        let kept = copy_value(&v);
                        self.set_variable(id, v);
                        Ok(kept)
                    },
                    Err(e) => Err(e),
                }
            },
            _ => fail("Invalid variable define"),
        }
    }

    fn run(&mut self, node: &Node, depth: usize) -> (r: Result<Value, AsaErrorKind>)
        ensures
            (final(self)@, outcome_view(r)) == eval(node@, old(self)@, depth as nat),
        decreases 3 * depth + 2, node, 0int,
    {
        match node {
            Node::Program { children } => match self.run_all(children.as_slice(), depth) {
                Err(AsaErrorKind::ReturnSignal(v)) => Ok(v),
                other => other,
            },
            Node::Block { children } => self.run_all(children.as_slice(), depth),
            Node::Statement { children } => self.run_all(children.as_slice(), depth),
            Node::FunctionStatements { children } => self.run_all(children.as_slice(), depth),
            Node::FunctionDefine { name, children } => self.run_define(name, children),
            Node::FunctionArguments { .. } => fail(
                "FunctionArguments node should not be executed directly",
            ),
            Node::ArgumentDefine { .. } => fail(
                "ArgumentDefine node should not be executed directly",
            ),
            Node::IfExpression { children } => self.run_if(children.as_slice(), depth),
            Node::WhileLoop { children } => self.run_while(children.as_slice(), depth),
            Node::Expression { children } => {
                if children.len() < 1 {
                    fail("Invalid expression")
                } else {
                    self.run(&children[0], depth)
                }
            },
            Node::FunctionCall { name, children } => self.run_call(name, children, depth),
            Node::VariableDefine { children } => self.run_let(children, depth),
            Node::Assignment { children } => self.run_assignment(children, depth),
            Node::FunctionReturn { children } => {
                if children.len() < 1 {
                    fail("Invalid return")
                } else {
                    match self.run(&children[0], depth) {
                        Ok(v) => Err(AsaErrorKind::ReturnSignal(v)),
                        Err(e) => Err(e),
                    }
                }
            },
            Node::UnaryExpression { name, children } => {
                if children.len() < 1 {
                    fail("Invalid unary expression")
                } else {
                    match self.run(&children[0], depth) {
                        Ok(v) => eval_unary_op(name.as_slice(), v),
                        Err(e) => Err(e),
                    }
                }
            },
            Node::BinaryExpression { name, children } => self.run_binary(name, children, depth),
            Node::ArrayLiteral { children } => match self.run_list(children.as_slice(), 0, depth) {
                Ok(items) => Ok(Value::Array(items)),
                Err(e) => Err(e),
            },
            Node::IndexAccess { children } => self.run_index(children, depth),
            Node::PropertyAccess { children } => self.run_property(children, depth),
            Node::MethodCall { name, children } => self.run_method(name, children, depth),
            Node::Number { value } => eval_number(value.as_slice()),
            Node::Bool { value } => Ok(Value::Bool(*value)),
            Node::Identifier { value } => match handle_for(value.as_slice()) {
                Ok(id) => self.get_variable(id),
                Err(e) => Err(e),
            },
            Node::String { value } => Ok(Value::String(text_of_bytes(value.as_slice()))),
            Node::Null => Ok(Value::Bool(true)),
            Node::Break => Err(AsaErrorKind::BreakSignal),
            Node::Continue => Err(AsaErrorKind::ContinueSignal),
        }
    }

    /// Calls a function value on argument expressions, with the full
    /// depth of calls to spare.
    pub fn call_function(&mut self, func_val: Value, arg_nodes: &[Node]) -> (r: Result<
        Value,
        AsaErrorKind,
    >)
        ensures
            (final(self)@, outcome_view(r)) == call(
                func_val@,
                nodes_view(arg_nodes@),
                old(self)@,
                old(self)@.max_depth,
            ),
    {
        let depth = self.max_depth;
        self.call_nodes(&func_val, arg_nodes, depth)
    }

    /// Evaluates a node against this interpreter's call stack, with the
    /// full depth of calls to spare.
    pub fn exec(&mut self, node: &Node) -> (r: Result<Value, AsaErrorKind>)
        ensures
            (final(self)@, outcome_view(r)) == eval(node@, old(self)@, old(self)@.max_depth),
    {
        let depth = self.max_depth;
        self.run(node, depth)
    }
}

} // verus!
