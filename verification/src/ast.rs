use crate::lexer::copy_bytes;
use vstd::prelude::*;

verus! {

/// A node of the syntax tree.
#[derive(Debug, PartialEq)]
#[allow(inconsistent_fields)]
pub enum Node {
    /// The members of a program, in order.
    Program { children: Vec<Node> },
    /// The statements between a pair of curly brackets.
    Block { children: Vec<Node> },
    /// A group of statements run in order.
    Statement { children: Vec<Node> },
    /// A function definition: its name, then its parameters and its statements.
    FunctionDefine { name: Vec<u8>, children: Vec<Node> },
    /// Parameters of a definition or arguments of a call.
    FunctionArguments { children: Vec<Node> },
    /// The body of a function.
    FunctionStatements { children: Vec<Node> },
    /// Conditions and blocks in pairs; a last child without a partner is the else block.
    IfExpression { children: Vec<Node> },
    /// A condition and a block.
    WhileLoop { children: Vec<Node> },
    /// A wrapper round exactly one child.
    Expression { children: Vec<Node> },
    /// A call by name; its one child holds the arguments.
    FunctionCall { name: Vec<u8>, children: Vec<Node> },
    /// An identifier and the expression bound to it.
    VariableDefine { children: Vec<Node> },
    /// A parameter: an identifier and, where it has one, its default expression.
    ArgumentDefine { children: Vec<Node> },
    /// A target and the expression assigned to it.
    Assignment { children: Vec<Node> },
    /// The expression whose value leaves the function.
    FunctionReturn { children: Vec<Node> },
    /// An operator and its operand.
    UnaryExpression { name: Vec<u8>, children: Vec<Node> },
    /// An operator and its two operands.
    BinaryExpression { name: Vec<u8>, children: Vec<Node> },
    /// The elements of an array, in order.
    ArrayLiteral { children: Vec<Node> },
    /// An object and an index expression.
    IndexAccess { children: Vec<Node> },
    /// An object and the identifier of a property.
    PropertyAccess { children: Vec<Node> },
    /// A method name; the first child is the object, the others are the arguments.
    MethodCall { name: Vec<u8>, children: Vec<Node> },
    /// The digits of a number literal.
    Number { value: Vec<u8> },
    /// A boolean literal.
    Bool { value: bool },
    /// The spelling of an identifier.
    Identifier { value: Vec<u8> },
    /// The bytes of a string literal.
    String { value: Vec<u8> },
    /// Nothing; a comment parses to this.
    Null,
    /// Leaves the nearest loop.
    Break,
    /// Starts the next round of the nearest loop.
    Continue,
}

/// The mathematical value of a [`Node`]: the same tree over sequences.
#[allow(inconsistent_fields)]
pub enum Ast {
    Program { children: Seq<Ast> },
    Block { children: Seq<Ast> },
    Statement { children: Seq<Ast> },
    FunctionDefine { name: Seq<u8>, children: Seq<Ast> },
    FunctionArguments { children: Seq<Ast> },
    FunctionStatements { children: Seq<Ast> },
    IfExpression { children: Seq<Ast> },
    WhileLoop { children: Seq<Ast> },
    Expression { children: Seq<Ast> },
    FunctionCall { name: Seq<u8>, children: Seq<Ast> },
    VariableDefine { children: Seq<Ast> },
    ArgumentDefine { children: Seq<Ast> },
    Assignment { children: Seq<Ast> },
    FunctionReturn { children: Seq<Ast> },
    UnaryExpression { name: Seq<u8>, children: Seq<Ast> },
    BinaryExpression { name: Seq<u8>, children: Seq<Ast> },
    ArrayLiteral { children: Seq<Ast> },
    IndexAccess { children: Seq<Ast> },
    PropertyAccess { children: Seq<Ast> },
    MethodCall { name: Seq<u8>, children: Seq<Ast> },
    Number { value: Seq<u8> },
    Bool { value: bool },
    Identifier { value: Seq<u8> },
    String { value: Seq<u8> },
    Null,
    Break,
    Continue,
}

/// The values of a sequence of nodes, one by one.
pub open spec fn nodes_view(nodes: Seq<Node>) -> Seq<Ast>
    decreases nodes,
{
    Seq::new(
        nodes.len(),
        |i: int|
            if 0 <= i < nodes.len() {
                node_view(nodes[i])
            } else {
                Ast::Null
            },
    )
}

/// The value of a node.
pub open spec fn node_view(node: Node) -> Ast
    decreases node,
{
    match node {
        Node::Program { children } => Ast::Program { children: nodes_view(children@) },
        Node::Block { children } => Ast::Block { children: nodes_view(children@) },
        Node::Statement { children } => Ast::Statement { children: nodes_view(children@) },
        Node::FunctionDefine { name, children } => Ast::FunctionDefine { name: name@, children: nodes_view(children@) },
        Node::FunctionArguments { children } => Ast::FunctionArguments { children: nodes_view(children@) },
        Node::FunctionStatements { children } => Ast::FunctionStatements { children: nodes_view(children@) },
        Node::IfExpression { children } => Ast::IfExpression { children: nodes_view(children@) },
        Node::WhileLoop { children } => Ast::WhileLoop { children: nodes_view(children@) },
        Node::Expression { children } => Ast::Expression { children: nodes_view(children@) },
        Node::FunctionCall { name, children } => Ast::FunctionCall { name: name@, children: nodes_view(children@) },
        Node::VariableDefine { children } => Ast::VariableDefine { children: nodes_view(children@) },
        Node::ArgumentDefine { children } => Ast::ArgumentDefine { children: nodes_view(children@) },
        Node::Assignment { children } => Ast::Assignment { children: nodes_view(children@) },
        Node::FunctionReturn { children } => Ast::FunctionReturn { children: nodes_view(children@) },
        Node::UnaryExpression { name, children } => Ast::UnaryExpression { name: name@, children: nodes_view(children@) },
        Node::BinaryExpression { name, children } => Ast::BinaryExpression { name: name@, children: nodes_view(children@) },
        Node::ArrayLiteral { children } => Ast::ArrayLiteral { children: nodes_view(children@) },
        Node::IndexAccess { children } => Ast::IndexAccess { children: nodes_view(children@) },
        Node::PropertyAccess { children } => Ast::PropertyAccess { children: nodes_view(children@) },
        Node::MethodCall { name, children } => Ast::MethodCall { name: name@, children: nodes_view(children@) },
        Node::Number { value } => Ast::Number { value: value@ },
        Node::Bool { value } => Ast::Bool { value },
        Node::Identifier { value } => Ast::Identifier { value: value@ },
        Node::String { value } => Ast::String { value: value@ },
        Node::Null => Ast::Null,
        Node::Break => Ast::Break,
        Node::Continue => Ast::Continue,
    }
}

impl View for Node {
    type V = Ast;

    open spec fn view(&self) -> Ast {
        node_view(*self)
    }
}

impl Ast {
    /// The children of a node; a leaf has none.
    pub open spec fn children(self) -> Seq<Ast> {
        match self {
            Ast::Program { children } => children,
            Ast::Block { children } => children,
            Ast::Statement { children } => children,
            Ast::FunctionDefine { name, children } => children,
            Ast::FunctionArguments { children } => children,
            Ast::FunctionStatements { children } => children,
            Ast::IfExpression { children } => children,
            Ast::WhileLoop { children } => children,
            Ast::Expression { children } => children,
            Ast::FunctionCall { name, children } => children,
            Ast::VariableDefine { children } => children,
            Ast::ArgumentDefine { children } => children,
            Ast::Assignment { children } => children,
            Ast::FunctionReturn { children } => children,
            Ast::UnaryExpression { name, children } => children,
            Ast::BinaryExpression { name, children } => children,
            Ast::ArrayLiteral { children } => children,
            Ast::IndexAccess { children } => children,
            Ast::PropertyAccess { children } => children,
            Ast::MethodCall { name, children } => children,
            _ => Seq::empty(),
        }
    }
}

/// Whether two byte vectors hold the same bytes.
pub fn bytes_equal(a: &Vec<u8>, b: &Vec<u8>) -> (r: bool)
    ensures
        r == (a@ == b@),
{
    if a.len() != b.len() {
        return false;
    }
    let mut i: usize = 0;
    while i < a.len()
        invariant
            i <= a.len(),
            a.len() == b.len(),
            a@.take(i as int) == b@.take(i as int),
        decreases a.len() - i,
    {
        if a[i] != b[i] {
            return false;
        }
        assert(a@.take(i + 1) =~= a@.take(i as int).push(a@[i as int]));
        assert(b@.take(i + 1) =~= b@.take(i as int).push(b@[i as int]));
        i += 1;
    }
    assert(a@ =~= a@.take(a.len() as int));
    assert(b@ =~= b@.take(b.len() as int));
    true
}

/// Copies a sequence of nodes, each with all that is below it.
pub fn copy_nodes(v: &Vec<Node>) -> (r: Vec<Node>)
    ensures
        nodes_view(r@) == nodes_view(v@),
    decreases v,
{
    let mut out: Vec<Node> = Vec::new();
    let mut i: usize = 0;
    while i < v.len()
        invariant
            i <= v.len(),
            out@.len() == i,
            forall|j: int| 0 <= j < i ==> node_view(#[trigger] out@[j]) == node_view(v@[j]),
        decreases v.len() - i,
    {
        let c = copy_node(&v[i]);
        out.push(c);
        i += 1;
    }
    assert(nodes_view(out@) =~= nodes_view(v@));
    out
}

/// Copies a node with all that is below it.
pub fn copy_node(n: &Node) -> (r: Node)
    ensures
        r@ == n@,
    decreases n,
{
    match n {
        Node::Program { children } => Node::Program { children: copy_nodes(children) },
        Node::Block { children } => Node::Block { children: copy_nodes(children) },
        Node::Statement { children } => Node::Statement { children: copy_nodes(children) },
        Node::FunctionDefine { name, children } => Node::FunctionDefine { name: copy_bytes(name), children: copy_nodes(children) },
        Node::FunctionArguments { children } => Node::FunctionArguments { children: copy_nodes(children) },
        Node::FunctionStatements { children } => Node::FunctionStatements { children: copy_nodes(children) },
        Node::IfExpression { children } => Node::IfExpression { children: copy_nodes(children) },
        Node::WhileLoop { children } => Node::WhileLoop { children: copy_nodes(children) },
        Node::Expression { children } => Node::Expression { children: copy_nodes(children) },
        Node::FunctionCall { name, children } => Node::FunctionCall { name: copy_bytes(name), children: copy_nodes(children) },
        Node::VariableDefine { children } => Node::VariableDefine { children: copy_nodes(children) },
        Node::ArgumentDefine { children } => Node::ArgumentDefine { children: copy_nodes(children) },
        Node::Assignment { children } => Node::Assignment { children: copy_nodes(children) },
        Node::FunctionReturn { children } => Node::FunctionReturn { children: copy_nodes(children) },
        Node::UnaryExpression { name, children } => Node::UnaryExpression { name: copy_bytes(name), children: copy_nodes(children) },
        Node::BinaryExpression { name, children } => Node::BinaryExpression { name: copy_bytes(name), children: copy_nodes(children) },
        Node::ArrayLiteral { children } => Node::ArrayLiteral { children: copy_nodes(children) },
        Node::IndexAccess { children } => Node::IndexAccess { children: copy_nodes(children) },
        Node::PropertyAccess { children } => Node::PropertyAccess { children: copy_nodes(children) },
        Node::MethodCall { name, children } => Node::MethodCall { name: copy_bytes(name), children: copy_nodes(children) },
        Node::Number { value } => Node::Number { value: copy_bytes(value) },
        Node::Bool { value } => Node::Bool { value: *value },
        Node::Identifier { value } => Node::Identifier { value: copy_bytes(value) },
        Node::String { value } => Node::String { value: copy_bytes(value) },
        Node::Null => Node::Null,
        Node::Break => Node::Break,
        Node::Continue => Node::Continue,
    }
}

impl Clone for Node {
    fn clone(&self) -> (r: Self)
        ensures
            r@ == self@,
    {
        copy_node(self)
    }
}

/// Whether two sequences of nodes are the same, node by node.
pub fn nodes_equal(a: &Vec<Node>, b: &Vec<Node>) -> (r: bool)
    ensures
        r == (nodes_view(a@) == nodes_view(b@)),
    decreases a,
{
    if a.len() != b.len() {
        assert(nodes_view(a@).len() != nodes_view(b@).len());
        return false;
    }
    let mut i: usize = 0;
    while i < a.len()
        invariant
            i <= a.len(),
            a.len() == b.len(),
            forall|j: int| 0 <= j < i ==> node_view(#[trigger] a@[j]) == node_view(b@[j]),
        decreases a.len() - i,
    {
        if !node_equal(&a[i], &b[i]) {
            assert(nodes_view(a@)[i as int] != nodes_view(b@)[i as int]);
            return false;
        }
        i += 1;
    }
    assert(nodes_view(a@) =~= nodes_view(b@));
    true
}

/// Whether two nodes are the same tree.
pub fn node_equal(a: &Node, b: &Node) -> (r: bool)
    ensures
        r == (a@ == b@),
    decreases a,
{
    match (a, b) {
        (Node::Program { children: c1 }, Node::Program { children: c2 }) => nodes_equal(c1, c2),
        (Node::Block { children: c1 }, Node::Block { children: c2 }) => nodes_equal(c1, c2),
        (Node::Statement { children: c1 }, Node::Statement { children: c2 }) => nodes_equal(c1, c2),
        (Node::FunctionDefine { name: n1, children: c1 }, Node::FunctionDefine { name: n2, children: c2 }) => bytes_equal(n1, n2) && nodes_equal(c1, c2),
        (Node::FunctionArguments { children: c1 }, Node::FunctionArguments { children: c2 }) => nodes_equal(c1, c2),
        (Node::FunctionStatements { children: c1 }, Node::FunctionStatements { children: c2 }) => nodes_equal(c1, c2),
        (Node::IfExpression { children: c1 }, Node::IfExpression { children: c2 }) => nodes_equal(c1, c2),
        (Node::WhileLoop { children: c1 }, Node::WhileLoop { children: c2 }) => nodes_equal(c1, c2),
        (Node::Expression { children: c1 }, Node::Expression { children: c2 }) => nodes_equal(c1, c2),
        (Node::FunctionCall { name: n1, children: c1 }, Node::FunctionCall { name: n2, children: c2 }) => bytes_equal(n1, n2) && nodes_equal(c1, c2),
        (Node::VariableDefine { children: c1 }, Node::VariableDefine { children: c2 }) => nodes_equal(c1, c2),
        (Node::ArgumentDefine { children: c1 }, Node::ArgumentDefine { children: c2 }) => nodes_equal(c1, c2),
        (Node::Assignment { children: c1 }, Node::Assignment { children: c2 }) => nodes_equal(c1, c2),
        (Node::FunctionReturn { children: c1 }, Node::FunctionReturn { children: c2 }) => nodes_equal(c1, c2),
        (Node::UnaryExpression { name: n1, children: c1 }, Node::UnaryExpression { name: n2, children: c2 }) => bytes_equal(n1, n2) && nodes_equal(c1, c2),
        (Node::BinaryExpression { name: n1, children: c1 }, Node::BinaryExpression { name: n2, children: c2 }) => bytes_equal(n1, n2) && nodes_equal(c1, c2),
        (Node::ArrayLiteral { children: c1 }, Node::ArrayLiteral { children: c2 }) => nodes_equal(c1, c2),
        (Node::IndexAccess { children: c1 }, Node::IndexAccess { children: c2 }) => nodes_equal(c1, c2),
        (Node::PropertyAccess { children: c1 }, Node::PropertyAccess { children: c2 }) => nodes_equal(c1, c2),
        (Node::MethodCall { name: n1, children: c1 }, Node::MethodCall { name: n2, children: c2 }) => bytes_equal(n1, n2) && nodes_equal(c1, c2),
        (Node::Number { value: v1 }, Node::Number { value: v2 }) => bytes_equal(v1, v2),
        (Node::Bool { value: v1 }, Node::Bool { value: v2 }) => *v1 == *v2,
        (Node::Identifier { value: v1 }, Node::Identifier { value: v2 }) => bytes_equal(v1, v2),
        (Node::String { value: v1 }, Node::String { value: v2 }) => bytes_equal(v1, v2),
        (Node::Null, Node::Null) => true,
        (Node::Break, Node::Break) => true,
        (Node::Continue, Node::Continue) => true,
        _ => false,
    }
}

} // verus!
