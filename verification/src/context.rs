//! Context labels attached to errors by reader scopes, and the chain that
//! stacks them from the innermost primitive out to the outermost caller.

use vstd::prelude::*;

verus! {

/// The base context surrounding an error: what operation was attempted,
/// and optionally what was expected of the input.
pub trait Context: Sized {
    /// The operation as a mathematical value.
    spec fn operation_spec(&self) -> Seq<char>;

    /// The expectation as a mathematical value.
    spec fn expected_spec(&self) -> Option<Seq<char>>;

    /// The operation that was attempted when an error occurred.
    fn operation(&self) -> (r: &'static str)
        ensures
            r@ == self.operation_spec(),
    ;

    /// What was expected of the input, if this context records it.
    fn expected(&self) -> (r: Option<&'static str>)
        ensures
            match r {
                Some(s) => self.expected_spec() == Some(s@),
                None => self.expected_spec() is None,
            },
    ;
}

/// A context that can sit inside a walkable chain: it may know a more
/// granular child context and how many identical contexts were folded into
/// it.
pub trait ParentContext: Context {
    /// The next more granular context this one wraps, if any.
    fn child(&self) -> (r: Option<ContextNode>);

    /// The number of identical child contexts consolidated into `self`.
    fn consolidated(&self) -> (r: usize);
}

/// One link of a context chain: an operation, an optional expectation, and
/// a count of folded duplicates.
#[derive(Clone, Copy, Debug)]
pub struct ContextNode {
    /// The operation that was attempted.
    pub operation: &'static str,
    /// What was expected of the input, if recorded.
    pub expected: Option<&'static str>,
    /// How many identical contexts were folded into this node.
    pub consolidated: usize,
}

impl Context for ContextNode {
    open spec fn operation_spec(&self) -> Seq<char> {
        self.operation@
    }

    open spec fn expected_spec(&self) -> Option<Seq<char>> {
        match self.expected {
            Some(s) => Some(s@),
            None => None,
        }
    }

    fn operation(&self) -> (r: &'static str) {
        self.operation
    }

    fn expected(&self) -> (r: Option<&'static str>) {
        self.expected
    }
}

impl ParentContext for ContextNode {
    fn child(&self) -> (r: Option<ContextNode>) {
        None
    }

    fn consolidated(&self) -> (r: usize) {
        self.consolidated
    }
}

impl Context for &'static str {
    /// A bare string names what was expected, inside a generic read
    /// operation.
    open spec fn operation_spec(&self) -> Seq<char> {
        "read"@
    }

    open spec fn expected_spec(&self) -> Option<Seq<char>> {
        Some((*self)@)
    }

    fn operation(&self) -> (r: &'static str) {
        "read"
    }

    fn expected(&self) -> (r: Option<&'static str>) {
        Some(*self)
    }
}

/// A context recording only the operation that was attempted.
#[derive(Clone, Copy, Debug)]
pub struct OperationContext(pub &'static str);

impl Context for OperationContext {
    open spec fn operation_spec(&self) -> Seq<char> {
        self.0@
    }

    open spec fn expected_spec(&self) -> Option<Seq<char>> {
        None
    }

    fn operation(&self) -> (r: &'static str) {
        self.0
    }

    fn expected(&self) -> (r: Option<&'static str>) {
        None
    }
}

/// A context recording the operation attempted and what was expected of
/// the input.
#[derive(Clone, Copy, Debug)]
pub struct ExpectedContext {
    /// The operation that was attempted.
    pub operation: &'static str,
    /// What was expected of the input.
    pub expected: &'static str,
}

impl Context for ExpectedContext {
    open spec fn operation_spec(&self) -> Seq<char> {
        self.operation@
    }

    open spec fn expected_spec(&self) -> Option<Seq<char>> {
        Some(self.expected@)
    }

    fn operation(&self) -> (r: &'static str) {
        self.operation
    }

    fn expected(&self) -> (r: Option<&'static str>) {
        Some(self.expected)
    }
}

impl ParentContext for ExpectedContext {
    fn child(&self) -> (r: Option<ContextNode>) {
        None
    }

    fn consolidated(&self) -> (r: usize) {
        0
    }
}

/// A chain of context nodes from the innermost reader primitive (first)
/// out to the outermost annotated operation (last).
#[derive(Clone, Debug)]
pub struct ContextChain {
    nodes: Vec<ContextNode>,
}

impl ContextChain {
    /// The nodes, innermost first.
    pub closed spec fn nodes_spec(&self) -> Seq<ContextNode> {
        self.nodes@
    }

    /// A chain always holds at least its seed context.
    pub open spec fn inv(&self) -> bool {
        self.nodes_spec().len() >= 1
    }

    /// The outermost node of the chain.
    pub open spec fn outermost(&self) -> ContextNode {
        self.nodes_spec().last()
    }

    /// A chain holding `context` alone.
    pub fn new<C: Context>(context: &C) -> (r: ContextChain)
        ensures
            r.inv(),
            r.nodes_spec().len() == 1,
            r.nodes_spec()[0].operation@ == context.operation_spec(),
            (match r.nodes_spec()[0].expected {
                Some(s) => context.expected_spec() == Some(s@),
                None => context.expected_spec() is None,
            }),
            r.nodes_spec()[0].consolidated == 0,
    {
        let node = ContextNode {
            operation: context.operation(),
            expected: context.expected(),
            consolidated: 0,
        };
        let mut nodes = Vec::new();
        nodes.push(node);
        ContextChain { nodes }
    }

    /// Pushes `parent` as the new outermost context of the chain.
    pub fn with_parent<C: Context>(self, parent: &C) -> (r: ContextChain)
        ensures
            r.nodes_spec().len() == self.nodes_spec().len() + 1,
            r.nodes_spec().subrange(0, self.nodes_spec().len() as int) == self.nodes_spec(),
            r.outermost().operation@ == parent.operation_spec(),
            (match r.outermost().expected {
                Some(s) => parent.expected_spec() == Some(s@),
                None => parent.expected_spec() is None,
            }),
            self.inv() ==> r.inv(),
    {
        let node = ContextNode {
            operation: parent.operation(),
            expected: parent.expected(),
            consolidated: 0,
        };
        let mut nodes = self.nodes;
        nodes.push(node);
        proof {
            assert(nodes@.subrange(0, nodes@.len() - 1) =~= nodes@.drop_last());
        }
        ContextChain { nodes }
    }

    /// The operation of the outermost node.
    pub fn operation(&self) -> (r: &'static str)
        requires
            self.inv(),
        ensures
            r@ == self.outermost().operation@,
    {
        self.nodes[self.nodes.len() - 1].operation
    }

    /// The expectation of the outermost node, if recorded.
    pub fn expected(&self) -> (r: Option<&'static str>)
        requires
            self.inv(),
        ensures
            r == self.outermost().expected,
    {
        self.nodes[self.nodes.len() - 1].expected
    }

    /// The context directly inside the outermost node, if the chain holds
    /// more than one.
    pub fn child(&self) -> (r: Option<ContextNode>)
        requires
            self.inv(),
        ensures
            self.nodes_spec().len() == 1 ==> r is None,
            self.nodes_spec().len() > 1 ==> r == Some(
                self.nodes_spec()[self.nodes_spec().len() - 2],
            ),
    {
        if self.nodes.len() > 1 {
            Some(self.nodes[self.nodes.len() - 2])
        } else {
            None
        }
    }

    /// How many identical contexts were folded into the outermost node.
    pub fn consolidated(&self) -> (r: usize)
        requires
            self.inv(),
        ensures
            r == self.outermost().consolidated,
    {
        self.nodes[self.nodes.len() - 1].consolidated
    }

    /// The whole chain, outermost context first, as presented in a
    /// backtrace.
    pub fn backtrace(&self) -> (r: Vec<ContextNode>)
        ensures
            r@.len() == self.nodes_spec().len(),
            forall|i: int|
                0 <= i < r@.len() ==> r@[i] == self.nodes_spec()[self.nodes_spec().len() - 1 - i],
    {
        let mut out: Vec<ContextNode> = Vec::new();
        let n = self.nodes.len();
        let mut i: usize = 0;
        while i < n
            invariant
                0 <= i <= n,
                n == self.nodes_spec().len(),
                out@.len() == i,
                forall|j: int| 0 <= j < i ==> out@[j] == self.nodes_spec()[n - 1 - j],
            decreases n - i,
        {
            out.push(self.nodes[n - 1 - i]);
            i += 1;
        }
        out
    }
}

} // verus!
