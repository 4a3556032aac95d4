//! The syntax tree: leaves hold a symbol, interior nodes hold a symbol and
//! the ordered nodes under it. Each node owns its children.
use vstd::prelude::*;

verus! {

/// An interior node: a root symbol and its children, in order.
#[verifier::reject_recursive_types(T)]
#[derive(Debug)]
pub struct ASTree<T> {
    pub root: T,
    pub children: Vec<ASTNode<T>>,
}

/// A node of the tree: an interior node or a leaf.
#[verifier::reject_recursive_types(T)]
#[derive(Debug)]
pub enum ASTNode<T> {
    Tree(ASTree<T>),
    Node(T),
}

/// The top of a parse: the sequence of top-level nodes.
#[verifier::reject_recursive_types(T)]
#[derive(Debug)]
pub struct BaseASTree<T> {
    pub children: Vec<ASTNode<T>>,
}

/// The mathematical value of a node.
pub enum NodeView<V> {
    Leaf(V),
    Interior(V, Seq<NodeView<V>>),
}

/// The value of a node.
pub open spec fn node_view<T: View>(n: ASTNode<T>) -> NodeView<T::V>
    decreases n,
{
    match n {
        ASTNode::Node(t) => NodeView::Leaf(t@),
        ASTNode::Tree(tr) => NodeView::Interior(tr.root@, nodes_view(tr.children@)),
    }
}

/// The values of a sequence of nodes.
pub open spec fn nodes_view<T: View>(s: Seq<ASTNode<T>>) -> Seq<NodeView<T::V>>
    decreases s,
{
    if s.len() == 0 {
        seq![]
    } else {
        nodes_view(s.drop_last()).push(node_view(s.last()))
    }
}

/// Appending a node appends its value.
pub proof fn lemma_nodes_view_push<T: View>(s: Seq<ASTNode<T>>, n: ASTNode<T>)
    ensures
        nodes_view(s.push(n)) == nodes_view(s).push(node_view(n)),
{
    assert(s.push(n).drop_last() =~= s);
}

/// The values of a sequence of nodes, one by one.
pub proof fn lemma_nodes_view_index<T: View>(s: Seq<ASTNode<T>>)
    ensures
        nodes_view(s).len() == s.len(),
        forall|i: int| 0 <= i < s.len() ==> #[trigger] nodes_view(s)[i] == node_view(s[i]),
    decreases s.len(),
{
    if s.len() > 0 {
        lemma_nodes_view_index(s.drop_last());
    }
}

impl<T: View> View for ASTNode<T> {
    type V = NodeView<T::V>;

    open spec fn view(&self) -> NodeView<T::V> {
        node_view(*self)
    }
}

impl<T: View> View for ASTree<T> {
    type V = NodeView<T::V>;

    open spec fn view(&self) -> NodeView<T::V> {
        NodeView::Interior(self.root@, nodes_view(self.children@))
    }
}

impl<T: View> View for BaseASTree<T> {
    type V = Seq<NodeView<T::V>>;

    open spec fn view(&self) -> Seq<NodeView<T::V>> {
        nodes_view(self.children@)
    }
}

impl<T> ASTree<T> {
    /// A tree with the given root and no children.
    pub fn new(root: T) -> (r: ASTree<T>)
        ensures
            r.root == root,
            r.children@.len() == 0,
    {
        ASTree { root, children: Vec::new() }
    }

    /// The root symbol.
    pub fn root(self) -> (r: T)
        ensures
            r == self.root,
    {
        self.root
    }
}

/// A container of ordered child nodes.
pub trait Tree<T>: Sized {
    /// The children, in order.
    spec fn spec_children(&self) -> Seq<ASTNode<T>>;

    /// Appends a leaf holding `child`.
    fn add_child(&mut self, child: T)
        ensures
            final(self).spec_children() == old(self).spec_children().push(ASTNode::Node(child)),
    ;

    /// Appends a node.
    fn add_node(&mut self, child: ASTNode<T>)
        ensures
            final(self).spec_children() == old(self).spec_children().push(child),
    ;

    /// Appends an interior node.
    fn add_subtree(&mut self, child: ASTree<T>)
        ensures
            final(self).spec_children() == old(self).spec_children().push(ASTNode::Tree(child)),
    ;

    /// The children, in order.
    fn get_children(self) -> (r: Vec<ASTNode<T>>)
        ensures
            r@ == self.spec_children(),
    ;
}

impl<T> Tree<T> for ASTree<T> {
    open spec fn spec_children(&self) -> Seq<ASTNode<T>> {
        self.children@
    }

    fn add_child(&mut self, child: T)
        ensures
            final(self).root == old(self).root,
    {
        self.children.push(ASTNode::Node(child));
    }

    fn add_node(&mut self, child: ASTNode<T>)
        ensures
            final(self).root == old(self).root,
    {
        self.children.push(child);
    }

    fn add_subtree(&mut self, child: ASTree<T>)
        ensures
            final(self).root == old(self).root,
    {
        self.children.push(ASTNode::Tree(child));
    }

    fn get_children(self) -> (r: Vec<ASTNode<T>>) {
        self.children
    }
}

impl<T> Tree<T> for BaseASTree<T> {
    open spec fn spec_children(&self) -> Seq<ASTNode<T>> {
        self.children@
    }

    fn add_child(&mut self, child: T) {
        self.children.push(ASTNode::Node(child));
    }

    fn add_node(&mut self, child: ASTNode<T>) {
        self.children.push(child);
    }

    fn add_subtree(&mut self, child: ASTree<T>) {
        self.children.push(ASTNode::Tree(child));
    }

    fn get_children(self) -> (r: Vec<ASTNode<T>>) {
        self.children
    }
}

impl<T> BaseASTree<T> {
    /// An empty sequence of top-level nodes.
    pub fn new() -> (r: BaseASTree<T>)
        ensures
            r.children@.len() == 0,
    {
        BaseASTree { children: Vec::new() }
    }
}

} // verus!
