//! The syntax tree that the rewriting works on: declarations, statements and
//! expressions of a small subset of the language, each with its annotations
//! and its position.

use crate::span::{Span, SpanView};
use vstd::prelude::*;

verus! {

/// An annotation on a node: a bare word, with or without a value.
#[derive(Debug, PartialEq, Eq)]
pub struct Annotation {
    pub key: String,
    pub value: Option<String>,
}

/// What an [`Annotation`] means in contracts.
pub struct AnnotationView {
    pub key: Seq<char>,
    pub value: Option<Seq<char>>,
}

impl View for Annotation {
    type V = AnnotationView;

    open spec fn view(&self) -> AnnotationView {
        AnnotationView {
            key: self.key@,
            value: match self.value {
                Some(v) => Some(v@),
                None => None,
            },
        }
    }
}

impl Annotation {
    /// The views of a sequence of annotations, one for one.
    pub open spec fn views(annotations: Seq<Annotation>) -> Seq<AnnotationView> {
        annotations.map_values(|a: Annotation| a@)
    }

    /// The bare word `key`.
    pub fn word(key: &str) -> (r: Annotation)
        ensures
            r@ == (AnnotationView { key: key@, value: None }),
    {
        Annotation { key: String::from_str(key), value: None }
    }

    /// The word `key` with the value `value`.
    pub fn with_value(key: &str, value: &str) -> (r: Annotation)
        ensures
            r@ == (AnnotationView { key: key@, value: Some(value@) }),
    {
        Annotation { key: String::from_str(key), value: Some(String::from_str(value)) }
    }
}

/// A reference to a declaration by the scopes that lead to it: either from
/// the root of the program (`global`) or from the scope that holds the
/// reference.
#[derive(Debug, PartialEq, Eq)]
pub struct QualifiedPath {
    pub global: bool,
    pub segments: Vec<String>,
}

/// What a [`QualifiedPath`] means in contracts.
pub struct PathView {
    pub global: bool,
    pub segments: Seq<Seq<char>>,
}

impl View for QualifiedPath {
    type V = PathView;

    open spec fn view(&self) -> PathView {
        PathView { global: self.global, segments: self.segments@.map_values(|s: String| s@) }
    }
}

/// What a node is. The first five kinds are declarations, the others are
/// statements and expressions.
#[derive(Debug, PartialEq, Eq)]
pub enum NodeKind {
    /// A named scope with its body; the children are the body's items.
    Module(String),
    /// A named scope whose body stands in another file.
    ModuleRef(String),
    /// The declaration that brings an outside crate into the scope.
    ExternCrate(String),
    /// A function; the children are the statements of its body.
    Function(String),
    /// A value that lives as long as the process; the child is its initial value.
    Static(String),
    /// A sequence of statements in braces.
    Block,
    /// A local binding; the child is the bound value.
    Let(String),
    /// A call of a member of a value: the first child is the receiver, the
    /// others are the arguments.
    MethodCall(String),
    /// A call of a function by its path; the children are the arguments.
    Call(QualifiedPath),
    /// A use of a name.
    Name(String),
    /// A literal, held as its text.
    Literal(String),
    /// An invocation of a macro without arguments, such as `line!()`.
    Macro(String),
    /// A shared borrow of the child.
    Reference,
    /// A tuple of the children.
    Tuple,
}

/// What a [`NodeKind`] means in contracts.
pub enum KindView {
    Module(Seq<char>),
    ModuleRef(Seq<char>),
    ExternCrate(Seq<char>),
    Function(Seq<char>),
    Static(Seq<char>),
    Block,
    Let(Seq<char>),
    MethodCall(Seq<char>),
    Call(PathView),
    Name(Seq<char>),
    Literal(Seq<char>),
    Macro(Seq<char>),
    Reference,
    Tuple,
}

impl View for NodeKind {
    type V = KindView;

    open spec fn view(&self) -> KindView {
        match self {
            NodeKind::Module(name) => KindView::Module(name@),
            NodeKind::ModuleRef(name) => KindView::ModuleRef(name@),
            NodeKind::ExternCrate(name) => KindView::ExternCrate(name@),
            NodeKind::Function(name) => KindView::Function(name@),
            NodeKind::Static(name) => KindView::Static(name@),
            NodeKind::Block => KindView::Block,
            NodeKind::Let(name) => KindView::Let(name@),
            NodeKind::MethodCall(name) => KindView::MethodCall(name@),
            NodeKind::Call(path) => KindView::Call(path@),
            NodeKind::Name(name) => KindView::Name(name@),
            NodeKind::Literal(text) => KindView::Literal(text@),
            NodeKind::Macro(name) => KindView::Macro(name@),
            NodeKind::Reference => KindView::Reference,
            NodeKind::Tuple => KindView::Tuple,
        }
    }
}

impl NodeKind {
    /// Whether the kind is one of the declarations.
    pub fn is_declaration(&self) -> (r: bool)
        ensures
            r == self@.is_declaration(),
    {
        match self {
            NodeKind::Module(_)
            | NodeKind::ModuleRef(_)
            | NodeKind::ExternCrate(_)
            | NodeKind::Function(_)
            | NodeKind::Static(_) => true,
            _ => false,
        }
    }
}

impl KindView {
    /// Whether the kind is one of the declarations.
    pub open spec fn is_declaration(self) -> bool {
        self is Module || self is ModuleRef || self is ExternCrate || self is Function
            || self is Static
    }
}

/// A node of the tree. It owns its children; nothing is shared.
#[derive(Debug, PartialEq, Eq)]
pub struct Node {
    pub kind: NodeKind,
    pub span: Span,
    pub annotations: Vec<Annotation>,
    pub children: Vec<Node>,
}

/// What a [`Node`] means in contracts: the same tree over sequences.
pub struct NodeView {
    pub kind: KindView,
    pub span: SpanView,
    pub annotations: Seq<AnnotationView>,
    pub children: Seq<NodeView>,
}

impl Node {
    /// The tree below `self` as a value of contracts.
    pub open spec fn model(self) -> NodeView
        decreases self,
    {
        NodeView {
            kind: self.kind@,
            span: self.span@,
            annotations: Annotation::views(self.annotations@),
            children: Seq::new(
                self.children@.len(),
                |i: int|
                    if 0 <= i < self.children@.len() {
                        self.children@[i].model()
                    } else {
                        arbitrary()
                    },
            ),
        }
    }

    /// The views of a sequence of nodes, one for one.
    pub open spec fn views(nodes: Seq<Node>) -> Seq<NodeView> {
        Seq::new(nodes.len(), |i: int| nodes[i]@)
    }

    /// The children of a node's view are the views of its children.
    pub proof fn lemma_children(self)
        ensures
            self@.children == Node::views(self.children@),
            self@.kind == self.kind@,
            self@.span == self.span@,
            self@.annotations == Annotation::views(self.annotations@),
    {
    }

    /// Adding a node at the end adds its view at the end.
    pub proof fn lemma_views_push(nodes: Seq<Node>, node: Node)
        ensures
            Node::views(nodes.push(node)) == Node::views(nodes).push(node@),
    {
    }
}

impl NodeView {
    /// The node of kind `kind` at `span`, without annotations or children.
    pub open spec fn leaf(kind: KindView, span: SpanView) -> NodeView {
        NodeView { kind, span, annotations: Seq::empty(), children: Seq::empty() }
    }

    /// `self` with `child` as its new last child.
    pub open spec fn with_child(self, child: NodeView) -> NodeView {
        NodeView { children: self.children.push(child), ..self }
    }

    /// `self` with `annotation` as its new last annotation.
    pub open spec fn with_annotation(self, annotation: AnnotationView) -> NodeView {
        NodeView { annotations: self.annotations.push(annotation), ..self }
    }
}

impl Node {
    /// The node of kind `kind` at `span`, without annotations or children.
    pub fn new(kind: NodeKind, span: Span) -> (r: Node)
        ensures
            r@ == NodeView::leaf(kind@, span@),
    {
        let r = Node { kind, span, annotations: Vec::new(), children: Vec::new() };
        proof {
            r.lemma_children();
            assert(r@.children =~= Seq::empty());
            assert(r@.annotations =~= Seq::empty());
        }
        r
    }

    /// `self` with `child` as its new last child.
    pub fn with_child(self, child: Node) -> (r: Node)
        ensures
            r@ == self@.with_child(child@),
    {
        let Node { kind, span, annotations, mut children } = self;
        children.push(child);
        let r = Node { kind, span, annotations, children };
        proof {
            self.lemma_children();
            r.lemma_children();
            Node::lemma_views_push(self.children@, child);
        }
        r
    }

    /// `self` with `annotation` as its new last annotation.
    pub fn with_annotation(self, annotation: Annotation) -> (r: Node)
        ensures
            r@ == self@.with_annotation(annotation@),
    {
        let Node { kind, span, mut annotations, children } = self;
        annotations.push(annotation);
        let r = Node { kind, span, annotations, children };
        proof {
            self.lemma_children();
            r.lemma_children();
            assert(r@.annotations =~= self@.annotations.push(annotation@));
        }
        r
    }
}

impl View for Node {
    type V = NodeView;

    open spec fn view(&self) -> NodeView {
        self.model()
    }
}

} // verus!
