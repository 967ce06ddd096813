//! The call-site synthesizer: the expression that stands for "this place in
//! the source". It is built from a fixed template, and then every node of it
//! is moved to the place of the call that it is made for.

use crate::names::{CALL_SITE_STATIC, CALL_SITE_TYPE, CRATE_NAME};
use crate::span::{Span, SpanView};
use crate::syntax::{KindView, Node, NodeKind, NodeView, PathView, QualifiedPath};
use vstd::prelude::*;

verus! {

/// The file that the nodes of the template name before they are moved.
pub const TEMPLATE_FILE: &'static str = "<call site template>";

/// The place of the template's own nodes.
pub open spec fn template_span() -> SpanView {
    SpanView { file: TEMPLATE_FILE@, line: 0 }
}

/// The template: a block that declares a static pair of the current file and
/// the current line, and hands a borrow of it to the constructor of the
/// call-site type.
pub open spec fn call_site_template() -> NodeView {
    let at = template_span();
    let pair = NodeView::leaf(KindView::Tuple, at).with_child(
        NodeView::leaf(KindView::Macro("file"@), at),
    ).with_child(NodeView::leaf(KindView::Macro("line"@), at));
    let holder = NodeView::leaf(KindView::Static(CALL_SITE_STATIC@), at).with_child(pair);
    let borrowed = NodeView::leaf(KindView::Reference, at).with_child(
        NodeView::leaf(KindView::Name(CALL_SITE_STATIC@), at),
    );
    let constructor = PathView { global: true, segments: seq![CRATE_NAME@, CALL_SITE_TYPE@] };
    let wrapped = NodeView::leaf(KindView::Call(constructor), at).with_child(borrowed);
    NodeView::leaf(KindView::Block, at).with_child(holder).with_child(wrapped)
}

/// `node` with the span of every node of it replaced by `span`.
pub open spec fn with_span(node: NodeView, span: SpanView) -> NodeView
    decreases node,
{
    NodeView {
        kind: node.kind,
        span: span,
        annotations: node.annotations,
        children: Seq::new(
            node.children.len(),
            |i: int|
                if 0 <= i < node.children.len() {
                    with_span(node.children[i], span)
                } else {
                    arbitrary()
                },
        ),
    }
}

/// Whether every node of `node` stands at `span`.
pub open spec fn spans_are(node: NodeView, span: SpanView) -> bool
    decreases node,
{
    &&& node.span == span
    &&& forall|i: int| 0 <= i < node.children.len() ==> spans_are(#[trigger] node.children[i], span)
}

/// The call-site expression for a call at `span`.
pub open spec fn call_site_at(span: SpanView) -> NodeView {
    with_span(call_site_template(), span)
}

/// After the override no node is left at another place.
pub proof fn lemma_with_span(node: NodeView, span: SpanView)
    ensures
        spans_are(with_span(node, span), span),
    decreases node,
{
    let moved = with_span(node, span);
    assert forall|i: int| 0 <= i < moved.children.len() implies spans_are(
        #[trigger] moved.children[i],
        span,
    ) by {
        lemma_with_span(node.children[i], span);
    }
}

/// Builds the template.
pub fn build_template() -> (template: Node)
    ensures
        template@ == call_site_template(),
{
    let pair = Node::new(NodeKind::Tuple, Span::new(TEMPLATE_FILE, 0)).with_child(
        Node::new(NodeKind::Macro(String::from_str("file")), Span::new(TEMPLATE_FILE, 0)),
    ).with_child(
        Node::new(NodeKind::Macro(String::from_str("line")), Span::new(TEMPLATE_FILE, 0)),
    );
    let holder = Node::new(
        NodeKind::Static(String::from_str(CALL_SITE_STATIC)),
        Span::new(TEMPLATE_FILE, 0),
    ).with_child(pair);
    let borrowed = Node::new(NodeKind::Reference, Span::new(TEMPLATE_FILE, 0)).with_child(
        Node::new(
            NodeKind::Name(String::from_str(CALL_SITE_STATIC)),
            Span::new(TEMPLATE_FILE, 0),
        ),
    );
    let mut segments: Vec<String> = Vec::new();
    segments.push(String::from_str(CRATE_NAME));
    segments.push(String::from_str(CALL_SITE_TYPE));
    let constructor = QualifiedPath { global: true, segments };
    assert(constructor@.segments =~= seq![CRATE_NAME@, CALL_SITE_TYPE@]);
    let wrapped = Node::new(NodeKind::Call(constructor), Span::new(TEMPLATE_FILE, 0)).with_child(
        borrowed,
    );
    Node::new(NodeKind::Block, Span::new(TEMPLATE_FILE, 0)).with_child(holder).with_child(wrapped)
}

/// Moves every node of `node` to `span`.
pub fn override_spans(node: Node, span: &Span) -> (moved: Node)
    ensures
        moved@ == with_span(node@, span@),
    decreases node,
{
    proof {
        node.lemma_children();
    }
    let Node { kind, span: _, annotations, children } = node;
    let ghost given = children@;
    let mut moved_children: Vec<Node> = Vec::new();
    for child in it: children
        invariant
            it.seq() == given,
            given == node.children@,
            moved_children@.len() == it.index(),
            forall|i: int|
                0 <= i < it.index() ==> (#[trigger] moved_children@[i])@ == with_span(
                    given[i]@,
                    span@,
                ),
    {
        let moved_child = override_spans(child, span);
        moved_children.push(moved_child);
    }
    let moved = Node { kind, span: span.clone(), annotations, children: moved_children };
    proof {
        moved.lemma_children();
        assert(moved@.children =~= with_span(node@, span@).children);
    }
    moved
}

/// Synthesizes the call-site expression for a call at `span`. Every node of
/// it stands at `span`, and none at the place of the template.
pub fn call_site_expr(span: &Span) -> (expr: Node)
    ensures
        expr@ == call_site_at(span@),
        spans_are(expr@, span@),
{
    proof {
        lemma_with_span(call_site_template(), span@);
    }
    override_spans(build_template(), span)
}

} // verus!
