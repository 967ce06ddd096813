//! What holds of the rewriting as a whole, proved from the definitions of
//! the other modules.

use crate::attributes::{
    has_marker, lemma_without_marker_clean, lemma_without_marker_unmarked, without_marker,
};
use crate::error::RewriteError;
use crate::folder::{collaborator_decl, rewritten, target_of, RewriteUnwraps};
use crate::mode::Mode;
use crate::names::{extension_of, CALL_SITE_STATIC, CALL_SITE_TYPE, CRATE_NAME, PARENT_SCOPE};
use crate::paths::{extension_path, lemma_extension_hops, lemma_path_hops, parent_hops};
use crate::span::SpanView;
use crate::syntax::{KindView, NodeView, PathView};
use crate::synthesizer::{
    call_site_at, call_site_template, lemma_with_span, spans_are, template_span, with_span,
};
use crate::tokens::{
    before, call_site_tokens, is_target, map_stream, map_token, renamed,
    Delimiter, TokenNodeView, TokenView,
};
use vstd::prelude::*;

verus! {

/// A sequence is rewritten node by node: where it succeeds, the result has
/// the rewriting of each node at the place of that node.
pub proof fn lemma_fold_all_each(state: RewriteUnwraps, nodes: Seq<NodeView>)
    ensures
        match state.fold_all(nodes) {
            Ok(out) => out.len() == nodes.len() && forall|i: int|
                0 <= i < nodes.len() ==> state.fold(#[trigger] nodes[i]) == Ok::<
                    NodeView,
                    RewriteError,
                >(out[i]),
            Err(e) => exists|i: int|
                0 <= i < nodes.len() && state.fold(#[trigger] nodes[i]) == Err::<
                    NodeView,
                    RewriteError,
                >(e),
        },
    decreases nodes.len(),
{
    if nodes.len() > 0 {
        let front = nodes.drop_last();
        lemma_fold_all_each(state, front);
        match (state.fold_all(front), state.fold(nodes.last())) {
            (Ok(done), Ok(last)) => {
                let out = done.push(last);
                assert forall|i: int| 0 <= i < nodes.len() implies state.fold(
                    #[trigger] nodes[i],
                ) == Ok::<NodeView, RewriteError>(out[i]) by {
                    if i < front.len() {
                        assert(nodes[i] == front[i]);
                    }
                }
            },
            (Ok(_), Err(_)) => {},
            (Err(e), _) => {
                let i = choose|i: int|
                    0 <= i < front.len() && state.fold(#[trigger] front[i]) == Err::<
                        NodeView,
                        RewriteError,
                    >(e);
                assert(nodes[i] == front[i]);
            },
        }
    }
}

/// Where every node of a sequence is rewritten to itself, so is the
/// sequence.
pub proof fn lemma_fold_all_same(state: RewriteUnwraps, nodes: Seq<NodeView>)
    requires
        forall|i: int|
            0 <= i < nodes.len() ==> state.fold(#[trigger] nodes[i]) == Ok::<
                NodeView,
                RewriteError,
            >(nodes[i]),
    ensures
        state.fold_all(nodes) == Ok::<Seq<NodeView>, RewriteError>(nodes),
    decreases nodes.len(),
{
    if nodes.len() == 0 {
        assert(nodes =~= Seq::empty());
    } else {
        let front = nodes.drop_last();
        assert forall|i: int| 0 <= i < front.len() implies state.fold(#[trigger] front[i]) == Ok::<
            NodeView,
            RewriteError,
        >(front[i]) by {
            assert(front[i] == nodes[i]);
        }
        lemma_fold_all_same(state, front);
        assert(front.push(nodes.last()) =~= nodes);
    }
}

/// Whether the traversal gets through `node` in `state`: `node` can be
/// entered, it does not lack the receiver that its rewriting needs, and,
/// unless it carries the opt-out marker, the same holds of its children in
/// the state that it hands to them.
pub open spec fn rewritable(state: RewriteUnwraps, node: NodeView) -> bool
    decreases node,
{
    &&& state.below(node) is Ok
    &&& has_marker(node.annotations) || {
        &&& target_of(node) is Some ==> node.children.len() > 0
        &&& forall|i: int|
            0 <= i < node.children.len() ==> rewritable(
                state.below(node)->Ok_0,
                #[trigger] node.children[i],
            )
    }
}

/// When a rewriting succeeds: exactly on the trees that the traversal gets
/// through.
pub proof fn lemma_succeeds(state: RewriteUnwraps, node: NodeView)
    ensures
        state.fold(node) is Ok <==> rewritable(state, node),
    decreases node,
{
    if state.below(node) is Ok && !has_marker(node.annotations) {
        let inner = state.below(node)->Ok_0;
        lemma_fold_all_each(inner, node.children);
        assert forall|i: int| 0 <= i < node.children.len() implies (inner.fold(
            #[trigger] node.children[i],
        ) is Ok <==> rewritable(inner, node.children[i])) by {
            lemma_succeeds(inner, node.children[i]);
        }
    }
}

/// What a rewriting leaves of a node. Its position stays. Of its
/// annotations it loses the opt-out markers and nothing else. Its kind stays
/// unless it is a call that is rewritten. It gets no child but the
/// declaration, where it is the scope that gets it, and the call site, where
/// it is a call that is rewritten; it loses none.
pub proof fn lemma_frame(state: RewriteUnwraps, node: NodeView)
    requires
        state.fold(node) is Ok,
    ensures
        ({
            let out = state.fold(node)->Ok_0;
            let replaced = !has_marker(node.annotations) && target_of(node) is Some;
            &&& out.span == node.span
            &&& out.annotations == without_marker(node.annotations)
            &&& !has_marker(out.annotations)
            &&& !replaced ==> out.kind == node.kind
            &&& out.children.len() == node.children.len() + state.added_to(node).len() + if replaced {
                1int
            } else {
                0int
            }
        }),
{
    lemma_without_marker_clean(node.annotations);
    if !has_marker(node.annotations) {
        lemma_without_marker_unmarked(node.annotations);
        lemma_fold_all_each(state.below(node)->Ok_0, node.children);
    }
}

/// Exclusion. A node that carries the opt-out marker comes back as it was
/// but for the marker, whatever stands below it. This leaves out the inputs
/// on which a scope is handled before its annotations are read: a scope
/// that cannot be entered, and the scope that gets the declaration.
pub proof fn lemma_opt_out(state: RewriteUnwraps, node: NodeView)
    requires
        has_marker(node.annotations),
        state.below(node) is Ok,
        !state.anchors_at(node),
    ensures
        state.fold(node) == Ok::<NodeView, RewriteError>(
            NodeView { annotations: without_marker(node.annotations), ..node },
        ),
        !has_marker(without_marker(node.annotations)),
{
    lemma_without_marker_clean(node.annotations);
}

/// Whether nothing in `node` asks for a change: no node of it carries the
/// opt-out marker, is a call of a member that is rewritten, or is a scope
/// without a body.
pub open spec fn inert(node: NodeView) -> bool
    decreases node,
{
    &&& !has_marker(node.annotations)
    &&& target_of(node) is None
    &&& !(node.kind is ModuleRef)
    &&& forall|i: int| 0 <= i < node.children.len() ==> inert(#[trigger] node.children[i])
}

/// Whether no node of `node` is a named scope.
pub open spec fn scope_free(node: NodeView) -> bool
    decreases node,
{
    &&& !(node.kind is Module)
    &&& !(node.kind is ModuleRef)
    &&& forall|i: int| 0 <= i < node.children.len() ==> scope_free(#[trigger] node.children[i])
}

/// Calls that are no targets stay. In a traversal that adds no declaration
/// and writes its paths from the root, a tree in which nothing asks for a
/// change comes back as it was.
pub proof fn lemma_inert_untouched(state: RewriteUnwraps, node: NodeView)
    requires
        inert(node),
        !state.inject,
        state.depth < 0,
    ensures
        state.fold(node) == Ok::<NodeView, RewriteError>(node),
    decreases node,
{
    assert forall|i: int| 0 <= i < node.children.len() implies state.fold(
        #[trigger] node.children[i],
    ) == Ok::<NodeView, RewriteError>(node.children[i]) by {
        lemma_inert_untouched(state, node.children[i]);
    }
    lemma_fold_all_same(state, node.children);
}

/// The same holds in every state of a tree that holds no named scope.
pub proof fn lemma_expression_untouched(state: RewriteUnwraps, node: NodeView)
    requires
        inert(node),
        scope_free(node),
    ensures
        state.fold(node) == Ok::<NodeView, RewriteError>(node),
    decreases node,
{
    assert forall|i: int| 0 <= i < node.children.len() implies state.fold(
        #[trigger] node.children[i],
    ) == Ok::<NodeView, RewriteError>(node.children[i]) by {
        lemma_expression_untouched(state, node.children[i]);
    }
    lemma_fold_all_same(state, node.children);
}

/// In the plain mode a whole input in which nothing asks for a change is
/// returned as it was.
pub proof fn lemma_plain_untouched(input: NodeView)
    requires
        inert(input),
    ensures
        rewritten("plain"@, input) == Ok::<NodeView, RewriteError>(input),
{
    lemma_inert_untouched(RewriteUnwraps::start(Mode::Plain), input);
}

/// Whether nothing in `node` asks for a change and no node of it is a
/// named scope: such a tree is rewritten to itself in every state.
pub open spec fn settled(node: NodeView) -> bool {
    inert(node) && scope_free(node)
}

/// A node without annotations or children is settled unless its kind is
/// one that the traversal acts on.
proof fn lemma_leaf_settled(kind: KindView, span: SpanView)
    requires
        !(kind is MethodCall),
        !(kind is Module),
        !(kind is ModuleRef),
    ensures
        settled(NodeView::leaf(kind, span)),
{
}

/// One more settled child leaves a settled node settled.
proof fn lemma_with_child_settled(node: NodeView, child: NodeView)
    requires
        settled(node),
        settled(child),
    ensures
        settled(node.with_child(child)),
{
    let grown = node.with_child(child);
    assert forall|i: int| 0 <= i < grown.children.len() implies inert(
        #[trigger] grown.children[i],
    ) && scope_free(grown.children[i]) by {
        if i < node.children.len() {
            assert(grown.children[i] == node.children[i]);
        }
    }
}

/// Moving a tree to another place changes nothing that the traversal acts
/// on.
proof fn lemma_with_span_settled(node: NodeView, span: SpanView)
    requires
        settled(node),
    ensures
        settled(with_span(node, span)),
    decreases node,
{
    let moved = with_span(node, span);
    assert forall|i: int| 0 <= i < moved.children.len() implies inert(
        #[trigger] moved.children[i],
    ) && scope_free(moved.children[i]) by {
        lemma_with_span_settled(node.children[i], span);
    }
}

/// The call-site expression holds nothing that the traversal acts on.
pub proof fn lemma_call_site_settled(span: SpanView)
    ensures
        settled(call_site_at(span)),
{
    let at = template_span();
    let file = NodeView::leaf(KindView::Macro("file"@), at);
    let line = NodeView::leaf(KindView::Macro("line"@), at);
    let tuple = NodeView::leaf(KindView::Tuple, at);
    let holder = NodeView::leaf(KindView::Static(CALL_SITE_STATIC@), at);
    let name = NodeView::leaf(KindView::Name(CALL_SITE_STATIC@), at);
    let reference = NodeView::leaf(KindView::Reference, at);
    let constructor = PathView {
        global: true,
        segments: seq![CRATE_NAME@, CALL_SITE_TYPE@],
    };
    let call = NodeView::leaf(KindView::Call(constructor), at);
    let block = NodeView::leaf(KindView::Block, at);
    lemma_leaf_settled(file.kind, at);
    lemma_leaf_settled(line.kind, at);
    lemma_leaf_settled(tuple.kind, at);
    lemma_leaf_settled(holder.kind, at);
    lemma_leaf_settled(name.kind, at);
    lemma_leaf_settled(reference.kind, at);
    lemma_leaf_settled(call.kind, at);
    lemma_leaf_settled(block.kind, at);
    lemma_with_child_settled(tuple, file);
    lemma_with_child_settled(tuple.with_child(file), line);
    let pair = tuple.with_child(file).with_child(line);
    lemma_with_child_settled(holder, pair);
    lemma_with_child_settled(reference, name);
    lemma_with_child_settled(call, reference.with_child(name));
    lemma_with_child_settled(block, holder.with_child(pair));
    lemma_with_child_settled(
        block.with_child(holder.with_child(pair)),
        call.with_child(reference.with_child(name)),
    );
    lemma_with_span_settled(call_site_template(), span);
}

/// The call-site expression is rewritten to itself: it makes no difference
/// whether the arguments of a rewritten call are visited before the call
/// site is added to them or after.
pub proof fn lemma_call_site_untouched(state: RewriteUnwraps, span: SpanView)
    ensures
        state.fold(call_site_at(span)) == Ok::<NodeView, RewriteError>(call_site_at(span)),
{
    lemma_call_site_settled(span);
    lemma_expression_untouched(state, call_site_at(span));
}

/// Argument preservation and span fidelity. A call of a member that is
/// rewritten, whose receiver and arguments can be rewritten, becomes a call
/// with one argument more: the rewritten receiver and arguments stand at
/// their places, in their order, and the last argument is the call-site
/// expression, every node of which stands at the place of the member
/// call. An argument that holds nothing to rewrite is handed on as it was.
pub proof fn lemma_arguments_preserved(state: RewriteUnwraps, call: NodeView)
    requires
        target_of(call) is Some,
        !has_marker(call.annotations),
        call.children.len() > 0,
        forall|i: int| 0 <= i < call.children.len() ==> state.fold(#[trigger] call.children[i]) is Ok,
    ensures
        state.fold(call) is Ok,
        ({
            let out = state.fold(call)->Ok_0;
            let (function, capability) = target_of(call)->Some_0;
            &&& out.kind == KindView::Call(extension_path(state.depth as int, capability, function))
            &&& out.span == call.span
            &&& out.annotations == call.annotations
            &&& out.children.len() == call.children.len() + 1
            &&& forall|i: int|
                0 <= i < call.children.len() ==> state.fold(#[trigger] call.children[i]) == Ok::<
                    NodeView,
                    RewriteError,
                >(out.children[i])
            &&& forall|i: int|
                0 <= i < call.children.len() && settled(#[trigger] call.children[i])
                    ==> out.children[i] == call.children[i]
            &&& out.children.last() == call_site_at(call.span)
            &&& spans_are(out.children.last(), call.span)
        }),
{
    lemma_fold_all_each(state, call.children);
    lemma_with_span(call_site_template(), call.span);
    let out = state.fold(call)->Ok_0;
    assert forall|i: int|
        0 <= i < call.children.len() && settled(#[trigger] call.children[i]) implies out.children[i]
        == call.children[i] by {
        lemma_expression_untouched(state, call.children[i]);
    }
}

/// How many declarations of the crate of the extension traits `node`
/// holds, itself included.
pub open spec fn declarations(node: NodeView) -> nat
    decreases node,
{
    declarations_in(node.children) + if node.kind == KindView::ExternCrate(CRATE_NAME@) {
        1nat
    } else {
        0nat
    }
}

/// How many such declarations the trees of `nodes` hold together.
pub open spec fn declarations_in(nodes: Seq<NodeView>) -> nat
    decreases nodes,
{
    if nodes.len() == 0 {
        0
    } else {
        declarations_in(nodes.drop_last()) + declarations(nodes.last())
    }
}

/// One more tree at the end adds its declarations.
proof fn lemma_declarations_push(front: Seq<NodeView>, last: NodeView)
    ensures
        declarations_in(front.push(last)) == declarations_in(front) + declarations(last),
{
    assert(front.push(last).drop_last() =~= front);
}

/// Moving a tree to another place keeps its declarations.
proof fn lemma_with_span_declarations(node: NodeView, span: SpanView)
    ensures
        declarations(with_span(node, span)) == declarations(node),
    decreases node,
{
    lemma_with_span_declarations_in(node.children, with_span(node, span).children, span);
}

/// The same for a sequence that was moved tree by tree.
proof fn lemma_with_span_declarations_in(
    nodes: Seq<NodeView>,
    moved: Seq<NodeView>,
    span: SpanView,
)
    requires
        moved.len() == nodes.len(),
        forall|i: int| 0 <= i < nodes.len() ==> #[trigger] moved[i] == with_span(nodes[i], span),
    ensures
        declarations_in(moved) == declarations_in(nodes),
    decreases nodes,
{
    if nodes.len() > 0 {
        lemma_with_span_declarations_in(nodes.drop_last(), moved.drop_last(), span);
        lemma_with_span_declarations(nodes.last(), span);
    }
}

/// The call-site expression declares nothing.
pub proof fn lemma_call_site_declares_nothing(span: SpanView)
    ensures
        declarations(call_site_at(span)) == 0,
{
    let at = template_span();
    let file = NodeView::leaf(KindView::Macro("file"@), at);
    let line = NodeView::leaf(KindView::Macro("line"@), at);
    let pair = NodeView::leaf(KindView::Tuple, at).with_child(file).with_child(line);
    let holder = NodeView::leaf(KindView::Static(CALL_SITE_STATIC@), at).with_child(
        pair,
    );
    let name = NodeView::leaf(KindView::Name(CALL_SITE_STATIC@), at);
    let borrowed = NodeView::leaf(KindView::Reference, at).with_child(name);
    let wrapped = call_site_template().children[1];
    let none = Seq::<NodeView>::empty();
    lemma_declarations_push(none, file);
    lemma_declarations_push(none.push(file), line);
    lemma_declarations_push(none, pair);
    lemma_declarations_push(none, name);
    lemma_declarations_push(none, borrowed);
    lemma_declarations_push(none, holder);
    lemma_declarations_push(none.push(holder), wrapped);
    lemma_with_span_declarations(call_site_template(), span);
}

/// Once the declaration has been added, nothing below adds another: a
/// traversal that has none to add returns as many declarations as it was
/// given.
pub proof fn lemma_declarations_kept(state: RewriteUnwraps, node: NodeView)
    requires
        !state.inject,
        state.fold(node) is Ok,
    ensures
        declarations(state.fold(node)->Ok_0) == declarations(node),
    decreases node,
{
    if !has_marker(node.annotations) {
        let inner = state.below(node)->Ok_0;
        lemma_declarations_kept_in(inner, node.children);
        if target_of(node) is Some {
            lemma_declarations_push(
                inner.fold_all(node.children)->Ok_0,
                call_site_at(node.span),
            );
            lemma_call_site_declares_nothing(node.span);
        }
    }
}

/// The same for a sequence.
pub proof fn lemma_declarations_kept_in(state: RewriteUnwraps, nodes: Seq<NodeView>)
    requires
        !state.inject,
        state.fold_all(nodes) is Ok,
    ensures
        declarations_in(state.fold_all(nodes)->Ok_0) == declarations_in(nodes),
    decreases nodes,
{
    if nodes.len() > 0 {
        lemma_declarations_kept_in(state, nodes.drop_last());
        lemma_declarations_kept(state, nodes.last());
        lemma_declarations_push(
            state.fold_all(nodes.drop_last())->Ok_0,
            state.fold(nodes.last())->Ok_0,
        );
    }
}

/// Single injection. The scope that gets the declaration gets it as its new
/// last child, and the tree below it gets no other: the result holds
/// exactly one declaration more than the input.
pub proof fn lemma_single_injection(state: RewriteUnwraps, scope: NodeView)
    requires
        state.anchors_at(scope),
        state.fold(scope) is Ok,
    ensures
        ({
            let out = state.fold(scope)->Ok_0;
            &&& out.children.len() == scope.children.len() + 1
            &&& out.children.last() == collaborator_decl(scope.span)
            &&& declarations(out) == declarations(scope) + 1
        }),
{
    let inner = RewriteUnwraps { inject: false, depth: 0 };
    let out = state.fold(scope)->Ok_0;
    let decl = collaborator_decl(scope.span);
    assert(declarations(decl) == 1);
    if has_marker(scope.annotations) {
        assert(out.children =~= scope.children.push(decl));
        lemma_declarations_push(scope.children, decl);
    } else {
        let folded = inner.fold_all(scope.children)->Ok_0;
        lemma_fold_all_each(inner, scope.children);
        lemma_declarations_kept_in(inner, scope.children);
        assert(out.children =~= folded.push(decl));
        lemma_declarations_push(folded, decl);
    }
}

/// The node that is reached from `node` by going, at each step, to the
/// child at the next place of `route`.
pub open spec fn descendant(node: NodeView, route: Seq<int>) -> Option<NodeView>
    decreases route.len(),
{
    if route.len() == 0 {
        Some(node)
    } else if 0 <= route[0] < node.children.len() {
        descendant(node.children[route[0]], route.skip(1))
    } else {
        None
    }
}

/// The state in which a traversal that starts at `node` in `state` visits
/// the node at `route`, if it gets there: it does not go below a node that
/// carries the opt-out marker or that cannot be entered.
pub open spec fn state_at(state: RewriteUnwraps, node: NodeView, route: Seq<int>) -> Option<
    RewriteUnwraps,
>
    decreases route.len(),
{
    if route.len() == 0 {
        Some(state)
    } else if 0 <= route[0] < node.children.len() && !has_marker(node.annotations) && state.below(
        node,
    ) is Ok {
        state_at(state.below(node)->Ok_0, node.children[route[0]], route.skip(1))
    } else {
        None
    }
}

/// How many named scopes are entered on the way from `node` to the node at
/// `route`: `node` counts if it is one, the node at the end does not.
pub open spec fn scopes_entered(node: NodeView, route: Seq<int>) -> nat
    decreases route.len(),
{
    if route.len() == 0 || !(0 <= route[0] < node.children.len()) {
        0
    } else {
        scopes_entered(node.children[route[0]], route.skip(1)) + if node.kind is Module {
            1nat
        } else {
            0nat
        }
    }
}

/// Every node that the traversal visits is rewritten at its place: the
/// result holds, at the same route, the rewriting of that node in the state
/// in which the traversal got to it.
pub proof fn lemma_visited_in_place(state: RewriteUnwraps, node: NodeView, route: Seq<int>)
    requires
        state.fold(node) is Ok,
        state_at(state, node, route) is Some,
    ensures
        descendant(node, route) is Some,
        descendant(state.fold(node)->Ok_0, route) is Some,
        state_at(state, node, route)->Some_0.fold(descendant(node, route)->Some_0) == Ok::<
            NodeView,
            RewriteError,
        >(descendant(state.fold(node)->Ok_0, route)->Some_0),
    decreases route.len(),
{
    if route.len() > 0 {
        let inner = state.below(node)->Ok_0;
        lemma_fold_all_each(inner, node.children);
        lemma_visited_in_place(inner, node.children[route[0]], route.skip(1));
    }
}

/// Below the scope that got the declaration, the depth counts the named
/// scopes that were entered since; where paths start at the root, it stays
/// as it is.
pub proof fn lemma_depth_counts_scopes(state: RewriteUnwraps, node: NodeView, route: Seq<int>)
    requires
        !state.inject,
        state_at(state, node, route) is Some,
    ensures
        state_at(state, node, route) == Some(
            RewriteUnwraps {
                inject: false,
                depth: if state.depth < 0 {
                    state.depth
                } else {
                    (state.depth + scopes_entered(node, route)) as i32
                },
            },
        ),
        state.depth >= 0 ==> state.depth + scopes_entered(node, route) <= i32::MAX,
    decreases route.len(),
{
    if route.len() > 0 {
        let inner = state.below(node)->Ok_0;
        lemma_depth_counts_scopes(inner, node.children[route[0]], route.skip(1));
    }
}

/// The names of the extension traits and of their functions are no climbs.
proof fn lemma_extension_names(member: Seq<char>)
    requires
        extension_of(member) is Some,
    ensures
        extension_of(member)->Some_0.0 != PARENT_SCOPE@,
        extension_of(member)->Some_0.1 != PARENT_SCOPE@,
{
    reveal_strlit("super");
    reveal_strlit("unwrap_ext");
    reveal_strlit("UnwrapExt");
    reveal_strlit("unwrap_err_ext");
    reveal_strlit("UnwrapErrExt");
    assert("unwrap_ext"@.len() == 10);
    assert("UnwrapExt"@.len() == 9);
    assert("unwrap_err_ext"@.len() == 14);
    assert("UnwrapErrExt"@.len() == 12);
}

/// Depth-correct paths. A call that is rewritten below the scope that got
/// the declaration reaches the extension function by a path that starts at
/// its own scope and climbs once for each named scope that lies between
/// that scope and the call.
pub proof fn lemma_depth_correct_path(state: RewriteUnwraps, anchor: NodeView, route: Seq<int>)
    requires
        state.anchors_at(anchor),
        state.fold(anchor) is Ok,
        route.len() > 0,
        state_at(state, anchor, route) is Some,
        descendant(anchor, route) matches Some(call) && target_of(call) is Some && !has_marker(
            call.annotations,
        ),
    ensures
        descendant(state.fold(anchor)->Ok_0, route) matches Some(call) && call.kind matches KindView::Call(
            path,
        ) && !path.global && parent_hops(path.segments) == scopes_entered(
            anchor.children[route[0]],
            route.skip(1),
        ),
{
    let first = RewriteUnwraps { inject: false, depth: 0 };
    lemma_visited_in_place(state, anchor, route);
    lemma_depth_counts_scopes(first, anchor.children[route[0]], route.skip(1));
    let call = descendant(anchor, route)->Some_0;
    let reached = state_at(state, anchor, route)->Some_0;
    let (function, capability) = target_of(call)->Some_0;
    match call.kind {
        KindView::MethodCall(member) => {
            lemma_extension_names(member);
        },
        _ => {},
    }
    lemma_extension_hops(reached.depth as int, capability, function);
    lemma_path_hops(reached.depth as int);
}

/// In a traversal that has no declaration to add, a call that is rewritten
/// gets the path for the depth at which it stands: from the root while no
/// scope above got the declaration, and else with one climb for each named
/// scope since.
pub proof fn lemma_call_path(state: RewriteUnwraps, node: NodeView, route: Seq<int>)
    requires
        !state.inject,
        state.fold(node) is Ok,
        state_at(state, node, route) is Some,
        descendant(node, route) matches Some(call) && target_of(call) is Some && !has_marker(
            call.annotations,
        ),
    ensures
        descendant(state.fold(node)->Ok_0, route) matches Some(call) && call.kind matches KindView::Call(
            path,
        ) && path.global == (state.depth < 0) && parent_hops(path.segments) == if state.depth
            < 0 {
            0
        } else {
            state.depth + scopes_entered(node, route)
        },
{
    lemma_visited_in_place(state, node, route);
    lemma_depth_counts_scopes(state, node, route);
    let call = descendant(node, route)->Some_0;
    let reached = state_at(state, node, route)->Some_0;
    let (function, capability) = target_of(call)->Some_0;
    match call.kind {
        KindView::MethodCall(member) => {
            lemma_extension_names(member);
        },
        _ => {},
    }
    lemma_extension_hops(reached.depth as int, capability, function);
    lemma_path_hops(reached.depth as int);
}

/// Whether `token` neither is nor encloses one of the member names that
/// are rewritten.
pub open spec fn untargeted(token: TokenView) -> bool
    decreases token,
{
    match token.kind {
        TokenNodeView::Term(name) => extension_of(name) is None,
        TokenNodeView::Group(_, inner) => forall|i: int|
            0 <= i < inner.len() ==> untargeted(#[trigger] inner[i]),
        _ => true,
    }
}

/// Whether every token of `token` and of what it encloses stands at `span`.
pub open spec fn token_spans_are(token: TokenView, span: SpanView) -> bool
    decreases token,
{
    &&& token.span == span
    &&& match token.kind {
        TokenNodeView::Group(_, inner) => forall|i: int|
            0 <= i < inner.len() ==> token_spans_are(#[trigger] inner[i], span),
        _ => true,
    }
}

/// The token-stream engine leaves alone what holds none of the member
/// names.
pub proof fn lemma_tokens_untouched(tokens: Seq<TokenView>)
    requires
        forall|i: int| 0 <= i < tokens.len() ==> untargeted(#[trigger] tokens[i]),
    ensures
        map_stream(tokens) == tokens,
    decreases tokens,
{
    assert forall|i: int| 0 <= i < tokens.len() implies map_token(before(tokens, i), tokens[i])
        == tokens[i] by {
        match tokens[i].kind {
            TokenNodeView::Group(_, inner) => {
                if i > 0 {
                    assert(untargeted(tokens[i - 1]));
                }
                lemma_tokens_untouched(inner);
            },
            _ => {},
        }
    }
}

/// What the token-stream engine does to a call. A member name that is
/// rewritten gets the name of its extension function and keeps its place;
/// parentheses that follow it at once keep their place and their own span
/// and get, in place of whatever they held, the call-site tokens, every one
/// of which stands at the place of the name.
pub proof fn lemma_token_call(tokens: Seq<TokenView>, i: int)
    requires
        0 <= i < tokens.len(),
        is_target(tokens[i]),
    ensures
        map_stream(tokens).len() == tokens.len(),
        map_stream(tokens)[i].span == tokens[i].span,
        map_stream(tokens)[i].kind == TokenNodeView::Term(renamed(tokens[i].kind->Term_0)),
        renamed(tokens[i].kind->Term_0) == extension_of(tokens[i].kind->Term_0)->Some_0.0,
        i + 1 < tokens.len() && tokens[i + 1].kind is Group && tokens[i + 1].kind->Group_0
            == Delimiter::Parenthesis ==> {
            &&& map_stream(tokens)[i + 1].span == tokens[i + 1].span
            &&& map_stream(tokens)[i + 1].kind == TokenNodeView::Group(
                Delimiter::Parenthesis,
                call_site_tokens(tokens[i].span),
            )
            &&& call_site_tokens(tokens[i].span).len() == 1
            &&& token_spans_are(call_site_tokens(tokens[i].span)[0], tokens[i].span)
        },
{
    let span = tokens[i].span;
    let outer = call_site_tokens(span)[0];
    let inner = outer.kind->Group_1;
    assert(token_spans_are(inner[0], span));
    assert(token_spans_are(inner[1], span));
    assert(token_spans_are(inner[2], span));
}

} // verus!
