//! The tree folder: visits every node of a tree, parent before children,
//! replaces the member calls `unwrap` and `unwrap_err` by calls that carry
//! their call site, and adds the declaration of the crate of the extension
//! traits where the mode asks for it.

use crate::attributes::{
    has_marker, lemma_without_marker_unmarked, should_rewrite, without_marker,
};
use crate::error::RewriteError;
use crate::mode::{mode_of, parse_mode, Mode};
use crate::names::{extension_names, extension_of, reads, CRATE_NAME};
use crate::paths::{build_extension_path, extension_path};
use crate::span::{Span, SpanView};
use crate::syntax::{KindView, Node, NodeKind, NodeView};
use crate::synthesizer::{call_site_at, call_site_expr};
use vstd::prelude::*;

verus! {

/// The state of a traversal on its way down the tree. Each node hands its
/// children a copy of its own, adjusted for the scope that it opens;
/// siblings never see each other's.
#[derive(Clone, Copy, Debug, PartialEq, Eq)]
pub struct RewriteUnwraps {
    /// Whether the declaration of the crate of the extension traits has
    /// still to be added to a scope.
    pub inject: bool,
    /// How many named scopes lie between here and the scope that got the
    /// declaration. Negative while no scope on the way has got it: paths
    /// then start at the root of the program.
    pub depth: i32,
}

/// The declaration that is added to a scope, placed at `span`.
pub open spec fn collaborator_decl(span: SpanView) -> NodeView {
    NodeView::leaf(KindView::ExternCrate(CRATE_NAME@), span)
}

/// Whether one of `children` declares the crate of the extension traits.
pub open spec fn declares_collaborator(children: Seq<NodeView>) -> bool {
    exists|i: int|
        0 <= i < children.len() && (#[trigger] children[i]).kind == KindView::ExternCrate(
            CRATE_NAME@,
        )
}

/// The function and the trait that replace `node`, the function first, if
/// `node` is a call of one of the members that are rewritten.
pub open spec fn target_of(node: NodeView) -> Option<(Seq<char>, Seq<char>)> {
    match node.kind {
        KindView::MethodCall(member) => extension_of(member),
        _ => None,
    }
}

/// The call that stands in for the member call `call`: `function` of the
/// trait `capability`, reached from `depth`, applied to the receiver and
/// the arguments of `call` in their order and then to the call site of
/// `call`. Position and annotations stay those of `call`.
pub open spec fn substituted(
    depth: int,
    function: Seq<char>,
    capability: Seq<char>,
    call: NodeView,
) -> NodeView {
    NodeView {
        kind: KindView::Call(extension_path(depth, capability, function)),
        span: call.span,
        annotations: call.annotations,
        children: call.children.push(call_site_at(call.span)),
    }
}

impl RewriteUnwraps {
    /// The state in which a traversal starts.
    pub open spec fn start(mode: Mode) -> RewriteUnwraps {
        RewriteUnwraps { inject: mode is Inject, depth: -1i32 }
    }

    /// Whether `node` is the scope that gets the declaration: the first
    /// named scope with a body that is met while the declaration has still
    /// to be added, and that does not hold it already.
    pub open spec fn anchors_at(self, node: NodeView) -> bool {
        self.inject && node.kind is Module && !declares_collaborator(node.children)
    }

    /// The state that `node` hands to its children. A scope without a body
    /// cannot be entered. The scope that gets the declaration starts the
    /// count of depths at 0; every other named scope below it is one scope
    /// deeper than its parent.
    pub open spec fn below(self, node: NodeView) -> Result<RewriteUnwraps, RewriteError> {
        if node.kind is ModuleRef {
            Err(RewriteError::ScopeWithoutBody)
        } else if !(node.kind is Module) {
            Ok(self)
        } else if self.anchors_at(node) {
            Ok(RewriteUnwraps { inject: false, depth: 0 })
        } else if self.depth < 0 {
            Ok(self)
        } else if self.depth < i32::MAX {
            Ok(RewriteUnwraps { inject: self.inject, depth: (self.depth + 1) as i32 })
        } else {
            Err(RewriteError::NestingTooDeep)
        }
    }

    /// What `node` gets as new last children: the declaration if `node` is
    /// the scope that gets it, and nothing otherwise.
    pub open spec fn added_to(self, node: NodeView) -> Seq<NodeView> {
        if self.anchors_at(node) {
            seq![collaborator_decl(node.span)]
        } else {
            Seq::empty()
        }
    }

    /// The rewriting of `node` in the state `self`.
    ///
    /// A node that carries the opt-out marker loses the marker and keeps
    /// everything below it. A call of `unwrap` or `unwrap_err` becomes the
    /// call of the extension function, its receiver and arguments rewritten
    /// in turn. Every other node keeps its kind and gets its children
    /// rewritten. The first failure on the way is the result.
    pub open spec fn fold(self, node: NodeView) -> Result<NodeView, RewriteError>
        decreases node,
    {
        match self.below(node) {
            Err(e) => Err(e),
            Ok(inner) => if has_marker(node.annotations) {
                Ok(
                    NodeView {
                        annotations: without_marker(node.annotations),
                        children: node.children + self.added_to(node),
                        ..node
                    },
                )
            } else {
                match target_of(node) {
                    Some((function, capability)) => if node.children.len() == 0 {
                        Err(RewriteError::MissingReceiver)
                    } else {
                        match inner.fold_all(node.children) {
                            Err(e) => Err(e),
                            Ok(arguments) => Ok(
                                substituted(
                                    inner.depth as int,
                                    function,
                                    capability,
                                    NodeView { children: arguments, ..node },
                                ),
                            ),
                        }
                    },
                    None => match inner.fold_all(node.children) {
                        Err(e) => Err(e),
                        Ok(children) => Ok(
                            NodeView { children: children + self.added_to(node), ..node },
                        ),
                    },
                }
            },
        }
    }

    /// The rewriting of `nodes` one after the other, all in the state
    /// `self`: the rewritten nodes in their order, or the failure of the
    /// first node that fails.
    pub open spec fn fold_all(self, nodes: Seq<NodeView>) -> Result<Seq<NodeView>, RewriteError>
        decreases nodes,
    {
        if nodes.len() == 0 {
            Ok(Seq::empty())
        } else {
            match self.fold_all(nodes.drop_last()) {
                Err(e) => Err(e),
                Ok(front) => match self.fold(nodes.last()) {
                    Err(e) => Err(e),
                    Ok(last) => Ok(front.push(last)),
                },
            }
        }
    }
}

/// What a rewriting returned, as a value of contracts.
pub open spec fn outcome(r: Result<Node, RewriteError>) -> Result<NodeView, RewriteError> {
    match r {
        Ok(node) => Ok(node@),
        Err(e) => Err(e),
    }
}

/// What the rewriting of a sequence returned, as a value of contracts.
pub open spec fn outcomes(r: Result<Vec<Node>, RewriteError>) -> Result<
    Seq<NodeView>,
    RewriteError,
> {
    match r {
        Ok(nodes) => Ok(Node::views(nodes@)),
        Err(e) => Err(e),
    }
}

/// The whole rewriting: of `input`, in the mode that `mode` names.
pub open spec fn rewritten(mode: Seq<char>, input: NodeView) -> Result<NodeView, RewriteError> {
    match mode_of(mode) {
        Err(e) => Err(e),
        Ok(mode) => RewriteUnwraps::start(mode).fold(input),
    }
}

/// Whether one of `children` declares the crate of the extension traits.
pub fn holds_collaborator_decl(children: &Vec<Node>) -> (r: bool)
    ensures
        r == declares_collaborator(Node::views(children@)),
{
    let mut i: usize = 0;
    while i < children.len()
        invariant
            i <= children.len(),
            forall|j: int|
                0 <= j < i ==> (#[trigger] Node::views(children@)[j]).kind
                    != KindView::ExternCrate(CRATE_NAME@),
        decreases children.len() - i,
    {
        proof {
            children@[i as int].lemma_children();
        }
        match &children[i].kind {
            NodeKind::ExternCrate(name) => {
                if reads(name, CRATE_NAME) {
                    assert(Node::views(children@)[i as int].kind == KindView::ExternCrate(
                        CRATE_NAME@,
                    ));
                    return true;
                }
            },
            _ => {},
        }
        i = i + 1;
    }
    false
}

/// Builds the declaration that is added to a scope at `span`.
pub fn build_collaborator_decl(span: &Span) -> (decl: Node)
    ensures
        decl@ == collaborator_decl(span@),
{
    Node::new(NodeKind::ExternCrate(String::from_str(CRATE_NAME)), span.clone())
}

impl RewriteUnwraps {
    /// The state in which a traversal in `mode` starts: nothing declared
    /// yet, and paths from the root.
    pub fn new(mode: Mode) -> (state: RewriteUnwraps)
        ensures
            state == RewriteUnwraps::start(mode),
    {
        match mode {
            Mode::Plain => RewriteUnwraps { inject: false, depth: -1 },
            Mode::Inject => RewriteUnwraps { inject: true, depth: -1 },
        }
    }

    /// The substitution for a member call that is to be rewritten: `call`
    /// becomes the call of `function` of the trait `capability`, with the
    /// children of `call` as its first arguments, in their order, and the
    /// call site of `call` as its last.
    pub fn substitute_call(&self, call: Node, function: String, capability: String) -> (r: Node)
        ensures
            r@ == substituted(self.depth as int, function@, capability@, call@),
    {
        proof {
            call.lemma_children();
        }
        let Node { kind: _, span, annotations, mut children } = call;
        let site = call_site_expr(&span);
        proof {
            Node::lemma_views_push(children@, site);
        }
        children.push(site);
        let path = build_extension_path(self.depth, capability, function);
        let r = Node { kind: NodeKind::Call(path), span, annotations, children };
        proof {
            r.lemma_children();
        }
        r
    }

    /// Rewrites `node` and everything below it.
    pub fn fold_node(&self, node: Node) -> (r: Result<Node, RewriteError>)
        ensures
            outcome(r) == self.fold(node@),
        decreases node,
    {
        proof {
            node.lemma_children();
        }
        let Node { kind, span, mut annotations, mut children } = node;
        let mut inner = *self;
        let mut anchor = false;
        match &kind {
            NodeKind::ModuleRef(_) => {
                return Err(RewriteError::ScopeWithoutBody);
            },
            NodeKind::Module(_) => {
                if self.inject && !holds_collaborator_decl(&children) {
                    inner = RewriteUnwraps { inject: false, depth: 0 };
                    anchor = true;
                } else if self.depth >= 0 {
                    if self.depth == i32::MAX {
                        return Err(RewriteError::NestingTooDeep);
                    }
                    inner = RewriteUnwraps { inject: self.inject, depth: self.depth + 1 };
                }
            },
            _ => {},
        }
        let rewrite = should_rewrite(&mut annotations);
        if !rewrite {
            if anchor {
                let decl = build_collaborator_decl(&span);
                proof {
                    Node::lemma_views_push(children@, decl);
                }
                children.push(decl);
            }
            let kept = Node { kind, span, annotations, children };
            proof {
                kept.lemma_children();
            }
            return Ok(kept);
        }
        proof {
            lemma_without_marker_unmarked(node@.annotations);
        }
        let target = match &kind {
            NodeKind::MethodCall(member) => extension_names(member),
            _ => None,
        };
        match target {
            Some((function, capability)) => {
                if children.len() == 0 {
                    return Err(RewriteError::MissingReceiver);
                }
                match inner.fold_children(children) {
                    Err(e) => Err(e),
                    Ok(arguments) => {
                        let call = Node { kind, span, annotations, children: arguments };
                        proof {
                            call.lemma_children();
                        }
                        Ok(inner.substitute_call(call, function, capability))
                    },
                }
            },
            None => {
                match inner.fold_children(children) {
                    Err(e) => Err(e),
                    Ok(mut folded) => {
                        let ghost plain = folded@;
                        if anchor {
                            let decl = build_collaborator_decl(&span);
                            proof {
                                Node::lemma_views_push(folded@, decl);
                            }
                            folded.push(decl);
                        }
                        let r = Node { kind, span, annotations, children: folded };
                        proof {
                            r.lemma_children();
                            assert(r@.children =~= Node::views(plain) + self.added_to(node@));
                        }
                        Ok(r)
                    },
                }
            },
        }
    }

    /// Rewrites `children` one after the other, and stops at the first that
    /// fails.
    pub fn fold_children(&self, children: Vec<Node>) -> (r: Result<Vec<Node>, RewriteError>)
        ensures
            outcomes(r) == self.fold_all(Node::views(children@)),
        decreases children,
    {
        let ghost given = children@;
        let ghost all = Node::views(given);
        let mut folded: Vec<Node> = Vec::new();
        proof {
            assert(Node::views(folded@) =~= Seq::empty());
        }
        for child in it: children
            invariant
                it.seq() == given,
                given == children@,
                all == Node::views(given),
                self.fold_all(all.take(it.index() as int)) == Ok::<Seq<NodeView>, RewriteError>(
                    Node::views(folded@),
                ),
        {
            let ghost k = it.index() as int;
            proof {
                assert(all.take(k + 1).drop_last() =~= all.take(k));
            }
            match self.fold_node(child) {
                Err(e) => {
                    proof {
                        self.lemma_fold_all_stops(all, k + 1);
                    }
                    return Err(e);
                },
                Ok(done) => {
                    proof {
                        Node::lemma_views_push(folded@, done);
                    }
                    folded.push(done);
                },
            }
        }
        proof {
            assert(all.take(all.len() as int) =~= all);
        }
        Ok(folded)
    }

    /// A failure among the first `count` of `nodes` is the failure of the
    /// whole sequence.
    pub proof fn lemma_fold_all_stops(self, nodes: Seq<NodeView>, count: int)
        requires
            0 <= count <= nodes.len(),
            self.fold_all(nodes.take(count)) is Err,
        ensures
            self.fold_all(nodes) == self.fold_all(nodes.take(count)),
        decreases nodes.len(),
    {
        if count == nodes.len() {
            assert(nodes.take(count) =~= nodes);
        } else {
            assert(nodes.drop_last().take(count) =~= nodes.take(count));
            self.lemma_fold_all_stops(nodes.drop_last(), count);
        }
    }
}

/// Rewrites `input` in the mode that `mode` names, `plain` or `inject`.
/// Another mode is refused before anything is visited.
pub fn rewrite_unwraps(mode: &str, input: Node) -> (r: Result<Node, RewriteError>)
    ensures
        outcome(r) == rewritten(mode@, input@),
{
    match parse_mode(mode) {
        Err(e) => Err(e),
        Ok(mode) => RewriteUnwraps::new(mode).fold_node(input),
    }
}

} // verus!
