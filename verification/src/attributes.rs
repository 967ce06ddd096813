//! The attribute filter: finds the annotation that switches the rewriting
//! off for a node and everything below it, and takes it out of the node's
//! annotations.

use crate::names::{reads, LEAVE_UNWRAPS};
use crate::syntax::{Annotation, AnnotationView};
use vstd::prelude::*;

verus! {

/// Whether `annotation` is the opt-out marker: its key reads
/// [`LEAVE_UNWRAPS`], whatever its value.
pub open spec fn is_marker(annotation: AnnotationView) -> bool {
    annotation.key == LEAVE_UNWRAPS@
}

/// Whether one of `annotations` is the opt-out marker.
pub open spec fn has_marker(annotations: Seq<AnnotationView>) -> bool {
    exists|i: int| 0 <= i < annotations.len() && is_marker(#[trigger] annotations[i])
}

/// `annotations` without the opt-out markers, the others in their order.
pub open spec fn without_marker(annotations: Seq<AnnotationView>) -> Seq<AnnotationView> {
    annotations.filter(|a: AnnotationView| !is_marker(a))
}

/// One more annotation at the end is dropped if it is the marker and kept
/// at the end if it is not.
pub proof fn lemma_without_marker_push(annotations: Seq<AnnotationView>, last: AnnotationView)
    ensures
        without_marker(annotations.push(last)) == if is_marker(last) {
            without_marker(annotations)
        } else {
            without_marker(annotations).push(last)
        },
        has_marker(annotations.push(last)) == (has_marker(annotations) || is_marker(last)),
{
    reveal(Seq::filter);
    let longer = annotations.push(last);
    assert(longer.drop_last() =~= annotations);
    if has_marker(annotations) {
        let i = choose|i: int| 0 <= i < annotations.len() && is_marker(#[trigger] annotations[i]);
        assert(is_marker(longer[i]));
    }
    if is_marker(last) {
        assert(is_marker(longer[annotations.len() as int]));
    }
    if has_marker(longer) {
        let i = choose|i: int| 0 <= i < longer.len() && is_marker(#[trigger] longer[i]);
        if i < annotations.len() {
            assert(is_marker(annotations[i]));
        }
    }
}

/// No annotations hold no marker, and nothing is left of them.
pub proof fn lemma_without_marker_empty()
    ensures
        without_marker(Seq::empty()) == Seq::<AnnotationView>::empty(),
        !has_marker(Seq::empty()),
{
    reveal(Seq::filter);
}

/// Without a marker nothing is taken out.
pub proof fn lemma_without_marker_unmarked(annotations: Seq<AnnotationView>)
    requires
        !has_marker(annotations),
    ensures
        without_marker(annotations) == annotations,
    decreases annotations.len(),
{
    if annotations.len() == 0 {
        lemma_without_marker_empty();
    } else {
        let front = annotations.drop_last();
        assert forall|i: int| 0 <= i < front.len() implies !is_marker(#[trigger] front[i]) by {
            assert(front[i] == annotations[i]);
        }
        lemma_without_marker_unmarked(front);
        lemma_without_marker_push(front, annotations.last());
        assert(front.push(annotations.last()) =~= annotations);
    }
}

/// What is left holds no marker.
pub proof fn lemma_without_marker_clean(annotations: Seq<AnnotationView>)
    ensures
        !has_marker(without_marker(annotations)),
    decreases annotations.len(),
{
    if annotations.len() == 0 {
        lemma_without_marker_empty();
    } else {
        let front = annotations.drop_last();
        lemma_without_marker_clean(front);
        lemma_without_marker_push(front, annotations.last());
        lemma_without_marker_push(without_marker(front), annotations.last());
    }
}

/// Whether `annotation` is the opt-out marker.
pub fn is_opt_out(annotation: &Annotation) -> (r: bool)
    ensures
        r == is_marker(annotation@),
{
    reads(&annotation.key, LEAVE_UNWRAPS)
}

/// Decides whether the node that carries `annotations` is to be rewritten,
/// and takes the opt-out markers out of them. The answer is `false` when a
/// marker was found: the node and everything below it then stay as they are.
pub fn should_rewrite(annotations: &mut Vec<Annotation>) -> (rewrite: bool)
    ensures
        rewrite == !has_marker(Annotation::views(old(annotations)@)),
        Annotation::views(final(annotations)@) == without_marker(
            Annotation::views(old(annotations)@),
        ),
{
    let mut given: Vec<Annotation> = Vec::new();
    core::mem::swap(annotations, &mut given);
    let ghost all = Annotation::views(given@);
    let mut found = false;
    proof {
        lemma_without_marker_empty();
    }
    for annotation in it: given
        invariant
            Annotation::views(it.seq()) == all,
            found == has_marker(all.take(it.index() as int)),
            Annotation::views(annotations@) == without_marker(all.take(it.index() as int)),
    {
        let ghost k = it.index() as int;
        proof {
            lemma_without_marker_push(all.take(k), annotation@);
            assert(all.take(k + 1) =~= all.take(k).push(annotation@));
        }
        if is_opt_out(&annotation) {
            found = true;
        } else {
            annotations.push(annotation);
        }
    }
    proof {
        assert(all.take(all.len() as int) =~= all);
    }
    !found
}

} // verus!
