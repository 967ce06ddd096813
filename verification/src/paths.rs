//! The qualified-path builder: the path by which a rewritten call reaches the
//! extension traits, from however deep below their declaration it stands.

use crate::names::{CRATE_NAME, PARENT_SCOPE, SAME_SCOPE};
use crate::syntax::{PathView, QualifiedPath};
use vstd::prelude::*;

verus! {

/// The path to the crate of the extension traits from a scope that lies
/// `depth` scopes below the one that declares it. A negative `depth` says
/// that no scope on the way declares it: the path then starts at the root of
/// the program. At depth 0 the path starts at the scope itself, and at a
/// greater depth it climbs `depth` scopes first.
pub open spec fn collaborator_path(depth: int) -> PathView {
    if depth < 0 {
        PathView { global: true, segments: seq![CRATE_NAME@] }
    } else if depth == 0 {
        PathView { global: false, segments: seq![SAME_SCOPE@, CRATE_NAME@] }
    } else {
        PathView {
            global: false,
            segments: Seq::new(depth as nat, |i: int| PARENT_SCOPE@).push(CRATE_NAME@),
        }
    }
}

/// The path to `function` of the trait `capability`, seen from `depth`.
pub open spec fn extension_path(
    depth: int,
    capability: Seq<char>,
    function: Seq<char>,
) -> PathView {
    let base = collaborator_path(depth);
    PathView { global: base.global, segments: base.segments.push(capability).push(function) }
}

/// How many of `segments` climb to the enclosing scope.
pub open spec fn parent_hops(segments: Seq<Seq<char>>) -> nat
    decreases segments.len(),
{
    if segments.len() == 0 {
        0
    } else {
        parent_hops(segments.drop_last()) + if segments.last() == PARENT_SCOPE@ {
            1nat
        } else {
            0nat
        }
    }
}

/// A path that is made of `count` climbs alone has `count` hops.
proof fn lemma_climbs(count: nat)
    ensures
        parent_hops(Seq::new(count, |i: int| PARENT_SCOPE@)) == count,
    decreases count,
{
    let climbs = Seq::new(count, |i: int| PARENT_SCOPE@);
    if count > 0 {
        lemma_climbs((count - 1) as nat);
        assert(climbs.drop_last() =~= Seq::new((count - 1) as nat, |i: int| PARENT_SCOPE@));
    }
}

/// The names that follow the climbs are no climbs themselves.
proof fn lemma_names_are_no_climbs()
    ensures
        CRATE_NAME@ != PARENT_SCOPE@,
        SAME_SCOPE@ != PARENT_SCOPE@,
{
    reveal_strlit("better_unwraps");
    reveal_strlit("self");
    reveal_strlit("super");
    assert(PARENT_SCOPE@.len() == 5);
}

/// A path from a scope `depth` scopes below the declaration climbs exactly
/// `depth` scopes, and then names the crate; a path from the root climbs
/// none.
pub proof fn lemma_path_hops(depth: int)
    ensures
        collaborator_path(depth).global == (depth < 0),
        collaborator_path(depth).segments.last() == CRATE_NAME@,
        parent_hops(collaborator_path(depth).segments) == if depth < 0 {
            0
        } else {
            depth
        },
        depth > 0 ==> collaborator_path(depth).segments.len() == depth + 1 && forall|i: int|
            0 <= i < depth ==> collaborator_path(depth).segments[i] == PARENT_SCOPE@,
{
    lemma_names_are_no_climbs();
    let segments = collaborator_path(depth).segments;
    if depth < 0 {
        assert(parent_hops(segments.drop_last()) == 0);
    } else if depth == 0 {
        assert(parent_hops(segments.drop_last().drop_last()) == 0);
        assert(parent_hops(segments.drop_last()) == 0);
    } else {
        lemma_climbs(depth as nat);
        assert(segments.drop_last() =~= Seq::new(depth as nat, |i: int| PARENT_SCOPE@));
    }
}

/// The names of a trait and of its function add no climbs to a path.
pub proof fn lemma_extension_hops(depth: int, capability: Seq<char>, function: Seq<char>)
    requires
        capability != PARENT_SCOPE@,
        function != PARENT_SCOPE@,
    ensures
        parent_hops(extension_path(depth, capability, function).segments) == if depth < 0 {
            0
        } else {
            depth
        },
{
    lemma_path_hops(depth);
    let base = collaborator_path(depth).segments;
    let full = extension_path(depth, capability, function).segments;
    let inner = base.push(capability);
    assert(full.drop_last() =~= inner);
    assert(inner.drop_last() =~= base);
    assert(parent_hops(inner) == parent_hops(base));
}

/// Builds the path to the crate of the extension traits as seen from
/// `depth`.
pub fn build_collaborator_path(depth: i32) -> (path: QualifiedPath)
    ensures
        path@ == collaborator_path(depth as int),
{
    let mut segments: Vec<String> = Vec::new();
    if depth < 0 {
        segments.push(String::from_str(CRATE_NAME));
        let path = QualifiedPath { global: true, segments };
        assert(path@.segments =~= seq![CRATE_NAME@]);
        path
    } else {
        if depth == 0 {
            segments.push(String::from_str(SAME_SCOPE));
        } else {
            let mut climbed: i32 = 0;
            while climbed < depth
                invariant
                    0 <= climbed <= depth,
                    segments@.len() == climbed,
                    forall|i: int| 0 <= i < climbed ==> (#[trigger] segments@[i])@ == PARENT_SCOPE@,
                decreases depth - climbed,
            {
                segments.push(String::from_str(PARENT_SCOPE));
                climbed = climbed + 1;
            }
        }
        segments.push(String::from_str(CRATE_NAME));
        let path = QualifiedPath { global: false, segments };
        assert(path@.segments =~= collaborator_path(depth as int).segments);
        path
    }
}

/// Builds the path to `function` of the trait `capability` as seen from
/// `depth`.
pub fn build_extension_path(depth: i32, capability: String, function: String) -> (path:
    QualifiedPath)
    ensures
        path@ == extension_path(depth as int, capability@, function@),
{
    let QualifiedPath { global, mut segments } = build_collaborator_path(depth);
    let ghost base = segments@.map_values(|s: String| s@);
    segments.push(capability);
    segments.push(function);
    let path = QualifiedPath { global, segments };
    assert(path@.segments =~= base.push(capability@).push(function@));
    path
}

} // verus!
