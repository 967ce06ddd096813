use better_unwraps::folder::{build_collaborator_decl, holds_collaborator_decl};
use better_unwraps::{
    call_site_expr, rewrite_unwraps, Annotation, Mode, Node, NodeKind, QualifiedPath,
    RewriteError, RewriteUnwraps, Span,
};

const FILE: &str = "src/main.rs";

fn at(line: u32) -> Span {
    Span::new(FILE, line)
}

fn name(text: &str, line: u32) -> Node {
    Node::new(NodeKind::Name(text.to_string()), at(line))
}

fn literal(text: &str, line: u32) -> Node {
    Node::new(NodeKind::Literal(text.to_string()), at(line))
}

fn method(member: &str, line: u32, receiver: Node, arguments: Vec<Node>) -> Node {
    let mut call = Node::new(NodeKind::MethodCall(member.to_string()), at(line));
    call = call.with_child(receiver);
    for argument in arguments {
        call = call.with_child(argument);
    }
    call
}

fn module(label: &str, line: u32, items: Vec<Node>) -> Node {
    let mut scope = Node::new(NodeKind::Module(label.to_string()), at(line));
    for item in items {
        scope = scope.with_child(item);
    }
    scope
}

fn function(label: &str, line: u32, body: Vec<Node>) -> Node {
    let mut item = Node::new(NodeKind::Function(label.to_string()), at(line));
    for statement in body {
        item = item.with_child(statement);
    }
    item
}

fn path(global: bool, segments: &[&str]) -> QualifiedPath {
    QualifiedPath { global, segments: segments.iter().map(|s| s.to_string()).collect() }
}

fn call(target: QualifiedPath, line: u32, arguments: Vec<Node>) -> Node {
    let mut node = Node::new(NodeKind::Call(target), at(line));
    for argument in arguments {
        node = node.with_child(argument);
    }
    node
}

fn extern_crate(line: u32) -> Node {
    Node::new(NodeKind::ExternCrate("better_unwraps".to_string()), at(line))
}

fn count_decls(node: &Node) -> usize {
    let own = if node.kind == NodeKind::ExternCrate("better_unwraps".to_string()) { 1 } else { 0 };
    own + node.children.iter().map(count_decls).sum::<usize>()
}

fn busy_subtree() -> Node {
    function(
        "f",
        2,
        vec![
            method("unwrap", 3, name("a", 3), vec![]),
            method("unwrap_err", 4, method("unwrap", 4, name("b", 4), vec![]), vec![]),
            module("inner", 5, vec![method("unwrap", 6, name("c", 6), vec![])]),
        ],
    )
}

#[test]
fn marked_node_comes_back_without_the_marker() {
    let input = busy_subtree()
        .with_annotation(Annotation::word("inline"))
        .with_annotation(Annotation::word("leave_unwraps"));
    let expected = busy_subtree().with_annotation(Annotation::word("inline"));
    assert_eq!(rewrite_unwraps("plain", input), Ok(expected));
}

#[test]
fn marked_node_is_left_alone_in_inject_mode_too() {
    let input = busy_subtree().with_annotation(Annotation::word("leave_unwraps"));
    assert_eq!(rewrite_unwraps("inject", input), Ok(busy_subtree()));
}

#[test]
fn marked_call_is_not_rewritten() {
    let input = method("unwrap", 3, name("a", 3), vec![])
        .with_annotation(Annotation::with_value("leave_unwraps", "checked above"));
    assert_eq!(
        rewrite_unwraps("plain", input),
        Ok(method("unwrap", 3, name("a", 3), vec![]))
    );
}

#[test]
fn markers_below_a_marked_node_stay() {
    let inner = method("unwrap", 3, name("a", 3), vec![])
        .with_annotation(Annotation::word("leave_unwraps"));
    let input = function("f", 2, vec![inner]).with_annotation(Annotation::word("leave_unwraps"));
    let kept = method("unwrap", 3, name("a", 3), vec![])
        .with_annotation(Annotation::word("leave_unwraps"));
    assert_eq!(rewrite_unwraps("plain", input), Ok(function("f", 2, vec![kept])));
}

#[test]
fn marked_sibling_does_not_stop_the_others() {
    let input = function(
        "f",
        1,
        vec![
            method("unwrap", 2, name("a", 2), vec![])
                .with_annotation(Annotation::word("leave_unwraps")),
            method("unwrap", 3, name("b", 3), vec![]),
        ],
    );
    let expected = function(
        "f",
        1,
        vec![
            method("unwrap", 2, name("a", 2), vec![]),
            call(
                path(true, &["better_unwraps", "UnwrapExt", "unwrap_ext"]),
                3,
                vec![name("b", 3), call_site_expr(&at(3))],
            ),
        ],
    );
    assert_eq!(rewrite_unwraps("plain", input), Ok(expected));
}

#[test]
fn arguments_are_kept_in_order_before_the_call_site() {
    let input = method("unwrap", 12, name("recv", 12), vec![name("x", 12), name("y", 13)]);
    let out = rewrite_unwraps("plain", input).unwrap();
    assert_eq!(out.children.len(), 4);
    assert_eq!(out.children[0], name("recv", 12));
    assert_eq!(out.children[1], name("x", 12));
    assert_eq!(out.children[2], name("y", 13));
    assert_eq!(out.children[3], call_site_expr(&at(12)));
    assert_eq!(
        out.kind,
        NodeKind::Call(path(true, &["better_unwraps", "UnwrapExt", "unwrap_ext"]))
    );
    assert_eq!(out.span, at(12));
}

#[test]
fn unwrap_err_uses_the_other_trait() {
    let input = method("unwrap_err", 5, name("r", 5), vec![]);
    let expected = call(
        path(true, &["better_unwraps", "UnwrapErrExt", "unwrap_err_ext"]),
        5,
        vec![name("r", 5), call_site_expr(&at(5))],
    );
    assert_eq!(rewrite_unwraps("plain", input), Ok(expected));
}

#[test]
fn annotations_of_the_call_are_kept() {
    let input = method("unwrap", 5, name("r", 5), vec![])
        .with_annotation(Annotation::word("cold"))
        .with_annotation(Annotation::with_value("note", "n"));
    let out = rewrite_unwraps("plain", input).unwrap();
    assert_eq!(
        out.annotations,
        vec![Annotation::word("cold"), Annotation::with_value("note", "n")]
    );
}

#[test]
fn calls_in_arguments_are_rewritten_too() {
    let input = method(
        "unwrap",
        7,
        method("unwrap_err", 7, name("r", 7), vec![]),
        vec![method("unwrap", 8, name("o", 8), vec![])],
    );
    let expected = call(
        path(true, &["better_unwraps", "UnwrapExt", "unwrap_ext"]),
        7,
        vec![
            call(
                path(true, &["better_unwraps", "UnwrapErrExt", "unwrap_err_ext"]),
                7,
                vec![name("r", 7), call_site_expr(&at(7))],
            ),
            call(
                path(true, &["better_unwraps", "UnwrapExt", "unwrap_ext"]),
                8,
                vec![name("o", 8), call_site_expr(&at(8))],
            ),
            call_site_expr(&at(7)),
        ],
    );
    assert_eq!(rewrite_unwraps("plain", input), Ok(expected));
}

#[test]
fn call_site_records_the_line_of_the_call() {
    let input = function(
        "f",
        10,
        vec![
            method("unwrap", 11, name("a", 11), vec![]),
            method("unwrap", 27, name("b", 27), vec![]),
        ],
    );
    let out = rewrite_unwraps("plain", input).unwrap();
    let first = &out.children[0].children[1];
    let second = &out.children[1].children[1];
    assert_eq!(first.span, Span { file: FILE.to_string(), line: 11 });
    assert_eq!(second.span, Span { file: FILE.to_string(), line: 27 });
    let line_macro = &second.children[0].children[0].children[1];
    assert_eq!(line_macro.kind, NodeKind::Macro("line".to_string()));
    assert_eq!(line_macro.span.line, 27);
    let file_macro = &second.children[0].children[0].children[0];
    assert_eq!(file_macro.kind, NodeKind::Macro("file".to_string()));
    assert_eq!(file_macro.span.file, FILE);
}

fn three_scopes() -> Node {
    module(
        "top",
        1,
        vec![
            module("a", 2, vec![function("f", 3, vec![method("unwrap", 4, name("x", 4), vec![])])]),
            module("b", 5, vec![function("g", 6, vec![method("unwrap", 7, name("y", 7), vec![])])]),
            module("c", 8, vec![function("h", 9, vec![method("unwrap", 10, name("z", 10), vec![])])]),
        ],
    )
}

#[test]
fn declaration_is_added_once_to_the_outermost_scope() {
    let out = rewrite_unwraps("inject", three_scopes()).unwrap();
    assert_eq!(count_decls(&out), 1);
    assert_eq!(out.children.len(), 4);
    assert_eq!(out.children[3], extern_crate(1));
    for i in 0..3 {
        assert_eq!(count_decls(&out.children[i]), 0);
        assert_eq!(out.children[i].children.len(), 1);
        let rewritten = &out.children[i].children[0].children[0];
        assert_eq!(
            rewritten.kind,
            NodeKind::Call(path(false, &["super", "better_unwraps", "UnwrapExt", "unwrap_ext"]))
        );
    }
}

#[test]
fn plain_mode_adds_no_declaration() {
    let out = rewrite_unwraps("plain", three_scopes()).unwrap();
    assert_eq!(count_decls(&out), 0);
    assert_eq!(out.children.len(), 3);
    let rewritten = &out.children[1].children[0].children[0];
    assert_eq!(
        rewritten.kind,
        NodeKind::Call(path(true, &["better_unwraps", "UnwrapExt", "unwrap_ext"]))
    );
}

#[test]
fn scope_that_declares_already_is_passed_by() {
    let input = module(
        "top",
        1,
        vec![
            extern_crate(2),
            method("unwrap", 3, name("x", 3), vec![]),
            module("inner", 4, vec![method("unwrap", 5, name("y", 5), vec![])]),
        ],
    );
    let expected = module(
        "top",
        1,
        vec![
            extern_crate(2),
            call(
                path(true, &["better_unwraps", "UnwrapExt", "unwrap_ext"]),
                3,
                vec![name("x", 3), call_site_expr(&at(3))],
            ),
            module(
                "inner",
                4,
                vec![
                    call(
                        path(false, &["self", "better_unwraps", "UnwrapExt", "unwrap_ext"]),
                        5,
                        vec![name("y", 5), call_site_expr(&at(5))],
                    ),
                    extern_crate(4),
                ],
            ),
        ],
    );
    assert_eq!(rewrite_unwraps("inject", input), Ok(expected));
}

#[test]
fn sibling_scopes_under_a_function_each_get_their_own() {
    let input = function(
        "f",
        1,
        vec![
            module("a", 2, vec![method("unwrap", 3, name("x", 3), vec![])]),
            module("b", 4, vec![method("unwrap", 5, name("y", 5), vec![])]),
        ],
    );
    let out = rewrite_unwraps("inject", input).unwrap();
    assert_eq!(count_decls(&out), 2);
    assert_eq!(out.children[0].children[1], extern_crate(2));
    assert_eq!(out.children[1].children[1], extern_crate(4));
    assert_eq!(
        out.children[1].children[0].kind,
        NodeKind::Call(path(false, &["self", "better_unwraps", "UnwrapExt", "unwrap_ext"]))
    );
}

#[test]
fn marked_scope_still_gets_the_declaration() {
    let input = module("top", 1, vec![method("unwrap", 2, name("x", 2), vec![])])
        .with_annotation(Annotation::word("leave_unwraps"));
    let expected =
        module("top", 1, vec![method("unwrap", 2, name("x", 2), vec![]), extern_crate(1)]);
    assert_eq!(rewrite_unwraps("inject", input), Ok(expected));
}

#[test]
fn path_climbs_two_scopes_at_depth_two() {
    let input = module(
        "anchor",
        1,
        vec![module(
            "one",
            2,
            vec![module(
                "two",
                3,
                vec![function("f", 4, vec![method("unwrap", 5, name("v", 5), vec![])])],
            )],
        )],
    );
    let out = rewrite_unwraps("inject", input).unwrap();
    let rewritten = &out.children[0].children[0].children[0].children[0];
    assert_eq!(
        rewritten.kind,
        NodeKind::Call(path(
            false,
            &["super", "super", "better_unwraps", "UnwrapExt", "unwrap_ext"]
        ))
    );
    match &rewritten.kind {
        NodeKind::Call(target) => {
            assert_eq!(target.segments.iter().filter(|s| s.as_str() == "super").count(), 2);
        }
        _ => unreachable!(),
    }
}

#[test]
fn paths_at_depths_zero_and_one() {
    let input = module(
        "anchor",
        1,
        vec![
            method("unwrap", 2, name("a", 2), vec![]),
            module("one", 3, vec![method("unwrap_err", 4, name("b", 4), vec![])]),
        ],
    );
    let out = rewrite_unwraps("inject", input).unwrap();
    assert_eq!(
        out.children[0].kind,
        NodeKind::Call(path(false, &["self", "better_unwraps", "UnwrapExt", "unwrap_ext"]))
    );
    assert_eq!(
        out.children[1].children[0].kind,
        NodeKind::Call(path(
            false,
            &["super", "better_unwraps", "UnwrapErrExt", "unwrap_err_ext"]
        ))
    );
    assert_eq!(out.children[2], extern_crate(1));
}

#[test]
fn functions_and_blocks_add_no_depth() {
    let input = module(
        "anchor",
        1,
        vec![function(
            "f",
            2,
            vec![Node::new(NodeKind::Block, at(3))
                .with_child(method("unwrap", 4, name("a", 4), vec![]))],
        )],
    );
    let out = rewrite_unwraps("inject", input).unwrap();
    assert_eq!(
        out.children[0].children[0].children[0].kind,
        NodeKind::Call(path(false, &["self", "better_unwraps", "UnwrapExt", "unwrap_ext"]))
    );
}

#[test]
fn other_member_calls_are_untouched() {
    let custom = || method("unwrap_custom", 3, name("recv", 3), vec![]);
    let expect = || method("expect", 4, name("recv", 4), vec![literal("\"msg\"", 4)]);
    assert_eq!(rewrite_unwraps("plain", custom()), Ok(custom()));
    assert_eq!(rewrite_unwraps("plain", expect()), Ok(expect()));
    let both = || function("f", 2, vec![custom(), expect()]);
    assert_eq!(rewrite_unwraps("plain", both()), Ok(both()));
    assert_eq!(rewrite_unwraps("inject", both()), Ok(both()));
}

#[test]
fn function_named_like_a_member_is_untouched() {
    let input = || {
        call(path(false, &["unwrap"]), 3, vec![name("x", 3)])
    };
    assert_eq!(rewrite_unwraps("plain", input()), Ok(input()));
    let decl = || function("unwrap", 1, vec![name("x", 2)]);
    assert_eq!(rewrite_unwraps("plain", decl()), Ok(decl()));
}

#[test]
fn end_to_end_inject() {
    let input = module(
        "foo",
        23,
        vec![
            Node::new(NodeKind::Let("v".to_string()), at(25)).with_child(name("None", 25)),
            method("unwrap", 26, name("v", 26), vec![]),
        ],
    );
    let expected = module(
        "foo",
        23,
        vec![
            Node::new(NodeKind::Let("v".to_string()), at(25)).with_child(name("None", 25)),
            call(
                path(false, &["self", "better_unwraps", "UnwrapExt", "unwrap_ext"]),
                26,
                vec![name("v", 26), call_site_expr(&at(26))],
            ),
            extern_crate(23),
        ],
    );
    let out = rewrite_unwraps("inject", input).unwrap();
    assert_eq!(out, expected);
    assert!(holds_collaborator_decl(&out.children));
    assert_eq!(out.children[1].children[1].span.line, 26);
}

#[test]
fn unknown_mode_is_refused_before_the_tree_is_read() {
    let broken = Node::new(NodeKind::ModuleRef("elsewhere".to_string()), at(1));
    assert_eq!(rewrite_unwraps("verbose", broken), Err(RewriteError::UnsupportedInvocation));
    assert_eq!(
        rewrite_unwraps("", name("x", 1)),
        Err(RewriteError::UnsupportedInvocation)
    );
}

#[test]
fn scope_without_body_stops_the_rewriting() {
    let input = module(
        "top",
        1,
        vec![
            method("unwrap", 2, name("x", 2), vec![]),
            Node::new(NodeKind::ModuleRef("elsewhere".to_string()), at(3)),
        ],
    );
    assert_eq!(rewrite_unwraps("plain", input), Err(RewriteError::ScopeWithoutBody));
    let alone = Node::new(NodeKind::ModuleRef("elsewhere".to_string()), at(3));
    assert_eq!(rewrite_unwraps("inject", alone), Err(RewriteError::ScopeWithoutBody));
}

#[test]
fn marked_scope_without_body_stops_the_rewriting() {
    let input = Node::new(NodeKind::ModuleRef("elsewhere".to_string()), at(3))
        .with_annotation(Annotation::word("leave_unwraps"));
    assert_eq!(rewrite_unwraps("plain", input), Err(RewriteError::ScopeWithoutBody));
}

#[test]
fn scope_without_body_below_a_marked_node_is_not_seen() {
    let input = || {
        module("top", 1, vec![Node::new(NodeKind::ModuleRef("elsewhere".to_string()), at(3))])
    };
    let marked = input().with_annotation(Annotation::word("leave_unwraps"));
    assert_eq!(rewrite_unwraps("plain", marked), Ok(input()));
}

#[test]
fn member_call_without_receiver_is_refused() {
    let input = Node::new(NodeKind::MethodCall("unwrap".to_string()), at(2));
    assert_eq!(rewrite_unwraps("plain", input), Err(RewriteError::MissingReceiver));
    let other = || Node::new(NodeKind::MethodCall("len".to_string()), at(2));
    assert_eq!(rewrite_unwraps("plain", other()), Ok(other()));
}

#[test]
fn first_failure_in_reading_order_is_reported() {
    let input = function(
        "f",
        1,
        vec![
            Node::new(NodeKind::MethodCall("unwrap".to_string()), at(2)),
            Node::new(NodeKind::ModuleRef("elsewhere".to_string()), at(3)),
        ],
    );
    assert_eq!(rewrite_unwraps("plain", input), Err(RewriteError::MissingReceiver));
    let input = function(
        "f",
        1,
        vec![
            Node::new(NodeKind::ModuleRef("elsewhere".to_string()), at(2)),
            Node::new(NodeKind::MethodCall("unwrap".to_string()), at(3)),
        ],
    );
    assert_eq!(rewrite_unwraps("plain", input), Err(RewriteError::ScopeWithoutBody));
}

#[test]
fn depth_that_cannot_be_counted_is_refused() {
    let state = RewriteUnwraps { inject: false, depth: i32::MAX };
    let scope = module("m", 1, vec![]);
    assert_eq!(state.fold_node(scope), Err(RewriteError::NestingTooDeep));
    let marked = module("m", 1, vec![]).with_annotation(Annotation::word("leave_unwraps"));
    assert_eq!(state.fold_node(marked), Err(RewriteError::NestingTooDeep));
    let no_scope = function("f", 1, vec![name("x", 2)]);
    assert_eq!(state.fold_node(no_scope), Ok(function("f", 1, vec![name("x", 2)])));
    let state = RewriteUnwraps { inject: false, depth: 5 };
    let scope = module("m", 1, vec![method("unwrap", 2, name("x", 2), vec![])]);
    let out = state.fold_node(scope).unwrap();
    match &out.children[0].kind {
        NodeKind::Call(target) => {
            assert_eq!(target.segments.len(), 9);
            assert_eq!(target.segments[5], "super");
            assert_eq!(target.segments[6], "better_unwraps");
        }
        _ => unreachable!(),
    }
}

#[test]
fn state_of_a_fresh_traversal() {
    assert_eq!(RewriteUnwraps::new(Mode::Plain), RewriteUnwraps { inject: false, depth: -1 });
    assert_eq!(RewriteUnwraps::new(Mode::Inject), RewriteUnwraps { inject: true, depth: -1 });
}

#[test]
fn substitution_appends_the_call_site() {
    let state = RewriteUnwraps { inject: false, depth: 1 };
    let matched = method("unwrap", 9, name("r", 9), vec![literal("1", 9)]);
    let out = state.substitute_call(matched, "unwrap_ext".to_string(), "UnwrapExt".to_string());
    let expected = call(
        path(false, &["super", "better_unwraps", "UnwrapExt", "unwrap_ext"]),
        9,
        vec![name("r", 9), literal("1", 9), call_site_expr(&at(9))],
    );
    assert_eq!(out, expected);
}

#[test]
fn fold_children_keeps_the_order() {
    let state = RewriteUnwraps::new(Mode::Plain);
    let out = state
        .fold_children(vec![name("a", 1), method("unwrap", 2, name("b", 2), vec![]), name("c", 3)])
        .unwrap();
    assert_eq!(out.len(), 3);
    assert_eq!(out[0], name("a", 1));
    assert_eq!(out[2], name("c", 3));
    assert_eq!(out[1].children.len(), 2);
    assert_eq!(state.fold_children(Vec::new()), Ok(Vec::new()));
}

#[test]
fn declaration_is_recognised_by_its_name() {
    assert!(holds_collaborator_decl(&vec![name("x", 1), extern_crate(2)]));
    assert!(!holds_collaborator_decl(&vec![
        name("better_unwraps", 1),
        Node::new(NodeKind::ExternCrate("other".to_string()), at(2)),
    ]));
    assert!(!holds_collaborator_decl(&Vec::new()));
    assert_eq!(build_collaborator_decl(&at(4)), extern_crate(4));
}
