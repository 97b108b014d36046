use fullstack_auth::board::{
    collect_placed_kinds, find_col_span, find_node, id_exists, next_node_id, remove_node,
    reorder_siblings, set_span_by_id, BoardContainerKind, BoardNode, DashboardLayout,
};
use fullstack_auth::board::{add_catalog_widget, add_container_node, board_heading, default_widget_source};

fn widget(id: &str, kind: &str, span: u8) -> BoardNode {
    BoardNode::Widget {
        id: id.to_string(),
        kind: kind.to_string(),
        col_span: span,
        note_text: None,
        source_id: None,
        http_mode: "table".to_string(),
        bind: "rows".to_string(),
    }
}

fn row(id: &str, children: Vec<BoardNode>) -> BoardNode {
    BoardNode::Container {
        id: id.to_string(),
        kind: BoardContainerKind::Row,
        col_span: 12,
        children,
    }
}

fn sample() -> Vec<BoardNode> {
    vec![
        widget("w-1", "chart", 6),
        row("c-1", vec![widget("w-2", "note", 4), widget("w-3", "chart", 4)]),
    ]
}

fn ids(nodes: &[BoardNode]) -> Vec<String> {
    nodes.iter().map(|n| n.id().clone()).collect()
}

#[test]
fn nodes_are_found_depth_first() {
    let nodes = sample();
    assert_eq!(find_col_span(&nodes, "w-3"), Some(4));
    assert_eq!(find_col_span(&nodes, "c-1"), Some(12));
    assert_eq!(find_col_span(&nodes, "missing"), None);
    assert!(id_exists(&nodes, "w-2"));
    assert!(!id_exists(&nodes, "w-9"));
    assert_eq!(find_node(&nodes, "w-2").map(|n| n.id().clone()), Some("w-2".to_string()));
}

#[test]
fn a_set_span_is_found_again() {
    let mut nodes = sample();
    assert!(set_span_by_id(&mut nodes, "w-2", 8));
    assert_eq!(find_col_span(&nodes, "w-2"), Some(8));
    assert_eq!(find_col_span(&nodes, "w-3"), Some(4));
    assert!(!set_span_by_id(&mut nodes, "missing", 3));
    assert_eq!(ids(&nodes), vec!["w-1", "c-1"]);
}

#[test]
fn removal_reports_whether_the_id_was_there() {
    let mut nodes = sample();
    let layout_before = DashboardLayout { version: 1, nodes: sample() };
    assert_eq!(layout_before.total_nodes(), 4);
    assert!(remove_node(&mut nodes, "w-2"));
    assert!(!id_exists(&nodes, "w-2"));
    assert!(!remove_node(&mut nodes, "w-2"));
    let layout = DashboardLayout { version: 1, nodes };
    assert_eq!(layout.total_nodes(), 3);
    let mut nodes = sample();
    assert!(remove_node(&mut nodes, "c-1"));
    assert_eq!(ids(&nodes), vec!["w-1"]);
}

#[test]
fn reordering_moves_a_node_to_its_sibling_place() {
    let mut nodes = vec![widget("a", "x", 1), widget("b", "x", 1), widget("c", "x", 1)];
    assert!(reorder_siblings(&mut nodes, "a", "c"));
    assert_eq!(ids(&nodes), vec!["b", "a", "c"]);
    assert!(reorder_siblings(&mut nodes, "c", "b"));
    assert_eq!(ids(&nodes), vec!["c", "b", "a"]);
    assert!(!reorder_siblings(&mut nodes, "a", "a"));
    assert!(!reorder_siblings(&mut nodes, "a", "missing"));
    assert_eq!(ids(&nodes), vec!["c", "b", "a"]);
}

#[test]
fn reordering_inside_a_container_keeps_every_node() {
    let mut nodes = sample();
    assert!(reorder_siblings(&mut nodes, "w-3", "w-2"));
    match &nodes[1] {
        BoardNode::Container { children, .. } => assert_eq!(ids(children), vec!["w-3", "w-2"]),
        BoardNode::Widget { .. } => panic!("the container moved"),
    }
    assert!(!reorder_siblings(&mut nodes, "w-1", "w-2"));
    let layout = DashboardLayout { version: 1, nodes };
    assert_eq!(layout.total_nodes(), 4);
}

#[test]
fn placed_kinds_are_listed_once_each() {
    let layout = DashboardLayout { version: 1, nodes: sample() };
    assert_eq!(collect_placed_kinds(&layout), vec!["chart".to_string(), "note".to_string()]);
    let empty = DashboardLayout { version: 1, nodes: Vec::new() };
    assert!(collect_placed_kinds(&empty).is_empty());
}

#[test]
fn fresh_ids_skip_the_taken_ones() {
    let layout = DashboardLayout { version: 1, nodes: sample() };
    assert_eq!(next_node_id("w", &layout), "w-5");
    let crowded = DashboardLayout { version: 1, nodes: vec![widget("w-2", "note", 4)] };
    assert_eq!(next_node_id("w", &crowded), "w-3");
    let chain = DashboardLayout {
        version: 1,
        nodes: vec![widget("n-3", "x", 1), widget("n-4", "x", 1)],
    };
    assert_eq!(next_node_id("n", &chain), "n-5");
    let empty = DashboardLayout { version: 1, nodes: Vec::new() };
    assert_eq!(next_node_id("row", &empty), "row-1");
}

use fullstack_auth::board::{add_widget_node, widget_already_placed};

#[test]
fn widgets_are_added_under_fresh_ids() {
    let mut layout = DashboardLayout { version: 3, nodes: sample() };
    let id = add_widget_node(&mut layout, "notes", 6, true, None, "text", "none");
    assert_eq!(id, "notes-5");
    assert_eq!(layout.version, 3);
    assert_eq!(layout.nodes.len(), 3);
    match layout.nodes.last().unwrap() {
        BoardNode::Widget { id, kind, col_span, note_text, source_id, http_mode, bind } => {
            assert_eq!(http_mode, "text");
            assert_eq!(bind, "none");
            assert_eq!(id, "notes-5");
            assert_eq!(kind, "notes");
            assert_eq!(*col_span, 6);
            assert_eq!(note_text, &Some(String::new()));
            assert_eq!(source_id, &None);
        }
        BoardNode::Container { .. } => panic!("expected a widget"),
    }
    let id = add_widget_node(&mut layout, "chart", 4, false, Some("src-1".to_string()), "chart", "series");
    assert_eq!(id, "chart-6");
    assert!(id_exists(&layout.nodes, "chart-6"));
    let placed = collect_placed_kinds(&layout);
    assert!(widget_already_placed(&placed, "notes", false));
    assert!(!widget_already_placed(&placed, "notes", true));
    assert!(!widget_already_placed(&placed, "table", false));
}

#[test]
fn containers_are_numbered_after_the_board() {
    let mut layout = DashboardLayout { version: 2, nodes: sample() };
    let total = layout.total_nodes();
    let id = add_container_node(&mut layout, BoardContainerKind::Row);
    assert_eq!(id, format!("c-row-{}", total + 1));
    match layout.nodes.last().unwrap() {
        BoardNode::Container { id: last, kind, col_span, children } => {
            assert_eq!(last, &id);
            assert_eq!(*kind, BoardContainerKind::Row);
            assert_eq!(*col_span, 12);
            assert!(children.is_empty());
        }
        _ => panic!("expected a container"),
    }
    let stack = add_container_node(&mut layout, BoardContainerKind::Stack);
    assert_eq!(stack, format!("c-stack-{}", total + 2));
}

#[test]
fn the_board_heading_names_the_workspace() {
    assert_eq!(board_heading(false, &Some("Acme".to_owned())), "Dashboard");
    assert_eq!(board_heading(true, &Some("Acme".to_owned())), "Acme");
    assert_eq!(board_heading(true, &None), "Workspace");
    let sources = vec!["src-1".to_owned()];
    let queries = vec!["q-1".to_owned()];
    assert_eq!(default_widget_source(&sources, &queries).as_deref(), Some("src-1"));
    assert_eq!(default_widget_source(&Vec::new(), &queries).as_deref(), Some("q-1"));
    assert_eq!(default_widget_source(&Vec::new(), &Vec::new()), None);
}

#[test]
fn a_new_widget_takes_the_least_free_number() {
    let mut layout = DashboardLayout {
        version: 1,
        nodes: vec![widget("w-1", "chart", 6), widget("chart-3", "chart", 6)],
    };
    assert_eq!(add_widget_node(&mut layout, "chart", 4, false, None, "chart", "series"), "chart-4");
    assert_eq!(add_widget_node(&mut layout, "chart", 4, false, None, "chart", "series"), "chart-5");
}

#[test]
fn single_instance_widgets_are_added_once() {
    let mut layout = DashboardLayout { version: 1, nodes: vec![widget("w-1", "chart", 6)] };
    let first = add_catalog_widget(&mut layout, "notes", false, 6, true, None, "text", "none");
    assert_eq!(first.as_deref(), Some("notes-2"));
    assert_eq!(layout.nodes.len(), 2);
    assert_eq!(add_catalog_widget(&mut layout, "notes", false, 6, true, None, "text", "none"), None);
    assert_eq!(layout.nodes.len(), 2);
    // A kind that allows several is added again under a fresh id.
    let again = add_catalog_widget(&mut layout, "chart", true, 4, false, None, "chart", "series");
    assert_eq!(again.as_deref(), Some("chart-3"));
    assert_eq!(add_catalog_widget(&mut layout, "chart", false, 4, false, None, "chart", "series"), None);
}
