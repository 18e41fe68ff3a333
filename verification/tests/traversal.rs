use outliner::app::App;
use outliner::traverse::VisibleLine;

fn shape(lines: &[VisibleLine]) -> Vec<(usize, u128, bool)> {
    lines.iter().map(|line| (line.depth, line.id, line.is_selected)).collect()
}

#[test]
fn traverse_yields_parent_then_children() {
    let mut app = App::new();
    app.add_child_seeded(1);
    app.add_child_seeded(2);
    app.add_sibling_seeded(3);
    let lines = app.traverse_visible();
    assert_eq!(shape(&lines), vec![(0, 1, false), (1, 2, false), (1, 3, true)]);
    for line in &lines {
        assert_eq!(line.name, "New Node");
        assert!(!line.is_leaf);
    }
}

#[test]
fn traverse_of_an_empty_outline_is_empty() {
    let app = App::new();
    assert!(app.traverse_visible().is_empty());
}

#[test]
fn traverse_finishes_a_subtree_before_the_next_sibling() {
    let mut app = App::new();
    app.add_child_seeded(1);
    app.add_child_seeded(2);
    app.add_child_seeded(3);
    app.add_sibling_seeded(4);
    app.move_selection_up();
    app.add_child_seeded(5);
    app.select_first_overall();
    app.select_first_overall();
    app.add_sibling_seeded(6);
    app.add_child_seeded(7);
    app.add_sibling_seeded(8);
    app.select_first_overall();
    app.select_first_overall();
    app.add_child_seeded(9);
    let lines = app.traverse_visible();
    assert_eq!(
        shape(&lines),
        vec![
            (0, 1, false),
            (1, 2, false),
            (2, 3, false),
            (3, 5, false),
            (2, 4, false),
            (1, 9, true),
            (0, 6, false),
            (1, 7, false),
            (1, 8, false),
        ]
    );
}

#[test]
fn traverse_is_restartable() {
    let mut app = App::new();
    app.add_child_seeded(1);
    app.add_sibling_seeded(2);
    app.add_child_seeded(3);
    let first = shape(&app.traverse_visible());
    let second = shape(&app.traverse_visible());
    assert_eq!(first, vec![(0, 1, false), (0, 2, false), (1, 3, true)]);
    assert_eq!(first, second);
}

#[test]
fn traverse_marks_only_the_selection() {
    let mut app = App::new();
    app.add_child_seeded(1);
    app.add_child_seeded(2);
    app.add_sibling_seeded(3);
    app.move_selection_up();
    let lines = app.traverse_visible();
    assert_eq!(shape(&lines), vec![(0, 1, false), (1, 2, true), (1, 3, false)]);
}

#[test]
fn traverse_handles_a_deep_chain() {
    let mut app = App::new();
    for seed in 0..2000u128 {
        app.add_child_seeded(seed);
    }
    let lines = app.traverse_visible();
    assert_eq!(lines.len(), 2000);
    for (i, line) in lines.iter().enumerate() {
        assert_eq!(line.depth, i);
        assert_eq!(line.id, i as u128);
    }
    app.select_first_overall();
    app.select_first_overall();
    assert_eq!(app.selected_node(), Some(0));
    app.select_last_overall();
    assert_eq!(app.selected_node(), Some(1999));
}
