use outliner::app::App;
use outliner::command::{command_for_key, ChordState, Command, Mode, Outcome};
use outliner::ident::next_id;
use outliner::node::TreeNode;
use outliner::store::{find, TreeStore};

/// Root 1 with children 2 and 3; 3 is selected.
fn parent_with_two_children() -> App {
    let mut app = App::new();
    assert_eq!(app.add_child_seeded(1), 1);
    assert_eq!(app.add_child_seeded(2), 2);
    assert_eq!(app.add_sibling_seeded(3), 3);
    app
}

fn children_of(app: &App, id: u128) -> Vec<u128> {
    app.node(id).unwrap().children.clone()
}

#[test]
fn first_child_is_the_only_root() {
    let mut app = App::new();
    let id = app.add_child_seeded(40);
    assert_eq!(id, 40);
    assert_eq!(app.roots(), &vec![40]);
    assert_eq!(app.node_count(), 1);
    assert_eq!(app.selected_node(), Some(40));
    let node = app.node(40).unwrap();
    assert_eq!(node.id, 40);
    assert_eq!(node.parent, None);
    assert!(node.children.is_empty());
}

#[test]
fn new_node_is_an_empty_folder_with_placeholder_name() {
    let mut app = App::new();
    app.add_child_seeded(7);
    let node = app.node(7).unwrap();
    assert_eq!(node.name, "New Node");
    assert_eq!(node.content, None);
    assert!(node.is_folder());
    let loose = TreeNode::placeholder(9, Some(7));
    assert_eq!(loose.id, 9);
    assert_eq!(loose.name, "New Node");
    assert_eq!(loose.parent, Some(7));
    assert!(loose.children.is_empty());
    assert!(loose.is_folder());
}

#[test]
fn child_goes_under_the_selection() {
    let mut app = App::new();
    app.add_child_seeded(1);
    app.add_child_seeded(2);
    assert_eq!(app.roots(), &vec![1]);
    assert_eq!(children_of(&app, 1), vec![2]);
    assert_eq!(app.node(2).unwrap().parent, Some(1));
    assert_eq!(app.selected_node(), Some(2));
    app.add_child_seeded(3);
    assert_eq!(children_of(&app, 2), vec![3]);
    assert_eq!(children_of(&app, 1), vec![2]);
    assert_eq!(app.node(3).unwrap().parent, Some(2));
    assert_eq!(app.node_count(), 3);
}

#[test]
fn sibling_goes_to_the_end_of_the_group_not_after_the_selection() {
    let mut app = parent_with_two_children();
    app.move_selection_up();
    assert_eq!(app.selected_node(), Some(2));
    let id = app.add_sibling_seeded(4);
    assert_eq!(id, 4);
    assert_eq!(children_of(&app, 1), vec![2, 3, 4]);
    assert_eq!(app.selected_node(), Some(4));
    assert_eq!(app.node(4).unwrap().parent, Some(1));
    assert_eq!(app.roots(), &vec![1]);
}

#[test]
fn sibling_of_a_root_is_a_new_last_root() {
    let mut app = App::new();
    app.add_sibling_seeded(1);
    app.add_sibling_seeded(2);
    app.add_sibling_seeded(3);
    assert_eq!(app.roots(), &vec![1, 2, 3]);
    app.move_selection_up();
    app.move_selection_up();
    assert_eq!(app.selected_node(), Some(1));
    app.add_sibling_seeded(4);
    assert_eq!(app.roots(), &vec![1, 2, 3, 4]);
    assert_eq!(app.node(4).unwrap().parent, None);
    assert_eq!(app.selected_node(), Some(4));
}

#[test]
fn move_down_at_the_last_sibling_is_a_no_op() {
    let mut app = parent_with_two_children();
    assert_eq!(app.selected_node(), Some(3));
    app.move_selection_down();
    assert_eq!(app.selected_node(), Some(3));
    assert_eq!(app.node_count(), 3);
    assert_eq!(children_of(&app, 1), vec![2, 3]);
}

#[test]
fn move_up_at_the_first_sibling_is_a_no_op() {
    let mut app = parent_with_two_children();
    app.move_selection_up();
    assert_eq!(app.selected_node(), Some(2));
    app.move_selection_up();
    assert_eq!(app.selected_node(), Some(2));
    assert_eq!(app.node_count(), 3);
}

#[test]
fn moves_stay_within_the_sibling_group() {
    let mut app = parent_with_two_children();
    app.add_sibling_seeded(4);
    app.add_child_seeded(5);
    assert_eq!(app.selected_node(), Some(5));
    app.move_selection_up();
    assert_eq!(app.selected_node(), Some(5));
    app.move_selection_down();
    assert_eq!(app.selected_node(), Some(5));
    app.select_first_overall();
    app.select_first_overall();
    assert_eq!(app.selected_node(), Some(1));
    app.move_selection_down();
    assert_eq!(app.selected_node(), Some(1));
}

#[test]
fn moves_walk_the_group_in_order() {
    let mut app = parent_with_two_children();
    app.add_sibling_seeded(4);
    assert_eq!(app.selected_node(), Some(4));
    app.move_selection_up();
    assert_eq!(app.selected_node(), Some(3));
    app.move_selection_up();
    assert_eq!(app.selected_node(), Some(2));
    app.move_selection_down();
    assert_eq!(app.selected_node(), Some(3));
    app.move_selection_down();
    assert_eq!(app.selected_node(), Some(4));
}

#[test]
fn moves_without_a_selection_do_nothing() {
    let mut app = App::new();
    app.move_selection_down();
    app.move_selection_up();
    assert_eq!(app.selected_node(), None);
    assert_eq!(app.node_count(), 0);
}

#[test]
fn two_presses_select_the_first_root() {
    let mut app = App::new();
    app.add_sibling_seeded(1);
    app.add_sibling_seeded(2);
    app.add_child_seeded(3);
    assert_eq!(app.selected_node(), Some(3));
    app.select_first_overall();
    assert_eq!(app.selected_node(), Some(3));
    assert_eq!(app.chord(), ChordState::PendingFirstKey);
    app.select_first_overall();
    assert_eq!(app.selected_node(), Some(1));
    assert_eq!(app.chord(), ChordState::Idle);
}

#[test]
fn two_presses_on_an_empty_outline_select_nothing() {
    let mut app = App::new();
    app.select_first_overall();
    app.select_first_overall();
    assert_eq!(app.selected_node(), None);
    assert_eq!(app.chord(), ChordState::Idle);
}

#[test]
fn a_press_followed_by_another_key_changes_nothing() {
    let others = [
        Command::AddChild,
        Command::AddSibling,
        Command::MoveDown,
        Command::MoveUp,
        Command::GoLast,
        Command::Quit,
        Command::Unbound,
    ];
    for other in others {
        let mut app = parent_with_two_children();
        app.move_selection_up();
        assert_eq!(app.dispatch(Command::GoFirst), Outcome::Continue);
        assert_eq!(app.chord(), ChordState::PendingFirstKey);
        assert_eq!(app.dispatch(other), Outcome::Continue);
        assert_eq!(app.chord(), ChordState::Idle);
        assert_eq!(app.selected_node(), Some(2));
        assert_eq!(app.node_count(), 3);
        assert_eq!(app.dispatch(Command::GoFirst), Outcome::Continue);
        assert_eq!(app.selected_node(), Some(2));
    }
}

#[test]
fn every_command_but_the_chord_key_puts_the_chord_at_rest() {
    let mut app = parent_with_two_children();
    app.select_first_overall();
    app.move_selection_up();
    assert_eq!(app.chord(), ChordState::Idle);
    app.select_first_overall();
    app.move_selection_down();
    assert_eq!(app.chord(), ChordState::Idle);
    app.select_first_overall();
    app.select_last_overall();
    assert_eq!(app.chord(), ChordState::Idle);
    app.select_first_overall();
    app.add_child_seeded(10);
    assert_eq!(app.chord(), ChordState::Idle);
    app.select_first_overall();
    app.add_sibling_seeded(11);
    assert_eq!(app.chord(), ChordState::Idle);
}

#[test]
fn select_last_descends_through_last_children() {
    let mut app = App::new();
    app.add_child_seeded(1);
    app.add_child_seeded(2);
    app.select_first_overall();
    app.select_first_overall();
    assert_eq!(app.selected_node(), Some(1));
    app.select_last_overall();
    assert_eq!(app.selected_node(), Some(2));
}

#[test]
fn select_last_takes_the_last_branch_at_every_level() {
    let mut app = App::new();
    app.add_child_seeded(1);
    app.add_child_seeded(2);
    app.add_child_seeded(3);
    app.select_first_overall();
    app.select_first_overall();
    app.add_sibling_seeded(4);
    app.add_child_seeded(5);
    app.add_sibling_seeded(6);
    app.add_child_seeded(7);
    app.select_first_overall();
    app.select_first_overall();
    assert_eq!(app.selected_node(), Some(1));
    app.select_last_overall();
    assert_eq!(app.selected_node(), Some(7));
    app.select_last_overall();
    assert_eq!(app.selected_node(), Some(7));
}

#[test]
fn select_last_on_an_empty_outline_selects_nothing() {
    let mut app = App::new();
    app.select_last_overall();
    assert_eq!(app.selected_node(), None);
    assert_eq!(app.node_count(), 0);
}

#[test]
fn select_last_on_a_single_root_selects_it() {
    let mut app = App::new();
    app.add_child_seeded(1);
    app.add_sibling_seeded(2);
    app.select_first_overall();
    app.select_first_overall();
    app.select_last_overall();
    assert_eq!(app.selected_node(), Some(2));
}

#[test]
fn a_seed_in_use_gives_the_next_free_identifier() {
    let mut app = App::new();
    assert_eq!(app.add_child_seeded(5), 5);
    assert_eq!(app.add_child_seeded(5), 6);
    assert_eq!(app.add_sibling_seeded(5), 7);
    assert_eq!(app.add_sibling_seeded(6), 8);
    assert_eq!(app.add_sibling_seeded(4), 4);
    assert_eq!(app.node_count(), 5);
    assert_eq!(children_of(&app, 5), vec![6, 7, 8, 4]);
}

#[test]
fn the_probe_wraps_round_the_identifier_space() {
    let mut app = App::new();
    assert_eq!(app.add_sibling_seeded(u128::MAX), u128::MAX);
    assert_eq!(app.add_sibling_seeded(u128::MAX), 0);
    assert_eq!(app.add_sibling_seeded(u128::MAX), 1);
    assert_eq!(app.roots(), &vec![u128::MAX, 0, 1]);
    assert_eq!(next_id(u128::MAX), 0);
    assert_eq!(next_id(0), 1);
    assert_eq!(next_id(41), 42);
}

#[test]
fn claim_id_names_the_identifier_without_adding_it() {
    let mut store = TreeStore::new();
    store.add_child_seeded(3);
    assert_eq!(store.claim_id(3), 4);
    assert_eq!(store.claim_id(2), 2);
    assert_eq!(store.node_count(), 1);
}

#[test]
fn random_identifiers_are_version_4_uuids() {
    let node = TreeNode::new("Folder".to_string(), None);
    let uuid = uuid::Uuid::from_u128(node.id);
    assert_eq!(uuid.get_version_num(), 4);
    assert_eq!(uuid.get_variant(), uuid::Variant::RFC4122);
    assert_eq!(node.name, "Folder");
    assert_eq!(node.parent, None);
    assert!(node.children.is_empty());
    let note = TreeNode::new("Note".to_string(), Some("content".to_string()));
    assert_eq!(note.content, Some("content".to_string()));
    assert_ne!(note.id, node.id);
}

#[test]
fn random_adds_grow_the_forest_with_distinct_nodes() {
    let mut app = App::new();
    app.add_child_node();
    let first = app.selected_node().unwrap();
    app.add_child_node();
    let second = app.selected_node().unwrap();
    app.add_sibling_node();
    let third = app.selected_node().unwrap();
    assert_ne!(first, second);
    assert_ne!(second, third);
    assert_ne!(first, third);
    assert_eq!(app.node_count(), 3);
    assert_eq!(app.roots(), &vec![first]);
    assert_eq!(children_of(&app, first), vec![second, third]);
    assert_eq!(uuid::Uuid::from_u128(third).get_version_num(), 4);
}

#[test]
fn selection_resolves_after_every_command() {
    let script = [
        Command::MoveDown,
        Command::GoLast,
        Command::AddChild,
        Command::AddChild,
        Command::AddSibling,
        Command::MoveUp,
        Command::AddSibling,
        Command::GoFirst,
        Command::GoFirst,
        Command::AddSibling,
        Command::GoFirst,
        Command::MoveDown,
        Command::GoLast,
        Command::MoveUp,
        Command::MoveUp,
        Command::AddChild,
        Command::Unbound,
        Command::GoLast,
    ];
    let mut app = App::new();
    for cmd in script {
        app.dispatch(cmd);
        if let Some(id) = app.selected_node() {
            assert_eq!(app.node(id).unwrap().id, id);
        }
    }
    assert_eq!(app.node_count(), 6);
}

#[test]
fn links_agree_and_every_node_has_one_place() {
    let mut app = App::new();
    for seed in [1u128, 2, 3] {
        app.add_child_seeded(seed);
    }
    app.add_sibling_seeded(4);
    app.select_first_overall();
    app.select_first_overall();
    app.add_sibling_seeded(5);
    app.add_child_seeded(6);
    let lines = app.traverse_visible();
    assert_eq!(lines.len(), app.node_count());
    let mut seen: Vec<u128> = lines.iter().map(|line| line.id).collect();
    seen.sort();
    assert_eq!(seen, vec![1, 2, 3, 4, 5, 6]);
    for line in &lines {
        let node = app.node(line.id).unwrap();
        let mut steps = 0;
        let mut at = node;
        while let Some(parent) = at.parent {
            let above = app.node(parent).unwrap();
            assert_eq!(above.children.iter().filter(|c| **c == at.id).count(), 1);
            at = above;
            steps += 1;
            assert!(steps < app.node_count());
        }
        assert_eq!(app.roots().iter().filter(|r| **r == at.id).count(), 1);
        assert_eq!(steps, line.depth);
        for child in &node.children {
            assert_eq!(app.node(*child).unwrap().parent, Some(node.id));
        }
    }
}

#[test]
fn keys_are_bound_to_commands() {
    assert_eq!(command_for_key('A'), Command::AddChild);
    assert_eq!(command_for_key('a'), Command::AddSibling);
    assert_eq!(command_for_key('j'), Command::MoveDown);
    assert_eq!(command_for_key('k'), Command::MoveUp);
    assert_eq!(command_for_key('g'), Command::GoFirst);
    assert_eq!(command_for_key('G'), Command::GoLast);
    assert_eq!(command_for_key('q'), Command::Quit);
    assert_eq!(command_for_key('x'), Command::Unbound);
    assert_eq!(command_for_key('Q'), Command::Unbound);
    assert_eq!(command_for_key(' '), Command::Unbound);
}

#[test]
fn keys_drive_the_outline() {
    let mut app = App::new();
    assert_eq!(app.handle_key('A'), Outcome::Continue);
    assert_eq!(app.handle_key('A'), Outcome::Continue);
    assert_eq!(app.handle_key('a'), Outcome::Continue);
    assert_eq!(app.node_count(), 3);
    let root = app.roots()[0];
    let children = children_of(&app, root);
    assert_eq!(children.len(), 2);
    assert_eq!(app.selected_node(), Some(children[1]));
    assert_eq!(app.handle_key('k'), Outcome::Continue);
    assert_eq!(app.selected_node(), Some(children[0]));
    assert_eq!(app.handle_key('j'), Outcome::Continue);
    assert_eq!(app.selected_node(), Some(children[1]));
    assert_eq!(app.handle_key('g'), Outcome::Continue);
    assert_eq!(app.selected_node(), Some(children[1]));
    assert_eq!(app.handle_key('g'), Outcome::Continue);
    assert_eq!(app.selected_node(), Some(root));
    assert_eq!(app.handle_key('G'), Outcome::Continue);
    assert_eq!(app.selected_node(), Some(children[1]));
    assert_eq!(app.handle_key('z'), Outcome::Continue);
    assert_eq!(app.selected_node(), Some(children[1]));
    assert_eq!(app.handle_key('q'), Outcome::Quit);
    assert_eq!(app.node_count(), 3);
}

#[test]
fn quit_belongs_to_a_pending_chord() {
    let mut app = App::new();
    assert_eq!(app.handle_key('g'), Outcome::Continue);
    assert_eq!(app.handle_key('q'), Outcome::Continue);
    assert_eq!(app.chord(), ChordState::Idle);
    assert_eq!(app.handle_key('q'), Outcome::Quit);
}

#[test]
fn only_tree_mode_reacts() {
    for mode in [Mode::Normal, Mode::Insert] {
        let mut store = TreeStore::new();
        store.add_child_seeded(1);
        store.mode = mode;
        for cmd in [
            Command::AddChild,
            Command::AddSibling,
            Command::GoFirst,
            Command::GoLast,
            Command::Quit,
            Command::Unbound,
        ] {
            assert_eq!(store.dispatch(cmd), Outcome::Continue);
            assert_eq!(store.nodes.len(), 1);
            assert_eq!(store.selected_node, Some(1));
            assert_eq!(store.chord, ChordState::Idle);
        }
    }
}

#[test]
fn mode_labels() {
    assert_eq!(Mode::Tree.label(), "TREE");
    assert_eq!(Mode::Normal.label(), "NORMAL");
    assert_eq!(Mode::Insert.label(), "INSERT");
    let app = App::new();
    assert_eq!(app.mode().label(), "TREE");
    assert!(app.tree_focused());
}

#[test]
fn selected_content_is_the_text_of_the_selection() {
    let mut app = App::new();
    assert_eq!(app.selected_content(), "");
    app.add_child_seeded(1);
    assert_eq!(app.selected_content(), "");

    let mut store = TreeStore::new();
    let mut note = TreeNode::new("Note".to_string(), Some("content".to_string()));
    note.id = 12;
    store.nodes.insert(12, note);
    store.roots.push(12);
    store.selected_node = Some(12);
    assert_eq!(store.selected_content(), "content");
    store.selected_node = Some(13);
    assert_eq!(store.selected_content(), "");
}

#[test]
fn find_gives_the_first_index() {
    assert_eq!(find(&vec![4, 5, 6], 4), Some(0));
    assert_eq!(find(&vec![4, 5, 6], 6), Some(2));
    assert_eq!(find(&vec![4, 5, 6, 5], 5), Some(1));
    assert_eq!(find(&vec![4, 5, 6], 7), None);
    assert_eq!(find(&vec![], 7), None);
}
