use wow_ui_glue::prof_specs::{
    children_for_path, children_of, currency_info_for_skill_line, source_text_for_path, spend_currency_for_path, config_id_for_skill_line, currency_info, default_prof_spec_currency_id,
    default_prof_spec_root_node_id, default_prof_spec_tree, lookup_pair, node_display_description,
    node_display_name, node_first_entry_id, node_icon_file_id, path_exists, path_state, root_path_for_tab,
    skill_line_has_specialization, spec_tab_ids_for_skill_line, spend_entry_for_path, state_for_tab,
    tab_matches_default_tree, tree_child_map, tree_depth_map, TraitDefinition, TraitNode, TraitTree,
};

fn node(id: u32, parents: &[u32], entries: &[u32], max_ranks: i32) -> TraitNode {
    TraitNode { node_id: id, edge_sources: parents.to_vec(), entry_ids: entries.to_vec(), max_ranks }
}

fn fixture() -> (Vec<TraitNode>, TraitTree) {
    let db = vec![
        node(10, &[], &[100], 1),
        node(20, &[10], &[200], 3),
        node(30, &[10], &[], 0),
        node(40, &[20], &[400], 1),
        node(50, &[40], &[500], 1),
    ];
    let tree = TraitTree { tree_id: 790, node_ids: vec![10, 20, 30, 40, 50], currency_ids: vec![7, 8] };
    (db, tree)
}

#[test]
fn root_and_children() {
    let (db, tree) = fixture();
    assert_eq!(default_prof_spec_root_node_id(&db, &tree), Some(10));
    assert_eq!(children_of(&db, &tree.node_ids, 10), vec![20, 30]);
    assert_eq!(children_for_path(&db, &tree, 10), vec![20, 30]);
    assert_eq!(children_for_path(&db, &tree, 20), vec![40]);
    assert_eq!(children_for_path(&db, &tree, 40), Vec::<u32>::new());
    assert_eq!(children_for_path(&db, &tree, 99), Vec::<u32>::new());
}

#[test]
fn depth_map_gives_shortest_depths() {
    let (db, tree) = fixture();
    let m = tree_depth_map(&db, &tree, 10);
    assert_eq!(m[0], (10, 0));
    let depth = |id: u32| m.iter().find(|e| e.0 == id).map(|e| e.1);
    assert_eq!(depth(20), Some(1));
    assert_eq!(depth(30), Some(1));
    assert_eq!(depth(40), Some(2));
    assert_eq!(depth(50), Some(3));
    assert_eq!(m.len(), 5);
}

#[test]
fn child_map_is_sorted_by_parent() {
    let (db, tree) = fixture();
    let m = tree_child_map(&db, &tree);
    assert_eq!(m, vec![(10, vec![20, 30]), (20, vec![40]), (40, vec![50])]);
}

#[test]
fn child_map_lists_a_child_once_per_edge() {
    let db = vec![node(1, &[], &[], 1), node(2, &[1, 1], &[], 1), node(3, &[2, 1], &[], 1)];
    let tree = TraitTree { tree_id: 790, node_ids: vec![3, 2, 1], currency_ids: vec![] };
    assert_eq!(tree_child_map(&db, &tree), vec![(1, vec![3, 2, 2]), (2, vec![3])]);
}

#[test]
fn tree_without_root_has_no_paths() {
    let db = vec![node(1, &[2], &[], 1), node(2, &[1], &[], 1)];
    let tree = TraitTree { tree_id: 790, node_ids: vec![1, 2], currency_ids: vec![] };
    assert_eq!(default_prof_spec_root_node_id(&db, &tree), None);
    assert_eq!(children_for_path(&db, &tree, 1), Vec::<u32>::new());
}

#[test]
fn default_tree_lookup() {
    let (_, tree) = fixture();
    let other = TraitTree { tree_id: 5, node_ids: vec![], currency_ids: vec![] };
    let trees = vec![other, tree];
    assert_eq!(default_prof_spec_tree(&trees).map(|t| t.tree_id), Some(790));
    let only_other = vec![TraitTree { tree_id: 5, node_ids: vec![], currency_ids: vec![] }];
    assert!(default_prof_spec_tree(&only_other).is_none());
}

#[test]
fn currency_choice_prefers_one_with_points() {
    let (_, tree) = fixture();
    assert_eq!(default_prof_spec_currency_id(&tree, &vec![(7, 0), (8, 5)]), Some(8));
    assert_eq!(default_prof_spec_currency_id(&tree, &vec![]), Some(7));
    let empty = TraitTree { tree_id: 790, node_ids: vec![], currency_ids: vec![] };
    assert_eq!(default_prof_spec_currency_id(&empty, &vec![]), None);
}

#[test]
fn currency_info_figures() {
    let info = currency_info(3, 10);
    assert_eq!((info.num_available, info.num_total, info.spent_percentage), (7, 10, 30));
    let info = currency_info(12, 10);
    assert_eq!((info.num_available, info.num_total, info.spent_percentage), (0, 10, 120));
    let info = currency_info(5, 0);
    assert_eq!((info.num_available, info.num_total, info.spent_percentage), (0, 0, 0));
    let info = currency_info(1, 3);
    assert_eq!(info.spent_percentage, 33);
}

#[test]
fn skill_line_and_tab_queries() {
    assert!(skill_line_has_specialization(164));
    assert!(!skill_line_has_specialization(165));
    assert_eq!(config_id_for_skill_line(164), 1);
    assert_eq!(config_id_for_skill_line(1), 0);
    assert_eq!(spec_tab_ids_for_skill_line(164), vec![790]);
    assert_eq!(spec_tab_ids_for_skill_line(2), Vec::<i32>::new());
    assert!(tab_matches_default_tree(790));
    assert_eq!(state_for_tab(790, 1), Some(1));
    assert_eq!(state_for_tab(790, 2), None);
    assert_eq!(root_path_for_tab(790, Some(10)), Some(10));
    assert_eq!(root_path_for_tab(791, Some(10)), None);
}

#[test]
fn path_queries() {
    let (db, _) = fixture();
    assert!(path_exists(&db, 20));
    assert!(!path_exists(&db, 21));
    assert_eq!(node_first_entry_id(&db, 20), Some(200));
    assert_eq!(node_first_entry_id(&db, 30), None);
    assert_eq!(spend_entry_for_path(&db, 40), 400);
    assert_eq!(spend_entry_for_path(&db, 30), 0);
    assert_eq!(path_state(&db, &vec![(20, 2)], 20), Some(1));
    assert_eq!(path_state(&db, &vec![(20, 3)], 20), Some(2));
    assert_eq!(path_state(&db, &vec![], 30), Some(1));
    assert_eq!(path_state(&db, &vec![(30, 1)], 30), Some(2));
    assert_eq!(path_state(&db, &vec![], 31), None);
}

#[test]
fn icon_and_names() {
    let (db, _) = fixture();
    let entries = vec![(200, 9), (400, 8)];
    let defs = vec![
        TraitDefinition { definition_id: 9, override_icon: 0, display_spell_id: Some(77) },
        TraitDefinition { definition_id: 8, override_icon: 1234, display_spell_id: Some(77) },
    ];
    let icons = vec![(77, 555)];
    assert_eq!(node_icon_file_id(&db, &entries, &defs, &icons, 20), 555);
    assert_eq!(node_icon_file_id(&db, &entries, &defs, &icons, 40), 1234);
    assert_eq!(node_icon_file_id(&db, &entries, &defs, &icons, 30), 0);
    assert_eq!(node_icon_file_id(&db, &entries, &defs, &vec![], 20), 0);
    assert_eq!(lookup_pair(&entries, 400), Some(8));
    assert_eq!(node_display_name(None), "Blacksmithing Path");
    assert_eq!(node_display_name(Some("Hammers".to_string())), "Hammers");
    assert_eq!(node_display_description(None, "Hammers"), "Advance Hammers.");
    assert_eq!(node_display_description(Some("Hit things.".to_string()), "Hammers"), "Hit things.");
}

#[test]
fn path_currency_text_and_skill_line_figures() {
    let (db, tree) = fixture();
    let max_points = vec![(7u32, 0u32), (8, 40)];
    assert_eq!(spend_currency_for_path(&db, &tree, &max_points, 20), Some(8));
    assert_eq!(spend_currency_for_path(&db, &tree, &max_points, 21), None);
    assert_eq!(source_text_for_path(&db, 20), "Earn Blacksmithing knowledge from profession activities.");
    assert_eq!(source_text_for_path(&db, 21), "");
    let info = currency_info_for_skill_line(164, &tree, &max_points, &vec![(8, 10)]).unwrap();
    assert_eq!((info.num_available, info.num_total, info.spent_percentage), (30, 40, 25));
    assert!(currency_info_for_skill_line(165, &tree, &max_points, &vec![]).is_none());
    let bare = TraitTree { tree_id: 790, node_ids: vec![], currency_ids: vec![] };
    assert!(currency_info_for_skill_line(164, &bare, &max_points, &vec![]).is_none());
}
