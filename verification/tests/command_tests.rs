use label_wires::command::command::AddConnectionCommand;
use label_wires::command::command::Command;
use label_wires::command::command::CommandError;
use label_wires::command::command::ConnectionCommand;
use label_wires::command::command::DeleteConnectionCommand;
use label_wires::command::command::EditConnectionCommand;
use label_wires::command::command::StringHashMap;
use label_wires::command::command_manager::CommandManager;
use label_wires::models::connection_manager::ConnectionManager;

fn empty_manager() -> ConnectionManager {
    ConnectionManager::new(None, "out.json".to_string(), "settings.json".to_string(), None, None)
        .unwrap()
}

fn terminal(component: &str, block: &str, terminal: &str) -> StringHashMap<String> {
    values(&[("component", component), ("terminal_block", block), ("terminal", terminal)])
}

fn add_command(source: (&str, &str, &str), destination: (&str, &str, &str)) -> AddConnectionCommand {
    AddConnectionCommand::new(
        terminal(source.0, source.1, source.2),
        terminal(destination.0, destination.1, destination.2),
    )
}

fn manager_with(pairs: &[(&str, &str)]) -> ConnectionManager {
    let mut manager = empty_manager();
    for (source, destination) in pairs {
        manager
            .add_connection(
                source.to_string(),
                "1".to_string(),
                "T".to_string(),
                destination.to_string(),
                "2".to_string(),
                "T".to_string(),
            )
            .unwrap();
    }
    manager
}

fn components(manager: &ConnectionManager) -> Vec<(String, String)> {
    manager
        .get_connections()
        .iter()
        .map(|c| (c.src_component.clone(), c.dst_component.clone()))
        .collect()
}

fn sorted(mut pairs: Vec<(String, String)>) -> Vec<(String, String)> {
    pairs.sort();
    pairs
}

fn pair(a: &str, b: &str) -> (String, String) {
    (a.to_string(), b.to_string())
}

fn values(entries: &[(&str, &str)]) -> StringHashMap<String> {
    let mut map = StringHashMap::new();
    for (key, text) in entries {
        map.insert(key.to_string(), text.to_string());
    }
    map
}

#[test]
fn add_command_adds_the_connection() {
    let mut manager = empty_manager();
    let mut command = add_command(("A", "1", "T1"), ("B", "2", "T2"));
    assert!(command.execute(&mut manager).is_ok());
    assert_eq!(manager.len(), 1);
    let stored = &manager.get_connections()[0];
    assert_eq!(stored.src_component, "A");
    assert_eq!(stored.src_terminal_block, "1");
    assert_eq!(stored.src_terminal, "T1");
    assert_eq!(stored.dst_component, "B");
    assert_eq!(stored.dst_terminal_block, "2");
    assert_eq!(stored.dst_terminal, "T2");
}

#[test]
fn add_command_does_not_mind_other_values() {
    let mut manager = empty_manager();
    let source = values(&[
        ("colour", "red"),
        ("component", "A"),
        ("terminal_block", "1"),
        ("terminal", "T1"),
        ("src_component", "Z"),
    ]);
    let mut command = AddConnectionCommand::new(source, terminal("B", "2", "T2"));
    command.execute(&mut manager).unwrap();
    assert_eq!(manager.get_connections()[0].src_component, "A");
    assert_eq!(manager.get_connections()[0].to_tuple(), ("A-1-T1".to_string(), "B-2-T2".to_string()));
}

#[test]
fn add_command_takes_an_unnamed_part_as_empty() {
    let mut manager = empty_manager();
    let mut command = AddConnectionCommand::new(
        values(&[("component", "A")]),
        values(&[("terminal", "T2")]),
    );
    command.execute(&mut manager).unwrap();
    let stored = &manager.get_connections()[0];
    assert_eq!(stored.to_tuple(), ("A".to_string(), "--T2".to_string()));
}

#[test]
fn add_command_reports_a_duplicate() {
    let mut manager = manager_with(&[("A", "B")]);
    let mut command = add_command(("B", "2", "T"), ("A", "1", "T"));
    let result = command.execute(&mut manager);
    assert!(matches!(result, Err(CommandError::DuplicateConnection)));
    assert_eq!(manager.len(), 1);
    let undone = command.undo(&mut manager);
    match undone {
        Err(CommandError::Other(cause)) => assert_eq!(cause, "No connection to undo"),
        _ => panic!("nothing was added"),
    }
    assert_eq!(manager.len(), 1);
}

#[test]
fn add_command_undo_removes_the_connection() {
    let mut manager = manager_with(&[("A", "B")]);
    let mut command = add_command(("C", "1", "T1"), ("D", "2", "T2"));
    command.execute(&mut manager).unwrap();
    assert_eq!(manager.len(), 2);
    assert!(command.undo(&mut manager).is_ok());
    assert_eq!(components(&manager), vec![pair("A", "B")]);
}

#[test]
fn add_command_undo_fails_where_the_connection_is_gone() {
    let mut manager = empty_manager();
    let mut command = add_command(("C", "1", "T1"), ("D", "2", "T2"));
    command.execute(&mut manager).unwrap();
    command.undo(&mut manager).unwrap();
    let again = command.undo(&mut manager);
    match again {
        Err(CommandError::Other(cause)) => {
            assert_eq!(cause, "Failed to delete connection: Connection not found")
        }
        _ => panic!("the connection is gone already"),
    }
    assert_eq!(manager.len(), 0);
}

#[test]
fn add_execute_undo_redo_gives_the_state_after_execute() {
    let mut manager = manager_with(&[("A", "B"), ("E", "F")]);
    let mut command = add_command(("C", "1", "T1"), ("D", "2", "T2"));
    command.execute(&mut manager).unwrap();
    let after_execute = components(&manager);
    let first_id = manager.get_connections()[2].uuid;
    command.undo(&mut manager).unwrap();
    assert_eq!(components(&manager), vec![pair("A", "B"), pair("E", "F")]);
    command.redo(&mut manager).unwrap();
    assert_eq!(components(&manager), after_execute);
    assert_ne!(manager.get_connections()[2].uuid, first_id);
}

#[test]
fn add_redo_fails_where_an_equal_connection_came_in_between() {
    let mut manager = empty_manager();
    let mut command = add_command(("C", "1", "T"), ("D", "2", "T"));
    command.execute(&mut manager).unwrap();
    command.undo(&mut manager).unwrap();
    let mut other = add_command(("D", "2", "T"), ("C", "1", "T"));
    other.execute(&mut manager).unwrap();
    assert!(matches!(command.redo(&mut manager), Err(CommandError::DuplicateConnection)));
    assert_eq!(manager.len(), 1);
}

#[test]
fn delete_command_removes_the_connections_named() {
    let mut manager = manager_with(&[("A", "B"), ("C", "D"), ("E", "F")]);
    let ids = vec![manager.get_connections()[2].uuid, manager.get_connections()[0].uuid];
    let mut command = DeleteConnectionCommand::new(ids);
    assert!(command.execute(&mut manager).is_ok());
    assert_eq!(components(&manager), vec![pair("C", "D")]);
}

#[test]
fn delete_command_passes_over_unknown_identifiers() {
    let mut manager = manager_with(&[("A", "B"), ("C", "D")]);
    manager.file_written(Ok(())).unwrap();
    let known = manager.get_connections()[1].uuid;
    let mut command = DeleteConnectionCommand::new(vec![1, known, 2, known]);
    assert!(command.execute(&mut manager).is_ok());
    assert_eq!(components(&manager), vec![pair("A", "B")]);
    let mut nothing = DeleteConnectionCommand::new(vec![1, 2, 3]);
    manager.file_written(Ok(())).unwrap();
    assert!(nothing.execute(&mut manager).is_ok());
    assert_eq!(manager.len(), 1);
    assert!(!manager.has_unsaved_changes());
    assert!(DeleteConnectionCommand::new(vec![]).execute(&mut manager).is_ok());
    assert_eq!(manager.len(), 1);
}

#[test]
fn delete_execute_undo_brings_the_connections_back() {
    let mut manager = manager_with(&[("A", "B"), ("C", "D"), ("E", "F")]);
    let before = sorted(components(&manager));
    let old_ids: Vec<u128> = manager.get_connections().iter().map(|c| c.uuid).collect();
    let mut command = DeleteConnectionCommand::new(vec![old_ids[0], old_ids[1]]);
    command.execute(&mut manager).unwrap();
    assert_eq!(manager.len(), 1);
    assert!(command.undo(&mut manager).is_ok());
    assert_eq!(sorted(components(&manager)), before);
    assert_eq!(components(&manager), vec![pair("E", "F"), pair("A", "B"), pair("C", "D")]);
    for connection in &manager.get_connections()[1..] {
        assert!(!old_ids.contains(&connection.uuid));
        assert_eq!(connection.src_terminal_block, "1");
        assert_eq!(connection.dst_terminal_block, "2");
        assert_eq!(connection.src_terminal, "T");
    }
}

#[test]
fn delete_undo_reports_what_could_not_come_back() {
    let mut manager = manager_with(&[("A", "B"), ("C", "D")]);
    let ids: Vec<u128> = manager.get_connections().iter().map(|c| c.uuid).collect();
    let mut command = DeleteConnectionCommand::new(ids);
    command.execute(&mut manager).unwrap();
    manager
        .add_connection("B".into(), "2".into(), "T".into(), "A".into(), "1".into(), "T".into())
        .unwrap();
    let undone = command.undo(&mut manager);
    assert!(matches!(undone, Err(CommandError::DuplicateConnection)));
    assert_eq!(components(&manager), vec![pair("B", "A"), pair("C", "D")]);
}

#[test]
fn delete_redo_looks_for_the_old_identifiers() {
    let mut manager = manager_with(&[("A", "B")]);
    let id = manager.get_connections()[0].uuid;
    let mut command = DeleteConnectionCommand::new(vec![id]);
    command.execute(&mut manager).unwrap();
    command.undo(&mut manager).unwrap();
    assert!(command.redo(&mut manager).is_ok());
    assert_eq!(components(&manager), vec![pair("A", "B")]);
    assert!(command.undo(&mut manager).is_ok());
    assert_eq!(components(&manager), vec![pair("A", "B")]);
}

#[test]
fn delete_command_removes_the_connection_with_the_identifier() {
    let mut manager = manager_with(&[("A", "B"), ("C", "D"), ("E", "F")]);
    let id = manager.get_connections()[1].uuid;
    let kept: Vec<u128> = vec![manager.get_connections()[0].uuid, manager.get_connections()[2].uuid];
    DeleteConnectionCommand::new(vec![id]).execute(&mut manager).unwrap();
    let left: Vec<u128> = manager.get_connections().iter().map(|c| c.uuid).collect();
    assert_eq!(left, kept);
}

#[test]
fn delete_execute_undo_keeps_the_texts_with_their_number() {
    let mut manager = manager_with(&[("A", "B"), ("C", "D"), ("E", "F"), ("G", "H")]);
    let before = sorted(
        manager.get_connections().iter().map(|c| c.to_tuple()).collect::<Vec<(String, String)>>(),
    );
    let ids = vec![manager.get_connections()[3].uuid, 9, manager.get_connections()[0].uuid];
    let mut command = DeleteConnectionCommand::new(ids);
    command.execute(&mut manager).unwrap();
    assert_eq!(components(&manager), vec![pair("C", "D"), pair("E", "F")]);
    assert!(command.undo(&mut manager).is_ok());
    assert_eq!(
        components(&manager),
        vec![pair("C", "D"), pair("E", "F"), pair("G", "H"), pair("A", "B")]
    );
    let after = sorted(
        manager.get_connections().iter().map(|c| c.to_tuple()).collect::<Vec<(String, String)>>(),
    );
    assert_eq!(after, before);
}

#[test]
fn edit_command_replaces_the_connection() {
    let mut manager = manager_with(&[("A", "B"), ("C", "D")]);
    let id = manager.get_connections()[0].uuid;
    let mut command = EditConnectionCommand::new(
        id,
        values(&[
            ("src_component", "X"),
            ("src_terminal_block", "7"),
            ("src_terminal", "T7"),
            ("dst_component", "Y"),
            ("dst_terminal_block", "8"),
            ("dst_terminal", "T8"),
        ]),
    );
    assert!(command.execute(&mut manager).is_ok());
    assert_eq!(components(&manager), vec![pair("C", "D"), pair("X", "Y")]);
    let made = &manager.get_connections()[1];
    assert_ne!(made.uuid, id);
    assert_eq!(made.to_tuple(), ("X-7-T7".to_string(), "Y-8-T8".to_string()));
    assert!(manager.has_unsaved_changes());
}

#[test]
fn edit_command_takes_a_missing_value_as_empty() {
    let mut manager = manager_with(&[("A", "B")]);
    let id = manager.get_connections()[0].uuid;
    let mut command = EditConnectionCommand::new(id, values(&[("dst_component", "Y")]));
    command.execute(&mut manager).unwrap();
    let made = &manager.get_connections()[0];
    assert_eq!(made.src_component, "");
    assert_eq!(made.src_terminal_block, "");
    assert_eq!(made.src_terminal, "");
    assert_eq!(made.dst_component, "Y");
    assert_eq!(made.dst_terminal_block, "");
    assert_eq!(made.dst_terminal, "");
    let mut blank = EditConnectionCommand::new(made.uuid, values(&[]));
    blank.execute(&mut manager).unwrap();
    assert!(manager.get_connections()[0].is_empty());
}

#[test]
fn edit_command_fails_without_its_connection() {
    let mut manager = manager_with(&[("A", "B")]);
    manager.file_written(Ok(())).unwrap();
    let mut command = EditConnectionCommand::new(5, values(&[("src_component", "X")]));
    let result = command.execute(&mut manager);
    assert!(matches!(result, Err(CommandError::ConnectionNotFoundError)));
    assert_eq!(components(&manager), vec![pair("A", "B")]);
    assert!(!manager.has_unsaved_changes());
    assert!(command.undo(&mut manager).is_ok());
    assert_eq!(components(&manager), vec![pair("A", "B")]);
    assert!(!manager.has_unsaved_changes());
}

#[test]
fn edit_undo_brings_the_old_connection_back() {
    let mut manager = manager_with(&[("A", "B"), ("C", "D")]);
    let id = manager.get_connections()[0].uuid;
    let mut command = EditConnectionCommand::new(id, values(&[("src_component", "X")]));
    command.execute(&mut manager).unwrap();
    assert!(command.undo(&mut manager).is_ok());
    assert_eq!(components(&manager), vec![pair("C", "D"), pair("A", "B")]);
    assert_eq!(manager.get_connections()[1].uuid, id);
}

#[test]
fn edit_undo_goes_on_where_the_replacement_is_gone() {
    let mut manager = manager_with(&[("A", "B")]);
    let id = manager.get_connections()[0].uuid;
    let mut command = EditConnectionCommand::new(id, values(&[("src_component", "X")]));
    command.execute(&mut manager).unwrap();
    let replacement = manager.get_connections()[0].clone();
    manager.delete_connection(&replacement).unwrap();
    assert!(command.undo(&mut manager).is_ok());
    assert_eq!(components(&manager), vec![pair("A", "B")]);
}

#[test]
fn edit_redo_after_undo_edits_again() {
    let mut manager = manager_with(&[("A", "B")]);
    let id = manager.get_connections()[0].uuid;
    let mut command = EditConnectionCommand::new(id, values(&[("src_component", "X")]));
    command.execute(&mut manager).unwrap();
    let first = manager.get_connections()[0].uuid;
    command.undo(&mut manager).unwrap();
    assert!(command.redo(&mut manager).is_ok());
    assert_eq!(components(&manager), vec![pair("X", "")]);
    assert_ne!(manager.get_connections()[0].uuid, first);
    assert!(matches!(command.redo(&mut manager), Err(CommandError::ConnectionNotFoundError)));
}

#[test]
fn edit_refuses_the_texts_of_another_connection() {
    let mut manager = manager_with(&[("A", "B"), ("C", "D")]);
    manager.file_written(Ok(())).unwrap();
    let ids: Vec<u128> = manager.get_connections().iter().map(|c| c.uuid).collect();
    let mut command = EditConnectionCommand::new(
        ids[1],
        values(&[
            ("src_component", "B"),
            ("src_terminal_block", "2"),
            ("src_terminal", "T"),
            ("dst_component", "A"),
            ("dst_terminal_block", "1"),
            ("dst_terminal", "T"),
        ]),
    );
    let result = command.execute(&mut manager);
    assert!(matches!(result, Err(CommandError::DuplicateConnection)));
    assert_eq!(components(&manager), vec![pair("A", "B"), pair("C", "D")]);
    let left: Vec<u128> = manager.get_connections().iter().map(|c| c.uuid).collect();
    assert_eq!(left, ids);
    assert!(!manager.has_unsaved_changes());
    assert!(command.undo(&mut manager).is_ok());
    assert_eq!(components(&manager), vec![pair("A", "B"), pair("C", "D")]);
}

#[test]
fn edit_may_keep_or_turn_round_the_texts_of_its_own_connection() {
    let mut manager = manager_with(&[("A", "B"), ("C", "D")]);
    let id = manager.get_connections()[0].uuid;
    let mut command = EditConnectionCommand::new(
        id,
        values(&[
            ("src_component", "B"),
            ("src_terminal_block", "2"),
            ("src_terminal", "T"),
            ("dst_component", "A"),
            ("dst_terminal_block", "1"),
            ("dst_terminal", "T"),
        ]),
    );
    assert!(command.execute(&mut manager).is_ok());
    assert_eq!(components(&manager), vec![pair("C", "D"), pair("B", "A")]);
}

#[test]
fn edit_undo_reports_an_equal_connection_that_came_in_between() {
    let mut manager = manager_with(&[("A", "B")]);
    let id = manager.get_connections()[0].uuid;
    let mut command = EditConnectionCommand::new(id, values(&[("src_component", "X")]));
    command.execute(&mut manager).unwrap();
    manager
        .add_connection("B".into(), "2".into(), "T".into(), "A".into(), "1".into(), "T".into())
        .unwrap();
    manager.file_written(Ok(())).unwrap();
    let undone = command.undo(&mut manager);
    assert!(matches!(undone, Err(CommandError::DuplicateConnection)));
    assert_eq!(components(&manager), vec![pair("X", ""), pair("B", "A")]);
    assert!(!manager.has_unsaved_changes());
}

#[test]
fn no_command_leaves_two_equal_connections() {
    let mut manager = manager_with(&[("A", "B"), ("C", "D")]);
    let mut history = CommandManager::new();
    let ids: Vec<u128> = manager.get_connections().iter().map(|c| c.uuid).collect();
    let turned = values(&[
        ("src_component", "D"),
        ("src_terminal_block", "2"),
        ("src_terminal", "T"),
        ("dst_component", "C"),
        ("dst_terminal_block", "1"),
        ("dst_terminal", "T"),
    ]);
    let steps = vec![
        ConnectionCommand::Edit(EditConnectionCommand::new(ids[0], turned)),
        ConnectionCommand::Add(add_command(("B", "2", "T"), ("A", "1", "T"))),
        ConnectionCommand::Delete(DeleteConnectionCommand::new(vec![ids[1]])),
        ConnectionCommand::Add(add_command(("C", "1", "T"), ("D", "2", "T"))),
    ];
    for step in steps {
        let _ = history.execute(step, &mut manager);
    }
    for _ in 0..4 {
        let _ = history.undo(&mut manager);
        let list = manager.get_connections();
        for i in 0..list.len() {
            for j in (i + 1)..list.len() {
                assert!(list[i] != list[j]);
            }
        }
    }
}

#[test]
fn history_starts_empty() {
    let history: CommandManager<ConnectionCommand> = CommandManager::new();
    assert_eq!(history.undo_len(), 0);
    assert_eq!(history.redo_len(), 0);
}

#[test]
fn undo_on_an_empty_history_changes_nothing() {
    let mut manager = manager_with(&[("A", "B")]);
    let mut history: CommandManager<ConnectionCommand> = CommandManager::new();
    assert!(matches!(history.undo(&mut manager), Err(CommandError::NothingToUndo)));
    assert_eq!(history.undo_len(), 0);
    assert_eq!(history.redo_len(), 0);
    assert_eq!(manager.len(), 1);
}

#[test]
fn undo_on_an_empty_undo_history_keeps_the_redo_history() {
    let mut manager = empty_manager();
    let mut history = CommandManager::new();
    history.execute(add_command(("A", "1", "T"), ("B", "2", "T")), &mut manager).unwrap();
    history.undo(&mut manager).unwrap();
    assert!(matches!(history.undo(&mut manager), Err(CommandError::NothingToUndo)));
    assert_eq!(history.undo_len(), 0);
    assert_eq!(history.redo_len(), 1);
}

#[test]
fn redo_on_an_empty_history_changes_nothing() {
    let mut manager = empty_manager();
    let mut history = CommandManager::new();
    assert!(matches!(history.redo(&mut manager), Err(CommandError::NothingToRedo)));
    history.execute(add_command(("A", "1", "T"), ("B", "2", "T")), &mut manager).unwrap();
    assert!(matches!(history.redo(&mut manager), Err(CommandError::NothingToRedo)));
    assert_eq!(history.undo_len(), 1);
    assert_eq!(history.redo_len(), 0);
    assert_eq!(manager.len(), 1);
}

#[test]
fn execute_keeps_what_succeeded() {
    let mut manager = empty_manager();
    let mut history = CommandManager::new();
    assert!(history.execute(add_command(("A", "1", "T"), ("B", "2", "T")), &mut manager).is_ok());
    assert!(history.execute(add_command(("C", "1", "T"), ("D", "2", "T")), &mut manager).is_ok());
    assert_eq!(history.undo_len(), 2);
    assert_eq!(history.redo_len(), 0);
    assert_eq!(manager.len(), 2);
}

#[test]
fn execute_drops_what_failed() {
    let mut manager = manager_with(&[("A", "B")]);
    let mut history = CommandManager::new();
    history.execute(add_command(("C", "1", "T"), ("D", "2", "T")), &mut manager).unwrap();
    history.undo(&mut manager).unwrap();
    let failed = history.execute(add_command(("B", "2", "T"), ("A", "1", "T")), &mut manager);
    assert!(matches!(failed, Err(CommandError::DuplicateConnection)));
    assert_eq!(history.undo_len(), 0);
    assert_eq!(history.redo_len(), 1);
    assert_eq!(manager.len(), 1);
}

#[test]
fn execute_empties_the_redo_history() {
    let mut manager = empty_manager();
    let mut history = CommandManager::new();
    history.execute(add_command(("A", "1", "T"), ("B", "2", "T")), &mut manager).unwrap();
    history.execute(add_command(("C", "1", "T"), ("D", "2", "T")), &mut manager).unwrap();
    history.undo(&mut manager).unwrap();
    history.undo(&mut manager).unwrap();
    assert_eq!(history.redo_len(), 2);
    history.execute(add_command(("E", "1", "T"), ("F", "2", "T")), &mut manager).unwrap();
    assert_eq!(history.redo_len(), 0);
    assert_eq!(history.undo_len(), 1);
    assert_eq!(components(&manager), vec![pair("E", "F")]);
}

#[test]
fn undo_and_redo_move_a_command_between_the_histories() {
    let mut manager = empty_manager();
    let mut history = CommandManager::new();
    history.execute(add_command(("A", "1", "T"), ("B", "2", "T")), &mut manager).unwrap();
    history.execute(add_command(("C", "1", "T"), ("D", "2", "T")), &mut manager).unwrap();
    assert!(history.undo(&mut manager).is_ok());
    assert_eq!((history.undo_len(), history.redo_len()), (1, 1));
    assert_eq!(components(&manager), vec![pair("A", "B")]);
    assert!(history.redo(&mut manager).is_ok());
    assert_eq!((history.undo_len(), history.redo_len()), (2, 0));
    assert_eq!(components(&manager), vec![pair("A", "B"), pair("C", "D")]);
    assert!(history.undo(&mut manager).is_ok());
    assert!(history.undo(&mut manager).is_ok());
    assert_eq!((history.undo_len(), history.redo_len()), (0, 2));
    assert_eq!(manager.len(), 0);
    assert!(history.redo(&mut manager).is_ok());
    assert_eq!(components(&manager), vec![pair("A", "B")]);
}

#[test]
fn a_failed_undo_loses_the_command() {
    let mut manager = empty_manager();
    let mut history = CommandManager::new();
    history.execute(add_command(("A", "1", "T"), ("B", "2", "T")), &mut manager).unwrap();
    let stored = manager.get_connections()[0].clone();
    manager.delete_connection(&stored).unwrap();
    assert!(matches!(history.undo(&mut manager), Err(CommandError::Other(_))));
    assert_eq!((history.undo_len(), history.redo_len()), (0, 0));
}

#[test]
fn a_failed_redo_loses_the_command() {
    let mut manager = empty_manager();
    let mut history = CommandManager::new();
    history.execute(add_command(("A", "1", "T"), ("B", "2", "T")), &mut manager).unwrap();
    history.undo(&mut manager).unwrap();
    manager
        .add_connection("A".into(), "1".into(), "T".into(), "B".into(), "2".into(), "T".into())
        .unwrap();
    assert!(matches!(history.redo(&mut manager), Err(CommandError::DuplicateConnection)));
    assert_eq!((history.undo_len(), history.redo_len()), (0, 0));
    assert_eq!(manager.len(), 1);
}

#[test]
fn execute_command_does_as_execute() {
    let mut manager = empty_manager();
    let mut history = CommandManager::new();
    history.execute_command(add_command(("A", "1", "T"), ("B", "2", "T")), &mut manager);
    assert_eq!((history.undo_len(), history.redo_len()), (1, 0));
    history.undo(&mut manager).unwrap();
    history.execute_command(add_command(("C", "1", "T"), ("D", "2", "T")), &mut manager);
    assert_eq!((history.undo_len(), history.redo_len()), (1, 0));
    history.undo(&mut manager).unwrap();
    manager
        .add_connection("A".into(), "1".into(), "T".into(), "B".into(), "2".into(), "T".into())
        .unwrap();
    history.execute_command(add_command(("B", "2", "T"), ("A", "1", "T")), &mut manager);
    assert_eq!((history.undo_len(), history.redo_len()), (0, 1));
    assert_eq!(manager.len(), 1);
}

#[test]
fn one_history_holds_commands_of_every_kind() {
    let mut manager = empty_manager();
    let mut history = CommandManager::new();
    let add = ConnectionCommand::Add(add_command(("A", "1", "T"), ("B", "2", "T")));
    history.execute(add, &mut manager).unwrap();
    let id = manager.get_connections()[0].uuid;
    let edit = EditConnectionCommand::new(id, values(&[("src_component", "X")]));
    history.execute(ConnectionCommand::Edit(edit), &mut manager).unwrap();
    assert_eq!(components(&manager), vec![pair("X", "")]);
    let made = manager.get_connections()[0].uuid;
    let delete = DeleteConnectionCommand::new(vec![made]);
    history.execute(ConnectionCommand::Delete(delete), &mut manager).unwrap();
    assert_eq!(manager.len(), 0);
    assert_eq!(history.undo_len(), 3);
    history.undo(&mut manager).unwrap();
    assert_eq!(components(&manager), vec![pair("X", "")]);
    history.redo(&mut manager).unwrap();
    assert_eq!(manager.len(), 1);
    assert_eq!((history.undo_len(), history.redo_len()), (3, 0));
    history.undo(&mut manager).unwrap();
    assert_eq!(manager.len(), 1);
    assert_eq!((history.undo_len(), history.redo_len()), (2, 1));
    history.undo(&mut manager).unwrap();
    assert_eq!(components(&manager), vec![pair("X", ""), pair("A", "B")]);
    history.undo(&mut manager).unwrap();
    assert_eq!(components(&manager), vec![pair("X", "")]);
    assert_eq!((history.undo_len(), history.redo_len()), (0, 3));
}

#[test]
fn command_errors_say_what_happened() {
    assert_eq!(CommandError::DuplicateConnection.message(), "Duplicate connection detected.");
    assert_eq!(
        CommandError::ConnectionNotDeleted.message(),
        "Connection was not successfully removed."
    );
    assert_eq!(CommandError::ConnectionNotFoundError.message(), "Connection not found");
    assert_eq!(CommandError::NothingToUndo.message(), "No command to undo");
    assert_eq!(CommandError::NothingToRedo.message(), "No command to redo");
    assert_eq!(CommandError::Other("anything".to_string()).message(), "anything");
}
