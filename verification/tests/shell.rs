use intellisense::browser::{game_description, query_terms, search_entries, GameInstall, GameVersion, HashListEntry};
use intellisense::shell::{
    creating_task_name, deleting_task_name, fs_event_action, loading_task_name, renaming_task_name,
    searching_task_name, CreateKind, FsAction, FsEventKind, RenameMode, WatchError,
};

fn entry(path: &str, flags: u64) -> HashListEntry {
    HashListEntry { hash: format!("H{}", path.len()), path: path.to_string(), hint: String::new(), game_flags: flags }
}

#[test]
fn installs_are_described_with_their_platform() {
    let i = GameInstall { path: "/games/h3".to_string(), version: GameVersion::H3, platform: "Steam".to_string() };
    assert_eq!(game_description(&i), "HITMAN 3 (Steam)");
    let i = GameInstall { path: "/games/h1".to_string(), version: GameVersion::H1, platform: "Epic".to_string() };
    assert_eq!(game_description(&i), "HITMAN™ (Epic)");
}

#[test]
fn queries_split_on_every_space() {
    let pieces: Vec<String> = query_terms("a  bc ").iter().map(|p| p.iter().collect()).collect();
    assert_eq!(pieces, vec!["a", "", "bc", ""]);
    let pieces: Vec<String> = query_terms("").iter().map(|p| p.iter().collect()).collect();
    assert_eq!(pieces, vec![""]);
}

#[test]
fn search_keeps_entries_of_the_game_holding_every_piece() {
    let es = vec![
        entry("[assembly:/_pro/characters/agent47.entitytemplate]", 0b1110),
        entry("[assembly:/_pro/characters/guard.entitytemplate]", 0b0010),
        entry("[assembly:/_pro/props/agent47_gun.entitytemplate]", 0b1000),
    ];
    let found = search_entries(&es, &GameVersion::H3, "agent47 characters");
    assert_eq!(found.len(), 1);
    assert_eq!(found[0].path, "[assembly:/_pro/characters/agent47.entitytemplate]");
    let found = search_entries(&es, &GameVersion::H3, "agent47");
    assert_eq!(found.len(), 2);
    let found = search_entries(&es, &GameVersion::H1, "");
    assert_eq!(found.len(), 2);
    let found = search_entries(&es, &GameVersion::H2, "guard");
    assert!(found.is_empty());
}

#[test]
fn task_names() {
    assert_eq!(creating_task_name(true, "scripts"), "Creating folder scripts");
    assert_eq!(creating_task_name(false, "a.json"), "Creating file a.json");
    assert_eq!(deleting_task_name("a.json"), "Moving a.json to bin");
    assert_eq!(renaming_task_name("a", "b"), "Renaming a to b");
    assert_eq!(searching_task_name("agent"), "Searching game files for agent");
    assert_eq!(loading_task_name("/mods/x"), "Loading project /mods/x");
}

#[test]
fn notifications_become_tree_updates() {
    assert!(matches!(fs_event_action(true, &FsEventKind::Remove, 0), Ok(FsAction::Rescan)));
    assert!(matches!(fs_event_action(false, &FsEventKind::Create(CreateKind::File), 1), Ok(FsAction::Create { path: 0, is_folder: false })));
    assert!(matches!(fs_event_action(false, &FsEventKind::Create(CreateKind::Folder), 1), Ok(FsAction::Create { path: 0, is_folder: true })));
    assert!(matches!(fs_event_action(false, &FsEventKind::Create(CreateKind::Any), 1), Ok(FsAction::CreateIfPresent { path: 0 })));
    assert!(matches!(fs_event_action(false, &FsEventKind::Rename(RenameMode::Both), 2), Ok(FsAction::Rename { from: 0, to: 1 })));
    assert!(matches!(fs_event_action(false, &FsEventKind::Rename(RenameMode::From), 1), Ok(FsAction::Delete { path: 0 })));
    assert!(matches!(fs_event_action(false, &FsEventKind::Rename(RenameMode::To), 1), Ok(FsAction::CreateIfPresent { path: 0 })));
    assert!(matches!(fs_event_action(false, &FsEventKind::Rename(RenameMode::Any), 1), Ok(FsAction::Ignore)));
    assert!(matches!(fs_event_action(false, &FsEventKind::Remove, 1), Ok(FsAction::Delete { path: 0 })));
    assert!(matches!(fs_event_action(false, &FsEventKind::Other, 0), Ok(FsAction::Ignore)));
}

#[test]
fn notifications_without_paths_are_errors() {
    let cases = [
        (FsEventKind::Create(CreateKind::File), 0, "Create event had no paths"),
        (FsEventKind::Create(CreateKind::Folder), 0, "Create event had no path"),
        (FsEventKind::Create(CreateKind::Other), 0, "Create event had no paths"),
        (FsEventKind::Rename(RenameMode::Both), 0, "Rename-both event had no first path"),
        (FsEventKind::Rename(RenameMode::Both), 1, "Rename-both event had no second path"),
        (FsEventKind::Rename(RenameMode::From), 0, "Rename-from event had no path"),
        (FsEventKind::Rename(RenameMode::To), 0, "Rename-to event had no paths"),
        (FsEventKind::Remove, 0, "Remove event had no path"),
    ];
    for (kind, count, message) in cases {
        match fs_event_action(false, &kind, count) {
            Err(e) => assert_eq!(e.message(), message),
            Ok(_) => panic!("expected an error"),
        }
    }
    assert_eq!(WatchError::RemoveNoPath.message(), "Remove event had no path");
}
