use h2m_favorites::utils::json_data::Version;
use h2m_favorites::{
    check_app_dir_exists, check_game_dir, does_dir_contain, format_panic_info,
    get_latest_version, GameDir, Operation, OperationResult, PanicLocation, APP_NAME,
    CACHED_DATA, H2M_MAX_CLIENT_NUM, H2M_MAX_TEAM_SIZE, LOCAL_DATA, LOG_NAME, REQUIRED_FILES,
};

fn names(list: &[&str]) -> Vec<String> {
    list.iter().map(|name| name.to_string()).collect()
}

#[test]
fn constants() {
    assert_eq!(H2M_MAX_CLIENT_NUM, 18);
    assert_eq!(H2M_MAX_TEAM_SIZE, 9);
    assert_eq!(REQUIRED_FILES, ["h1_mp64_ship.exe", "h2m-mod", "players2"]);
    assert_eq!(LOCAL_DATA, "LOCALAPPDATA");
    assert_eq!(CACHED_DATA, "region_cache.json");
    assert_eq!(APP_NAME, "h2m_favorites");
    assert_eq!(LOG_NAME, "h2m_favorties.log");
}

#[test]
fn all_any_count() {
    let dir = names(&["a.txt", "b.txt", "c"]);
    assert_eq!(does_dir_contain(&dir, Operation::All, &["a.txt", "c"]), OperationResult::Bool(true));
    assert_eq!(does_dir_contain(&dir, Operation::All, &["a.txt", "d"]), OperationResult::Bool(false));
    assert_eq!(does_dir_contain(&dir, Operation::Any, &["x", "c"]), OperationResult::Bool(true));
    assert_eq!(does_dir_contain(&dir, Operation::Any, &["x", "y"]), OperationResult::Bool(false));
    assert_eq!(
        does_dir_contain(&dir, Operation::Count, &["c", "x", "a.txt", "c"]),
        OperationResult::Count((2, vec!["c", "a.txt"]))
    );
    assert_eq!(
        does_dir_contain(&dir, Operation::Count, &["x"]),
        OperationResult::Count((0, vec![]))
    );
}

#[test]
fn empty_list_and_empty_directory() {
    let dir = names(&["a"]);
    assert_eq!(does_dir_contain(&dir, Operation::All, &[]), OperationResult::Bool(true));
    assert_eq!(does_dir_contain(&dir, Operation::Any, &[]), OperationResult::Bool(false));
    assert_eq!(does_dir_contain(&dir, Operation::Count, &[]), OperationResult::Count((0, vec![])));
    assert_eq!(does_dir_contain(&[], Operation::All, &["a"]), OperationResult::Bool(false));
    assert_eq!(does_dir_contain(&[], Operation::Any, &["a"]), OperationResult::Bool(false));
    assert_eq!(does_dir_contain(&[], Operation::Count, &["a"]), OperationResult::Count((0, vec![])));
}

#[test]
fn names_are_compared_exactly() {
    let dir = names(&["Players2", "h2m-mod "]);
    assert_eq!(
        does_dir_contain(&dir, Operation::Any, &["players2", "h2m-mod"]),
        OperationResult::Bool(false)
    );
}

#[test]
fn app_dir_is_looked_for_by_name() {
    assert!(check_app_dir_exists(&names(&["other", "h2m_favorites"])));
    assert!(!check_app_dir_exists(&names(&["other", "h2m_favorites.exe"])));
    assert!(!check_app_dir_exists(&[]));
}

#[test]
fn game_directory_checks() {
    let all = names(&["players2", "h2m-mod", "h1_mp64_ship.exe", "zone"]);
    assert_eq!(check_game_dir(&all), GameDir::Ready);
    assert_eq!(check_game_dir(&names(&["h2m-mod", "players2"])), GameDir::GameMissing);
    assert_eq!(check_game_dir(&[]), GameDir::GameMissing);
    assert_eq!(check_game_dir(&names(&["h1_mp64_ship.exe", "players2"])), GameDir::ModMissing);
    assert_eq!(check_game_dir(&names(&["h1_mp64_ship.exe"])), GameDir::ModMissing);
    assert_eq!(
        check_game_dir(&names(&["h1_mp64_ship.exe", "h2m-mod"])),
        GameDir::FavoritesDirMissing
    );
}

#[test]
fn game_directory_messages() {
    assert_eq!(GameDir::Ready.message(), None);
    assert!(!GameDir::Ready.is_fatal());
    assert_eq!(
        GameDir::GameMissing.message(),
        Some("Move h2m_favorites.exe into your 'Call of Duty Modern Warfare Remastered' directory")
    );
    assert!(GameDir::GameMissing.is_fatal());
    assert_eq!(
        GameDir::ModMissing.message(),
        Some("H2M mod files not found, h2m_favorites.exe must be placed in 'Call of Duty Modern Warfare Remastered' directory")
    );
    assert!(GameDir::ModMissing.is_fatal());
    assert_eq!(
        GameDir::FavoritesDirMissing.message(),
        Some("players2 folder is missing, a new one was created")
    );
    assert!(!GameDir::FavoritesDirMissing.is_fatal());
}

#[test]
fn panic_records() {
    let place = PanicLocation { file: "src/main.rs", line: 12, column: 5 };
    assert_eq!(format_panic_info(Some(place), Some("boom")), "PANIC src/main.rs:12:5: boom");
    assert_eq!(
        format_panic_info(Some(place), None),
        "PANIC src/main.rs:12:5: no attached message"
    );
    assert_eq!(format_panic_info(None, Some("boom")), "PANIC: boom");
    assert_eq!(format_panic_info(None, None), "PANIC: no attached message");
    let far = PanicLocation { file: "", line: 0, column: u32::MAX };
    assert_eq!(format_panic_info(Some(far), Some("")), "PANIC :0:4294967295: ");
}

#[test]
fn newer_release_is_announced() {
    let latest = Version { latest: "0.5.0".to_string() };
    assert_eq!(get_latest_version("0.5.0", &latest), None);
    assert_eq!(
        get_latest_version("0.4.1", &latest),
        Some(
            "New version available for download at: \nhttps://github.com/WardLordRuby/H2M_favorites/releases/download/v0.5.0/h2m_favorites.exe"
                .to_string()
        )
    );
    // the versions are compared as texts
    assert!(get_latest_version("0.5", &latest).is_some());
    assert!(get_latest_version("0.6.0", &latest).is_some());
}
