use opencode_monitor::settings::{
    begin_settings_read, clear_test_remote_backend_tokens, finish_settings_read, read_remote_backend_token,
    read_settings, remote_backend_token_account, test_remote_backend_token_store, token_account, token_for_file,
    write_remote_backend_token, write_settings, SettingsRead,
};

#[test]
fn write_settings_moves_remote_token_out_of_plaintext_file() {
    let mut store = test_remote_backend_token_store();
    let path = "/tmp/opencode-monitor-settings/settings.json";

    let on_disk = write_settings(&mut store, path, &Some("token-123".to_string()));

    assert!(on_disk.is_none());

    let (loaded, _) = read_settings(&mut store, path, on_disk);
    assert_eq!(loaded.as_deref(), Some("token-123"));
}

#[test]
fn read_settings_migrates_legacy_plaintext_remote_token() {
    let mut store = test_remote_backend_token_store();
    let path = "/tmp/opencode-monitor-legacy/settings.json";

    let (loaded, on_disk) = read_settings(&mut store, path, Some("legacy-token".to_string()));
    assert_eq!(loaded.as_deref(), Some("legacy-token"));

    assert!(on_disk.is_none());
    let (again, still) = read_settings(&mut store, path, on_disk);
    assert_eq!(again.as_deref(), Some("legacy-token"));
    assert!(still.is_none());
}

#[test]
fn accounts_are_named_after_paths() {
    assert_eq!(token_account("abc"), "settings:abc");
    assert_eq!(remote_backend_token_account("/a?>"), "settings:L2E_Pg");
    assert_ne!(remote_backend_token_account("/a"), remote_backend_token_account("/b"));
}

#[test]
fn the_store_keeps_tokens_by_path() {
    let mut store = test_remote_backend_token_store();
    assert!(write_remote_backend_token(&mut store, "/a", Some(" one ")));
    assert!(write_remote_backend_token(&mut store, "/b", Some("two")));
    assert_eq!(read_remote_backend_token(&store, "/a").as_deref(), Some("one"));
    assert!(write_remote_backend_token(&mut store, "/a", Some("  ")));
    assert_eq!(read_remote_backend_token(&store, "/a"), None);
    assert_eq!(read_remote_backend_token(&store, "/b").as_deref(), Some("two"));
    clear_test_remote_backend_tokens(&mut store);
    assert_eq!(read_remote_backend_token(&store, "/b"), None);
}

#[test]
fn settings_of_other_files_keep_their_tokens() {
    let mut store = test_remote_backend_token_store();
    write_settings(&mut store, "/a/settings.json", &Some("one".to_string()));
    write_settings(&mut store, "/\u{e9}/settings.json", &Some("two".to_string()));
    write_settings(&mut store, "/a/settings.json", &Some(" three ".to_string()));
    read_settings(&mut store, "/b/settings.json", Some("four".to_string()));
    assert_eq!(read_remote_backend_token(&store, "/a/settings.json").as_deref(), Some("three"));
    assert_eq!(read_remote_backend_token(&store, "/\u{e9}/settings.json").as_deref(), Some("two"));
    assert_eq!(read_remote_backend_token(&store, "/b/settings.json").as_deref(), Some("four"));
    write_settings(&mut store, "/a/settings.json", &None);
    assert_eq!(read_remote_backend_token(&store, "/a/settings.json"), None);
    assert_eq!(read_remote_backend_token(&store, "/\u{e9}/settings.json").as_deref(), Some("two"));
}

#[test]
fn a_token_stays_in_the_file_when_the_store_fails() {
    let token = Some(" t ".to_string());
    assert_eq!(token_for_file(&token, Ok(true)), None);
    assert_eq!(token_for_file(&token, Ok(false)).as_deref(), Some("t"));
    assert_eq!(token_for_file(&token, Err("locked".to_string())).as_deref(), Some("t"));
    match begin_settings_read(Some("t".to_string()), Err("locked".to_string())) {
        SettingsRead::Done { token, rewrite } => {
            assert_eq!(token.as_deref(), Some("t"));
            assert!(!rewrite);
        }
        SettingsRead::Migrate { .. } => panic!("a store that cannot be read takes nothing"),
    }
}

#[test]
fn the_store_goes_first_when_settings_are_read() {
    match begin_settings_read(Some("old".to_string()), Ok(Some("new".to_string()))) {
        SettingsRead::Done { token, rewrite } => {
            assert_eq!(token.as_deref(), Some("new"));
            assert!(rewrite);
        }
        SettingsRead::Migrate { .. } => panic!("the store has a token"),
    }
    match begin_settings_read(None, Ok(None)) {
        SettingsRead::Done { token, rewrite } => assert!(token.is_none() && !rewrite),
        SettingsRead::Migrate { .. } => panic!("there is no token"),
    }
    match begin_settings_read(Some("old".to_string()), Ok(None)) {
        SettingsRead::Migrate { found } => assert_eq!(found, "old"),
        SettingsRead::Done { .. } => panic!("the token moves"),
    }
    for (outcome, expected) in [(Ok(true), true), (Ok(false), false), (Err("x".to_string()), false)] {
        match finish_settings_read("old".to_string(), outcome) {
            SettingsRead::Done { token, rewrite } => {
                assert_eq!(token.as_deref(), Some("old"));
                assert_eq!(rewrite, expected);
            }
            SettingsRead::Migrate { .. } => panic!("it was handed over"),
        }
    }
}
