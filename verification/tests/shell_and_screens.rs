use slotforge::domain::game::{GameRecord, GameSource};
use slotforge::platform::fs::PathContext;
use slotforge::services::config_service::{default_config, ConflictPolicy};
use slotforge::shell::AppShellState;
use slotforge::time::UtcTime;
use slotforge::ui::navigation::{ordered_sections, section_label, AppSection};
use slotforge::ui::screens::library_screen::{apply_filters, load_state, LibraryFilters, SortMode};
use slotforge::ui::screens::settings_screen;
use slotforge::ui::theme::{dark_hacker_theme, ThemeMode};

fn game(name: &str, dir: &str, source: GameSource, updated: i64) -> GameRecord {
    let t = UtcTime::from_timestamp(updated, 0).expect("valid");
    GameRecord {
        id: format!("id:{name}"),
        name: name.to_string(),
        game_root: None,
        active_save_dir: dir.to_string(),
        source,
        tags: Vec::new(),
        created_at: t,
        updated_at: t,
    }
}

#[test]
fn sections_and_shell() {
    assert_eq!(
        ordered_sections(),
        [AppSection::Library, AppSection::Vault, AppSection::Settings, AppSection::About]
    );
    assert_eq!(section_label(AppSection::Settings), "Settings");
    let mut shell = AppShellState::new();
    assert_eq!(shell.active_section_label(), "Library");
    shell.navigate_to(AppSection::Vault);
    assert_eq!(shell.active_section, AppSection::Vault);
    assert_eq!(shell.active_section_label(), "Vault");
    assert_eq!(shell.sections.len(), 4);
}

#[test]
fn theme_values() {
    let theme = dark_hacker_theme();
    assert_eq!(theme.mode, ThemeMode::DarkOnly);
    assert_eq!(theme.palette.accent, "#39d98a");
    assert_eq!(theme.typography.size_md, 15);
    assert_eq!(theme.spacing.xl, 24);
    assert_eq!(theme.icons.vault, "icon-vault");
}

#[test]
fn library_filters_query_source_and_order() {
    let games = vec![
        game("Zelda", "/g/zelda", GameSource::UserAdded, 30),
        game("alpha", "/g/alpha", GameSource::AutoDiscovered, 10),
        game("Beta", "/saves/ZELDA-like", GameSource::AutoDiscovered, 20),
    ];
    let by_name = apply_filters(games.clone(), &LibraryFilters::default());
    let names: Vec<&str> = by_name.iter().map(|g| g.name.as_str()).collect();
    assert_eq!(names, vec!["alpha", "Beta", "Zelda"]);
    let filters = LibraryFilters { query: Some("zel".to_string()), source: None, sort_mode: SortMode::NameDesc };
    let names: Vec<String> = apply_filters(games.clone(), &filters).iter().map(|g| g.name.clone()).collect();
    assert_eq!(names, vec!["Zelda".to_string(), "Beta".to_string()]);
    let filters = LibraryFilters { query: None, source: Some(GameSource::AutoDiscovered), sort_mode: SortMode::UpdatedNewestFirst };
    let state = load_state(games, filters);
    let names: Vec<String> = state.items.iter().map(|g| g.name.clone()).collect();
    assert_eq!(names, vec!["Beta".to_string(), "alpha".to_string()]);
    assert_eq!(state.primary_action_label, "Add Game Folder");
}

#[test]
fn settings_screen_updates() {
    let ctx = PathContext { home: Some("/home/p".to_string()), vars: Vec::new() };
    let mut config = default_config("/vault".to_string(), vec!["/a".to_string(), "/A/.".to_string()]);
    let state = settings_screen::load_state(&mut config);
    assert_eq!(state.scan_paths, vec!["/a".to_string()]);
    assert_eq!(state.status_message, None);
    let state = settings_screen::add_scan_path(&mut config, "~/games", &ctx);
    assert_eq!(state.scan_paths, vec!["/a".to_string(), "/home/p/games".to_string()]);
    assert_eq!(state.status_message, Some("Scan location added.".to_string()));
    let state = settings_screen::remove_scan_path(&mut config, "/A", &ctx);
    assert_eq!(state.scan_paths, vec!["/home/p/games".to_string()]);
    assert_eq!(
        settings_screen::update_conflict_policy(&mut config, ConflictPolicy::KeepBothByDefault),
        ConflictPolicy::KeepBothByDefault
    );
    assert_eq!(settings_screen::current_conflict_policy(&config), ConflictPolicy::KeepBothByDefault);
    let state = settings_screen::update_vault_root(&mut config, "/new/vault", &ctx).ok().expect("vault moved");
    assert_eq!(state.vault_root, "/new/vault");
    assert!(settings_screen::update_vault_root(&mut config, ".", &ctx).is_err());
    assert_eq!(config.vault_root, "/new/vault");
    assert_eq!(settings_screen::title(), "Settings");
}
