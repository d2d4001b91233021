use barmarchy::config::{
    app_section, config_path, default_apps, default_buttons, default_config, migrated,
    needs_app_migration, normalize, Bar, Button,
};

#[test]
fn bar_defaults() {
    let b = Bar::new();
    assert_eq!(b.workspaces, 5);
    assert!(b.show_clock && b.show_weather && b.show_theme && b.menu_expand);
    assert_eq!(b.menu_timeout_ms, 5000);
    assert_eq!(b.slider_timeout_ms, 3000);
}

#[test]
fn default_buttons_are_three_sliders_media_mic() {
    let b = default_buttons();
    let ids: Vec<&str> = b.iter().map(|x| x.id.as_str()).collect();
    assert_eq!(ids, ["display", "volume", "kbd", "media", "mic"]);
    assert_eq!(b[0].kind, "slider");
    assert_eq!(b[0].target.as_deref(), Some("display"));
    assert_eq!(b[0].icon.as_deref(), Some("\u{F185}"));
    assert_eq!(b[0].label.as_deref(), Some("Display"));
    assert_eq!(b[2].label.as_deref(), Some("Keys"));
    assert_eq!(b[3].kind, "media");
    assert_eq!(b[3].icon, None);
    assert_eq!(b[4].label.as_deref(), Some("Mic"));
}

#[test]
fn default_apps_list() {
    let a = default_apps();
    let ids: Vec<&str> = a.iter().map(|x| x.id.as_str()).collect();
    assert_eq!(
        ids,
        ["brave", "chrome", "terminal", "files", "localsend", "youtube", "whatsapp", "obsidian", "x"]
    );
    assert_eq!(a[1].command.as_deref(), Some("chromium"));
    assert_eq!(a[2].command.as_deref(), Some("xdg-terminal-exec"));
    assert_eq!(a[5].url.as_deref(), Some("https://youtube.com/"));
    assert_eq!(a[5].command, None);
    assert_eq!(a[8].icon.as_deref(), Some("X"));
    assert_eq!(a[8].icon_font.as_deref(), Some("sans"));
}

fn cfg_with(workspaces: usize, buttons: Vec<Button>) -> barmarchy::config::Config {
    let mut c = default_config();
    c.bar.workspaces = workspaces;
    c.button = buttons;
    c
}

#[test]
fn normalize_repairs_workspaces_and_buttons() {
    let c = normalize(cfg_with(0, vec![]));
    assert_eq!(c.bar.workspaces, 5);
    assert_eq!(c.button.len(), 5);
    let c = normalize(cfg_with(12, default_buttons()[..1].to_vec()));
    assert_eq!(c.bar.workspaces, 5);
    assert_eq!(c.button.len(), 1);
    let c = normalize(cfg_with(9, default_buttons()[..2].to_vec()));
    assert_eq!(c.bar.workspaces, 9);
    assert_eq!(c.button.len(), 2);
}

#[test]
fn migration_only_without_app_tables() {
    assert!(needs_app_migration("[bar]\nworkspaces = 4\n"));
    assert!(!needs_app_migration("[[app]]\nid = \"x\"\n"));
}

#[test]
fn app_section_starts_at_first_app_table() {
    let ser = "[bar]\nworkspaces = 5\n\n[[app]]\nid = \"brave\"\n\n[[app]]\nid = \"x\"\n";
    assert_eq!(app_section(ser), "[[app]]\nid = \"brave\"\n\n[[app]]\nid = \"x\"");
    assert_eq!(app_section("[bar]\n"), "");
}

#[test]
fn migrated_text() {
    assert_eq!(
        migrated("[bar]\n", "[[app]]\nid = \"x\""),
        Some("[bar]\n\n[[app]]\nid = \"x\"\n".to_string())
    );
    assert_eq!(migrated("[bar]\n", ""), None);
}

#[test]
fn config_lives_under_home() {
    assert_eq!(
        config_path("/home/u"),
        "/home/u/.config/omarchy-touchbar/config.toml"
    );
    assert_eq!(config_path("/"), "/.config/omarchy-touchbar/config.toml");
}
