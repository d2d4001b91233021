use barmarchy::omarchy_env::{ensure_path, from_omarchy_conf, resolve};

#[test]
fn packaged_default_without_conf() {
    assert_eq!(resolve(None, false, None), "/usr/share/omarchy",);
}

#[test]
fn ambient_env_wins_over_everything() {
    assert_eq!(
        resolve(Some("/dev/omarchy".into()), true, Some("/other".into())),
        "/dev/omarchy",
    );
}

#[test]
fn empty_env_falls_through_to_conf() {
    assert_eq!(
        resolve(Some("  ".into()), true, Some("/dev/omarchy".into())),
        "/dev/omarchy",
    );
}

#[test]
fn conf_without_value_falls_back_to_default() {
    assert_eq!(resolve(None, true, None), "/usr/share/omarchy");
}

#[test]
fn env_wins_even_without_conf() {
    assert_eq!(resolve(Some("/x".into()), false, None), "/x");
}

#[test]
fn conf_parses_export_and_quotes() {
    let text = "# dev link\nexport OMARCHY_PATH=\"/home/me/omarchy\"\n";
    assert_eq!(from_omarchy_conf(text), Some("/home/me/omarchy".to_string()));
    // quotes are stripped before the `;`, so a quote before it stays
    let text = "export OMARCHY_PATH=\"/home/me/omarchy\";\n";
    assert_eq!(from_omarchy_conf(text), Some("/home/me/omarchy\"".to_string()));
    assert_eq!(from_omarchy_conf("OMARCHY_PATH=/p;\n"), Some("/p".to_string()));
}

#[test]
fn conf_skips_empty_values() {
    let text = "OMARCHY_PATH=''\n  OMARCHY_PATH='/b'  \n";
    assert_eq!(from_omarchy_conf(text), Some("/b".to_string()));
    assert_eq!(from_omarchy_conf("OTHER=1\n"), None);
    assert_eq!(from_omarchy_conf(""), None);
}

#[test]
fn conf_repeated_export_prefix() {
    assert_eq!(
        from_omarchy_conf("export export OMARCHY_PATH=/p\r\n"),
        Some("/p".to_string())
    );
}

#[test]
fn path_prepends_dev_bin() {
    assert_eq!(ensure_path("/usr/share/omarchy", "/usr/bin"), None);
    assert_eq!(
        ensure_path("/dev/omarchy/", "/usr/bin"),
        Some("/dev/omarchy/bin:/usr/bin".to_string())
    );
    assert_eq!(ensure_path("/dev/omarchy", ""), Some("/dev/omarchy/bin".to_string()));
    assert_eq!(ensure_path("/dev/omarchy", "/a:/dev/omarchy/bin"), None);
}
