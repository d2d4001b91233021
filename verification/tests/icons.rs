use barmarchy::icons::{
    cached_png, chain_ends, close_chain, consider, desktop_dirs, eq_ignore_case, ext_rank,
    extend_chain, icon_bases, icon_cache_dir, icon_candidates, icon_theme, inherits,
    parse_desktop, pixmap_probes, preferred_probes, raster_command, raster_kind, size_rank,
    subdir_probes, IconMemo, IconSearch, Raster,
};

fn strs(v: &[&str]) -> Vec<String> {
    v.iter().map(|s| s.to_string()).collect()
}

#[test]
fn search_dirs() {
    assert_eq!(
        desktop_dirs("/home/u"),
        strs(&[
            "/home/u/.local/share/applications",
            "/usr/share/applications",
            "/home/u/.local/share/flatpak/exports/share/applications",
            "/var/lib/flatpak/exports/share/applications",
            "/var/lib/snapd/desktop/applications",
        ])
    );
    assert_eq!(
        icon_bases("/root"),
        strs(&["/root/.icons", "/root/.local/share/icons", "/usr/share/icons"])
    );
    assert_eq!(icon_cache_dir("/root"), "/root/.cache/omarchy-touchbar/icons");
}

#[test]
fn gtk_icon_theme_name() {
    assert_eq!(icon_theme(Some("'Yaru-blue'\n")), "Yaru-blue");
    assert_eq!(icon_theme(Some("''")), "hicolor");
    assert_eq!(icon_theme(Some("")), "hicolor");
    assert_eq!(icon_theme(None), "hicolor");
}

#[test]
fn theme_chain_steps() {
    assert!(eq_ignore_case("HiColor", "hicolor"));
    assert!(!eq_ignore_case("hicolour", "hicolor"));
    assert!(chain_ends("HICOLOR"));
    let text = "[Icon Theme]\nName=Yaru\n  Inherits= Humanity , ,hicolor\nInherits=other\n";
    assert_eq!(inherits(text), strs(&["Humanity", "hicolor"]));
    assert!(inherits("[Icon Theme]\nName=x\n").is_empty());
    let mut chain = strs(&["Yaru"]);
    extend_chain(&mut chain, &strs(&["Humanity", "yaru", "HiColor", "humanity"]));
    assert_eq!(chain, strs(&["Yaru", "Humanity", "HiColor"]));
    close_chain(&mut chain);
    assert_eq!(chain, strs(&["Yaru", "Humanity", "HiColor"]));
    let mut c2 = strs(&["Papirus"]);
    close_chain(&mut c2);
    assert_eq!(c2, strs(&["Papirus", "hicolor"]));
}

#[test]
fn desktop_entries() {
    let text = "[Desktop Entry]\nName=LocalSend\nName=Other\nIcon = localsend_app \nStartupWMClass=localsend_app\n[Desktop Action new]\nIcon=wrong\nStartupWMClass=wrong\n";
    let d = parse_desktop(text).unwrap();
    assert_eq!(d.name, "LocalSend");
    assert_eq!(d.icon, "localsend_app");
    assert_eq!(d.wmclass, "localsend_app");
    assert!(parse_desktop("[Desktop Entry]\nName=x\n").is_none());
    assert!(parse_desktop("Icon=outside\n").is_none());
    let d = parse_desktop("[Desktop Entry]\nIcon=\nIcon=b\nStartupWMClass=a\nStartupWMClass=c\n").unwrap();
    assert_eq!(d.icon, "b");
    assert_eq!(d.wmclass, "c");
}

#[test]
fn desktop_search_order() {
    let info = |class: &str, name: &str, icon: &str| barmarchy::icons::DesktopInfo {
        wmclass: class.to_string(),
        name: name.to_string(),
        icon: icon.to_string(),
    };
    let mut s = IconSearch::new("org.gnome.Nautilus");
    assert_eq!(s.low, "org.gnome.nautilus");
    assert_eq!(s.short, "nautilus");
    assert_eq!(s.offer("files", &info("", "Nautilus", "n-name")), None);
    assert_eq!(s.offer("Nautilus", &info("", "", "n-stem")), None);
    assert_eq!(s.found(), Some("n-stem".to_string()));
    assert_eq!(
        s.offer("x", &info("Org.Gnome.Nautilus", "", "n-class")),
        Some("n-class".to_string())
    );
    let mut t = IconSearch::new("Obsidian");
    assert_eq!(t.offer("md.obsidian", &info("", "obsidian", "obs")), None);
    assert_eq!(t.found(), Some("obs".to_string()));
    let u = IconSearch::new("nothing");
    assert_eq!(u.found(), None);
}

#[test]
fn ranks() {
    assert_eq!(size_rank("48x48"), 0);
    assert_eq!(size_rank("scalable"), 4);
    assert_eq!(size_rank("symbolic"), 7);
    assert_eq!(size_rank("96x48"), 2);
    assert_eq!(size_rank("256x256"), 8);
    assert_eq!(ext_rank("png"), 0);
    assert_eq!(ext_rank("xpm"), 2);
    assert_eq!(ext_rank("jpg"), 9);
}

#[test]
fn candidate_names() {
    assert_eq!(
        icon_candidates("org.gnome.Nautilus"),
        strs(&["org.gnome.Nautilus", "Nautilus"])
    );
    assert_eq!(
        icon_candidates("com.obsproject.Studio"),
        strs(&["com.obsproject.Studio", "obsproject.Studio", "Studio"])
    );
    assert_eq!(icon_candidates("io.x"), strs(&["io.x", "x"]));
    assert_eq!(icon_candidates("firefox"), strs(&["firefox"]));
}

#[test]
fn probe_order_and_scores() {
    let p = preferred_probes("/usr/share/icons/hicolor", &strs(&["a"]));
    assert_eq!(p.len(), 21);
    assert_eq!(p[0], (0, "/usr/share/icons/hicolor/48x48/apps/a.png".to_string()));
    assert_eq!(p[4], (11, "/usr/share/icons/hicolor/32x32/apps/a.svg".to_string()));
    assert_eq!(p[20], (62, "/usr/share/icons/hicolor/16x16/apps/a.xpm".to_string()));
    let q = subdir_probes("/t", "scalable", &strs(&["a", "b"]));
    assert_eq!(q.len(), 2 * 5 * 3 + 2 * 3);
    assert_eq!(q[0], (140, "/t/scalable/apps/a.png".to_string()));
    assert_eq!(q[3], (140, "/t/scalable/devices/a.png".to_string()));
    assert_eq!(q[15], (140, "/t/scalable/apps/b.png".to_string()));
    assert_eq!(q[30], (240, "/t/scalable/a.png".to_string()));
    assert_eq!(q[35], (242, "/t/scalable/b.xpm".to_string()));
    let x = pixmap_probes(&strs(&["a"]));
    assert_eq!(x[1].1, "/usr/share/pixmaps/a.svg");
}

#[test]
fn best_file_wins() {
    let mut best = None;
    consider(&mut best, 11, "b".to_string(), true);
    consider(&mut best, 10, "a".to_string(), false);
    assert_eq!(best, Some((11, "b".to_string())));
    consider(&mut best, 11, "c".to_string(), true);
    assert_eq!(best, Some((11, "b".to_string())));
    consider(&mut best, 2, "d".to_string(), true);
    assert_eq!(best, Some((2, "d".to_string())));
}

#[test]
fn rasterizing() {
    assert_eq!(cached_png("/c", "org.gnome.Nautilus"), "/c/org_gnome_Nautilus.png");
    assert_eq!(cached_png("/c/", "a b-c_d"), "/c/a_b-c_d.png");
    assert_eq!(raster_kind("PNG"), Raster::Direct);
    assert_eq!(raster_kind("svg"), Raster::Svg);
    assert_eq!(raster_kind("xpm"), Raster::Convert);
    assert_eq!(
        raster_command(Raster::Svg, "/s.svg", "/d.png"),
        strs(&["rsvg-convert", "-w", "96", "-h", "96", "-o", "/d.png", "/s.svg"])
    );
    assert_eq!(
        raster_command(Raster::Convert, "/s.xpm", "/d.png"),
        strs(&["convert", "/s.xpm", "/d.png"])
    );
}

#[test]
fn solved_classes_are_remembered() {
    let mut m = IconMemo::new();
    assert_eq!(m.solved("Foot"), None);
    m.remember("Foot", Some("/p/foot.png".to_string()));
    m.remember("ghost", None);
    assert_eq!(m.solved("foot"), Some(Some("/p/foot.png".to_string())));
    assert_eq!(m.solved("GHOST"), Some(None));
}
