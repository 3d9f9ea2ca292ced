use data_cleaner::desktop::{
    autostart_path_in_home, autostart_plan, autostart_state, desktop_entry, legacy_autostart_path_in_home,
    themed_svg, tray_icon_name, tray_menu, TrayAction, TrayMenuEntry,
};

#[test]
fn enabling_autostart_writes_the_native_entry_and_drops_the_legacy_one() {
    let plan = autostart_plan("/home/a", true, false);
    let (path, contents) = plan.write.unwrap();
    assert_eq!(path, "/home/a/.config/autostart/com.chrisdaggas.datacleaner.desktop");
    assert!(contents.contains("Name=Data Cleaner"));
    assert!(contents.contains("Exec=data-cleaner --background"));
    assert!(!contents.contains("flatpak run"));
    assert_eq!(plan.remove_after_write, vec!["/home/a/.config/autostart/com.chrisdaggas.cleaner.desktop".to_string()]);
    let off = autostart_plan("/home/a", false, false);
    assert!(off.write.is_none());
    assert_eq!(off.remove, vec![autostart_path_in_home("/home/a"), legacy_autostart_path_in_home("/home/a")]);
}

#[test]
fn flatpak_entry_runs_through_flatpak() {
    assert!(desktop_entry(true).contains("Exec=flatpak run com.chrisdaggas.datacleaner --background"));
}

#[test]
fn a_legacy_entry_counts_as_enabled_and_is_migrated() {
    assert_eq!(autostart_state(true, true), (true, false));
    assert_eq!(autostart_state(false, true), (true, true));
    assert_eq!(autostart_state(false, false), (false, false));
}

#[test]
fn tray_uses_the_symbolic_icon_and_recolours_for_light_panels() {
    assert_eq!(tray_icon_name(), "com.chrisdaggas.datacleaner-symbolic");
    let svg = "<svg><path fill=\"#ffffff\" class=\"ColorScheme-Text\"/><rect fill=\"#ffffff\"/></svg>";
    let light = themed_svg(svg, false);
    assert!(light.contains("#2e3436"));
    assert!(!light.contains("#ffffff"));
    assert_eq!(themed_svg(svg, true), svg);
    let menu = tray_menu("Open Data Cleaner", "Clean", "Close");
    assert_eq!(menu.len(), 4);
    assert!(matches!(&menu[0], TrayMenuEntry::Item(l, TrayAction::Open) if l == "Open Data Cleaner"));
    assert!(matches!(menu[2], TrayMenuEntry::Separator));
    assert!(matches!(&menu[3], TrayMenuEntry::Item(_, TrayAction::Close)));
}

/// A symbolic tray glyph in the shape the tray expects: painted with
/// `currentColor` under the `ColorScheme-Text` class, shipped in its dark
/// state (white foreground), without strokes.
const SYMBOLIC_SVG: &str = "<svg xmlns=\"http://www.w3.org/2000/svg\" width=\"16\" height=\"16\"><style>.ColorScheme-Text{color:#ffffff}</style><path class=\"ColorScheme-Text\" fill=\"currentColor\" d=\"M2 2h12v12H2z\"/></svg>";

#[test]
fn symbolic_source_paints_with_current_color_only() {
    assert!(SYMBOLIC_SVG.contains("currentColor"));
    assert!(SYMBOLIC_SVG.contains("ColorScheme-Text"));
    assert!(
        !SYMBOLIC_SVG.contains("#f5c211") && !SYMBOLIC_SVG.contains("#9e054f"),
        "symbolic icon must not carry the logo's brand colours"
    );
    assert!(
        !SYMBOLIC_SVG.contains("stroke=\""),
        "GTK does not restyle stroke on plain paths, so strokes must not be used"
    );
}

#[test]
fn theme_substitution_swaps_every_placeholder() {
    let light = themed_svg(SYMBOLIC_SVG, false);
    assert!(light.contains("#2e3436"));
    assert!(
        !light.contains("#ffffff"),
        "a leftover white source colour would stay invisible on a light panel"
    );

    let dark = themed_svg(SYMBOLIC_SVG, true);
    assert!(dark.contains("#ffffff"));
    assert_eq!(dark, SYMBOLIC_SVG, "the SVG already ships in its dark state");
}

#[test]
fn tray_uses_symbolic_icon_and_text_only_menu_actions() {
    assert_eq!(tray_icon_name(), "com.chrisdaggas.datacleaner-symbolic");
    assert!(!tray_icon_name().contains('/'));

    let menu = tray_menu("Open Data Cleaner", "Clean", "Close");
    assert_eq!(menu.len(), 4);
    for (index, expected_label) in [(0, "Open Data Cleaner"), (1, "Clean"), (3, "Close")] {
        let TrayMenuEntry::Item(label, _) = &menu[index] else {
            panic!("expected a standard menu item at index {index}");
        };
        assert_eq!(label, expected_label);
    }
    assert!(matches!(menu[2], TrayMenuEntry::Separator));
}
