use rusic::keyed::StrMap;
use rusic::themes::{
    all_themes_css, custom_theme_to_css, default_vars_map, theme_map, themes_from_file, RawTheme, Theme, ThemeKind,
};

fn vars(pairs: &[(&str, &str)]) -> StrMap<String> {
    StrMap::from_pairs(pairs.iter().map(|(k, v)| (k.to_string(), v.to_string())).collect())
}

fn theme(id: &str, pairs: &[(&str, &str)]) -> Theme {
    Theme { id: id.to_string(), name: id.to_uppercase(), kind: ThemeKind::Dark, vars: vars(pairs) }
}

#[test]
fn to_css_lists_known_purposes_in_table_order() {
    let t = theme("ocean", &[("accent", "#00f"), ("bg", "#000"), ("unknown", "x")]);
    assert_eq!(
        t.to_css(),
        ".theme-ocean {\n    --color-black: #000;\n    --color-indigo-500: #00f;\n}"
    );
}

#[test]
fn empty_theme_css() {
    assert_eq!(theme("e", &[]).to_css(), ".theme-e {\n}");
}

#[test]
fn var_looks_up_values() {
    let t = theme("x", &[("bg", "#111")]);
    assert_eq!(t.var("bg"), Some("#111"));
    assert_eq!(t.var("text"), None);
}

#[test]
fn later_pairs_override_earlier_ones() {
    let m = vars(&[("bg", "1"), ("bg", "2")]);
    assert_eq!(m.len(), 1);
    assert_eq!(m.get("bg").map(|s| s.as_str()), Some("2"));
}

#[test]
fn theme_map_keys_by_id() {
    let m = theme_map(vec![theme("a", &[]), theme("b", &[("bg", "1")]), theme("a", &[("bg", "2")])]);
    assert_eq!(m.len(), 2);
    assert_eq!(m.get("a").unwrap().var("bg"), Some("2"));
    assert!(m.get("c").is_none());
}

#[test]
fn all_css_joins_blocks_with_blank_line() {
    let css = all_themes_css(&vec![theme("a", &[]), theme("b", &[])]);
    assert_eq!(css, ".theme-a {\n}\n\n.theme-b {\n}");
    assert_eq!(all_themes_css(&vec![]), "");
}

#[test]
fn custom_theme_css_matches_theme_css() {
    let v = vars(&[("danger", "red")]);
    assert_eq!(custom_theme_to_css("custom-x", &v), ".theme-custom-x {\n    --color-red-400: red;\n}");
}

#[test]
fn themes_file_lists_dark_then_light() {
    let raw = |n: &str| RawTheme { name: n.to_string(), vars: StrMap::new() };
    let themes = themes_from_file(
        vec![("d1".to_string(), raw("D1")), ("d2".to_string(), raw("D2"))],
        vec![("l1".to_string(), raw("L1"))],
    );
    let ids: Vec<(&str, &str, ThemeKind)> = themes.iter().map(|t| (t.id.as_str(), t.name.as_str(), t.kind)).collect();
    assert_eq!(ids, vec![("d1", "D1", ThemeKind::Dark), ("d2", "D2", ThemeKind::Dark), ("l1", "L1", ThemeKind::Light)]);
}

#[test]
fn editor_defaults() {
    let m = default_vars_map();
    assert_eq!(m.len(), 13);
    assert_eq!(m.get("bg").map(|s| s.as_str()), Some("#0f0f17"));
    assert_eq!(m.get("danger").map(|s| s.as_str()), Some("#ff6b6b"));
}
