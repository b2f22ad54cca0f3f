use rusic::keyed::StrMap;
use rusic::theme_editor::{preview_style, save_target, theme_after_delete, themes_by_name, trim, unique_theme_id};

#[test]
fn slug_is_lowercase_with_hyphens() {
    assert_eq!(unique_theme_id("My Dark Theme", &vec![]), "custom-my-dark-theme");
}

#[test]
fn taken_slugs_get_the_first_free_suffix() {
    let taken = vec!["custom-ocean".to_string(), "custom-ocean-1".to_string(), "custom-ocean-3".to_string()];
    assert_eq!(unique_theme_id("Ocean", &taken), "custom-ocean-2");
    assert_eq!(unique_theme_id("Ocean", &vec!["custom-ocean".to_string()]), "custom-ocean-1");
}

#[test]
fn trim_removes_unicode_white_space() {
    assert_eq!(trim("  a b \t\n"), "a b");
    assert_eq!(trim("\u{3000}x\u{a0}"), "x");
    assert_eq!(trim("   "), "");
}

#[test]
fn save_needs_a_name_and_keeps_edited_ids() {
    assert!(save_target("   ", None, &vec![]).is_none());
    assert_eq!(save_target(" Sea ", Some("custom-x"), &vec![]), Some(("custom-x".to_string(), "Sea".to_string())));
    assert_eq!(save_target("Sea", None, &vec!["custom-sea".to_string()]), Some(("custom-sea-1".to_string(), "Sea".to_string())));
}

#[test]
fn deleting_the_active_theme_falls_back_to_default() {
    assert_eq!(theme_after_delete("custom-a", "custom-a"), "default");
    assert_eq!(theme_after_delete("nord", "custom-a"), "nord");
}

#[test]
fn preview_style_lists_every_preview_property() {
    let mut vars: StrMap<String> = StrMap::new();
    vars.insert("bg".to_string(), "#000".to_string());
    vars.insert("text-muted".to_string(), "#999".to_string());
    vars.insert("danger".to_string(), "red".to_string());
    assert_eq!(
        preview_style(&vars),
        "--preview-bg:#000;--preview-raised:;--preview-surface:;--preview-text:;--preview-muted:#999;\
         --preview-accent:;--preview-highlight:;--preview-progress:;--preview-danger:red;"
    );
}

#[test]
fn custom_themes_are_listed_by_name() {
    let entries = vec![
        ("custom-b".to_string(), "Beta".to_string()),
        ("custom-a".to_string(), "Alpha".to_string()),
        ("custom-c".to_string(), "Beta".to_string()),
        ("custom-d".to_string(), "alpha".to_string()),
    ];
    let ids: Vec<String> = themes_by_name(entries).into_iter().map(|(id, _)| id).collect();
    assert_eq!(ids, vec!["custom-a", "custom-b", "custom-c", "custom-d"]);
}

#[test]
fn saving_a_new_theme_takes_the_least_free_suffix() {
    let taken = vec!["custom-sea".to_string(), "custom-sea-1".to_string(), "custom-sea-3".to_string()];
    assert_eq!(save_target(" Sea ", None, &taken), Some(("custom-sea-2".to_string(), "Sea".to_string())));
}
