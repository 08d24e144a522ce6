use manga_core::preferences::{
    section_exists, unknown_section_message, AppPreferences, ExperimentalPreferences,
    LayoutAppearancePreferences, LibraryHistoryPreferences, PreferenceValue,
    ReaderDisplayPreferences, StorageCachingPreferences, SystemBehaviorPreferences,
};
use serde_json::Value;

fn number(n: i64) -> PreferenceValue {
    PreferenceValue { integer: Some(n), text: None, flag: None }
}

fn text(t: &str) -> PreferenceValue {
    PreferenceValue { integer: None, text: Some(t.to_string()), flag: None }
}

fn flag(b: bool) -> PreferenceValue {
    PreferenceValue { integer: None, text: None, flag: Some(b) }
}

fn nothing() -> PreferenceValue {
    PreferenceValue { integer: None, text: None, flag: None }
}

#[test]
fn a_new_installation_starts_with_the_initial_preferences() {
    let p = AppPreferences::default();
    assert_eq!(p.layout_appearance.grid_size, 12);
    assert_eq!(p.layout_appearance.theme, "system");
    assert_eq!(p.layout_appearance.cover_style, "rounded");
    assert!(p.layout_appearance.show_titles);
    assert!(!p.layout_appearance.compact_mode);
    assert!(p.layout_appearance.show_read_indicators);
    assert_eq!(p.reader_display.page_layout, "single-page");
    assert_eq!(p.reader_display.zoom_behavior, "fit-width");
    assert_eq!(p.reader_display.reading_direction, "ltr");
    assert!(p.reader_display.remember_zoom);
    assert!(p.reader_display.show_page_numbers);
    assert_eq!(p.reader_display.background_color, "black");
    assert!(p.reader_display.preload_next);
    assert!(p.library_history.enable_history);
    assert_eq!(p.library_history.max_history_entries, "100");
    assert!(p.library_history.show_recently_read);
    assert_eq!(p.library_history.default_library_view, "grid");
    assert_eq!(p.storage_caching.max_cache_size, "1000");
    assert!(!p.storage_caching.clear_cache_on_close);
    assert_eq!(p.storage_caching.image_quality, "high");
    assert_eq!(p.storage_caching.download_path, None);
    assert!(p.system_behavior.check_new_chapters);
    assert!(!p.system_behavior.auto_refresh_category);
    assert!(p.system_behavior.confirm_removal);
    assert!(p.system_behavior.enable_notifications);
    assert!(!p.experimental.enable_custom_sources);
    assert!(!p.experimental.enable_debug_logging);
    assert!(!p.experimental.show_fps_counter);
    assert!(p.experimental.hardware_acceleration);
}

#[test]
fn each_section_starts_with_its_initial_values() {
    assert_eq!(LayoutAppearancePreferences::default().grid_size, 12);
    assert_eq!(ReaderDisplayPreferences::default().background_color, "black");
    assert_eq!(LibraryHistoryPreferences::default().max_history_entries, "100");
    assert_eq!(StorageCachingPreferences::default().image_quality, "high");
    assert!(SystemBehaviorPreferences::default().confirm_removal);
    assert!(ExperimentalPreferences::default().hardware_acceleration);
}

#[test]
fn a_preference_takes_the_value_of_its_kind() {
    let mut p = AppPreferences::default();
    assert!(p.apply_preference("layout_appearance", "grid_size", &number(20)).is_ok());
    assert_eq!(p.layout_appearance.grid_size, 20);
    assert!(p.apply_preference("layout_appearance", "theme", &text("dark")).is_ok());
    assert_eq!(p.layout_appearance.theme, "dark");
    assert!(p.apply_preference("layout_appearance", "compact_mode", &flag(true)).is_ok());
    assert!(p.layout_appearance.compact_mode);
    assert!(p.apply_preference("storage_caching", "download_path", &text("/tmp/x")).is_ok());
    assert_eq!(p.storage_caching.download_path.as_deref(), Some("/tmp/x"));
    assert!(p.apply_preference("experimental", "show_fps_counter", &flag(true)).is_ok());
    assert!(p.experimental.show_fps_counter);
    assert!(p.apply_preference("reader_display", "reading_direction", &text("rtl")).is_ok());
    assert_eq!(p.reader_display.reading_direction, "rtl");
    assert!(p.apply_preference("library_history", "enable_history", &flag(false)).is_ok());
    assert!(!p.library_history.enable_history);
    assert!(p.apply_preference("system_behavior", "confirm_removal", &flag(false)).is_ok());
    assert!(!p.system_behavior.confirm_removal);
    assert_eq!(p.layout_appearance.cover_style, "rounded");
}

#[test]
fn a_value_of_another_kind_resets_the_preference() {
    let mut p = AppPreferences::default();
    p.apply_preference("layout_appearance", "grid_size", &number(20)).unwrap();
    p.apply_preference("layout_appearance", "grid_size", &text("many")).unwrap();
    assert_eq!(p.layout_appearance.grid_size, 12);
    p.apply_preference("layout_appearance", "theme", &text("dark")).unwrap();
    p.apply_preference("layout_appearance", "theme", &number(3)).unwrap();
    assert_eq!(p.layout_appearance.theme, "system");
    p.apply_preference("experimental", "hardware_acceleration", &flag(false)).unwrap();
    p.apply_preference("experimental", "hardware_acceleration", &nothing()).unwrap();
    assert!(p.experimental.hardware_acceleration);
    p.apply_preference("storage_caching", "download_path", &text("/x")).unwrap();
    p.apply_preference("storage_caching", "download_path", &flag(true)).unwrap();
    assert_eq!(p.storage_caching.download_path, None);
}

#[test]
fn an_unknown_section_or_key_is_refused() {
    let mut p = AppPreferences::default();
    assert_eq!(
        p.apply_preference("colors", "theme", &text("dark")).unwrap_err(),
        "Unknown preferences section: colors"
    );
    assert_eq!(
        p.apply_preference("layout_appearance", "colour", &text("dark")).unwrap_err(),
        "Unknown layout_appearance preference key: colour"
    );
    assert_eq!(
        p.apply_preference("reader_display", "x", &nothing()).unwrap_err(),
        "Unknown reader_display preference key: x"
    );
    assert_eq!(
        p.apply_preference("library_history", "x", &nothing()).unwrap_err(),
        "Unknown library_history preference key: x"
    );
    assert_eq!(
        p.apply_preference("storage_caching", "x", &nothing()).unwrap_err(),
        "Unknown storage_caching preference key: x"
    );
    assert_eq!(
        p.apply_preference("system_behavior", "x", &nothing()).unwrap_err(),
        "Unknown system_behavior preference key: x"
    );
    assert_eq!(
        p.apply_preference("experimental", "x", &nothing()).unwrap_err(),
        "Unknown experimental preference key: x"
    );
    assert_eq!(p.layout_appearance.theme, "system");
    assert!(section_exists("experimental"));
    assert!(!section_exists("colors"));
    assert_eq!(unknown_section_message("colors"), "Unknown preferences section: colors");
}

#[test]
fn a_json_value_is_read_as_what_it_is() {
    let read = PreferenceValue::read(&Value::from(7));
    assert_eq!(read.integer, Some(7));
    assert_eq!(read.text, None);
    assert_eq!(read.flag, None);
    let read = PreferenceValue::read(&Value::from("seven"));
    assert_eq!(read.integer, None);
    assert_eq!(read.text.as_deref(), Some("seven"));
    let read = PreferenceValue::read(&Value::from(true));
    assert_eq!(read.flag, Some(true));
    let read = PreferenceValue::read(&Value::Null);
    assert!(read.integer.is_none() && read.text.is_none() && read.flag.is_none());
}

#[test]
fn a_preference_is_updated_from_json() {
    let mut p = AppPreferences::default();
    p.update_preference("layout_appearance", "grid_size", &Value::from(8)).unwrap();
    assert_eq!(p.layout_appearance.grid_size, 8);
    p.update_preference("reader_display", "page_layout", &Value::from("double-page")).unwrap();
    assert_eq!(p.reader_display.page_layout, "double-page");
    p.update_preference("system_behavior", "check_new_chapters", &Value::from(false)).unwrap();
    assert!(!p.system_behavior.check_new_chapters);
    p.update_preference("layout_appearance", "grid_size", &Value::from("x")).unwrap();
    assert_eq!(p.layout_appearance.grid_size, 12);
    assert_eq!(
        p.update_preference("nowhere", "grid_size", &Value::from(1)).unwrap_err(),
        "Unknown preferences section: nowhere"
    );
}
