//! The preferences of the program, by section, and how one is changed.

use vstd::prelude::*;
use vstd::string::StringExecFns;
use crate::text::{same_text, text_of_option, text_or};

verus! {

/// A JSON value as `serde_json` holds it, carried through unopened.
#[verifier::external_type_specification]
#[verifier::external_body]
pub struct ExValue(serde_json::Value);

/// Calls `Value::as_i64`, which gives the number where the value is an
/// integer that fits in 64 signed bits. Nothing is taken for granted of
/// what it returns.
#[verifier::external_body]
fn json_as_i64(value: &serde_json::Value) -> (number: Option<i64>) {
    value.as_i64()
}

/// Calls `Value::as_str`, which gives the text where the value is a
/// string. Nothing is taken for granted of what it returns.
#[verifier::external_body]
fn json_as_str(value: &serde_json::Value) -> (text: Option<String>) {
    value.as_str().map(|s| s.to_string())
}

/// Calls `Value::as_bool`, which gives the flag where the value is a
/// boolean. Nothing is taken for granted of what it returns.
#[verifier::external_body]
fn json_as_bool(value: &serde_json::Value) -> (flag: Option<bool>) {
    value.as_bool()
}

/// What a new value of a preference can be read as.
#[derive(Debug)]
pub struct PreferenceValue {
    /// The value as a whole number, if it is one.
    pub integer: Option<i64>,
    /// The value as a text, if it is one.
    pub text: Option<String>,
    /// The value as a flag, if it is one.
    pub flag: Option<bool>,
}

pub ghost struct PreferenceValueView {
    pub integer: Option<i64>,
    pub text: Option<Seq<char>>,
    pub flag: Option<bool>,
}

impl View for PreferenceValue {
    type V = PreferenceValueView;

    open spec fn view(&self) -> PreferenceValueView {
        PreferenceValueView {
            integer: self.integer,
            text: text_of_option(self.text),
            flag: self.flag,
        }
    }
}

impl PreferenceValue {
    /// What a JSON value can be read as: as a whole number, as a text and as
    /// a flag, each as `serde_json` reads it.
    pub fn read(value: &serde_json::Value) -> (read: PreferenceValue) {
        PreferenceValue {
            integer: json_as_i64(value),
            text: json_as_str(value),
            flag: json_as_bool(value),
        }
    }
}

/// The number, or what stands in for it.
pub open spec fn number_or(number: Option<i64>, fallback: i64) -> i64 {
    match number {
        Some(n) => n,
        None => fallback,
    }
}

/// The flag, or what stands in for it.
pub open spec fn flag_or(flag: Option<bool>, fallback: bool) -> bool {
    match flag {
        Some(b) => b,
        None => fallback,
    }
}

/// The look of the shelves.
#[derive(Debug)]
pub struct LayoutAppearancePreferences {
    pub grid_size: i64,
    pub theme: String,
    pub cover_style: String,
    pub show_titles: bool,
    pub compact_mode: bool,
    pub show_read_indicators: bool,
}

pub ghost struct LayoutAppearancePreferencesView {
    pub grid_size: i64,
    pub theme: Seq<char>,
    pub cover_style: Seq<char>,
    pub show_titles: bool,
    pub compact_mode: bool,
    pub show_read_indicators: bool,
}

impl View for LayoutAppearancePreferences {
    type V = LayoutAppearancePreferencesView;

    open spec fn view(&self) -> LayoutAppearancePreferencesView {
        LayoutAppearancePreferencesView {
            grid_size: self.grid_size,
            theme: self.theme@,
            cover_style: self.cover_style@,
            show_titles: self.show_titles,
            compact_mode: self.compact_mode,
            show_read_indicators: self.show_read_indicators,
        }
    }
}

impl LayoutAppearancePreferencesView {
    /// The settings that a new installation starts with.
    pub open spec fn initial() -> LayoutAppearancePreferencesView {
        LayoutAppearancePreferencesView {
            grid_size: 12,
            theme: "system"@,
            cover_style: "rounded"@,
            show_titles: true,
            compact_mode: false,
            show_read_indicators: true,
        }
    }

    /// The settings after `key` was set to `value`: what `value` holds of the
    /// kind that the key takes, or the key's initial value where it holds
    /// none. `None` where the section has no such key.
    pub open spec fn updated(self, key: Seq<char>, value: PreferenceValueView) -> Option<
        LayoutAppearancePreferencesView,
    > {
        if key == "grid_size"@ {
            Some(Self { grid_size: number_or(value.integer, 12), ..self })
        } else if key == "theme"@ {
            Some(Self { theme: text_or(value.text, "system"@), ..self })
        } else if key == "cover_style"@ {
            Some(Self { cover_style: text_or(value.text, "rounded"@), ..self })
        } else if key == "show_titles"@ {
            Some(Self { show_titles: flag_or(value.flag, true), ..self })
        } else if key == "compact_mode"@ {
            Some(Self { compact_mode: flag_or(value.flag, false), ..self })
        } else if key == "show_read_indicators"@ {
            Some(Self { show_read_indicators: flag_or(value.flag, true), ..self })
        } else {
            None
        }
    }
}

impl Default for LayoutAppearancePreferences {
    fn default() -> (initial: Self)
        ensures
            initial@ == LayoutAppearancePreferencesView::initial(),
    {
        Self {
            grid_size: 12,
            theme: String::from_str("system"),
            cover_style: String::from_str("rounded"),
            show_titles: true,
            compact_mode: false,
            show_read_indicators: true,
        }
    }
}

impl LayoutAppearancePreferences {
    /// Sets `key` to what `value` holds of the kind that the key takes, or to
    /// the key's initial value where it holds none. Tells whether the section
    /// has such a key; where it has none, nothing changes.
    pub fn update(&mut self, key: &str, value: &PreferenceValue) -> (known: bool)
        ensures
            known <==> old(self)@.updated(key@, value@) is Some,
            known ==> final(self)@ == old(self)@.updated(key@, value@)->0,
            !known ==> final(self)@ == old(self)@,
    {
        if same_text(key, "grid_size") {
            self.grid_size = match value.integer {
                Some(n) => n,
                None => 12,
            };
            true
        } else if same_text(key, "theme") {
            self.theme = match &value.text {
                Some(t) => t.clone(),
                None => String::from_str("system"),
            };
            true
        } else if same_text(key, "cover_style") {
            self.cover_style = match &value.text {
                Some(t) => t.clone(),
                None => String::from_str("rounded"),
            };
            true
        } else if same_text(key, "show_titles") {
            self.show_titles = match value.flag {
                Some(b) => b,
                None => true,
            };
            true
        } else if same_text(key, "compact_mode") {
            self.compact_mode = match value.flag {
                Some(b) => b,
                None => false,
            };
            true
        } else if same_text(key, "show_read_indicators") {
            self.show_read_indicators = match value.flag {
                Some(b) => b,
                None => true,
            };
            true
        } else {
            false
        }
    }
}

/// How the reader shows a chapter.
#[derive(Debug)]
pub struct ReaderDisplayPreferences {
    pub page_layout: String,
    pub zoom_behavior: String,
    pub reading_direction: String,
    pub remember_zoom: bool,
    pub show_page_numbers: bool,
    pub background_color: String,
    pub preload_next: bool,
}

pub ghost struct ReaderDisplayPreferencesView {
    pub page_layout: Seq<char>,
    pub zoom_behavior: Seq<char>,
    pub reading_direction: Seq<char>,
    pub remember_zoom: bool,
    pub show_page_numbers: bool,
    pub background_color: Seq<char>,
    pub preload_next: bool,
}

impl View for ReaderDisplayPreferences {
    type V = ReaderDisplayPreferencesView;

    open spec fn view(&self) -> ReaderDisplayPreferencesView {
        ReaderDisplayPreferencesView {
            page_layout: self.page_layout@,
            zoom_behavior: self.zoom_behavior@,
            reading_direction: self.reading_direction@,
            remember_zoom: self.remember_zoom,
            show_page_numbers: self.show_page_numbers,
            background_color: self.background_color@,
            preload_next: self.preload_next,
        }
    }
}

impl ReaderDisplayPreferencesView {
    /// The settings that a new installation starts with.
    pub open spec fn initial() -> ReaderDisplayPreferencesView {
        ReaderDisplayPreferencesView {
            page_layout: "single-page"@,
            zoom_behavior: "fit-width"@,
            reading_direction: "ltr"@,
            remember_zoom: true,
            show_page_numbers: true,
            background_color: "black"@,
            preload_next: true,
        }
    }

    /// The settings after `key` was set to `value`: what `value` holds of the
    /// kind that the key takes, or the key's initial value where it holds
    /// none. `None` where the section has no such key.
    pub open spec fn updated(self, key: Seq<char>, value: PreferenceValueView) -> Option<
        ReaderDisplayPreferencesView,
    > {
        if key == "page_layout"@ {
            Some(Self { page_layout: text_or(value.text, "single-page"@), ..self })
        } else if key == "zoom_behavior"@ {
            Some(Self { zoom_behavior: text_or(value.text, "fit-width"@), ..self })
        } else if key == "reading_direction"@ {
            Some(Self { reading_direction: text_or(value.text, "ltr"@), ..self })
        } else if key == "remember_zoom"@ {
            Some(Self { remember_zoom: flag_or(value.flag, true), ..self })
        } else if key == "show_page_numbers"@ {
            Some(Self { show_page_numbers: flag_or(value.flag, true), ..self })
        } else if key == "background_color"@ {
            Some(Self { background_color: text_or(value.text, "black"@), ..self })
        } else if key == "preload_next"@ {
            Some(Self { preload_next: flag_or(value.flag, true), ..self })
        } else {
            None
        }
    }
}

impl Default for ReaderDisplayPreferences {
    fn default() -> (initial: Self)
        ensures
            initial@ == ReaderDisplayPreferencesView::initial(),
    {
        Self {
            page_layout: String::from_str("single-page"),
            zoom_behavior: String::from_str("fit-width"),
            reading_direction: String::from_str("ltr"),
            remember_zoom: true,
            show_page_numbers: true,
            background_color: String::from_str("black"),
            preload_next: true,
        }
    }
}

impl ReaderDisplayPreferences {
    /// Sets `key` to what `value` holds of the kind that the key takes, or to
    /// the key's initial value where it holds none. Tells whether the section
    /// has such a key; where it has none, nothing changes.
    pub fn update(&mut self, key: &str, value: &PreferenceValue) -> (known: bool)
        ensures
            known <==> old(self)@.updated(key@, value@) is Some,
            known ==> final(self)@ == old(self)@.updated(key@, value@)->0,
            !known ==> final(self)@ == old(self)@,
    {
        if same_text(key, "page_layout") {
            self.page_layout = match &value.text {
                Some(t) => t.clone(),
                None => String::from_str("single-page"),
            };
            true
        } else if same_text(key, "zoom_behavior") {
            self.zoom_behavior = match &value.text {
                Some(t) => t.clone(),
                None => String::from_str("fit-width"),
            };
            true
        } else if same_text(key, "reading_direction") {
            self.reading_direction = match &value.text {
                Some(t) => t.clone(),
                None => String::from_str("ltr"),
            };
            true
        } else if same_text(key, "remember_zoom") {
            self.remember_zoom = match value.flag {
                Some(b) => b,
                None => true,
            };
            true
        } else if same_text(key, "show_page_numbers") {
            self.show_page_numbers = match value.flag {
                Some(b) => b,
                None => true,
            };
            true
        } else if same_text(key, "background_color") {
            self.background_color = match &value.text {
                Some(t) => t.clone(),
                None => String::from_str("black"),
            };
            true
        } else if same_text(key, "preload_next") {
            self.preload_next = match value.flag {
                Some(b) => b,
                None => true,
            };
            true
        } else {
            false
        }
    }
}

/// What the library remembers.
#[derive(Debug)]
pub struct LibraryHistoryPreferences {
    pub enable_history: bool,
    pub max_history_entries: String,
    pub show_recently_read: bool,
    pub default_library_view: String,
}

pub ghost struct LibraryHistoryPreferencesView {
    pub enable_history: bool,
    pub max_history_entries: Seq<char>,
    pub show_recently_read: bool,
    pub default_library_view: Seq<char>,
}

impl View for LibraryHistoryPreferences {
    type V = LibraryHistoryPreferencesView;

    open spec fn view(&self) -> LibraryHistoryPreferencesView {
        LibraryHistoryPreferencesView {
            enable_history: self.enable_history,
            max_history_entries: self.max_history_entries@,
            show_recently_read: self.show_recently_read,
            default_library_view: self.default_library_view@,
        }
    }
}

impl LibraryHistoryPreferencesView {
    /// The settings that a new installation starts with.
    pub open spec fn initial() -> LibraryHistoryPreferencesView {
        LibraryHistoryPreferencesView {
            enable_history: true,
            max_history_entries: "100"@,
            show_recently_read: true,
            default_library_view: "grid"@,
        }
    }

    /// The settings after `key` was set to `value`: what `value` holds of the
    /// kind that the key takes, or the key's initial value where it holds
    /// none. `None` where the section has no such key.
    pub open spec fn updated(self, key: Seq<char>, value: PreferenceValueView) -> Option<
        LibraryHistoryPreferencesView,
    > {
        if key == "enable_history"@ {
            Some(Self { enable_history: flag_or(value.flag, true), ..self })
        } else if key == "max_history_entries"@ {
            Some(Self { max_history_entries: text_or(value.text, "100"@), ..self })
        } else if key == "show_recently_read"@ {
            Some(Self { show_recently_read: flag_or(value.flag, true), ..self })
        } else if key == "default_library_view"@ {
            Some(Self { default_library_view: text_or(value.text, "grid"@), ..self })
        } else {
            None
        }
    }
}

impl Default for LibraryHistoryPreferences {
    fn default() -> (initial: Self)
        ensures
            initial@ == LibraryHistoryPreferencesView::initial(),
    {
        Self {
            enable_history: true,
            max_history_entries: String::from_str("100"),
            show_recently_read: true,
            default_library_view: String::from_str("grid"),
        }
    }
}

impl LibraryHistoryPreferences {
    /// Sets `key` to what `value` holds of the kind that the key takes, or to
    /// the key's initial value where it holds none. Tells whether the section
    /// has such a key; where it has none, nothing changes.
    pub fn update(&mut self, key: &str, value: &PreferenceValue) -> (known: bool)
        ensures
            known <==> old(self)@.updated(key@, value@) is Some,
            known ==> final(self)@ == old(self)@.updated(key@, value@)->0,
            !known ==> final(self)@ == old(self)@,
    {
        if same_text(key, "enable_history") {
            self.enable_history = match value.flag {
                Some(b) => b,
                None => true,
            };
            true
        } else if same_text(key, "max_history_entries") {
            self.max_history_entries = match &value.text {
                Some(t) => t.clone(),
                None => String::from_str("100"),
            };
            true
        } else if same_text(key, "show_recently_read") {
            self.show_recently_read = match value.flag {
                Some(b) => b,
                None => true,
            };
            true
        } else if same_text(key, "default_library_view") {
            self.default_library_view = match &value.text {
                Some(t) => t.clone(),
                None => String::from_str("grid"),
            };
            true
        } else {
            false
        }
    }
}

/// What is kept on disk.
#[derive(Debug)]
pub struct StorageCachingPreferences {
    pub max_cache_size: String,
    pub clear_cache_on_close: bool,
    pub image_quality: String,
    pub download_path: Option<String>,
}

pub ghost struct StorageCachingPreferencesView {
    pub max_cache_size: Seq<char>,
    pub clear_cache_on_close: bool,
    pub image_quality: Seq<char>,
    pub download_path: Option<Seq<char>>,
}

impl View for StorageCachingPreferences {
    type V = StorageCachingPreferencesView;

    open spec fn view(&self) -> StorageCachingPreferencesView {
        StorageCachingPreferencesView {
            max_cache_size: self.max_cache_size@,
            clear_cache_on_close: self.clear_cache_on_close,
            image_quality: self.image_quality@,
            download_path: text_of_option(self.download_path),
        }
    }
}

impl StorageCachingPreferencesView {
    /// The settings that a new installation starts with.
    pub open spec fn initial() -> StorageCachingPreferencesView {
        StorageCachingPreferencesView {
            max_cache_size: "1000"@,
            clear_cache_on_close: false,
            image_quality: "high"@,
            download_path: None,
        }
    }

    /// The settings after `key` was set to `value`: what `value` holds of the
    /// kind that the key takes, or the key's initial value where it holds
    /// none. `None` where the section has no such key.
    pub open spec fn updated(self, key: Seq<char>, value: PreferenceValueView) -> Option<
        StorageCachingPreferencesView,
    > {
        if key == "max_cache_size"@ {
            Some(Self { max_cache_size: text_or(value.text, "1000"@), ..self })
        } else if key == "clear_cache_on_close"@ {
            Some(Self { clear_cache_on_close: flag_or(value.flag, false), ..self })
        } else if key == "image_quality"@ {
            Some(Self { image_quality: text_or(value.text, "high"@), ..self })
        } else if key == "download_path"@ {
            Some(Self { download_path: value.text, ..self })
        } else {
            None
        }
    }
}

impl Default for StorageCachingPreferences {
    fn default() -> (initial: Self)
        ensures
            initial@ == StorageCachingPreferencesView::initial(),
    {
        Self {
            max_cache_size: String::from_str("1000"),
            clear_cache_on_close: false,
            image_quality: String::from_str("high"),
            download_path: None,
        }
    }
}

impl StorageCachingPreferences {
    /// Sets `key` to what `value` holds of the kind that the key takes, or to
    /// the key's initial value where it holds none. Tells whether the section
    /// has such a key; where it has none, nothing changes.
    pub fn update(&mut self, key: &str, value: &PreferenceValue) -> (known: bool)
        ensures
            known <==> old(self)@.updated(key@, value@) is Some,
            known ==> final(self)@ == old(self)@.updated(key@, value@)->0,
            !known ==> final(self)@ == old(self)@,
    {
        if same_text(key, "max_cache_size") {
            self.max_cache_size = match &value.text {
                Some(t) => t.clone(),
                None => String::from_str("1000"),
            };
            true
        } else if same_text(key, "clear_cache_on_close") {
            self.clear_cache_on_close = match value.flag {
                Some(b) => b,
                None => false,
            };
            true
        } else if same_text(key, "image_quality") {
            self.image_quality = match &value.text {
                Some(t) => t.clone(),
                None => String::from_str("high"),
            };
            true
        } else if same_text(key, "download_path") {
            self.download_path = value.text.clone();
            true
        } else {
            false
        }
    }
}

/// What the program does by itself.
#[derive(Debug)]
pub struct SystemBehaviorPreferences {
    pub check_new_chapters: bool,
    pub auto_refresh_category: bool,
    pub confirm_removal: bool,
    pub enable_notifications: bool,
}

pub ghost struct SystemBehaviorPreferencesView {
    pub check_new_chapters: bool,
    pub auto_refresh_category: bool,
    pub confirm_removal: bool,
    pub enable_notifications: bool,
}

impl View for SystemBehaviorPreferences {
    type V = SystemBehaviorPreferencesView;

    open spec fn view(&self) -> SystemBehaviorPreferencesView {
        SystemBehaviorPreferencesView {
            check_new_chapters: self.check_new_chapters,
            auto_refresh_category: self.auto_refresh_category,
            confirm_removal: self.confirm_removal,
            enable_notifications: self.enable_notifications,
        }
    }
}

impl SystemBehaviorPreferencesView {
    /// The settings that a new installation starts with.
    pub open spec fn initial() -> SystemBehaviorPreferencesView {
        SystemBehaviorPreferencesView {
            check_new_chapters: true,
            auto_refresh_category: false,
            confirm_removal: true,
            enable_notifications: true,
        }
    }

    /// The settings after `key` was set to `value`: what `value` holds of the
    /// kind that the key takes, or the key's initial value where it holds
    /// none. `None` where the section has no such key.
    pub open spec fn updated(self, key: Seq<char>, value: PreferenceValueView) -> Option<
        SystemBehaviorPreferencesView,
    > {
        if key == "check_new_chapters"@ {
            Some(Self { check_new_chapters: flag_or(value.flag, true), ..self })
        } else if key == "auto_refresh_category"@ {
            Some(Self { auto_refresh_category: flag_or(value.flag, false), ..self })
        } else if key == "confirm_removal"@ {
            Some(Self { confirm_removal: flag_or(value.flag, true), ..self })
        } else if key == "enable_notifications"@ {
            Some(Self { enable_notifications: flag_or(value.flag, true), ..self })
        } else {
            None
        }
    }
}

impl Default for SystemBehaviorPreferences {
    fn default() -> (initial: Self)
        ensures
            initial@ == SystemBehaviorPreferencesView::initial(),
    {
        Self {
            check_new_chapters: true,
            auto_refresh_category: false,
            confirm_removal: true,
            enable_notifications: true,
        }
    }
}

impl SystemBehaviorPreferences {
    /// Sets `key` to what `value` holds of the kind that the key takes, or to
    /// the key's initial value where it holds none. Tells whether the section
    /// has such a key; where it has none, nothing changes.
    pub fn update(&mut self, key: &str, value: &PreferenceValue) -> (known: bool)
        ensures
            known <==> old(self)@.updated(key@, value@) is Some,
            known ==> final(self)@ == old(self)@.updated(key@, value@)->0,
            !known ==> final(self)@ == old(self)@,
    {
        if same_text(key, "check_new_chapters") {
            self.check_new_chapters = match value.flag {
                Some(b) => b,
                None => true,
            };
            true
        } else if same_text(key, "auto_refresh_category") {
            self.auto_refresh_category = match value.flag {
                Some(b) => b,
                None => false,
            };
            true
        } else if same_text(key, "confirm_removal") {
            self.confirm_removal = match value.flag {
                Some(b) => b,
                None => true,
            };
            true
        } else if same_text(key, "enable_notifications") {
            self.enable_notifications = match value.flag {
                Some(b) => b,
                None => true,
            };
            true
        } else {
            false
        }
    }
}

/// What is still being tried out.
#[derive(Debug)]
pub struct ExperimentalPreferences {
    pub enable_custom_sources: bool,
    pub enable_debug_logging: bool,
    pub show_fps_counter: bool,
    pub hardware_acceleration: bool,
}

pub ghost struct ExperimentalPreferencesView {
    pub enable_custom_sources: bool,
    pub enable_debug_logging: bool,
    pub show_fps_counter: bool,
    pub hardware_acceleration: bool,
}

impl View for ExperimentalPreferences {
    type V = ExperimentalPreferencesView;

    open spec fn view(&self) -> ExperimentalPreferencesView {
        ExperimentalPreferencesView {
            enable_custom_sources: self.enable_custom_sources,
            enable_debug_logging: self.enable_debug_logging,
            show_fps_counter: self.show_fps_counter,
            hardware_acceleration: self.hardware_acceleration,
        }
    }
}

impl ExperimentalPreferencesView {
    /// The settings that a new installation starts with.
    pub open spec fn initial() -> ExperimentalPreferencesView {
        ExperimentalPreferencesView {
            enable_custom_sources: false,
            enable_debug_logging: false,
            show_fps_counter: false,
            hardware_acceleration: true,
        }
    }

    /// The settings after `key` was set to `value`: what `value` holds of the
    /// kind that the key takes, or the key's initial value where it holds
    /// none. `None` where the section has no such key.
    pub open spec fn updated(self, key: Seq<char>, value: PreferenceValueView) -> Option<
        ExperimentalPreferencesView,
    > {
        if key == "enable_custom_sources"@ {
            Some(Self { enable_custom_sources: flag_or(value.flag, false), ..self })
        } else if key == "enable_debug_logging"@ {
            Some(Self { enable_debug_logging: flag_or(value.flag, false), ..self })
        } else if key == "show_fps_counter"@ {
            Some(Self { show_fps_counter: flag_or(value.flag, false), ..self })
        } else if key == "hardware_acceleration"@ {
            Some(Self { hardware_acceleration: flag_or(value.flag, true), ..self })
        } else {
            None
        }
    }
}

impl Default for ExperimentalPreferences {
    fn default() -> (initial: Self)
        ensures
            initial@ == ExperimentalPreferencesView::initial(),
    {
        Self {
            enable_custom_sources: false,
            enable_debug_logging: false,
            show_fps_counter: false,
            hardware_acceleration: true,
        }
    }
}

impl ExperimentalPreferences {
    /// Sets `key` to what `value` holds of the kind that the key takes, or to
    /// the key's initial value where it holds none. Tells whether the section
    /// has such a key; where it has none, nothing changes.
    pub fn update(&mut self, key: &str, value: &PreferenceValue) -> (known: bool)
        ensures
            known <==> old(self)@.updated(key@, value@) is Some,
            known ==> final(self)@ == old(self)@.updated(key@, value@)->0,
            !known ==> final(self)@ == old(self)@,
    {
        if same_text(key, "enable_custom_sources") {
            self.enable_custom_sources = match value.flag {
                Some(b) => b,
                None => false,
            };
            true
        } else if same_text(key, "enable_debug_logging") {
            self.enable_debug_logging = match value.flag {
                Some(b) => b,
                None => false,
            };
            true
        } else if same_text(key, "show_fps_counter") {
            self.show_fps_counter = match value.flag {
                Some(b) => b,
                None => false,
            };
            true
        } else if same_text(key, "hardware_acceleration") {
            self.hardware_acceleration = match value.flag {
                Some(b) => b,
                None => true,
            };
            true
        } else {
            false
        }
    }
}

/// Every preference of the program, by section.
#[derive(Debug)]
pub struct AppPreferences {
    pub layout_appearance: LayoutAppearancePreferences,
    pub reader_display: ReaderDisplayPreferences,
    pub library_history: LibraryHistoryPreferences,
    pub storage_caching: StorageCachingPreferences,
    pub system_behavior: SystemBehaviorPreferences,
    pub experimental: ExperimentalPreferences,
}

pub ghost struct AppPreferencesView {
    pub layout_appearance: LayoutAppearancePreferencesView,
    pub reader_display: ReaderDisplayPreferencesView,
    pub library_history: LibraryHistoryPreferencesView,
    pub storage_caching: StorageCachingPreferencesView,
    pub system_behavior: SystemBehaviorPreferencesView,
    pub experimental: ExperimentalPreferencesView,
}

impl View for AppPreferences {
    type V = AppPreferencesView;

    open spec fn view(&self) -> AppPreferencesView {
        AppPreferencesView {
            layout_appearance: self.layout_appearance@,
            reader_display: self.reader_display@,
            library_history: self.library_history@,
            storage_caching: self.storage_caching@,
            system_behavior: self.system_behavior@,
            experimental: self.experimental@,
        }
    }
}

/// The words that introduce a section that does not exist.
pub const UNKNOWN_SECTION: &'static str = "Unknown preferences section: ";

/// What is said of a key that its section does not have.
pub open spec fn unknown_key(section: Seq<char>, key: Seq<char>) -> Seq<char> {
    "Unknown "@ + section + " preference key: "@ + key
}

/// Whether the preferences have a section of the given name.
pub open spec fn is_section(section: Seq<char>) -> bool {
    section == "layout_appearance"@
        || section == "reader_display"@
        || section == "library_history"@
        || section == "storage_caching"@
        || section == "system_behavior"@
        || section == "experimental"@
}

impl AppPreferencesView {
    /// The preferences that a new installation starts with.
    pub open spec fn initial() -> AppPreferencesView {
        AppPreferencesView {
            layout_appearance: LayoutAppearancePreferencesView::initial(),
            reader_display: ReaderDisplayPreferencesView::initial(),
            library_history: LibraryHistoryPreferencesView::initial(),
            storage_caching: StorageCachingPreferencesView::initial(),
            system_behavior: SystemBehaviorPreferencesView::initial(),
            experimental: ExperimentalPreferencesView::initial(),
        }
    }

    /// The preferences after `key` of `section` was set to `value`, or what is
    /// said of a section or a key that does not exist.
    pub open spec fn updated(
        self,
        section: Seq<char>,
        key: Seq<char>,
        value: PreferenceValueView,
    ) -> Result<AppPreferencesView, Seq<char>> {
        if section == "layout_appearance"@ {
            match self.layout_appearance.updated(key, value) {
                Some(changed) => Ok(AppPreferencesView { layout_appearance: changed, ..self }),
                None => Err(unknown_key(section, key)),
            }
        } else if section == "reader_display"@ {
            match self.reader_display.updated(key, value) {
                Some(changed) => Ok(AppPreferencesView { reader_display: changed, ..self }),
                None => Err(unknown_key(section, key)),
            }
        } else if section == "library_history"@ {
            match self.library_history.updated(key, value) {
                Some(changed) => Ok(AppPreferencesView { library_history: changed, ..self }),
                None => Err(unknown_key(section, key)),
            }
        } else if section == "storage_caching"@ {
            match self.storage_caching.updated(key, value) {
                Some(changed) => Ok(AppPreferencesView { storage_caching: changed, ..self }),
                None => Err(unknown_key(section, key)),
            }
        } else if section == "system_behavior"@ {
            match self.system_behavior.updated(key, value) {
                Some(changed) => Ok(AppPreferencesView { system_behavior: changed, ..self }),
                None => Err(unknown_key(section, key)),
            }
        } else if section == "experimental"@ {
            match self.experimental.updated(key, value) {
                Some(changed) => Ok(AppPreferencesView { experimental: changed, ..self }),
                None => Err(unknown_key(section, key)),
            }
        } else {
            Err(UNKNOWN_SECTION@ + section)
        }
    }
}

/// Whether `after` and `done` are what setting `key` of `section` to `value`
/// makes of `before`: the changed preferences, or the refusal with the
/// preferences as they were.
pub open spec fn is_outcome(
    before: AppPreferencesView,
    section: Seq<char>,
    key: Seq<char>,
    value: PreferenceValueView,
    after: AppPreferencesView,
    done: Result<(), String>,
) -> bool {
    match before.updated(section, key, value) {
        Ok(changed) => done is Ok && after == changed,
        Err(refusal) => after == before && (done matches Err(message) && message@ == refusal),
    }
}

impl Default for AppPreferences {
    fn default() -> (initial: Self)
        ensures
            initial@ == AppPreferencesView::initial(),
    {
        Self {
            layout_appearance: LayoutAppearancePreferences::default(),
            reader_display: ReaderDisplayPreferences::default(),
            library_history: LibraryHistoryPreferences::default(),
            storage_caching: StorageCachingPreferences::default(),
            system_behavior: SystemBehaviorPreferences::default(),
            experimental: ExperimentalPreferences::default(),
        }
    }
}

/// What is said of a key that its section does not have.
fn unknown_key_message(section: &str, key: &str) -> (message: String)
    ensures
        message@ == unknown_key(section@, key@),
{
    String::from_str("Unknown ").concat(section).concat(" preference key: ").concat(key)
}

/// What is said of a section that does not exist.
pub fn unknown_section_message(section: &str) -> (message: String)
    ensures
        message@ == UNKNOWN_SECTION@ + section@,
{
    String::from_str(UNKNOWN_SECTION).concat(section)
}

/// Whether the preferences have a section of the given name.
pub fn section_exists(section: &str) -> (exists: bool)
    ensures
        exists == is_section(section@),
{

    same_text(section, "layout_appearance")
        || same_text(section, "reader_display")
        || same_text(section, "library_history")
        || same_text(section, "storage_caching")
        || same_text(section, "system_behavior")
        || same_text(section, "experimental")
}

impl AppPreferences {
    fn update_layout_appearance(&mut self, key: &str, value: &PreferenceValue) -> (done: Result<
        (),
        String,
    >)
        ensures
            match old(self)@.layout_appearance.updated(key@, value@) {
                Some(changed) => done is Ok && final(self)@ == (AppPreferencesView {
                    layout_appearance: changed,
                    ..old(self)@
                }),
                None => final(self)@ == old(self)@ && (done matches Err(message) && message@
                    == unknown_key("layout_appearance"@, key@)),
            },
    {
        if self.layout_appearance.update(key, value) {
            Ok(())
        } else {
            Err(unknown_key_message("layout_appearance", key))
        }
    }

    fn update_reader_display(&mut self, key: &str, value: &PreferenceValue) -> (done: Result<
        (),
        String,
    >)
        ensures
            match old(self)@.reader_display.updated(key@, value@) {
                Some(changed) => done is Ok && final(self)@ == (AppPreferencesView {
                    reader_display: changed,
                    ..old(self)@
                }),
                None => final(self)@ == old(self)@ && (done matches Err(message) && message@
                    == unknown_key("reader_display"@, key@)),
            },
    {
        if self.reader_display.update(key, value) {
            Ok(())
        } else {
            Err(unknown_key_message("reader_display", key))
        }
    }

    fn update_library_history(&mut self, key: &str, value: &PreferenceValue) -> (done: Result<
        (),
        String,
    >)
        ensures
            match old(self)@.library_history.updated(key@, value@) {
                Some(changed) => done is Ok && final(self)@ == (AppPreferencesView {
                    library_history: changed,
                    ..old(self)@
                }),
                None => final(self)@ == old(self)@ && (done matches Err(message) && message@
                    == unknown_key("library_history"@, key@)),
            },
    {
        if self.library_history.update(key, value) {
            Ok(())
        } else {
            Err(unknown_key_message("library_history", key))
        }
    }

    fn update_storage_caching(&mut self, key: &str, value: &PreferenceValue) -> (done: Result<
        (),
        String,
    >)
        ensures
            match old(self)@.storage_caching.updated(key@, value@) {
                Some(changed) => done is Ok && final(self)@ == (AppPreferencesView {
                    storage_caching: changed,
                    ..old(self)@
                }),
                None => final(self)@ == old(self)@ && (done matches Err(message) && message@
                    == unknown_key("storage_caching"@, key@)),
            },
    {
        if self.storage_caching.update(key, value) {
            Ok(())
        } else {
            Err(unknown_key_message("storage_caching", key))
        }
    }

    fn update_system_behavior(&mut self, key: &str, value: &PreferenceValue) -> (done: Result<
        (),
        String,
    >)
        ensures
            match old(self)@.system_behavior.updated(key@, value@) {
                Some(changed) => done is Ok && final(self)@ == (AppPreferencesView {
                    system_behavior: changed,
                    ..old(self)@
                }),
                None => final(self)@ == old(self)@ && (done matches Err(message) && message@
                    == unknown_key("system_behavior"@, key@)),
            },
    {
        if self.system_behavior.update(key, value) {
            Ok(())
        } else {
            Err(unknown_key_message("system_behavior", key))
        }
    }

    fn update_experimental(&mut self, key: &str, value: &PreferenceValue) -> (done: Result<
        (),
        String,
    >)
        ensures
            match old(self)@.experimental.updated(key@, value@) {
                Some(changed) => done is Ok && final(self)@ == (AppPreferencesView {
                    experimental: changed,
                    ..old(self)@
                }),
                None => final(self)@ == old(self)@ && (done matches Err(message) && message@
                    == unknown_key("experimental"@, key@)),
            },
    {
        if self.experimental.update(key, value) {
            Ok(())
        } else {
            Err(unknown_key_message("experimental", key))
        }
    }

    /// Sets `key` of `section` to what `value` holds of the kind that the key
    /// takes, or to the key's initial value where it holds none. A section or
    /// a key that does not exist is refused, and nothing changes.
    pub fn apply_preference(&mut self, section: &str, key: &str, value: &PreferenceValue) -> (done:
        Result<(), String>)
        ensures
            is_outcome(old(self)@, section@, key@, value@, final(self)@, done),
    {
        if same_text(section, "layout_appearance") {
            self.update_layout_appearance(key, value)
        } else if same_text(section, "reader_display") {
            self.update_reader_display(key, value)
        } else if same_text(section, "library_history") {
            self.update_library_history(key, value)
        } else if same_text(section, "storage_caching") {
            self.update_storage_caching(key, value)
        } else if same_text(section, "system_behavior") {
            self.update_system_behavior(key, value)
        } else if same_text(section, "experimental") {
            self.update_experimental(key, value)
        } else {
            Err(unknown_section_message(section))
        }
    }

    /// Sets `key` of `section` to what the JSON value holds of the kind that
    /// the key takes, or to the key's initial value where it holds none.
    /// Whether it is refused depends on the section and the key alone.
    pub fn update_preference(
        &mut self,
        section: &str,
        key: &str,
        value: &serde_json::Value,
    ) -> (done: Result<(), String>)
        ensures
            exists|read: PreferenceValueView|
                is_outcome(old(self)@, section@, key@, read, final(self)@, done),
            done is Ok <==> old(self)@.updated(
                section@,
                key@,
                PreferenceValueView { integer: None, text: None, flag: None },
            ) is Ok,
    {
        let read = PreferenceValue::read(value);
        let ghost before = self@;
        proof {
            lemma_refusal_ignores_value(
                self@,
                section@,
                key@,
                read@,
                PreferenceValueView { integer: None, text: None, flag: None },
            );
        }
        let done = self.apply_preference(section, key, &read);
        assert(is_outcome(before, section@, key@, read@, self@, done));
        done
    }
}

/// Whether a change is refused, and with what words, does not depend on
/// the new value.
pub proof fn lemma_refusal_ignores_value(
    preferences: AppPreferencesView,
    section: Seq<char>,
    key: Seq<char>,
    one: PreferenceValueView,
    other: PreferenceValueView,
)
    ensures
        preferences.updated(section, key, one) is Ok <==> preferences.updated(
            section,
            key,
            other,
        ) is Ok,
        preferences.updated(section, key, one) matches Err(refusal) ==> preferences.updated(
            section,
            key,
            other,
        ) == Err::<AppPreferencesView, Seq<char>>(refusal),
{
}

} // verus!
