//! Reading the application settings from their TOML file: which values are taken,
//! which fall back to defaults, and when a saved model preference counts.
use vstd::prelude::*;

use crate::domain::EffortLevel;
use crate::openai::models::{effort_from_wire, effort_from_wire_spec, effort_wire, wire_value};
use crate::text::{append_str, chars_of, opt_view, push_char, str_is, trim, trimmed};

verus! {

/// The settings version this library writes; model preferences are read only from
/// files of this version or later.
pub const SETTINGS_VERSION: u32 = 2;

pub const MIN_FONT_SIZE: i64 = 8;

pub const MAX_FONT_SIZE: i64 = 72;

/// The appearance of the windows.
#[derive(Clone, Copy, Debug, PartialEq, Eq, Structural)]
pub enum AppearanceMode {
    System,
    Light,
    Dark,
}

/// Fonts and sizes. Font choices are kept as written in the file (`system-ui`,
/// `system-monospace`, or a family name; `default`, or a KaTeX style for math).
#[derive(Clone, Debug, PartialEq, Eq)]
pub struct TypographySettings {
    pub ui_font: String,
    pub ui_size: u16,
    pub monospace_font: String,
    pub monospace_size: u16,
    pub math_font: String,
    pub inline_math_size: u16,
    pub display_math_size: u16,
}

/// A saved choice of provider, model and effort for one mode.
#[derive(Clone, Debug, PartialEq, Eq)]
pub struct GenerationPreference {
    pub provider: String,
    pub model: String,
    pub effort: EffortLevel,
}

/// The saved model choices for chats and for work in a project; `None` is automatic.
#[derive(Clone, Debug, PartialEq, Eq)]
pub struct GenerationSettings {
    pub chat: Option<GenerationPreference>,
    pub work: Option<GenerationPreference>,
}

/// All application settings.
#[derive(Clone, Debug, PartialEq, Eq)]
pub struct AppSettings {
    pub version: u32,
    pub appearance: AppearanceMode,
    pub typography: TypographySettings,
    pub generation: GenerationSettings,
}

pub const DEFAULT_UI_FONT: &'static str = "system-ui";

pub const DEFAULT_UI_SIZE: u16 = 15;

pub const DEFAULT_MONOSPACE_FONT: &'static str = "system-monospace";

pub const DEFAULT_MONOSPACE_SIZE: u16 = 13;

pub const DEFAULT_MATH_FONT: &'static str = "default";

pub const DEFAULT_INLINE_MATH_SIZE: u16 = 13;

pub const DEFAULT_DISPLAY_MATH_SIZE: u16 = 16;

/// The settings of a new installation.
pub fn default_settings() -> (s: AppSettings)
    ensures
        s.version == 1,
        s.appearance == AppearanceMode::Dark,
        s.typography.ui_font@ == DEFAULT_UI_FONT@,
        s.typography.ui_size == DEFAULT_UI_SIZE,
        s.typography.monospace_font@ == DEFAULT_MONOSPACE_FONT@,
        s.typography.monospace_size == DEFAULT_MONOSPACE_SIZE,
        s.typography.math_font@ == DEFAULT_MATH_FONT@,
        s.typography.inline_math_size == DEFAULT_INLINE_MATH_SIZE,
        s.typography.display_math_size == DEFAULT_DISPLAY_MATH_SIZE,
        s.generation.chat is None,
        s.generation.work is None,
{
    let mut ui_font = String::new();
    append_str(&mut ui_font, DEFAULT_UI_FONT);
    let mut monospace_font = String::new();
    append_str(&mut monospace_font, DEFAULT_MONOSPACE_FONT);
    let mut math_font = String::new();
    append_str(&mut math_font, DEFAULT_MATH_FONT);
    AppSettings {
        version: 1,
        appearance: AppearanceMode::Dark,
        typography: TypographySettings {
            ui_font,
            ui_size: DEFAULT_UI_SIZE,
            monospace_font,
            monospace_size: DEFAULT_MONOSPACE_SIZE,
            math_font,
            inline_math_size: DEFAULT_INLINE_MATH_SIZE,
            display_math_size: DEFAULT_DISPLAY_MATH_SIZE,
        },
        generation: GenerationSettings { chat: None, work: None },
    }
}

// ----- the TOML document -----

/// The message of the error `toml_edit` reports for a text that is not a TOML
/// document, or `None` where the text parses.
pub uninterp spec fn toml_error_of(text: Seq<char>) -> Option<Seq<char>>;

/// What a TOML item is, as far as the settings read it.
#[derive(Clone, Debug, PartialEq, Eq)]
pub enum TomlItem {
    /// No item at the path.
    Absent,
    Text(String),
    Integer(i64),
    /// A table that is not inline: under a header, or implied by one.
    Table,
    /// A table written inline, in braces.
    InlineTable,
    /// Any other value.
    Other,
}

pub enum TomlItemView {
    Absent,
    Text(Seq<char>),
    Integer(i64),
    Table,
    InlineTable,
    Other,
}

pub open spec fn toml_item_view(item: TomlItem) -> TomlItemView {
    match item {
        TomlItem::Absent => TomlItemView::Absent,
        TomlItem::Text(t) => TomlItemView::Text(t@),
        TomlItem::Integer(i) => TomlItemView::Integer(i),
        TomlItem::Table => TomlItemView::Table,
        TomlItem::InlineTable => TomlItemView::InlineTable,
        TomlItem::Other => TomlItemView::Other,
    }
}

/// The item at a path of keys in a TOML document (`Item::get` key by key), or absent
/// where the text does not parse or the path leads nowhere.
pub uninterp spec fn toml_item_of(text: Seq<char>, path: Seq<Seq<char>>) -> TomlItemView;

/// The string at a path of keys, where the path leads to one.
pub open spec fn toml_string_of(text: Seq<char>, path: Seq<Seq<char>>) -> Option<Seq<char>> {
    match toml_item_of(text, path) {
        TomlItemView::Text(t) => Some(t),
        _ => None,
    }
}

/// The integer at a path of keys, where the path leads to one.
pub open spec fn toml_integer_of(text: Seq<char>, path: Seq<Seq<char>>) -> Option<i64> {
    match toml_item_of(text, path) {
        TomlItemView::Integer(i) => Some(i),
        _ => None,
    }
}

/// Whether the item at a path of keys is a table, or `None` where there is no item.
pub open spec fn toml_table_like_of(text: Seq<char>, path: Seq<Seq<char>>) -> Option<bool> {
    match toml_item_of(text, path) {
        TomlItemView::Absent => None,
        TomlItemView::Table | TomlItemView::InlineTable => Some(true),
        _ => Some(false),
    }
}

/// Parsing with `str::parse::<toml_edit::DocumentMut>`, its error as text.
#[verifier::external_body]
fn toml_error(text: &str) -> (error: Option<String>)
    ensures
        opt_view(error) == toml_error_of(text@),
{
    match text.parse::<toml_edit::DocumentMut>() {
        Ok(_) => None,
        Err(error) => Some(error.to_string()),
    }
}

/// The item at `path` of the parsed document through `Item::get`, told apart by its
/// variant: a table, a string, an integer, an inline table, or another value.
#[verifier::external_body]
fn toml_item(text: &str, path: &Vec<String>) -> (item: TomlItem)
    ensures
        toml_item_view(item) == toml_item_of(text@, path.deep_view()),
{
    let Ok(document) = text.parse::<toml_edit::DocumentMut>() else { return TomlItem::Absent };
    match path.iter().try_fold(document.as_item(), |item, key| item.get(key.as_str())) {
        None => TomlItem::Absent,
        Some(toml_edit::Item::Table(_)) => TomlItem::Table,
        Some(toml_edit::Item::Value(toml_edit::Value::String(text))) => TomlItem::Text(text.value().clone()),
        Some(toml_edit::Item::Value(toml_edit::Value::Integer(integer))) => TomlItem::Integer(*integer.value()),
        Some(toml_edit::Item::Value(toml_edit::Value::InlineTable(_))) => TomlItem::InlineTable,
        Some(_) => TomlItem::Other,
    }
}

fn toml_string(text: &str, path: &Vec<String>) -> (value: Option<String>)
    ensures
        opt_view(value) == toml_string_of(text@, path.deep_view()),
{
    match toml_item(text, path) {
        TomlItem::Text(t) => Some(t),
        _ => None,
    }
}

fn toml_integer(text: &str, path: &Vec<String>) -> (value: Option<i64>)
    ensures
        value == toml_integer_of(text@, path.deep_view()),
{
    match toml_item(text, path) {
        TomlItem::Integer(i) => Some(i),
        _ => None,
    }
}

fn toml_table_like(text: &str, path: &Vec<String>) -> (value: Option<bool>)
    ensures
        value == toml_table_like_of(text@, path.deep_view()),
{
    match toml_item(text, path) {
        TomlItem::Absent => None,
        TomlItem::Table | TomlItem::InlineTable => Some(true),
        _ => Some(false),
    }
}

fn key_path(keys: &Vec<&str>) -> (path: Vec<String>)
    ensures
        path.deep_view() == keys.deep_view(),
{
    let mut path: Vec<String> = Vec::new();
    let mut i: usize = 0;
    while i < keys.len()
        invariant
            i <= keys@.len(),
            path@.len() == i,
            path.deep_view() == keys.deep_view().take(i as int),
        decreases keys.len() - i,
    {
        let mut key = String::new();
        append_str(&mut key, keys[i]);
        let ghost before = path.deep_view();
        let ghost prev = path@;
        path.push(key);
        proof {
            assert(path@[i as int]@ == keys@[i as int]@);
            assert(path.deep_view()[i as int] == path@[i as int].deep_view());
            assert(keys.deep_view()[i as int] == keys@[i as int].deep_view());
            assert forall|k: int| 0 <= k < i implies path.deep_view()[k] == before[k] by {
                assert(path@[k] == prev[k]);
                assert(before[k] == prev[k].deep_view());
            }
            assert(path.deep_view() =~= keys.deep_view().take(i + 1));
        }
        i += 1;
    }
    assert(keys.deep_view().take(keys@.len() as int) =~= keys.deep_view());
    path
}

fn string_at(text: &str, keys: &Vec<&str>) -> (value: Option<String>)
    ensures
        opt_view(value) == toml_string_of(text@, keys.deep_view()),
{
    toml_string(text, &key_path(keys))
}

fn integer_at(text: &str, keys: &Vec<&str>) -> (value: Option<i64>)
    ensures
        value == toml_integer_of(text@, keys.deep_view()),
{
    toml_integer(text, &key_path(keys))
}

// ----- reading -----

/// The version in the file: a non-negative integer that fits `u32`, else 1.
pub open spec fn version_spec(value: Option<i64>) -> u32 {
    match value {
        Some(v) => if 0 <= v <= u32::MAX { v as u32 } else { 1 },
        None => 1,
    }
}

pub fn read_version(value: Option<i64>) -> (version: u32)
    ensures
        version == version_spec(value),
{
    match value {
        Some(v) => if 0 <= v && v <= u32::MAX as i64 { v as u32 } else { 1 },
        None => 1,
    }
}

/// The appearance named in the file: `system`, `light`, and anything else dark; dark
/// where none is named.
pub open spec fn appearance_spec(value: Option<Seq<char>>) -> AppearanceMode {
    match value {
        Some(v) => if v == "system"@ {
            AppearanceMode::System
        } else if v == "light"@ {
            AppearanceMode::Light
        } else {
            AppearanceMode::Dark
        },
        None => AppearanceMode::Dark,
    }
}

pub fn read_appearance(value: Option<String>) -> (mode: AppearanceMode)
    ensures
        mode == appearance_spec(opt_view(value)),
{
    match value {
        Some(v) => {
            if str_is(v.as_str(), "system") {
                AppearanceMode::System
            } else if str_is(v.as_str(), "light") {
                AppearanceMode::Light
            } else {
                AppearanceMode::Dark
            }
        },
        None => AppearanceMode::Dark,
    }
}

/// A font size from the file: an integer from 8 to 72, else the default.
pub open spec fn size_spec(value: Option<i64>, default: u16) -> u16 {
    match value {
        Some(v) => if MIN_FONT_SIZE <= v <= MAX_FONT_SIZE { v as u16 } else { default },
        None => default,
    }
}

pub fn read_size(value: Option<i64>, default: u16) -> (size: u16)
    ensures
        size == size_spec(value, default),
{
    match value {
        Some(v) => if MIN_FONT_SIZE <= v && v <= MAX_FONT_SIZE { v as u16 } else { default },
        None => default,
    }
}

/// A model preference from the values under `[generation.<mode>]`: none where the
/// mode has no entry or it is not a table, or where the provider or model is blank or
/// missing, or the effort is not a known level; else the trimmed provider and model
/// and the effort.
pub open spec fn preference_spec(
    table_like: Option<bool>,
    provider: Option<Seq<char>>,
    model: Option<Seq<char>>,
    effort: Option<Seq<char>>,
) -> Option<(Seq<char>, Seq<char>, EffortLevel)> {
    match (table_like, provider, model, effort) {
        (Some(true), Some(p), Some(m), Some(e)) =>
            if trimmed(p).len() > 0 && trimmed(m).len() > 0 && effort_from_wire_spec(e) is Some {
                Some((trimmed(p), trimmed(m), effort_from_wire_spec(e)->0))
            } else {
                None
            },
        _ => None,
    }
}

pub open spec fn preference_view(p: Option<GenerationPreference>) -> Option<(Seq<char>, Seq<char>, EffortLevel)> {
    match p {
        Some(g) => Some((g.provider@, g.model@, g.effort)),
        None => None,
    }
}

/// A model preference from the values under `[generation.<mode>]`.
pub fn read_preference(
    table_like: Option<bool>,
    provider: Option<String>,
    model: Option<String>,
    effort: Option<String>,
) -> (p: Option<GenerationPreference>)
    ensures
        preference_view(p) == preference_spec(table_like, opt_view(provider), opt_view(model), opt_view(effort)),
{
    match (table_like, provider, model, effort) {
        (Some(true), Some(p), Some(m), Some(e)) => {
            let provider = trim(p.as_str());
            let model = trim(m.as_str());
            let effort = effort_from_wire(e.as_str());
            if provider.as_str().unicode_len() == 0 || model.as_str().unicode_len() == 0 {
                return None;
            }
            match effort {
                Some(level) => Some(GenerationPreference { provider, model, effort: level }),
                None => None,
            }
        },
        _ => None,
    }
}

/// The path of keys to a value of a mode's model preference.
pub open spec fn preference_path(mode: Seq<char>, key: Seq<char>) -> Seq<Seq<char>> {
    seq!["generation"@, mode, key]
}

/// The model preference saved in a document for a mode (`chat` or `work`).
pub open spec fn document_preference(text: Seq<char>, mode: Seq<char>) -> Option<(Seq<char>, Seq<char>, EffortLevel)> {
    preference_spec(
        toml_table_like_of(text, seq!["generation"@, mode]),
        toml_string_of(text, preference_path(mode, "provider"@)),
        toml_string_of(text, preference_path(mode, "model"@)),
        toml_string_of(text, preference_path(mode, "effort"@)),
    )
}

fn read_generation_preference(text: &str, mode: &str) -> (p: Option<GenerationPreference>)
    ensures
        preference_view(p) == document_preference(text@, mode@),
{
    let table_path = vec!["generation", mode];
    let provider_path = vec!["generation", mode, "provider"];
    let model_path = vec!["generation", mode, "model"];
    let effort_path = vec!["generation", mode, "effort"];
    assert(table_path.deep_view() =~= seq!["generation"@, mode@]);
    assert(provider_path.deep_view() =~= preference_path(mode@, "provider"@));
    assert(model_path.deep_view() =~= preference_path(mode@, "model"@));
    assert(effort_path.deep_view() =~= preference_path(mode@, "effort"@));
    let table_like = toml_table_like(text, &key_path(&table_path));
    let provider = string_at(text, &provider_path);
    let model = string_at(text, &model_path);
    let effort = string_at(text, &effort_path);
    read_preference(table_like, provider, model, effort)
}

/// The path of a typography value.
pub open spec fn typography_path(key: Seq<char>) -> Seq<Seq<char>> {
    seq!["typography"@, key]
}

/// The settings that a document holds.
pub open spec fn settings_spec(text: Seq<char>, s: AppSettings) -> bool {
    let version = version_spec(toml_integer_of(text, seq!["version"@]));
    &&& s.version == if version < 1 { 1 } else { version }
    &&& s.appearance == appearance_spec(toml_string_of(text, seq!["appearance"@, "theme"@]))
    &&& s.typography.ui_font@ == match toml_string_of(text, typography_path("ui_font"@)) {
        Some(v) => v,
        None => DEFAULT_UI_FONT@,
    }
    &&& s.typography.ui_size == size_spec(toml_integer_of(text, typography_path("ui_size"@)), DEFAULT_UI_SIZE)
    &&& s.typography.monospace_font@ == match toml_string_of(text, typography_path("monospace_font"@)) {
        Some(v) => v,
        None => DEFAULT_MONOSPACE_FONT@,
    }
    &&& s.typography.monospace_size == size_spec(toml_integer_of(text, typography_path("monospace_size"@)), DEFAULT_MONOSPACE_SIZE)
    &&& s.typography.math_font@ == match toml_string_of(text, typography_path("math_font"@)) {
        Some(v) => v,
        None => DEFAULT_MATH_FONT@,
    }
    &&& s.typography.inline_math_size == size_spec(toml_integer_of(text, typography_path("inline_math_size"@)), DEFAULT_INLINE_MATH_SIZE)
    &&& s.typography.display_math_size == size_spec(toml_integer_of(text, typography_path("display_math_size"@)), DEFAULT_DISPLAY_MATH_SIZE)
    &&& if version >= SETTINGS_VERSION {
        &&& preference_view(s.generation.chat) == document_preference(text, "chat"@)
        &&& preference_view(s.generation.work) == document_preference(text, "work"@)
    } else {
        s.generation.chat is None && s.generation.work is None
    }
}

fn font_or(value: Option<String>, default: &str) -> (font: String)
    ensures
        font@ == match opt_view(value) {
            Some(v) => v,
            None => default@,
        },
{
    match value {
        Some(v) => v,
        None => {
            let mut font = String::new();
            append_str(&mut font, default);
            font
        },
    }
}

/// The settings in the text of a settings file, or the parse error where the text is
/// not TOML.
pub fn read_settings(contents: &str) -> (r: Result<AppSettings, String>)
    ensures
        match toml_error_of(contents@) {
            Some(message) => r matches Err(e) && e@ == message,
            None => r matches Ok(s) && settings_spec(contents@, s),
        },
{
    if let Some(error) = toml_error(contents) {
        return Err(error);
    }
    let version_path = vec!["version"];
    let theme_path = vec!["appearance", "theme"];
    let ui_font_path = vec!["typography", "ui_font"];
    let ui_size_path = vec!["typography", "ui_size"];
    let monospace_font_path = vec!["typography", "monospace_font"];
    let monospace_size_path = vec!["typography", "monospace_size"];
    let math_font_path = vec!["typography", "math_font"];
    let inline_path = vec!["typography", "inline_math_size"];
    let display_path = vec!["typography", "display_math_size"];
    assert(version_path.deep_view() =~= seq!["version"@]);
    assert(theme_path.deep_view() =~= seq!["appearance"@, "theme"@]);
    assert(ui_font_path.deep_view() =~= typography_path("ui_font"@));
    assert(ui_size_path.deep_view() =~= typography_path("ui_size"@));
    assert(monospace_font_path.deep_view() =~= typography_path("monospace_font"@));
    assert(monospace_size_path.deep_view() =~= typography_path("monospace_size"@));
    assert(math_font_path.deep_view() =~= typography_path("math_font"@));
    assert(inline_path.deep_view() =~= typography_path("inline_math_size"@));
    assert(display_path.deep_view() =~= typography_path("display_math_size"@));
    let version = read_version(integer_at(contents, &version_path));
    let appearance = read_appearance(string_at(contents, &theme_path));
    let ui_font = font_or(string_at(contents, &ui_font_path), DEFAULT_UI_FONT);
    let ui_size = read_size(integer_at(contents, &ui_size_path), DEFAULT_UI_SIZE);
    let monospace_font = font_or(string_at(contents, &monospace_font_path), DEFAULT_MONOSPACE_FONT);
    let monospace_size = read_size(integer_at(contents, &monospace_size_path), DEFAULT_MONOSPACE_SIZE);
    let math_font = font_or(string_at(contents, &math_font_path), DEFAULT_MATH_FONT);
    let inline_math_size = read_size(integer_at(contents, &inline_path), DEFAULT_INLINE_MATH_SIZE);
    let display_math_size = read_size(integer_at(contents, &display_path), DEFAULT_DISPLAY_MATH_SIZE);
    let generation = if version >= SETTINGS_VERSION {
        GenerationSettings {
            chat: read_generation_preference(contents, "chat"),
            work: read_generation_preference(contents, "work"),
        }
    } else {
        GenerationSettings { chat: None, work: None }
    };
    Ok(AppSettings {
        version: if version < 1 { 1 } else { version },
        appearance,
        typography: TypographySettings {
            ui_font,
            ui_size,
            monospace_font,
            monospace_size,
            math_font,
            inline_math_size,
            display_math_size,
        },
        generation,
    })
}

/// A font size read back is always one the settings window offers.
pub proof fn lemma_sizes_in_range(value: Option<i64>, default: u16)
    requires
        MIN_FONT_SIZE <= default <= MAX_FONT_SIZE,
    ensures
        MIN_FONT_SIZE <= size_spec(value, default) <= MAX_FONT_SIZE,
{
}


// ----- writing -----

/// The word the file uses for an appearance.
pub open spec fn appearance_text(mode: AppearanceMode) -> Seq<char> {
    match mode {
        AppearanceMode::System => "system"@,
        AppearanceMode::Light => "light"@,
        AppearanceMode::Dark => "dark"@,
    }
}

pub fn appearance_word(mode: AppearanceMode) -> (word: &'static str)
    ensures
        word@ == appearance_text(mode),
{
    match mode {
        AppearanceMode::System => "system",
        AppearanceMode::Light => "light",
        AppearanceMode::Dark => "dark",
    }
}

/// A value written into the settings document.
#[derive(Clone, Debug, PartialEq, Eq)]
pub enum SettingValue {
    Integer(i64),
    Text(String),
}

/// One value to write and the path of keys it goes to.
#[derive(Clone, Debug, PartialEq, Eq)]
pub struct SettingWrite {
    pub path: Vec<&'static str>,
    pub value: SettingValue,
}

/// The item a written value reads back as.
pub open spec fn written_item(value: SettingValue) -> TomlItemView {
    match value {
        SettingValue::Integer(i) => TomlItemView::Integer(i),
        SettingValue::Text(t) => TomlItemView::Text(t@),
    }
}

pub open spec fn writes_view(writes: Seq<SettingWrite>) -> Seq<(Seq<Seq<char>>, TomlItemView)> {
    writes.map_values(|w: SettingWrite| (w.path.deep_view(), written_item(w.value)))
}

/// What saving settings writes outside the model preferences: the current version, the
/// appearance word, and every font and size.
pub open spec fn settings_writes_spec(s: AppSettings) -> Seq<(Seq<Seq<char>>, TomlItemView)> {
    seq![
        (seq!["version"@], TomlItemView::Integer(SETTINGS_VERSION as i64)),
        (seq!["appearance"@, "theme"@], TomlItemView::Text(appearance_text(s.appearance))),
        (typography_path("ui_font"@), TomlItemView::Text(s.typography.ui_font@)),
        (typography_path("ui_size"@), TomlItemView::Integer(s.typography.ui_size as i64)),
        (typography_path("monospace_font"@), TomlItemView::Text(s.typography.monospace_font@)),
        (typography_path("monospace_size"@), TomlItemView::Integer(s.typography.monospace_size as i64)),
        (typography_path("math_font"@), TomlItemView::Text(s.typography.math_font@)),
        (typography_path("inline_math_size"@), TomlItemView::Integer(s.typography.inline_math_size as i64)),
        (typography_path("display_math_size"@), TomlItemView::Integer(s.typography.display_math_size as i64)),
    ]
}

fn write_at(path: Vec<&'static str>, value: SettingValue) -> (w: SettingWrite)
    ensures
        w.path == path,
        w.value == value,
{
    SettingWrite { path, value }
}

fn text_of(s: &str) -> (t: SettingValue)
    ensures
        written_item(t) == TomlItemView::Text(s@),
{
    let mut text = String::new();
    append_str(&mut text, s);
    SettingValue::Text(text)
}

/// The values that saving settings writes outside the model preferences, in order.
pub fn settings_writes(settings: &AppSettings) -> (writes: Vec<SettingWrite>)
    ensures
        writes_view(writes@) == settings_writes_spec(*settings),
{
    let t = &settings.typography;
    let ghost spec = settings_writes_spec(*settings);
    let mut writes: Vec<SettingWrite> = Vec::new();
    let path = vec!["version"];
    assert(path.deep_view() =~= spec[0].0);
    writes.push(write_at(path, SettingValue::Integer(SETTINGS_VERSION as i64)));
    let path = vec!["appearance", "theme"];
    assert(path.deep_view() =~= spec[1].0);
    writes.push(write_at(path, text_of(appearance_word(settings.appearance))));
    let path = vec!["typography", "ui_font"];
    assert(path.deep_view() =~= spec[2].0);
    writes.push(write_at(path, text_of(t.ui_font.as_str())));
    let path = vec!["typography", "ui_size"];
    assert(path.deep_view() =~= spec[3].0);
    writes.push(write_at(path, SettingValue::Integer(t.ui_size as i64)));
    let path = vec!["typography", "monospace_font"];
    assert(path.deep_view() =~= spec[4].0);
    writes.push(write_at(path, text_of(t.monospace_font.as_str())));
    let path = vec!["typography", "monospace_size"];
    assert(path.deep_view() =~= spec[5].0);
    writes.push(write_at(path, SettingValue::Integer(t.monospace_size as i64)));
    let path = vec!["typography", "math_font"];
    assert(path.deep_view() =~= spec[6].0);
    writes.push(write_at(path, text_of(t.math_font.as_str())));
    let path = vec!["typography", "inline_math_size"];
    assert(path.deep_view() =~= spec[7].0);
    writes.push(write_at(path, SettingValue::Integer(t.inline_math_size as i64)));
    let path = vec!["typography", "display_math_size"];
    assert(path.deep_view() =~= spec[8].0);
    writes.push(write_at(path, SettingValue::Integer(t.display_math_size as i64)));
    assert(writes_view(writes@) =~= spec);
    writes
}

/// What saving a mode's model preference writes: its provider, model and effort word
/// under `[generation.<mode>]`.
pub open spec fn preference_writes_spec(mode: Seq<char>, p: GenerationPreference) -> Seq<(Seq<Seq<char>>, TomlItemView)> {
    seq![
        (preference_path(mode, "provider"@), TomlItemView::Text(p.provider@)),
        (preference_path(mode, "model"@), TomlItemView::Text(p.model@)),
        (preference_path(mode, "effort"@), TomlItemView::Text(effort_wire(p.effort))),
    ]
}

/// The values that saving a mode's model preference writes, in order.
pub fn preference_writes(mode: &'static str, preference: &GenerationPreference) -> (writes: Vec<SettingWrite>)
    ensures
        writes_view(writes@) == preference_writes_spec(mode@, *preference),
{
    let ghost spec = preference_writes_spec(mode@, *preference);
    let mut writes: Vec<SettingWrite> = Vec::new();
    let path = vec!["generation", mode, "provider"];
    assert(path.deep_view() =~= spec[0].0);
    writes.push(write_at(path, text_of(preference.provider.as_str())));
    let path = vec!["generation", mode, "model"];
    assert(path.deep_view() =~= spec[1].0);
    writes.push(write_at(path, text_of(preference.model.as_str())));
    let path = vec!["generation", mode, "effort"];
    assert(path.deep_view() =~= spec[2].0);
    writes.push(write_at(path, text_of(wire_value(preference.effort))));
    assert(writes_view(writes@) =~= spec);
    writes
}

/// The comments kept from a table's decor: every fragment that holds a `#`, in order,
/// each starting on a new line.
pub open spec fn gathered_comments(fragments: Seq<Seq<char>>) -> Seq<char>
    decreases fragments.len(),
{
    if fragments.len() == 0 {
        Seq::empty()
    } else {
        let gathered = gathered_comments(fragments.drop_last());
        let fragment = fragments.last();
        if !fragment.contains('#') {
            gathered
        } else if gathered.len() > 0 && gathered.last() != '\n' {
            gathered.push('\n') + fragment
        } else {
            gathered + fragment
        }
    }
}

fn has_hash(s: &str) -> (found: bool)
    ensures
        found == s@.contains('#'),
{
    let chars = chars_of(s);
    let mut i: usize = 0;
    while i < chars.len()
        invariant
            i <= chars@.len(),
            chars@ == s@,
            forall|j: int| 0 <= j < i ==> chars@[j] != '#',
        decreases chars.len() - i,
    {
        if chars[i] == '#' {
            return true;
        }
        i += 1;
    }
    false
}

/// Gathers the comments of a table from the raw text of its decor fragments, in the
/// order the table, then each of its keys and values, carry them; `None` where no
/// fragment holds a comment.
pub fn gather_comments(fragments: &Vec<String>) -> (comments: Option<String>)
    ensures
        match comments {
            Some(c) => c@ == gathered_comments(fragments.deep_view()) && c@.len() > 0,
            None => gathered_comments(fragments.deep_view()).len() == 0,
        },
{
    let mut out = String::new();
    let mut ends_in_newline = false;
    let mut i: usize = 0;
    assert(fragments.deep_view().take(0) =~= Seq::<Seq<char>>::empty());
    while i < fragments.len()
        invariant
            i <= fragments@.len(),
            out@ == gathered_comments(fragments.deep_view().take(i as int)),
            out@.len() > 0 ==> ends_in_newline == (out@.last() == '\n'),
        decreases fragments.len() - i,
    {
        let ghost views = fragments.deep_view();
        proof {
            assert(views.take(i + 1).drop_last() =~= views.take(i as int));
            assert(views.take(i + 1).last() == fragments@[i as int]@);
        }
        let fragment = fragments[i].as_str();
        if has_hash(fragment) {
            if out.as_str().unicode_len() > 0 && !ends_in_newline {
                push_char(&mut out, '\n');
            }
            let chars = chars_of(fragment);
            append_str(&mut out, fragment);
            ends_in_newline = chars[chars.len() - 1] == '\n';
        }
        i += 1;
    }
    assert(fragments.deep_view().take(fragments@.len() as int) =~= fragments.deep_view());
    if out.as_str().unicode_len() == 0 {
        None
    } else {
        Some(out)
    }
}

/// Settings as the reader gives them back: every size one the settings window offers,
/// and every model preference with a trimmed, non-blank provider and model.
pub open spec fn readable_settings(s: AppSettings) -> bool {
    &&& MIN_FONT_SIZE <= s.typography.ui_size <= MAX_FONT_SIZE
    &&& MIN_FONT_SIZE <= s.typography.monospace_size <= MAX_FONT_SIZE
    &&& MIN_FONT_SIZE <= s.typography.inline_math_size <= MAX_FONT_SIZE
    &&& MIN_FONT_SIZE <= s.typography.display_math_size <= MAX_FONT_SIZE
    &&& readable_preference(s.generation.chat)
    &&& readable_preference(s.generation.work)
}

pub open spec fn readable_preference(p: Option<GenerationPreference>) -> bool {
    p matches Some(g) ==> trimmed(g.provider@) == g.provider@ && g.provider@.len() > 0 && trimmed(g.model@)
        == g.model@ && g.model@.len() > 0
}

/// A document holds the writes: each path reads back as the value written there.
pub open spec fn holds_writes(text: Seq<char>, writes: Seq<(Seq<Seq<char>>, TomlItemView)>) -> bool {
    forall|i: int| 0 <= i < writes.len() ==> toml_item_of(text, #[trigger] writes[i].0) == writes[i].1
}

/// A document holds a mode's saved preference: its table and the preference's values,
/// or, where there is none, no provider.
pub open spec fn holds_preference(text: Seq<char>, mode: Seq<char>, p: Option<GenerationPreference>) -> bool {
    match p {
        Some(g) => toml_table_like_of(text, seq!["generation"@, mode]) == Some(true) && holds_writes(
            text,
            preference_writes_spec(mode, g),
        ),
        None => toml_string_of(text, preference_path(mode, "provider"@)) is None,
    }
}

proof fn lemma_effort_word_read_back(e: EffortLevel)
    ensures
        effort_from_wire_spec(effort_wire(e)) == Some(e),
{
    reveal_strlit("none");
    reveal_strlit("minimal");
    reveal_strlit("low");
    reveal_strlit("medium");
    reveal_strlit("high");
    reveal_strlit("xhigh");
    reveal_strlit("max");
    match e {
        EffortLevel::NoReasoning => {},
        EffortLevel::Minimal => {
            assert("minimal"@.len() != "none"@.len());
        },
        EffortLevel::Low => {
            assert("low"@.len() != "none"@.len());
            assert("low"@.len() != "minimal"@.len());
        },
        EffortLevel::Medium => {
            assert("medium"@.len() != "none"@.len());
            assert("medium"@.len() != "minimal"@.len());
            assert("medium"@.len() != "low"@.len());
        },
        EffortLevel::High => {
            assert("high"@[0] != "none"@[0]);
            assert("high"@.len() != "minimal"@.len());
            assert("high"@.len() != "low"@.len());
            assert("high"@.len() != "medium"@.len());
        },
        EffortLevel::XHigh => {
            assert("xhigh"@.len() != "none"@.len());
            assert("xhigh"@.len() != "minimal"@.len());
            assert("xhigh"@.len() != "low"@.len());
            assert("xhigh"@.len() != "medium"@.len());
            assert("xhigh"@.len() != "high"@.len());
        },
        EffortLevel::Max => {
            assert("max"@.len() != "none"@.len());
            assert("max"@.len() != "minimal"@.len());
            assert("max"@[0] != "low"@[0]);
            assert("max"@.len() != "medium"@.len());
            assert("max"@.len() != "high"@.len());
            assert("max"@.len() != "xhigh"@.len());
        },
    }
}

proof fn lemma_preference_read_back(text: Seq<char>, mode: Seq<char>, p: Option<GenerationPreference>)
    requires
        readable_preference(p),
        holds_preference(text, mode, p),
    ensures
        document_preference(text, mode) == preference_view(p),
{
    if let Some(g) = p {
        let w = preference_writes_spec(mode, g);
        assert(toml_item_of(text, w[0].0) == w[0].1);
        assert(toml_item_of(text, w[1].0) == w[1].1);
        assert(toml_item_of(text, w[2].0) == w[2].1);
        lemma_effort_word_read_back(g.effort);
    }
}

/// Saved settings read back as themselves: where a document holds what saving the
/// settings writes, reading it gives the same settings, at the current version.
pub proof fn lemma_saved_settings_read_back(text: Seq<char>, saved: AppSettings, read: AppSettings)
    requires
        readable_settings(saved),
        holds_writes(text, settings_writes_spec(saved)),
        holds_preference(text, "chat"@, saved.generation.chat),
        holds_preference(text, "work"@, saved.generation.work),
        settings_spec(text, read),
    ensures
        read.version == SETTINGS_VERSION,
        read.appearance == saved.appearance,
        read.typography.ui_font@ == saved.typography.ui_font@,
        read.typography.ui_size == saved.typography.ui_size,
        read.typography.monospace_font@ == saved.typography.monospace_font@,
        read.typography.monospace_size == saved.typography.monospace_size,
        read.typography.math_font@ == saved.typography.math_font@,
        read.typography.inline_math_size == saved.typography.inline_math_size,
        read.typography.display_math_size == saved.typography.display_math_size,
        preference_view(read.generation.chat) == preference_view(saved.generation.chat),
        preference_view(read.generation.work) == preference_view(saved.generation.work),
{
    let w = settings_writes_spec(saved);
    assert(toml_item_of(text, w[0].0) == w[0].1);
    assert(toml_item_of(text, w[1].0) == w[1].1);
    assert(toml_item_of(text, w[2].0) == w[2].1);
    assert(toml_item_of(text, w[3].0) == w[3].1);
    assert(toml_item_of(text, w[4].0) == w[4].1);
    assert(toml_item_of(text, w[5].0) == w[5].1);
    assert(toml_item_of(text, w[6].0) == w[6].1);
    assert(toml_item_of(text, w[7].0) == w[7].1);
    assert(toml_item_of(text, w[8].0) == w[8].1);
    reveal_strlit("system");
    reveal_strlit("light");
    reveal_strlit("dark");
    assert(toml_string_of(text, seq!["appearance"@, "theme"@]) == Some(appearance_text(saved.appearance)));
    match saved.appearance {
        AppearanceMode::System => {},
        AppearanceMode::Light => {
            assert("light"@.len() != "system"@.len());
        },
        AppearanceMode::Dark => {
            assert("dark"@.len() != "system"@.len());
            assert("dark"@.len() != "light"@.len());
        },
    }
    lemma_preference_read_back(text, "chat"@, saved.generation.chat);
    lemma_preference_read_back(text, "work"@, saved.generation.work);
}

/// The keys the settings own: the version, the appearance theme, the seven typography
/// values, and the provider, model and effort of the chat and work preferences.
pub open spec fn settings_key(path: Seq<Seq<char>>) -> bool {
    ||| path == seq!["version"@]
    ||| path == seq!["appearance"@, "theme"@]
    ||| (path.len() == 2 && path[0] == "typography"@ && (path[1] == "ui_font"@ || path[1] == "ui_size"@
        || path[1] == "monospace_font"@ || path[1] == "monospace_size"@ || path[1] == "math_font"@
        || path[1] == "inline_math_size"@ || path[1] == "display_math_size"@))
    ||| (path.len() == 3 && path[0] == "generation"@ && (path[1] == "chat"@ || path[1] == "work"@) && (path[2]
        == "provider"@ || path[2] == "model"@ || path[2] == "effort"@))
}

/// Saving writes only the settings' own keys, so every other value of the file, and
/// its comments, are left to stand.
pub proof fn lemma_saving_writes_only_settings_keys(settings: AppSettings, mode: Seq<char>, preference: GenerationPreference)
    requires
        mode == "chat"@ || mode == "work"@,
    ensures
        forall|i: int| 0 <= i < settings_writes_spec(settings).len() ==> settings_key(
            #[trigger] settings_writes_spec(settings)[i].0,
        ),
        forall|i: int| 0 <= i < preference_writes_spec(mode, preference).len() ==> settings_key(
            #[trigger] preference_writes_spec(mode, preference)[i].0,
        ),
{
    let w = settings_writes_spec(settings);
    assert forall|i: int| 0 <= i < w.len() implies settings_key(#[trigger] w[i].0) by {
        if i >= 2 {
            assert(w[i].0.len() == 2 && w[i].0[0] == "typography"@);
        }
    }
    let g = preference_writes_spec(mode, preference);
    assert forall|i: int| 0 <= i < g.len() implies settings_key(#[trigger] g[i].0) by {
        assert(g[i].0.len() == 3 && g[i].0[0] == "generation"@ && g[i].0[1] == mode);
    }
}

// ----- editing the document -----

/// The raw prefix and suffix of an item's decor, each where it is set.
pub type DecorText = (Option<String>, Option<String>);

pub open spec fn decor_view(d: Option<DecorText>) -> Option<(Option<Seq<char>>, Option<Seq<char>>)> {
    match d {
        Some((prefix, suffix)) => Some((opt_view(prefix), opt_view(suffix))),
        None => None,
    }
}

/// The decor of the value or table at a path of keys in a TOML document (its raw
/// prefix and suffix), or `None` where the text does not parse or no value or table is
/// there.
pub uninterp spec fn toml_decor_of(text: Seq<char>, path: Seq<Seq<char>>) -> Option<(Option<Seq<char>>, Option<Seq<char>>)>;

/// The decor of the key `key` in the table at a path of keys, or `None` where the text
/// does not parse, no table that is not inline is there, or the table has no such key.
pub uninterp spec fn toml_key_decor_of(text: Seq<char>, path: Seq<Seq<char>>, key: Seq<char>) -> Option<
    (Option<Seq<char>>, Option<Seq<char>>),
>;

/// The text of a TOML document after a string value is set at a path of keys; `None`
/// where the text does not parse or the path's parent is not a table.
pub uninterp spec fn toml_with_text_of(text: Seq<char>, path: Seq<Seq<char>>, value: Seq<char>) -> Option<Seq<char>>;

/// The text of a TOML document after an empty table is set at a path of keys; `None`
/// where the text does not parse or the path's parent is not a table.
pub uninterp spec fn toml_with_table_of(text: Seq<char>, path: Seq<Seq<char>>) -> Option<Seq<char>>;

/// The text of a TOML document after the decor prefix of the value or table at a path
/// of keys is set; `None` where the text does not parse or no value or table is there.
pub uninterp spec fn toml_with_prefix_of(text: Seq<char>, path: Seq<Seq<char>>, prefix: Seq<char>) -> Option<Seq<char>>;

/// The text of a TOML document after the decor suffix of the value or table at a path
/// of keys is set; `None` where the text does not parse or no value or table is there.
pub uninterp spec fn toml_with_suffix_of(text: Seq<char>, path: Seq<Seq<char>>, suffix: Seq<char>) -> Option<Seq<char>>;

/// The text of a TOML document after the key `key` is removed from the table at a path
/// of keys; `None` where the text does not parse or no table is there.
pub uninterp spec fn toml_without_key_of(text: Seq<char>, path: Seq<Seq<char>>, key: Seq<char>) -> Option<Seq<char>>;

/// Whether the table at a path of keys has no entries; `None` where the text does not
/// parse or no table is there.
pub uninterp spec fn toml_table_empty_of(text: Seq<char>, path: Seq<Seq<char>>) -> Option<bool>;

/// The text of a TOML document after `document[key] = value`; `None` where the text
/// does not parse.
pub uninterp spec fn toml_set_root_of(text: Seq<char>, key: Seq<char>, value: TomlItemView) -> Option<Seq<char>>;

/// The text of a TOML document after `document[table][key] = value`; `None` where the
/// text does not parse.
pub uninterp spec fn toml_set_in_table_of(
    text: Seq<char>,
    table: Seq<char>,
    key: Seq<char>,
    value: TomlItemView,
) -> Option<Seq<char>>;

/// The decor of the item at `path` of the parsed document (`Item::get` key by key,
/// then `Value::decor` or `Table::decor`, with `Decor::prefix`, `Decor::suffix` and
/// `RawString::as_str`).
#[verifier::external_body]
fn toml_decor(text: &str, path: &Vec<String>) -> (decor: Option<DecorText>)
    ensures
        decor_view(decor) == toml_decor_of(text@, path.deep_view()),
{
    let document = text.parse::<toml_edit::DocumentMut>().ok()?;
    let decor = match path.iter().try_fold(document.as_item(), |item, key| item.get(key.as_str()))? {
        toml_edit::Item::Value(value) => value.decor(),
        toml_edit::Item::Table(table) => table.decor(),
        toml_edit::Item::None | toml_edit::Item::ArrayOfTables(_) => return None,
    };
    Some((
        decor.prefix().and_then(toml_edit::RawString::as_str).map(str::to_owned),
        decor.suffix().and_then(toml_edit::RawString::as_str).map(str::to_owned),
    ))
}

/// The leaf decor of a key of the table at `path` (`Item::get` key by key, then
/// `Item::as_table`, `Table::key` and `Key::leaf_decor`).
#[verifier::external_body]
fn toml_key_decor(text: &str, path: &Vec<String>, key: &str) -> (decor: Option<DecorText>)
    ensures
        decor_view(decor) == toml_key_decor_of(text@, path.deep_view(), key@),
{
    let document = text.parse::<toml_edit::DocumentMut>().ok()?;
    let item = path.iter().try_fold(document.as_item(), |item, name| item.get(name.as_str()))?;
    let decor = item.as_table()?.key(key)?.leaf_decor();
    Some((
        decor.prefix().and_then(toml_edit::RawString::as_str).map(str::to_owned),
        decor.suffix().and_then(toml_edit::RawString::as_str).map(str::to_owned),
    ))
}

/// The parsed document with `value(text)` set at `path` in its parent table
/// (`Item::get_mut` key by key, then `TableLike::entry` and `or_insert`), printed back
/// with `to_string`.
/// The contract names the printed text; what it holds at other paths is left unsaid.
#[verifier::external_body]
fn toml_with_text(text: &str, path: &Vec<String>, value: &str) -> (r: Option<String>)
    ensures
        opt_view(r) == toml_with_text_of(text@, path.deep_view(), value@),
{
    let mut document = text.parse::<toml_edit::DocumentMut>().ok()?;
    let (key, parents) = path.split_last()?;
    let parent = parents.iter().try_fold(document.as_item_mut(), |item, name| item.get_mut(name.as_str()))?;
    *parent.as_table_like_mut()?.entry(key).or_insert(toml_edit::Item::None) = toml_edit::value(value);
    Some(document.to_string())
}

/// The parsed document with `Item::Table(Table::new())` set at `path` in its parent
/// table (`Item::get_mut` key by key, then `TableLike::entry` and `or_insert`), printed
/// back with `to_string`.
/// The contract names the printed text; what it holds at other paths is left unsaid.
#[verifier::external_body]
fn toml_with_table(text: &str, path: &Vec<String>) -> (r: Option<String>)
    ensures
        opt_view(r) == toml_with_table_of(text@, path.deep_view()),
{
    let mut document = text.parse::<toml_edit::DocumentMut>().ok()?;
    let (key, parents) = path.split_last()?;
    let parent = parents.iter().try_fold(document.as_item_mut(), |item, name| item.get_mut(name.as_str()))?;
    *parent.as_table_like_mut()?.entry(key).or_insert(toml_edit::Item::None) = toml_edit::Item::Table(
        toml_edit::Table::new(),
    );
    Some(document.to_string())
}

/// The parsed document with `Decor::set_prefix` applied to the value or table at
/// `path` (`Item::get_mut` key by key), printed back with `to_string`.
/// The contract names the printed text; what it holds at other paths is left unsaid.
#[verifier::external_body]
fn toml_with_prefix(text: &str, path: &Vec<String>, prefix: &str) -> (r: Option<String>)
    ensures
        opt_view(r) == toml_with_prefix_of(text@, path.deep_view(), prefix@),
{
    let mut document = text.parse::<toml_edit::DocumentMut>().ok()?;
    match path.iter().try_fold(document.as_item_mut(), |item, name| item.get_mut(name.as_str()))? {
        toml_edit::Item::Value(value) => value.decor_mut().set_prefix(prefix),
        toml_edit::Item::Table(table) => table.decor_mut().set_prefix(prefix),
        toml_edit::Item::None | toml_edit::Item::ArrayOfTables(_) => return None,
    }
    Some(document.to_string())
}

/// The parsed document with `Decor::set_suffix` applied to the value or table at
/// `path` (`Item::get_mut` key by key), printed back with `to_string`.
/// The contract names the printed text; what it holds at other paths is left unsaid.
#[verifier::external_body]
fn toml_with_suffix(text: &str, path: &Vec<String>, suffix: &str) -> (r: Option<String>)
    ensures
        opt_view(r) == toml_with_suffix_of(text@, path.deep_view(), suffix@),
{
    let mut document = text.parse::<toml_edit::DocumentMut>().ok()?;
    match path.iter().try_fold(document.as_item_mut(), |item, name| item.get_mut(name.as_str()))? {
        toml_edit::Item::Value(value) => value.decor_mut().set_suffix(suffix),
        toml_edit::Item::Table(table) => table.decor_mut().set_suffix(suffix),
        toml_edit::Item::None | toml_edit::Item::ArrayOfTables(_) => return None,
    }
    Some(document.to_string())
}

/// The parsed document with `TableLike::remove` of `key` applied to the table at
/// `path` (`Item::get_mut` key by key, then `Item::as_table_like_mut`), printed back
/// with `to_string`.
/// The contract names the printed text; what it holds at other paths is left unsaid.
#[verifier::external_body]
fn toml_without_key(text: &str, path: &Vec<String>, key: &str) -> (r: Option<String>)
    ensures
        opt_view(r) == toml_without_key_of(text@, path.deep_view(), key@),
{
    let mut document = text.parse::<toml_edit::DocumentMut>().ok()?;
    let item = path.iter().try_fold(document.as_item_mut(), |item, name| item.get_mut(name.as_str()))?;
    item.as_table_like_mut()?.remove(key);
    Some(document.to_string())
}

/// `TableLike::is_empty` of the table at `path` (`Item::get` key by key, then
/// `Item::as_table_like`).
#[verifier::external_body]
fn toml_table_empty(text: &str, path: &Vec<String>) -> (empty: Option<bool>)
    ensures
        empty == toml_table_empty_of(text@, path.deep_view()),
{
    let document = text.parse::<toml_edit::DocumentMut>().ok()?;
    let item = path.iter().try_fold(document.as_item(), |item, name| item.get(name.as_str()))?;
    Some(item.as_table_like()?.is_empty())
}

/// The parsed document after `document[key] = value(..)`, printed back with
/// `to_string`.
/// The contract names the printed text; what it holds at other paths is left unsaid.
#[verifier::external_body]
fn toml_set_root(text: &str, key: &str, value: &SettingValue) -> (r: Option<String>)
    ensures
        opt_view(r) == toml_set_root_of(text@, key@, written_item(*value)),
{
    let mut document = text.parse::<toml_edit::DocumentMut>().ok()?;
    document[key] = match value {
        SettingValue::Integer(number) => toml_edit::value(*number),
        SettingValue::Text(text) => toml_edit::value(text.as_str()),
    };
    Some(document.to_string())
}

/// The parsed document after `document[table][key] = value(..)`, printed back with
/// `to_string`. Indexing panics where something other than a table stands at `table`,
/// which `requires` leaves out.
/// The contract names the printed text; what it holds at other paths is left unsaid.
#[verifier::external_body]
fn toml_set_in_table(text: &str, table: &str, key: &str, value: &SettingValue) -> (r: Option<String>)
    requires
        toml_table_like_of(text@, seq![table@]) != Some(false),
    ensures
        opt_view(r) == toml_set_in_table_of(text@, table@, key@, written_item(*value)),
{
    let mut document = text.parse::<toml_edit::DocumentMut>().ok()?;
    document[table][key] = match value {
        SettingValue::Integer(number) => toml_edit::value(*number),
        SettingValue::Text(text) => toml_edit::value(text.as_str()),
    };
    Some(document.to_string())
}

// ----- saving the settings -----

/// The text of a decor part that is set, as a sequence of at most one fragment.
pub open spec fn set_part(part: Option<Seq<char>>) -> Seq<Seq<char>> {
    match part {
        Some(p) => seq![p],
        None => Seq::empty(),
    }
}

/// The fragments of a decor: its prefix, then its suffix, each where it is set.
pub open spec fn decor_parts(d: Option<(Option<Seq<char>>, Option<Seq<char>>)>) -> Seq<Seq<char>> {
    match d {
        Some((prefix, suffix)) => set_part(prefix) + set_part(suffix),
        None => Seq::empty(),
    }
}

/// The document with the decor prefix of the item at `path` set, where a prefix is given.
pub open spec fn prefixed(text: Option<Seq<char>>, path: Seq<Seq<char>>, prefix: Option<Seq<char>>) -> Option<Seq<char>> {
    match (text, prefix) {
        (Some(t), Some(p)) => toml_with_prefix_of(t, path, p),
        _ => text,
    }
}

/// The document with the decor suffix of the item at `path` set, where a suffix is given.
pub open spec fn suffixed(text: Option<Seq<char>>, path: Seq<Seq<char>>, suffix: Option<Seq<char>>) -> Option<Seq<char>> {
    match (text, suffix) {
        (Some(t), Some(s)) => toml_with_suffix_of(t, path, s),
        _ => text,
    }
}

/// A table at `path` that is kept where it is one, and made an empty table where there
/// is none or something else is there.
pub open spec fn ensured_table(text: Option<Seq<char>>, path: Seq<Seq<char>>) -> Option<Seq<char>> {
    match text {
        None => None,
        Some(t) => if toml_table_like_of(t, path) == Some(true) {
            Some(t)
        } else {
            toml_with_table_of(t, path)
        },
    }
}

/// A string written at `path` that takes over the decor (comments and spacing) of the
/// value or table it replaces.
pub open spec fn kept_decor_write(text: Option<Seq<char>>, path: Seq<Seq<char>>, value: Seq<char>) -> Option<Seq<char>> {
    match text {
        None => None,
        Some(t) => {
            let written = toml_with_text_of(t, path, value);
            match toml_decor_of(t, path) {
                None => written,
                Some((prefix, suffix)) => suffixed(prefixed(written, path, prefix), path, suffix),
            }
        },
    }
}

/// The document after a mode's model preference is saved into it: `[generation]` and
/// `[generation.<mode>]` made tables where they are not, then the provider, model and
/// effort written, each keeping the comments of what it replaces.
pub open spec fn preference_saved(text: Seq<char>, mode: Seq<char>, p: GenerationPreference) -> Option<Seq<char>> {
    let tables = ensured_table(ensured_table(Some(text), seq!["generation"@]), seq!["generation"@, mode]);
    let provider = kept_decor_write(tables, preference_path(mode, "provider"@), p.provider@);
    let model = kept_decor_write(provider, preference_path(mode, "model"@), p.model@);
    kept_decor_write(model, preference_path(mode, "effort"@), effort_wire(p.effort))
}

fn ensure_table(text: Option<String>, path: &Vec<String>) -> (r: Option<String>)
    ensures
        opt_view(r) == ensured_table(opt_view(text), path.deep_view()),
{
    match text {
        None => None,
        Some(t) => {
            if toml_table_like(t.as_str(), path) == Some(true) {
                Some(t)
            } else {
                toml_with_table(t.as_str(), path)
            }
        },
    }
}

fn with_prefix(text: Option<String>, path: &Vec<String>, prefix: Option<String>) -> (r: Option<String>)
    ensures
        opt_view(r) == prefixed(opt_view(text), path.deep_view(), opt_view(prefix)),
{
    match text {
        None => None,
        Some(t) => match prefix {
            Some(p) => toml_with_prefix(t.as_str(), path, p.as_str()),
            None => Some(t),
        },
    }
}

fn with_suffix(text: Option<String>, path: &Vec<String>, suffix: Option<String>) -> (r: Option<String>)
    ensures
        opt_view(r) == suffixed(opt_view(text), path.deep_view(), opt_view(suffix)),
{
    match text {
        None => None,
        Some(t) => match suffix {
            Some(s) => toml_with_suffix(t.as_str(), path, s.as_str()),
            None => Some(t),
        },
    }
}

fn write_keeping_decor(text: Option<String>, path: &Vec<&str>, value: &str) -> (r: Option<String>)
    ensures
        opt_view(r) == kept_decor_write(opt_view(text), path.deep_view(), value@),
{
    match text {
        None => None,
        Some(t) => {
            let keys = key_path(path);
            let written = toml_with_text(t.as_str(), &keys, value);
            match toml_decor(t.as_str(), &keys) {
                None => written,
                Some((prefix, suffix)) => with_suffix(with_prefix(written, &keys, prefix), &keys, suffix),
            }
        },
    }
}

/// Saves a mode's model preference into the text of a settings document, keeping the
/// comments of the values it replaces; `None` where the text is not a TOML document.
pub fn save_preference(text: &str, mode: &'static str, preference: &GenerationPreference) -> (r: Option<String>)
    ensures
        opt_view(r) == preference_saved(text@, mode@, *preference),
{
    let mut owned = String::new();
    append_str(&mut owned, text);
    let generation = vec!["generation"];
    let mode_path = vec!["generation", mode];
    assert(generation.deep_view() =~= seq!["generation"@]);
    assert(mode_path.deep_view() =~= seq!["generation"@, mode@]);
    let tables = ensure_table(ensure_table(Some(owned), &key_path(&generation)), &key_path(&mode_path));
    let provider = vec!["generation", mode, "provider"];
    let model = vec!["generation", mode, "model"];
    let effort = vec!["generation", mode, "effort"];
    assert(provider.deep_view() =~= preference_path(mode@, "provider"@));
    assert(model.deep_view() =~= preference_path(mode@, "model"@));
    assert(effort.deep_view() =~= preference_path(mode@, "effort"@));
    let first = write_keeping_decor(tables, &provider, preference.provider.as_str());
    let second = write_keeping_decor(first, &model, preference.model.as_str());
    write_keeping_decor(second, &effort, wire_value(preference.effort))
}

/// The document with `key` removed from the table at `path`.
pub open spec fn key_removed(text: Option<Seq<char>>, path: Seq<Seq<char>>, key: Seq<char>) -> Option<Seq<char>> {
    match text {
        Some(t) => toml_without_key_of(t, path, key),
        None => None,
    }
}

/// Whether the table at `path` has no entries, where there is one.
pub open spec fn table_emptied(text: Option<Seq<char>>, path: Seq<Seq<char>>) -> Option<bool> {
    match text {
        Some(t) => toml_table_empty_of(t, path),
        None => None,
    }
}

/// The decor fragments of a key of a table: those of the key itself, then those of its
/// value or table.
pub open spec fn key_fragments(text: Seq<char>, path: Seq<Seq<char>>, key: Seq<char>) -> Seq<Seq<char>> {
    decor_parts(toml_key_decor_of(text, path, key)) + decor_parts(toml_decor_of(text, path.push(key)))
}

/// The decor fragments of a mode's table that may hold comments about its preference:
/// the table's own, then those of its provider, model and effort keys.
pub open spec fn preference_fragments(text: Seq<char>, path: Seq<Seq<char>>) -> Seq<Seq<char>> {
    decor_parts(toml_decor_of(text, path)) + key_fragments(text, path, "provider"@) + key_fragments(
        text,
        path,
        "model"@,
    ) + key_fragments(text, path, "effort"@)
}

/// Whether the item at `path` is a table, not inline, whose decor holds a comment.
pub open spec fn table_has_comments(text: Seq<char>, path: Seq<Seq<char>>) -> bool {
    toml_item_of(text, path) == TomlItemView::Table && gathered_comments(decor_parts(toml_decor_of(text, path))).len()
        > 0
}

/// The document after a mode's model preference is removed from it. Nothing changes
/// unless `[generation]` and `[generation.<mode>]` are tables. Then the provider, model
/// and effort go; the comments the mode's table and those keys carried become the
/// table's prefix; the mode's table goes where it is left empty and held no comments;
/// and `[generation]` goes where it is left empty and holds no comments of its own.
/// `None` where the text is not a TOML document.
pub open spec fn preference_removed(text: Seq<char>, mode: Seq<char>) -> Option<Seq<char>> {
    let g = seq!["generation"@];
    let m = seq!["generation"@, mode];
    if toml_error_of(text) is Some {
        None
    } else if toml_table_like_of(text, g) != Some(true) || toml_table_like_of(text, m) != Some(true) {
        Some(text)
    } else {
        let kept = if toml_item_of(text, m) == TomlItemView::Table {
            gathered_comments(preference_fragments(text, m))
        } else {
            Seq::empty()
        };
        let cleared = key_removed(
            key_removed(key_removed(Some(text), m, "provider"@), m, "model"@),
            m,
            "effort"@,
        );
        let noted = if kept.len() > 0 {
            prefixed(cleared, m, Some(kept))
        } else {
            cleared
        };
        let remove_mode = table_emptied(cleared, m) == Some(true) && kept.len() == 0;
        let generation_comments = match noted {
            Some(t) => table_has_comments(t, g),
            None => false,
        };
        let pruned = if remove_mode {
            key_removed(noted, g, mode)
        } else {
            noted
        };
        if table_emptied(pruned, g) == Some(true) && !generation_comments {
            key_removed(pruned, Seq::empty(), "generation"@)
        } else {
            pruned
        }
    }
}

fn remove_key(text: Option<String>, path: &Vec<String>, key: &str) -> (r: Option<String>)
    ensures
        opt_view(r) == key_removed(opt_view(text), path.deep_view(), key@),
{
    match text {
        Some(t) => toml_without_key(t.as_str(), path, key),
        None => None,
    }
}

fn table_empty(text: &Option<String>, path: &Vec<String>) -> (r: Option<bool>)
    ensures
        r == table_emptied(opt_view(*text), path.deep_view()),
{
    match text {
        Some(t) => toml_table_empty(t.as_str(), path),
        None => None,
    }
}

fn push_part(fragments: &mut Vec<String>, part: Option<String>)
    ensures
        final(fragments).deep_view() == old(fragments).deep_view() + set_part(opt_view(part)),
{
    let ghost before = fragments.deep_view();
    let ghost prev = fragments@;
    match part {
        Some(p) => {
            fragments.push(p);
            proof {
                let n = prev.len() as int;
                assert(fragments.deep_view()[n] == fragments@[n].deep_view());
                assert forall|k: int| 0 <= k < n implies fragments.deep_view()[k] == before[k] by {
                    assert(fragments@[k] == prev[k]);
                }
                assert(fragments.deep_view() =~= before + set_part(opt_view(part)));
            }
        },
        None => {
            assert(before + set_part(opt_view(part)) =~= before);
        },
    }
}

fn push_decor(fragments: &mut Vec<String>, decor: Option<DecorText>)
    ensures
        final(fragments).deep_view() == old(fragments).deep_view() + decor_parts(decor_view(decor)),
{
    let ghost before = fragments.deep_view();
    match decor {
        Some((prefix, suffix)) => {
            let ghost p = opt_view(prefix);
            let ghost s = opt_view(suffix);
            push_part(fragments, prefix);
            push_part(fragments, suffix);
            assert(fragments.deep_view() =~= before + (set_part(p) + set_part(s)));
        },
        None => {
            assert(before + decor_parts(decor_view(decor)) =~= before);
        },
    }
}

fn push_key_fragments(fragments: &mut Vec<String>, text: &str, path: &Vec<String>, key: &str, item_path: &Vec<String>)
    requires
        item_path.deep_view() == path.deep_view().push(key@),
    ensures
        final(fragments).deep_view() == old(fragments).deep_view() + key_fragments(text@, path.deep_view(), key@),
{
    let ghost before = fragments.deep_view();
    let ghost first = decor_parts(toml_key_decor_of(text@, path.deep_view(), key@));
    let ghost second = decor_parts(toml_decor_of(text@, path.deep_view().push(key@)));
    push_decor(fragments, toml_key_decor(text, path, key));
    push_decor(fragments, toml_decor(text, item_path));
    assert(fragments.deep_view() =~= before + (first + second));
}

fn plain_table_comments(text: &str, path: &Vec<String>) -> (found: bool)
    ensures
        found == table_has_comments(text@, path.deep_view()),
{
    match toml_item(text, path) {
        TomlItem::Table => {
            let mut fragments: Vec<String> = Vec::new();
            assert(fragments.deep_view() =~= Seq::<Seq<char>>::empty());
            push_decor(&mut fragments, toml_decor(text, path));
            assert(fragments.deep_view() =~= decor_parts(toml_decor_of(text@, path.deep_view())));
            gather_comments(&fragments).is_some()
        },
        _ => false,
    }
}

/// Removes a mode's model preference from the text of a settings document, keeping
/// the comments that stood with it and pruning the tables it leaves empty; `None`
/// where the text is not a TOML document.
pub fn remove_preference(text: &str, mode: &'static str) -> (r: Option<String>)
    ensures
        opt_view(r) == preference_removed(text@, mode@),
{
    if toml_error(text).is_some() {
        return None;
    }
    let mut owned = String::new();
    append_str(&mut owned, text);
    let generation = vec!["generation"];
    let mode_keys = vec!["generation", mode];
    let provider = vec!["generation", mode, "provider"];
    let model = vec!["generation", mode, "model"];
    let effort = vec!["generation", mode, "effort"];
    assert(generation.deep_view() =~= seq!["generation"@]);
    assert(mode_keys.deep_view() =~= seq!["generation"@, mode@]);
    assert(provider.deep_view() =~= seq!["generation"@, mode@].push("provider"@));
    assert(model.deep_view() =~= seq!["generation"@, mode@].push("model"@));
    assert(effort.deep_view() =~= seq!["generation"@, mode@].push("effort"@));
    let g = key_path(&generation);
    let m = key_path(&mode_keys);
    if toml_table_like(text, &g) != Some(true) || toml_table_like(text, &m) != Some(true) {
        return Some(owned);
    }
    let kept = match toml_item(text, &m) {
        TomlItem::Table => {
            let mut fragments: Vec<String> = Vec::new();
            assert(fragments.deep_view() =~= Seq::<Seq<char>>::empty());
            push_decor(&mut fragments, toml_decor(text, &m));
            push_key_fragments(&mut fragments, text, &m, "provider", &key_path(&provider));
            push_key_fragments(&mut fragments, text, &m, "model", &key_path(&model));
            push_key_fragments(&mut fragments, text, &m, "effort", &key_path(&effort));
            assert(fragments.deep_view() =~= preference_fragments(text@, m.deep_view()));
            gather_comments(&fragments)
        },
        _ => None,
    };
    let cleared = remove_key(remove_key(remove_key(Some(owned), &m, "provider"), &m, "model"), &m, "effort");
    let mode_empty = table_empty(&cleared, &m);
    let remove_mode = mode_empty == Some(true) && kept.is_none();
    let noted = match kept {
        Some(comments) => with_prefix(cleared, &m, Some(comments)),
        None => cleared,
    };
    let generation_comments = match &noted {
        Some(t) => plain_table_comments(t.as_str(), &g),
        None => false,
    };
    let pruned = if remove_mode {
        remove_key(noted, &g, mode)
    } else {
        noted
    };
    if table_empty(&pruned, &g) == Some(true) && !generation_comments {
        let root: Vec<String> = Vec::new();
        assert(root.deep_view() =~= Seq::<Seq<char>>::empty());
        remove_key(pruned, &root, "generation")
    } else {
        pruned
    }
}

/// One write of the settings applied to the document: `document[key] = value` for a
/// single key, `document[table][key] = value` for two. `None` where the text does not
/// parse, or where something other than a table stands at `table`.
pub open spec fn setting_applied(text: Option<Seq<char>>, write: (Seq<Seq<char>>, TomlItemView)) -> Option<Seq<char>> {
    match text {
        None => None,
        Some(t) => if write.0.len() == 1 {
            toml_set_root_of(t, write.0[0], write.1)
        } else if write.0.len() == 2 && toml_table_like_of(t, seq![write.0[0]]) != Some(false) {
            toml_set_in_table_of(t, write.0[0], write.0[1], write.1)
        } else {
            None
        },
    }
}

/// The writes applied to the document one after another, in order.
pub open spec fn settings_applied(text: Option<Seq<char>>, writes: Seq<(Seq<Seq<char>>, TomlItemView)>) -> Option<
    Seq<char>,
>
    decreases writes.len(),
{
    if writes.len() == 0 {
        text
    } else {
        setting_applied(settings_applied(text, writes.drop_last()), writes.last())
    }
}

/// The document after the settings outside the model preferences are written into it.
pub open spec fn settings_written_spec(text: Seq<char>, s: AppSettings) -> Option<Seq<char>> {
    settings_applied(Some(text), settings_writes_spec(s))
}

fn apply_write(text: Option<String>, write: &SettingWrite) -> (r: Option<String>)
    ensures
        opt_view(r) == setting_applied(opt_view(text), (write.path.deep_view(), written_item(write.value))),
{
    match text {
        None => None,
        Some(t) => {
            let ghost path = write.path.deep_view();
            if write.path.len() == 1 {
                assert(path[0] == write.path@[0]@);
                toml_set_root(t.as_str(), write.path[0], &write.value)
            } else if write.path.len() == 2 {
                assert(path[0] == write.path@[0]@);
                assert(path[1] == write.path@[1]@);
                let table = vec![write.path[0]];
                assert(table.deep_view() =~= seq![path[0]]);
                if toml_table_like(t.as_str(), &key_path(&table)) == Some(false) {
                    None
                } else {
                    toml_set_in_table(t.as_str(), write.path[0], write.path[1], &write.value)
                }
            } else {
                None
            }
        },
    }
}

/// Writes the settings outside the model preferences into the text of a settings
/// document, leaving every other key and comment where it is; `None` where the text is
/// not a TOML document or something other than a table stands at `[appearance]` or
/// `[typography]`.
pub fn settings_written(text: &str, settings: &AppSettings) -> (r: Option<String>)
    ensures
        opt_view(r) == settings_written_spec(text@, *settings),
{
    let writes = settings_writes(settings);
    let ghost all = writes_view(writes@);
    let mut owned = String::new();
    append_str(&mut owned, text);
    let mut current: Option<String> = Some(owned);
    let mut i: usize = 0;
    assert(all.take(0) =~= Seq::<(Seq<Seq<char>>, TomlItemView)>::empty());
    while i < writes.len()
        invariant
            i <= writes@.len(),
            all == writes_view(writes@),
            all == settings_writes_spec(*settings),
            opt_view(current) == settings_applied(Some(text@), all.take(i as int)),
        decreases writes.len() - i,
    {
        proof {
            assert(all.take(i + 1).drop_last() =~= all.take(i as int));
            assert(all.take(i + 1).last() == all[i as int]);
        }
        current = apply_write(current, &writes[i]);
        i += 1;
    }
    assert(all.take(writes@.len() as int) =~= all);
    current
}

/// What saving a mode's model preference does to the document: writing it where there
/// is one, removing it where there is none.
pub open spec fn preference_stored(text: Option<Seq<char>>, mode: Seq<char>, p: Option<GenerationPreference>) -> Option<
    Seq<char>,
> {
    match text {
        None => None,
        Some(t) => match p {
            Some(g) => preference_saved(t, mode, g),
            None => preference_removed(t, mode),
        },
    }
}

/// The message given where the document parses but cannot take the settings.
pub open spec fn uneditable_message() -> Seq<char> {
    "the settings document could not be edited"@
}

/// The text of the settings file after the settings are saved into it: the values
/// outside the model preferences, then the chat preference, then the work preference.
/// The parser's message where the text is not a TOML document.
pub open spec fn saved_settings_spec(text: Seq<char>, s: AppSettings) -> Result<Seq<char>, Seq<char>> {
    match toml_error_of(text) {
        Some(error) => Err(error),
        None => match preference_stored(
            preference_stored(settings_written_spec(text, s), "chat"@, s.generation.chat),
            "work"@,
            s.generation.work,
        ) {
            Some(t) => Ok(t),
            None => Err(uneditable_message()),
        },
    }
}

fn store_preference(text: Option<String>, mode: &'static str, preference: &Option<GenerationPreference>) -> (r: Option<
    String,
>)
    ensures
        opt_view(r) == preference_stored(opt_view(text), mode@, *preference),
{
    match text {
        None => None,
        Some(t) => match preference {
            Some(p) => save_preference(t.as_str(), mode, p),
            None => remove_preference(t.as_str(), mode),
        },
    }
}

/// Saves the settings into the text of the settings file (empty where there is no
/// file yet), keeping the comments and every key the settings do not own.
pub fn saved_settings_text(text: &str, settings: &AppSettings) -> (r: Result<String, String>)
    ensures
        match r {
            Ok(t) => saved_settings_spec(text@, *settings) == Ok::<Seq<char>, Seq<char>>(t@),
            Err(e) => saved_settings_spec(text@, *settings) == Err::<Seq<char>, Seq<char>>(e@),
        },
{
    if let Some(error) = toml_error(text) {
        return Err(error);
    }
    let written = settings_written(text, settings);
    let chat = store_preference(written, "chat", &settings.generation.chat);
    match store_preference(chat, "work", &settings.generation.work) {
        Some(t) => Ok(t),
        None => {
            let mut message = String::new();
            append_str(&mut message, "the settings document could not be edited");
            Err(message)
        },
    }
}

} // verus!
