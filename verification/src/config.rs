//! Settings as modules see them: their kinds, their values, and which values
//! they take.

use crate::json::{
    json_is_boolean, json_is_i64, json_is_number, json_is_string, json_is_u64,
};
use crate::renderer::{BellStyle, Renderer};
use crate::tab::TabId;
use crate::text::same_text;
use crate::tree::Scalar;
use vstd::prelude::*;

verus! {

/// What values a setting takes.
#[derive(Copy, Clone, PartialEq, Eq, Structural, Debug)]
pub enum ConfigKind {
    Float,
    Int,
    Text,
    Bool,
    Enum,
}

impl ConfigKind {
    /// The name of a kind.
    pub open spec fn label(self) -> Seq<char> {
        match self {
            ConfigKind::Float => "float"@,
            ConfigKind::Int => "int"@,
            ConfigKind::Text => "string"@,
            ConfigKind::Bool => "bool"@,
            ConfigKind::Enum => "enum"@,
        }
    }

    /// The name of a kind.
    pub fn name(&self) -> (s: &'static str)
        ensures
            s@ == self.label(),
    {
        match self {
            ConfigKind::Float => "float",
            ConfigKind::Int => "int",
            ConfigKind::Text => "string",
            ConfigKind::Bool => "bool",
            ConfigKind::Enum => "enum",
        }
    }
}

/// The name of a bell style.
pub open spec fn bell_label(b: BellStyle) -> Seq<char> {
    match b {
        BellStyle::Visual => "visual"@,
        BellStyle::Silent => "none"@,
    }
}

/// The name of a bell style.
pub fn bell_name(b: BellStyle) -> (s: &'static str)
    ensures
        s@ == bell_label(b),
{
    match b {
        BellStyle::Visual => "visual",
        BellStyle::Silent => "none",
    }
}

/// A hexadecimal digit, in lower case.
pub open spec fn hex_digit(d: int) -> char {
    if d < 10 {
        (48 + d) as char
    } else {
        (87 + d) as char
    }
}

/// A byte as two hexadecimal digits.
pub open spec fn hex_byte(b: u8) -> Seq<char> {
    seq![hex_digit(b as int / 16), hex_digit(b as int % 16)]
}

/// A colour as `#rrggbb`.
pub open spec fn hex_rgb(c: (u8, u8, u8)) -> Seq<char> {
    seq!['#'] + hex_byte(c.0) + hex_byte(c.1) + hex_byte(c.2)
}

fn push_hex_digit(s: &mut String, d: u8)
    requires
        d < 16,
    ensures
        final(s)@ == old(s)@.push(hex_digit(d as int)),
{
    if d < 10 {
        s.push((48 + d) as char);
    } else {
        s.push((87 + d) as char);
    }
}

fn push_hex(s: &mut String, b: u8)
    ensures
        final(s)@ == old(s)@ + hex_byte(b),
{
    push_hex_digit(s, b / 16);
    push_hex_digit(s, b % 16);
    assert(s@ =~= old(s)@ + hex_byte(b));
}

/// A colour as `#rrggbb`.
pub fn hex3(c: (u8, u8, u8)) -> (s: String)
    ensures
        s@ == hex_rgb(c),
{
    let mut s = String::new();
    s.push('#');
    push_hex(&mut s, c.0);
    push_hex(&mut s, c.1);
    push_hex(&mut s, c.2);
    assert(s@ =~= hex_rgb(c));
    s
}

/// A colour with its opacity, as `#rrggbbaa`.
pub open spec fn hex_rgba(c: (u8, u8, u8, u8)) -> Seq<char> {
    hex_rgb((c.0, c.1, c.2)) + hex_byte(c.3)
}

/// A colour with its opacity, as `#rrggbbaa`.
pub fn hex4(c: (u8, u8, u8, u8)) -> (s: String)
    ensures
        s@ == hex_rgba(c),
{
    let mut s = hex3((c.0, c.1, c.2));
    push_hex(&mut s, c.3);
    s
}

/// The value of a hexadecimal digit.
pub open spec fn hex_value(c: char) -> int {
    if '0' <= c <= '9' {
        c as int - 48
    } else {
        c as int - 87
    }
}

/// The byte can be read back from its digits.
pub proof fn law_hex_reads_back(b: u8)
    ensures
        hex_value(hex_byte(b)[0]) * 16 + hex_value(hex_byte(b)[1]) == b,
{
}

/// The settings, as the window has them now.
pub struct LiveConfig {
    pub font_family: String,
    pub font_size: Scalar,
    pub background: (u8, u8, u8),
    pub show_block_labels: bool,
    pub focus_tint: (u8, u8, u8, u8),
    pub foreground: (u8, u8, u8),
    pub cursor_color: (u8, u8, u8, u8),
    pub selection_color: (u8, u8, u8, u8),
    pub comms_delivery: bool,
    pub padding_left: Scalar,
    pub padding_right: Scalar,
    pub padding_top: Scalar,
    pub padding_bottom: Scalar,
    pub gutter_left: Scalar,
    pub gutter_gap: Scalar,
    pub highlight_pad_x: Scalar,
    pub highlight_pad_y: Scalar,
    pub highlight_offset_y: Scalar,
    pub line_height: Scalar,
    pub tab_min_width: Scalar,
    pub tab_max_width: Scalar,
    pub tab_font_size: Scalar,
    pub tab_bar_height: Scalar,
    pub cursor_blink: bool,
    pub bell_style: BellStyle,
    pub scrollback: u64,
}

/// The value of a setting, as it is told to a module.
pub enum CurrentValue {
    Text(String),
    Number(Scalar),
    Whole(u64),
    Flag(bool),
}

/// The value of a setting, with a text as characters.
pub enum Shown {
    Text(Seq<char>),
    Number(Scalar),
    Whole(u64),
    Flag(bool),
}

impl View for CurrentValue {
    type V = Shown;

    open spec fn view(&self) -> Shown {
        match self {
            CurrentValue::Text(s) => Shown::Text(s@),
            CurrentValue::Number(x) => Shown::Number(*x),
            CurrentValue::Whole(n) => Shown::Whole(*n),
            CurrentValue::Flag(b) => Shown::Flag(*b),
        }
    }
}

impl LiveConfig {
    /// The value of the setting of that name, where there is one.
    pub open spec fn value(self, name: Seq<char>) -> Option<Shown> {
        if name == "font_family"@ {
            Some(Shown::Text(self.font_family@))
        } else if name == "font_size"@ {
            Some(Shown::Number(self.font_size))
        } else if name == "background"@ {
            Some(Shown::Text(hex_rgb(self.background)))
        } else if name == "show_block_labels"@ {
            Some(Shown::Flag(self.show_block_labels))
        } else if name == "focus_tint"@ {
            Some(Shown::Text(hex_rgba(self.focus_tint)))
        } else if name == "foreground"@ {
            Some(Shown::Text(hex_rgb(self.foreground)))
        } else if name == "cursor_color"@ {
            Some(Shown::Text(hex_rgba(self.cursor_color)))
        } else if name == "selection_color"@ {
            Some(Shown::Text(hex_rgba(self.selection_color)))
        } else if name == "comms_delivery"@ {
            Some(Shown::Flag(self.comms_delivery))
        } else if name == "padding_left"@ {
            Some(Shown::Number(self.padding_left))
        } else if name == "padding_right"@ {
            Some(Shown::Number(self.padding_right))
        } else if name == "padding_top"@ {
            Some(Shown::Number(self.padding_top))
        } else if name == "padding_bottom"@ {
            Some(Shown::Number(self.padding_bottom))
        } else if name == "gutter_left"@ {
            Some(Shown::Number(self.gutter_left))
        } else if name == "gutter_gap"@ {
            Some(Shown::Number(self.gutter_gap))
        } else if name == "highlight_pad_x"@ {
            Some(Shown::Number(self.highlight_pad_x))
        } else if name == "highlight_pad_y"@ {
            Some(Shown::Number(self.highlight_pad_y))
        } else if name == "highlight_offset_y"@ {
            Some(Shown::Number(self.highlight_offset_y))
        } else if name == "line_height"@ {
            Some(Shown::Number(self.line_height))
        } else if name == "tab_min_width"@ {
            Some(Shown::Number(self.tab_min_width))
        } else if name == "tab_max_width"@ {
            Some(Shown::Number(self.tab_max_width))
        } else if name == "tab_font_size"@ {
            Some(Shown::Number(self.tab_font_size))
        } else if name == "tab_bar_height"@ {
            Some(Shown::Number(self.tab_bar_height))
        } else if name == "cursor_blink"@ {
            Some(Shown::Flag(self.cursor_blink))
        } else if name == "bell_style"@ {
            Some(Shown::Text(bell_label(self.bell_style)))
        } else if name == "scrollback"@ {
            Some(Shown::Whole(self.scrollback))
        } else {
            None
        }
    }

    /// The value of the setting of that name, where there is one.
    pub fn config_current_value(&self, name: &str) -> (r: Option<CurrentValue>)
        ensures
            match r {
                Some(v) => self.value(name@) == Some(v@),
                None => self.value(name@) is None,
            },
    {
        if same_text(name, "font_family") {
            Some(CurrentValue::Text(self.font_family.clone()))
        } else if same_text(name, "font_size") {
            Some(CurrentValue::Number(self.font_size))
        } else if same_text(name, "background") {
            Some(CurrentValue::Text(hex3(self.background)))
        } else if same_text(name, "show_block_labels") {
            Some(CurrentValue::Flag(self.show_block_labels))
        } else if same_text(name, "focus_tint") {
            Some(CurrentValue::Text(hex4(self.focus_tint)))
        } else if same_text(name, "foreground") {
            Some(CurrentValue::Text(hex3(self.foreground)))
        } else if same_text(name, "cursor_color") {
            Some(CurrentValue::Text(hex4(self.cursor_color)))
        } else if same_text(name, "selection_color") {
            Some(CurrentValue::Text(hex4(self.selection_color)))
        } else if same_text(name, "comms_delivery") {
            Some(CurrentValue::Flag(self.comms_delivery))
        } else if same_text(name, "padding_left") {
            Some(CurrentValue::Number(self.padding_left))
        } else if same_text(name, "padding_right") {
            Some(CurrentValue::Number(self.padding_right))
        } else if same_text(name, "padding_top") {
            Some(CurrentValue::Number(self.padding_top))
        } else if same_text(name, "padding_bottom") {
            Some(CurrentValue::Number(self.padding_bottom))
        } else if same_text(name, "gutter_left") {
            Some(CurrentValue::Number(self.gutter_left))
        } else if same_text(name, "gutter_gap") {
            Some(CurrentValue::Number(self.gutter_gap))
        } else if same_text(name, "highlight_pad_x") {
            Some(CurrentValue::Number(self.highlight_pad_x))
        } else if same_text(name, "highlight_pad_y") {
            Some(CurrentValue::Number(self.highlight_pad_y))
        } else if same_text(name, "highlight_offset_y") {
            Some(CurrentValue::Number(self.highlight_offset_y))
        } else if same_text(name, "line_height") {
            Some(CurrentValue::Number(self.line_height))
        } else if same_text(name, "tab_min_width") {
            Some(CurrentValue::Number(self.tab_min_width))
        } else if same_text(name, "tab_max_width") {
            Some(CurrentValue::Number(self.tab_max_width))
        } else if same_text(name, "tab_font_size") {
            Some(CurrentValue::Number(self.tab_font_size))
        } else if same_text(name, "tab_bar_height") {
            Some(CurrentValue::Number(self.tab_bar_height))
        } else if same_text(name, "cursor_blink") {
            Some(CurrentValue::Flag(self.cursor_blink))
        } else if same_text(name, "bell_style") {
            Some(CurrentValue::Text(bell_name(self.bell_style).to_owned()))
        } else if same_text(name, "scrollback") {
            Some(CurrentValue::Whole(self.scrollback))
        } else {
            None
        }
    }
}

/// The value that a setting has where nothing else is configured.
pub enum DefaultValue {
    Number(Scalar),
    Whole(i64),
    Text(String),
    Flag(bool),
}

impl DefaultValue {
    pub fn copy(&self) -> (d: DefaultValue)
        ensures
            d == *self,
    {
        match self {
            DefaultValue::Number(x) => DefaultValue::Number(*x),
            DefaultValue::Whole(n) => DefaultValue::Whole(*n),
            DefaultValue::Text(s) => DefaultValue::Text(s.clone()),
            DefaultValue::Flag(b) => DefaultValue::Flag(*b),
        }
    }
}

/// A setting that can be read and set.
pub struct ConfigKey {
    pub name: String,
    pub kind: ConfigKind,
    pub default: DefaultValue,
    /// A change applies at once, not only after a restart.
    pub hot_reload: bool,
    pub doc: String,
}

/// The position of the first setting of that name; the number of settings where
/// there is none.
pub open spec fn key_pos(schema: Seq<ConfigKey>, name: Seq<char>) -> int
    decreases schema.len(),
{
    if schema.len() == 0 || schema[0].name@ == name {
        0
    } else {
        1 + key_pos(schema.drop_first(), name)
    }
}

/// What is known of the type of a value.
#[derive(Copy, Clone, PartialEq, Eq, Structural, Debug)]
pub struct ValueType {
    pub number: bool,
    /// A whole number, with or without a sign.
    pub whole: bool,
    pub string: bool,
    pub boolean: bool,
}

/// A value of that type suits a setting of that kind. A whole number does where
/// any number does.
pub open spec fn suits(kind: ConfigKind, t: ValueType) -> bool {
    match kind {
        ConfigKind::Float => t.number,
        ConfigKind::Int => t.whole,
        ConfigKind::Text => t.string,
        ConfigKind::Bool => t.boolean,
        ConfigKind::Enum => t.string,
    }
}

/// Why a setting is not set.
pub open spec fn set_refusal(schema: Seq<ConfigKey>, name: Seq<char>, t: ValueType) -> Option<
    Seq<char>,
> {
    let k = key_pos(schema, name);
    if k >= schema.len() {
        Some("unknown key `"@ + name + "`"@)
    } else if !suits(schema[k].kind, t) {
        Some("type mismatch for `"@ + name + "`"@)
    } else {
        None
    }
}

/// Whether a value of that type may be set under that name.
pub fn check_config_set(schema: &Vec<ConfigKey>, name: &str, t: ValueType) -> (r: Result<
    (),
    String,
>)
    ensures
        match r {
            Ok(_) => set_refusal(schema@, name@, t) is None,
            Err(e) => set_refusal(schema@, name@, t) == Some(e@),
        },
{
    let mut i: usize = 0;
    assert(schema@.skip(0) =~= schema@);
    while i < schema.len() && !same_text(schema[i].name.as_str(), name)
        invariant
            i <= schema@.len(),
            key_pos(schema@, name@) == i + key_pos(schema@.skip(i as int), name@),
        decreases schema.len() - i,
    {
        assert(schema@.skip(i as int).drop_first() =~= schema@.skip(i + 1));
        i = i + 1;
    }
    if i >= schema.len() {
        let mut e = "unknown key `".to_owned();
        e.append(name);
        e.append("`");
        return Err(e);
    }
    let fits = match schema[i].kind {
        ConfigKind::Float => t.number,
        ConfigKind::Int => t.whole,
        ConfigKind::Text => t.string,
        ConfigKind::Bool => t.boolean,
        ConfigKind::Enum => t.string,
    };
    if !fits {
        let mut e = "type mismatch for `".to_owned();
        e.append(name);
        e.append("`");
        return Err(e);
    }
    Ok(())
}

/// The type of a JSON value.
pub open spec fn type_of_json(v: serde_json::Value) -> ValueType {
    ValueType {
        number: json_is_number(v),
        whole: json_is_i64(v) || json_is_u64(v),
        string: json_is_string(v),
        boolean: json_is_boolean(v),
    }
}

/// Whether a JSON value may be set under a name. Where it may, the host writes
/// it down and reads the configuration again.
pub fn apply_config_set(schema: &Vec<ConfigKey>, name: &str, value: &serde_json::Value) -> (r:
    Result<(), String>)
    ensures
        match r {
            Ok(_) => set_refusal(schema@, name@, type_of_json(*value)) is None,
            Err(e) => set_refusal(schema@, name@, type_of_json(*value)) == Some(e@),
        },
{
    let t = ValueType {
        number: value.is_number(),
        whole: value.is_i64() || value.is_u64(),
        string: value.is_string(),
        boolean: value.is_boolean(),
    };
    check_config_set(schema, name, t)
}

/// What a module is told of one setting.
pub struct ConfigEntry {
    pub name: String,
    pub kind: &'static str,
    pub default: DefaultValue,
    /// Nothing where the window does not know the setting.
    pub current: Option<CurrentValue>,
    pub hot_reload: bool,
    pub doc: String,
}

/// `e` tells of the setting `k` and of its value in `live`.
pub open spec fn describes(e: ConfigEntry, k: ConfigKey, live: LiveConfig) -> bool {
    &&& e.name == k.name
    &&& e.kind@ == k.kind.label()
    &&& e.default == k.default
    &&& match e.current {
        Some(v) => live.value(k.name@) == Some(v@),
        None => live.value(k.name@) is None,
    }
    &&& e.hot_reload == k.hot_reload
    &&& e.doc == k.doc
}

/// The description of every setting.
pub open spec fn config_described(
    schema: &Vec<ConfigKey>,
    live: &LiveConfig,
    r: Vec<ConfigEntry>,
) -> bool {
    &&& r@.len() == schema@.len()
    &&& (forall|i: int| 0 <= i < schema@.len() ==> describes(#[trigger] r@[i], schema@[i], *live))
}

/// What a module is told of the settings, in the order of the schema.
pub fn describe_config(schema: &Vec<ConfigKey>, live: &LiveConfig) -> (r: Vec<ConfigEntry>)
    ensures
        config_described(schema, live, r),
{
    let mut r: Vec<ConfigEntry> = Vec::new();
    let mut i: usize = 0;
    while i < schema.len()
        invariant
            i <= schema@.len(),
            r@.len() == i,
            forall|k: int| 0 <= k < i ==> describes(#[trigger] r@[k], schema@[k], *live),
        decreases schema.len() - i,
    {
        let k = &schema[i];
        r.push(
            ConfigEntry {
                name: k.name.clone(),
                kind: k.kind.name(),
                default: k.default.copy(),
                current: live.config_current_value(k.name.as_str()),
                hot_reload: k.hot_reload,
                doc: k.doc.clone(),
            },
        );
        i = i + 1;
    }
    r
}

impl Renderer {
    /// What a tab is told of the settings.
    pub open spec fn config_sent(
        self,
        id: TabId,
        schema: &Vec<ConfigKey>,
        live: &LiveConfig,
        r: Option<Vec<ConfigEntry>>,
    ) -> bool {
        &&& (r is Some <==> self.ws.tree().has_tab(id) && self.ws.tree().tab(id).module_session
            is Some)
        &&& (r matches Some(v) ==> {
            &&& v@.len() == schema@.len()
            &&& forall|i: int|
                0 <= i < schema@.len() ==> describes(#[trigger] v@[i], schema@[i], *live)
        })
    }

    /// What the module in a tab is told of the settings; nothing where no data
    /// module runs there.
    pub fn send_config_to_tab(&self, id: TabId, schema: &Vec<ConfigKey>, live: &LiveConfig) -> (r:
        Option<Vec<ConfigEntry>>)
        requires
            self.wf(),
        ensures
            self.config_sent(id, schema, live, r),
    {
        match self.ws.root_ref().find_tab(id) {
            Some(t) => if t.module_session.is_some() {
                Some(describe_config(schema, live))
            } else {
                None
            },
            None => None,
        }
    }
}

} // verus!
