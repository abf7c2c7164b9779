//! What the configuration says of itself, and which changes to it are taken.

use crate::config::{
    bell_label, hex_rgb, hex_rgba, key_pos, set_refusal, type_of_json, ConfigKey, ConfigKind, LiveConfig,
    Shown, ValueType,
};
use crate::json::{json_is_boolean, json_is_i64, json_is_number, json_is_string, json_is_u64};
use crate::labels::labels;
use crate::renderer::BellStyle;
use crate::replies::claim_age;
use crate::tab::ModuleManifest;
use vstd::prelude::*;

verus! {

/// A setting is told by its own name, colours in hexadecimal digits.
pub proof fn law_setting_is_told_by_its_name(c: LiveConfig)
    ensures
        c.value("font_family"@) == Some(Shown::Text(c.font_family@)),
        c.value("font_size"@) == Some(Shown::Number(c.font_size)),
        c.value("background"@) == Some(Shown::Text(hex_rgb(c.background))),
        c.value("show_block_labels"@) == Some(Shown::Flag(c.show_block_labels)),
        c.value("focus_tint"@) == Some(Shown::Text(hex_rgba(c.focus_tint))),
        c.value("foreground"@) == Some(Shown::Text(hex_rgb(c.foreground))),
        c.value("cursor_color"@) == Some(Shown::Text(hex_rgba(c.cursor_color))),
        c.value("selection_color"@) == Some(Shown::Text(hex_rgba(c.selection_color))),
        c.value("comms_delivery"@) == Some(Shown::Flag(c.comms_delivery)),
        c.value("padding_left"@) == Some(Shown::Number(c.padding_left)),
        c.value("padding_right"@) == Some(Shown::Number(c.padding_right)),
        c.value("padding_top"@) == Some(Shown::Number(c.padding_top)),
        c.value("padding_bottom"@) == Some(Shown::Number(c.padding_bottom)),
        c.value("gutter_left"@) == Some(Shown::Number(c.gutter_left)),
        c.value("gutter_gap"@) == Some(Shown::Number(c.gutter_gap)),
        c.value("highlight_pad_x"@) == Some(Shown::Number(c.highlight_pad_x)),
        c.value("highlight_pad_y"@) == Some(Shown::Number(c.highlight_pad_y)),
        c.value("highlight_offset_y"@) == Some(Shown::Number(c.highlight_offset_y)),
        c.value("line_height"@) == Some(Shown::Number(c.line_height)),
        c.value("tab_min_width"@) == Some(Shown::Number(c.tab_min_width)),
        c.value("tab_max_width"@) == Some(Shown::Number(c.tab_max_width)),
        c.value("tab_font_size"@) == Some(Shown::Number(c.tab_font_size)),
        c.value("tab_bar_height"@) == Some(Shown::Number(c.tab_bar_height)),
        c.value("cursor_blink"@) == Some(Shown::Flag(c.cursor_blink)),
        c.value("bell_style"@) == Some(Shown::Text(bell_label(c.bell_style))),
        c.value("scrollback"@) == Some(Shown::Whole(c.scrollback)),
{
    reveal_strlit("font_family");
    reveal_strlit("font_size");
    reveal_strlit("background");
    reveal_strlit("show_block_labels");
    reveal_strlit("focus_tint");
    reveal_strlit("foreground");
    reveal_strlit("cursor_color");
    reveal_strlit("selection_color");
    reveal_strlit("comms_delivery");
    reveal_strlit("padding_left");
    reveal_strlit("padding_right");
    reveal_strlit("padding_top");
    reveal_strlit("padding_bottom");
    reveal_strlit("gutter_left");
    reveal_strlit("gutter_gap");
    reveal_strlit("highlight_pad_x");
    reveal_strlit("highlight_pad_y");
    reveal_strlit("highlight_offset_y");
    reveal_strlit("line_height");
    reveal_strlit("tab_min_width");
    reveal_strlit("tab_max_width");
    reveal_strlit("tab_font_size");
    reveal_strlit("tab_bar_height");
    reveal_strlit("cursor_blink");
    reveal_strlit("bell_style");
    reveal_strlit("scrollback");
    assert("font_family"@.len() == 11);
    assert("font_size"@.len() == 9);
    assert("background"@.len() == 10);
    assert("show_block_labels"@.len() == 17);
    assert("focus_tint"@.len() == 10);
    assert("foreground"@.len() == 10);
    assert("cursor_color"@.len() == 12);
    assert("selection_color"@.len() == 15);
    assert("comms_delivery"@.len() == 14);
    assert("padding_left"@.len() == 12);
    assert("padding_right"@.len() == 13);
    assert("padding_top"@.len() == 11);
    assert("padding_bottom"@.len() == 14);
    assert("gutter_left"@.len() == 11);
    assert("gutter_gap"@.len() == 10);
    assert("highlight_pad_x"@.len() == 15);
    assert("highlight_pad_y"@.len() == 15);
    assert("highlight_offset_y"@.len() == 18);
    assert("line_height"@.len() == 11);
    assert("tab_min_width"@.len() == 13);
    assert("tab_max_width"@.len() == 13);
    assert("tab_font_size"@.len() == 13);
    assert("tab_bar_height"@.len() == 14);
    assert("cursor_blink"@.len() == 12);
    assert("bell_style"@.len() == 10);
    assert("scrollback"@.len() == 10);
    assert("background"@[0] != "focus_tint"@[0]);
    assert("background"@[0] != "foreground"@[0]);
    assert("focus_tint"@[2] != "foreground"@[2]);
    assert("cursor_color"@[0] != "padding_left"@[0]);
    assert("font_family"@[0] != "padding_top"@[0]);
    assert("comms_delivery"@[0] != "padding_bottom"@[0]);
    assert("font_family"@[0] != "gutter_left"@[0]);
    assert("padding_top"@[0] != "gutter_left"@[0]);
    assert("background"@[0] != "gutter_gap"@[0]);
    assert("focus_tint"@[0] != "gutter_gap"@[0]);
    assert("foreground"@[0] != "gutter_gap"@[0]);
    assert("selection_color"@[0] != "highlight_pad_x"@[0]);
    assert("selection_color"@[0] != "highlight_pad_y"@[0]);
    assert("highlight_pad_x"@[14] != "highlight_pad_y"@[14]);
    assert("font_family"@[0] != "line_height"@[0]);
    assert("padding_top"@[0] != "line_height"@[0]);
    assert("gutter_left"@[0] != "line_height"@[0]);
    assert("padding_right"@[0] != "tab_min_width"@[0]);
    assert("padding_right"@[0] != "tab_max_width"@[0]);
    assert("tab_min_width"@[5] != "tab_max_width"@[5]);
    assert("padding_right"@[0] != "tab_font_size"@[0]);
    assert("tab_min_width"@[4] != "tab_font_size"@[4]);
    assert("tab_max_width"@[4] != "tab_font_size"@[4]);
    assert("comms_delivery"@[0] != "tab_bar_height"@[0]);
    assert("padding_bottom"@[0] != "tab_bar_height"@[0]);
    assert("cursor_color"@[7] != "cursor_blink"@[7]);
    assert("padding_left"@[0] != "cursor_blink"@[0]);
    assert("background"@[1] != "bell_style"@[1]);
    assert("focus_tint"@[0] != "bell_style"@[0]);
    assert("foreground"@[0] != "bell_style"@[0]);
    assert("gutter_gap"@[0] != "bell_style"@[0]);
    assert("background"@[0] != "scrollback"@[0]);
    assert("focus_tint"@[0] != "scrollback"@[0]);
    assert("foreground"@[0] != "scrollback"@[0]);
    assert("gutter_gap"@[0] != "scrollback"@[0]);
    assert("bell_style"@[0] != "scrollback"@[0]);
}

proof fn lemma_key_pos(schema: Seq<ConfigKey>, k: int)
    requires
        0 <= k < schema.len(),
        forall|j: int| 0 <= j < k ==> (#[trigger] schema[j]).name@ != schema[k].name@,
    ensures
        key_pos(schema, schema[k].name@) == k,
    decreases schema.len(),
{
    if k > 0 {
        let rest = schema.drop_first();
        assert(schema[0].name@ != schema[k].name@);
        assert forall|j: int| 0 <= j < k - 1 implies (#[trigger] rest[j]).name@ != schema[k].name@ by {
            assert(schema[j + 1].name@ != schema[k].name@);
        }
        lemma_key_pos(rest, k - 1);
    }
}

proof fn lemma_no_key(schema: Seq<ConfigKey>, name: Seq<char>)
    requires
        forall|j: int| 0 <= j < schema.len() ==> (#[trigger] schema[j]).name@ != name,
    ensures
        key_pos(schema, name) == schema.len(),
    decreases schema.len(),
{
    if schema.len() > 0 {
        assert(schema[0].name@ != name);
        let rest = schema.drop_first();
        assert forall|j: int| 0 <= j < rest.len() implies (#[trigger] rest[j]).name@ != name by {
            assert(schema[j + 1].name@ != name);
        }
        lemma_no_key(rest, name);
    }
}

/// A change is taken where there is such a setting and the value is of its kind:
/// any number for a number, a whole one for a whole one, text for text and for a
/// choice, yes or no for a switch. An unknown setting is refused by its name.
pub proof fn law_changes_are_checked(schema: Seq<ConfigKey>, k: int, name: Seq<char>, t: ValueType)
    ensures
        (forall|j: int| 0 <= j < schema.len() ==> (#[trigger] schema[j]).name@ != name)
            ==> set_refusal(schema, name, t) == Some("unknown key `"@ + name + "`"@),
        0 <= k < schema.len() && schema[k].name@ == name && (forall|j: int|
            0 <= j < k ==> (#[trigger] schema[j]).name@ != name) ==> {
            let fits = match schema[k].kind {
                ConfigKind::Float => t.number,
                ConfigKind::Int => t.whole,
                ConfigKind::Text => t.string,
                ConfigKind::Bool => t.boolean,
                ConfigKind::Enum => t.string,
            };
            &&& fits ==> set_refusal(schema, name, t) is None
            &&& !fits ==> set_refusal(schema, name, t) == Some(
                "type mismatch for `"@ + name + "`"@,
            )
        },
{
    if forall|j: int| 0 <= j < schema.len() ==> (#[trigger] schema[j]).name@ != name {
        lemma_no_key(schema, name);
    }
    if 0 <= k < schema.len() && schema[k].name@ == name && (forall|j: int|
        0 <= j < k ==> (#[trigger] schema[j]).name@ != name) {
        lemma_key_pos(schema, k);
    }
}

/// A kind of setting and a style of bell go by their names.
pub proof fn law_kinds_go_by_their_names()
    ensures
        ConfigKind::Float.label() == "float"@,
        ConfigKind::Int.label() == "int"@,
        ConfigKind::Text.label() == "string"@,
        ConfigKind::Bool.label() == "bool"@,
        ConfigKind::Enum.label() == "enum"@,
        bell_label(BellStyle::Visual) == "visual"@,
        bell_label(BellStyle::Silent) == "none"@,
{
}

/// A colour is written as its parts, red first, in two hexadecimal digits each,
/// and its opacity behind them.
pub proof fn law_colour_is_written_in_parts(c: (u8, u8, u8, u8))
    ensures
        hex_rgb((c.0, c.1, c.2)).len() == 7,
        hex_rgb((c.0, c.1, c.2))[0] == '#',
        hex_rgba(c).len() == 9,
        hex_rgba(c).take(7) == hex_rgb((c.0, c.1, c.2)),
        c.0 < 10 ==> hex_rgb((c.0, c.1, c.2))[1] == '0' && hex_rgb((c.0, c.1, c.2))[2] == (48
            + c.0) as char,
        c.0 == 255 ==> hex_rgb((c.0, c.1, c.2)).subrange(1, 3) == seq!['f', 'f'],
        c.1 == 255 ==> hex_rgb((c.0, c.1, c.2)).subrange(3, 5) == seq!['f', 'f'],
        c.2 == 255 ==> hex_rgb((c.0, c.1, c.2)).subrange(5, 7) == seq!['f', 'f'],
        c.3 == 255 ==> hex_rgba(c).subrange(7, 9) == seq!['f', 'f'],
{
    let s = hex_rgb((c.0, c.1, c.2));
    assert(hex_rgba(c).take(7) =~= s);
    if c.0 == 255 {
        assert(s.subrange(1, 3) =~= seq!['f', 'f']);
    }
    if c.1 == 255 {
        assert(s.subrange(3, 5) =~= seq!['f', 'f']);
    }
    if c.2 == 255 {
        assert(s.subrange(5, 7) =~= seq!['f', 'f']);
    }
    if c.3 == 255 {
        assert(hex_rgba(c).subrange(7, 9) =~= seq!['f', 'f']);
    }
}

/// Every kind of content has a label: the shell, the welcome page, each module
/// under its id and with its name, each agent under its name; a mark shows that
/// there is more to choose from.
pub proof fn law_kinds_have_labels(ms: Seq<ModuleManifest>, agents: Seq<String>, i: int, j: int)
    ensures
        ({
            let all = labels(ms, agents);
            &&& all.len() == 2 + ms.len() + agents.len()
            &&& all[0] == ("shell"@, "Shell"@ + " ▾"@)
            &&& all[1] == ("welcome"@, "Welcome"@ + " ▾"@)
            &&& 0 <= i < ms.len() ==> all[2 + i] == (ms[i].id@, ms[i].name@ + " ▾"@)
            &&& 0 <= j < agents.len() ==> all[2 + ms.len() + j] == (
                agents[j]@,
                agents[j]@ + " ▾"@,
            )
        }),
{
}

/// A claim is as old as the whole seconds since it was made; a clock that was set
/// back does not make it younger than new.
pub proof fn law_claim_grows_older(claimed: u64, ms: u64)
    requires
        claimed + ms <= u64::MAX,
    ensures
        claim_age(claimed, (claimed + ms) as u64) == ms / 1000,
        claim_age((claimed + ms) as u64, claimed) == 0,
{
}

/// A value that a client sends is a number, a text or a switch as it stands
/// there; whole is a number with or without a sign that has no fraction.
pub proof fn law_sent_value_has_its_type(v: serde_json::Value)
    ensures
        type_of_json(v).number <==> json_is_number(v),
        type_of_json(v).string <==> json_is_string(v),
        type_of_json(v).boolean <==> json_is_boolean(v),
        json_is_i64(v) ==> type_of_json(v).whole,
        json_is_u64(v) ==> type_of_json(v).whole,
        type_of_json(v).whole ==> json_is_i64(v) || json_is_u64(v),
{
}

} // verus!
