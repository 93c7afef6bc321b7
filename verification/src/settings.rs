//! The settings file: `key = value` lines read into a configuration, and a
//! configuration written back out in the same form.

use vstd::prelude::*;
use crate::config::{
    default_model, find_toggle, flag_at, flag_key, spec_flag_key, lemma_flag_keys_distinct, lemma_flag_at, Flag, hp_bar_tracks_text, spec_flag_at, TOGGLE_COUNT, flag_index, lemma_default_model, spec_find_toggle, spec_flag_index,
    Config, ConfigModel, HpBarTracks,
};
use crate::toml_text::{law_quote_roundtrip, quote, quote_chars, unquote, unquote_chars};
use crate::text::{
    is_ws, lemma_first_index_of, lemma_trim_unchanged, lemma_ws_prefix_exact, lemma_ws_suffix_exact,
    no_newline, push_all, join_lines_chars, lemma_split_join, format_i32_chars, ascii_lower, format_i32, lemma_parse_format_i32, lemma_decimal, is_digit, decimal, join_lines, lemma_ws_suffix, chars_eq, chars_start_with, parse_i32, parse_i32_chars, split_lines,
    split_lines_chars, split_once, split_once_chars, starts_with, str_chars, string_from_chars, trim,
    trim_chars, to_ascii_lowercase, views,
};

verus! {

broadcast use vstd::string::group_string_axioms;

/// A knob value: `true`, `1` or `yes` switch it on, anything else off.
pub open spec fn parse_bool_text(v: Seq<char>) -> bool {
    let t = trim(v);
    t == "true"@ || t == "1"@ || t == "yes"@
}

/// ASCII lower case of every character.
pub open spec fn lower(s: Seq<char>) -> Seq<char> {
    s.map_values(|c: char| ascii_lower(c))
}

/// The boss-bar readout mode: `posture`, `p` or `poise` in any case select
/// the posture readout, anything else the HP readout.
pub open spec fn parse_hp_bar_tracks_text(v: Seq<char>) -> HpBarTracks {
    let t = lower(trim(v));
    if t == "posture"@ || t == "p"@ || t == "poise"@ {
        HpBarTracks::Posture
    } else {
        HpBarTracks::Hp
    }
}

/// A posture selection: the number, or 0 when it does not parse.
pub open spec fn parse_i32_or_zero(v: Seq<char>) -> i32 {
    match parse_i32(v) {
        Some(x) => x,
        None => 0,
    }
}

/// The effect of one `key = value` entry: a registry key sets its knob, the
/// six other keys set their field, an unknown key changes nothing.
#[verifier::opaque]
pub open spec fn apply_key_value(m: ConfigModel, key: Seq<char>, value: Seq<char>) -> ConfigModel {
    match spec_find_toggle(key) {
        Some(f) => ConfigModel { flags: m.flags.update(spec_flag_index(f), parse_bool_text(value)), ..m },
        None => if key == "posture_body"@ {
            ConfigModel { posture_body: parse_i32_or_zero(value), ..m }
        } else if key == "posture_right_arm"@ {
            ConfigModel { posture_right_arm: parse_i32_or_zero(value), ..m }
        } else if key == "posture_left_arm"@ {
            ConfigModel { posture_left_arm: parse_i32_or_zero(value), ..m }
        } else if key == "posture_movement"@ {
            ConfigModel { posture_movement: parse_i32_or_zero(value), ..m }
        } else if key == "hp_bar_tracks"@ {
            ConfigModel { hp_bar_tracks: parse_hp_bar_tracks_text(value), ..m }
        } else if key == "map_icon_point_label"@ {
            ConfigModel { map_icon_point_label: unquote(trim(value)), ..m }
        } else {
            m
        },
    }
}

/// A trimmed line that carries no entry: empty, or a `#` or `//` comment.
pub open spec fn is_skipped_line(l: Seq<char>) -> bool {
    l.len() == 0 || starts_with(l, "#"@) || starts_with(l, "//"@)
}

/// The effect of one line of the settings file. A line without `=` is
/// ignored; key and value are trimmed.
#[verifier::opaque]
pub open spec fn apply_line(m: ConfigModel, line: Seq<char>) -> ConfigModel {
    let l = trim(line);
    if is_skipped_line(l) {
        m
    } else {
        match split_once(l, '=') {
            Some((k, v)) => apply_key_value(m, trim(k), trim(v)),
            None => m,
        }
    }
}

/// The effect of the lines in order; later entries win.
pub open spec fn apply_lines(m: ConfigModel, ls: Seq<Seq<char>>) -> ConfigModel
    decreases ls.len(),
{
    if ls.len() == 0 {
        m
    } else {
        apply_line(apply_lines(m, ls.drop_last()), ls.last())
    }
}

/// The configuration a settings file describes: the defaults, with every
/// entry of the file applied in order.
pub open spec fn parse_settings_text(text: Seq<char>) -> ConfigModel {
    apply_lines(default_model(), split_lines(text))
}

/// Reads a knob value.
pub fn parse_bool(value: &[char]) -> (r: bool)
    ensures
        r == parse_bool_text(value@),
{
    let t = trim_chars(value);
    let yes_true = str_chars("true");
    let yes_one = str_chars("1");
    let yes_yes = str_chars("yes");
    chars_eq(t.as_slice(), yes_true.as_slice()) || chars_eq(t.as_slice(), yes_one.as_slice())
        || chars_eq(t.as_slice(), yes_yes.as_slice())
}

/// Reads the boss-bar readout mode.
pub fn parse_hp_bar_tracks(value: &[char]) -> (r: HpBarTracks)
    ensures
        r == parse_hp_bar_tracks_text(value@),
{
    let t = trim_chars(value);
    let l = to_ascii_lowercase(t.as_slice());
    let w1 = str_chars("posture");
    let w2 = str_chars("p");
    let w3 = str_chars("poise");
    if chars_eq(l.as_slice(), w1.as_slice()) || chars_eq(l.as_slice(), w2.as_slice()) || chars_eq(
        l.as_slice(),
        w3.as_slice(),
    ) {
        HpBarTracks::Posture
    } else {
        HpBarTracks::Hp
    }
}

fn parse_posture(value: &[char]) -> (r: i32)
    ensures
        r == parse_i32_or_zero(value@),
{
    match parse_i32_chars(value) {
        Some(x) => x,
        None => 0,
    }
}

/// Applies one `key = value` entry to the configuration.
pub fn apply_key_value_chars(cfg: &mut Config, key: &[char], value: &[char])
    ensures
        final(cfg)@ == apply_key_value(old(cfg)@, key@, value@),
{
    reveal(apply_key_value);
    match find_toggle(key) {
        Some(f) => {
            let ghost before = cfg.flags;
            let v = parse_bool(value);
            cfg.flags.set(f, v);
            proof {
                before.lemma_set_view(cfg.flags, f, v);
            }
            return ;
        },
        None => {},
    }
    if chars_eq(key, str_chars("posture_body").as_slice()) {
        cfg.posture_body = parse_posture(value);
    } else if chars_eq(key, str_chars("posture_right_arm").as_slice()) {
        cfg.posture_right_arm = parse_posture(value);
    } else if chars_eq(key, str_chars("posture_left_arm").as_slice()) {
        cfg.posture_left_arm = parse_posture(value);
    } else if chars_eq(key, str_chars("posture_movement").as_slice()) {
        cfg.posture_movement = parse_posture(value);
    } else if chars_eq(key, str_chars("hp_bar_tracks").as_slice()) {
        cfg.hp_bar_tracks = parse_hp_bar_tracks(value);
    } else if chars_eq(key, str_chars("map_icon_point_label").as_slice()) {
        let t = trim_chars(value);
        let u = unquote_chars(t.as_slice());
        cfg.map_icon_point_label = string_from_chars(u.as_slice());
    }
}

/// Applies one line of the settings file to the configuration.
pub fn apply_settings_line(cfg: &mut Config, line: &[char])
    ensures
        final(cfg)@ == apply_line(old(cfg)@, line@),
{
    reveal(apply_line);
    let l = trim_chars(line);
    if l.len() == 0 || chars_start_with(l.as_slice(), str_chars("#").as_slice()) || chars_start_with(
        l.as_slice(),
        str_chars("//").as_slice(),
    ) {
        return ;
    }
    match split_once_chars(l.as_slice(), '=') {
        Some((k, v)) => {
            let key = trim_chars(k.as_slice());
            let value = trim_chars(v.as_slice());
            apply_key_value_chars(cfg, key.as_slice(), value.as_slice());
        },
        None => {},
    }
}

/// Reads a settings file: the defaults, with every entry of the file applied
/// in order.
pub fn parse_settings(text: &str) -> (r: Config)
    ensures
        r@ == parse_settings_text(text@),
{
    let chars = str_chars(text);
    let lines = split_lines_chars(chars.as_slice());
    let mut cfg = Config::default();
    proof {
        lemma_default_model(cfg);
    }
    let ghost ls = views(lines@);
    for i in 0..lines.len()
        invariant
            ls == views(lines@),
            ls == split_lines(text@),
            cfg@ == apply_lines(default_model(), ls.take(i as int)),
    {
        apply_settings_line(&mut cfg, lines[i].as_slice());
        assert(ls.take(i + 1).drop_last() =~= ls.take(i as int));
        assert(ls[i as int] == lines@[i as int]@);
    }
    assert(ls.take(lines.len() as int) =~= ls);
    cfg
}

/// A character that may appear in a settings key.
pub open spec fn is_key_char(c: char) -> bool {
    ('a' <= c && c <= 'z') || c == '_'
}

/// A settings key: a non-empty run of lower-case letters and underscores.
pub open spec fn is_key(k: Seq<char>) -> bool {
    k.len() > 0 && forall|i: int| 0 <= i < k.len() ==> is_key_char(#[trigger] k[i])
}

/// A value as written to the settings file: one line, neither starting nor
/// ending with whitespace.
pub open spec fn is_plain_value(v: Seq<char>) -> bool {
    v.len() > 0 && !is_ws(v[0]) && !is_ws(v.last()) && no_newline(v)
}

/// The line `key = value`.
pub open spec fn entry_line(key: Seq<char>, value: Seq<char>) -> Seq<char> {
    key + " = "@ + value
}

/// How an entry line splits: it is already trimmed, carries an entry, and its
/// first `=` separates `key ` from ` value`.
proof fn lemma_entry_split(k: Seq<char>, v: Seq<char>)
    requires
        is_key(k),
        is_plain_value(v),
    ensures
        trim(entry_line(k, v)) == entry_line(k, v),
        !is_skipped_line(entry_line(k, v)),
        split_once(entry_line(k, v), '=') == Some((k.push(' '), seq![' '] + v)),
        no_newline(entry_line(k, v)),
{
    reveal_strlit(" = ");
    reveal_strlit("#");
    reveal_strlit("//");
    let line = entry_line(k, v);
    let n: int = k.len() as int;
    assert(line.len() == n + 3 + v.len());
    assert(line[0] == k[0]);
    assert(is_key_char(k[0]));
    assert(line.last() == v.last());
    lemma_trim_unchanged(line);
    assert(line.take(1) =~= seq![k[0]]);
    assert(!starts_with(line, "#"@));
    assert(!starts_with(line, "//"@)) by {
        assert(line.take(2)[0] == k[0]);
    }
    assert forall|j: int| 0 <= j < n + 1 implies line[j] != '=' by {
        if j < n {
            assert(line[j] == k[j]);
            assert(is_key_char(k[j]));
        } else {
            assert(line[j] == ' ');
        }
    }
    assert(line[n + 1] == '=');
    lemma_first_index_of(line, '=', n + 1);
    assert(line.take(n + 1) =~= k.push(' '));
    assert(line.skip(n + 2) =~= seq![' '] + v);
    assert forall|j: int| 0 <= j < line.len() implies line[j] != '\n' by {
        if j < n {
            assert(line[j] == k[j]);
            assert(is_key_char(k[j]));
        } else if j >= n + 3 {
            assert(line[j] == v[j - n - 3]);
        }
    }
}

/// `key ` trims to `key` and ` value` to `value`.
proof fn lemma_entry_trim(k: Seq<char>, v: Seq<char>)
    requires
        is_key(k),
        is_plain_value(v),
    ensures
        trim(k.push(' ')) == k,
        trim(seq![' '] + v) == v,
{
    let left = k.push(' ');
    let n: int = k.len() as int;
    assert(is_key_char(k[0]));
    lemma_ws_prefix_exact(left, 0);
    assert(left.skip(0) =~= left);
    assert(is_key_char(k[n - 1]));
    assert(left[n - 1] == k[n - 1]);
    lemma_ws_suffix_exact(left, 1);
    assert(left.take(n) =~= k);
    let right = seq![' '] + v;
    lemma_ws_prefix_exact(right, 1);
    assert(right.skip(1) =~= v);
    lemma_ws_suffix_exact(v, 0);
    assert(v.take(v.len() as int) =~= v);
}

/// An entry line is read back as its key and value.
pub proof fn lemma_entry_line(m: ConfigModel, k: Seq<char>, v: Seq<char>)
    requires
        is_key(k),
        is_plain_value(v),
    ensures
        apply_line(m, entry_line(k, v)) == apply_key_value(m, k, v),
        no_newline(entry_line(k, v)),
{
    reveal(apply_line);
    lemma_entry_split(k, v);
    lemma_entry_trim(k, v);
}

/// Every knob's key is a settings key.
pub proof fn lemma_flag_key_is_key(f: Flag)
    ensures
        is_key(spec_flag_key(f)),
{
    reveal_strlit("dungeon_warp");
    reveal_strlit("map_in_combat");
    reveal_strlit("auto_pickup");
    reveal_strlit("skip_flask_confirm");
    reveal_strlit("anti_farm_shop");
    reveal_strlit("consume_all_runes");
    reveal_strlit("merchant_bell_bearing");
    reveal_strlit("roundtable_at_home");
    reveal_strlit("spirit_summon_everywhere");
    reveal_strlit("postures_enabled");
    reveal_strlit("postures_hks_inject");
    reveal_strlit("posture_alternative_landing");
    reveal_strlit("hook_enter_state");
    reveal_strlit("hook_lookup_entry");
    reveal_strlit("map_icons");
    reveal_strlit("map_icon_points");
    reveal_strlit("silly_you_died");
    reveal_strlit("silly_area_names");
    reveal_strlit("silly_boss_names");
}

/// The comment block at the top of the settings file, and the blank line
/// after it.
pub open spec fn header_lines() -> Seq<Seq<char>> {
    seq![
        "# ERQoL Settings"@,
        "# Edit values and restart the game for changes to take effect."@,
        "# Runtime-toggleable features can also be flipped from the in-game"@,
        "# ERQoL Settings menu (no restart needed for those)."@,
        "# Definitions:"@,
        "#   hook_enter_state   -- EzState::EnterState entry hook (debug)"@,
        "#   hook_lookup_entry  -- MsgRepositoryImp::LookupEntry entry hook (debug)"@,
        "#   silly_you_died     -- replace the \"You Died\" death text (default on)"@,
        "#   silly_area_names   -- replace area-name splash texts (default on)"@,
        "#   silly_boss_names   -- replace boss-name texts (default on)"@,
        ""@,
    ]
}

/// How a knob value is written.
pub open spec fn bool_text(b: bool) -> Seq<char> {
    if b {
        "true"@
    } else {
        "false"@
    }
}

/// One `key = true|false` line per knob, in registry order.
pub open spec fn flag_lines(flags: Seq<bool>) -> Seq<Seq<char>> {
    Seq::new(TOGGLE_COUNT as nat, |i: int| entry_line(spec_flag_key(spec_flag_at(i)), bool_text(flags[i])))
}

/// The lines for the other settings; `label` is the text written for the
/// map-icon label.
pub open spec fn field_lines(m: ConfigModel, label: Seq<char>) -> Seq<Seq<char>> {
    seq![
        entry_line("posture_body"@, format_i32(m.posture_body)),
        entry_line("posture_right_arm"@, format_i32(m.posture_right_arm)),
        entry_line("posture_left_arm"@, format_i32(m.posture_left_arm)),
        entry_line("posture_movement"@, format_i32(m.posture_movement)),
        entry_line("hp_bar_tracks"@, hp_bar_tracks_text(m.hp_bar_tracks)),
        entry_line("map_icon_point_label"@, label),
    ]
}

/// All lines of the settings file written for `m`.
pub open spec fn settings_lines(m: ConfigModel, label: Seq<char>) -> Seq<Seq<char>> {
    header_lines() + flag_lines(m.flags) + field_lines(m, label)
}

/// The settings file written for `m`: every line ends with a newline.
pub open spec fn settings_text(m: ConfigModel, label: Seq<char>) -> Seq<char> {
    join_lines(settings_lines(m, label))
}

/// Applying lines one after the other.
pub proof fn lemma_apply_lines_append(m: ConfigModel, a: Seq<Seq<char>>, b: Seq<Seq<char>>)
    ensures
        apply_lines(m, a + b) == apply_lines(apply_lines(m, a), b),
    decreases b.len(),
{
    if b.len() == 0 {
        assert(a + b =~= a);
    } else {
        lemma_apply_lines_append(m, a, b.drop_last());
        assert((a + b).drop_last() =~= a + b.drop_last());
        assert((a + b).last() == b.last());
    }
}

/// Lines that carry no entry change nothing.
pub proof fn lemma_apply_skipped(m: ConfigModel, ls: Seq<Seq<char>>)
    requires
        forall|i: int| 0 <= i < ls.len() ==> is_skipped_line(trim(#[trigger] ls[i])),
    ensures
        apply_lines(m, ls) == m,
    decreases ls.len(),
{
    if ls.len() > 0 {
        let p = ls.drop_last();
        assert forall|i: int| 0 <= i < p.len() implies is_skipped_line(trim(#[trigger] p[i])) by {
            assert(p[i] == ls[i]);
        }
        lemma_apply_skipped(m, p);
        assert(is_skipped_line(trim(ls[ls.len() - 1])));
        reveal(apply_line);
    }
}

/// A line starting with `#` is a comment.
proof fn lemma_comment_line(l: Seq<char>)
    requires
        l.len() > 0,
        l[0] == '#',
    ensures
        is_skipped_line(trim(l)),
{
    reveal_strlit("#");
    lemma_ws_prefix_exact(l, 0);
    assert(l.skip(0) =~= l);
    lemma_ws_suffix(l);
    let t = trim(l);
    assert(t.len() > 0);
    assert(t[0] == '#');
    assert(t.take(1) =~= "#"@);
}

/// The header is one-line comments and a blank line.
proof fn lemma_header_lines()
    ensures
        forall|i: int| 0 <= i < header_lines().len() ==> no_newline(#[trigger] header_lines()[i]),
        forall|i: int| 0 <= i < header_lines().len() ==> is_skipped_line(trim(#[trigger] header_lines()[i])),
{
    reveal_strlit("# ERQoL Settings");
    reveal_strlit("# Edit values and restart the game for changes to take effect.");
    reveal_strlit("# Runtime-toggleable features can also be flipped from the in-game");
    reveal_strlit("# ERQoL Settings menu (no restart needed for those).");
    reveal_strlit("# Definitions:");
    reveal_strlit("#   hook_enter_state   -- EzState::EnterState entry hook (debug)");
    reveal_strlit("#   hook_lookup_entry  -- MsgRepositoryImp::LookupEntry entry hook (debug)");
    reveal_strlit("#   silly_you_died     -- replace the \"You Died\" death text (default on)");
    reveal_strlit("#   silly_area_names   -- replace area-name splash texts (default on)");
    reveal_strlit("#   silly_boss_names   -- replace boss-name texts (default on)");
    reveal_strlit("");
    let h = header_lines();
    assert forall|i: int| 0 <= i < h.len() implies is_skipped_line(trim(#[trigger] h[i])) by {
        if i < 10 {
            lemma_comment_line(h[i]);
        } else {
            assert(h[i].len() == 0);
            lemma_trim_unchanged(h[i]);
        }
    }
}

/// Looking a knob's own key up finds the knob.
pub proof fn lemma_find_toggle_key(f: Flag)
    ensures
        spec_find_toggle(spec_flag_key(f)) == Some(f),
{
    lemma_flag_keys_distinct();
    assert(exists|g: Flag| spec_flag_key(g) == spec_flag_key(f));
    let g = choose|g: Flag| spec_flag_key(g) == spec_flag_key(f);
    assert(spec_flag_key(g) == spec_flag_key(f));
}

/// Knob values are written as `true` and `false`, and read back.
proof fn lemma_bool_text(b: bool)
    ensures
        is_plain_value(bool_text(b)),
        parse_bool_text(bool_text(b)) == b,
{
    reveal_strlit("true");
    reveal_strlit("false");
    reveal_strlit("1");
    reveal_strlit("yes");
    let t = bool_text(b);
    assert forall|i: int| 0 <= i < t.len() implies t[i] != '\n' by {}
    lemma_trim_unchanged(t);
}

/// Numbers are written in decimal, and read back.
proof fn lemma_number_text(x: i32)
    ensures
        is_plain_value(format_i32(x)),
        parse_i32_or_zero(format_i32(x)) == x,
{
    lemma_parse_format_i32(x);
    let t = format_i32(x);
    if x < 0 {
        lemma_decimal((-x) as nat);
        assert forall|i: int| 0 <= i < t.len() implies t[i] != '\n' by {
            if i > 0 {
                assert(t[i] == decimal((-x) as nat)[i - 1]);
                assert(is_digit(decimal((-x) as nat)[i - 1]));
            }
        }
    } else {
        lemma_decimal(x as nat);
        assert forall|i: int| 0 <= i < t.len() implies t[i] != '\n' by {
            assert(is_digit(t[i]));
        }
    }
}

/// The readout mode is written as `hp` or `posture`, and read back.
proof fn lemma_hp_text(h: HpBarTracks)
    ensures
        is_plain_value(hp_bar_tracks_text(h)),
        parse_hp_bar_tracks_text(hp_bar_tracks_text(h)) == h,
{
    reveal_strlit("hp");
    reveal_strlit("posture");
    reveal_strlit("p");
    reveal_strlit("poise");
    let t = hp_bar_tracks_text(h);
    assert forall|i: int| 0 <= i < t.len() implies t[i] != '\n' by {}
    lemma_trim_unchanged(t);
    assert(lower(t) =~= t);
}

/// The six other keys are settings keys and name no knob.
proof fn lemma_field_keys()
    ensures
        is_key("posture_body"@),
        is_key("posture_right_arm"@),
        is_key("posture_left_arm"@),
        is_key("posture_movement"@),
        is_key("hp_bar_tracks"@),
        is_key("map_icon_point_label"@),
        spec_find_toggle("posture_body"@) is None,
        spec_find_toggle("posture_right_arm"@) is None,
        spec_find_toggle("posture_left_arm"@) is None,
        spec_find_toggle("posture_movement"@) is None,
        spec_find_toggle("hp_bar_tracks"@) is None,
        spec_find_toggle("map_icon_point_label"@) is None,
        "posture_left_arm"@ != "posture_movement"@,
        "posture_body"@.len() == 12,
        "posture_right_arm"@.len() == 17,
        "posture_left_arm"@.len() == 16,
        "posture_movement"@.len() == 16,
        "hp_bar_tracks"@.len() == 13,
        "map_icon_point_label"@.len() == 20,
{
    reveal_strlit("posture_body");
    reveal_strlit("posture_right_arm");
    reveal_strlit("posture_left_arm");
    reveal_strlit("posture_movement");
    reveal_strlit("hp_bar_tracks");
    reveal_strlit("map_icon_point_label");
    reveal_strlit("dungeon_warp");
    reveal_strlit("map_in_combat");
    reveal_strlit("auto_pickup");
    reveal_strlit("skip_flask_confirm");
    reveal_strlit("anti_farm_shop");
    reveal_strlit("consume_all_runes");
    reveal_strlit("merchant_bell_bearing");
    reveal_strlit("roundtable_at_home");
    reveal_strlit("spirit_summon_everywhere");
    reveal_strlit("postures_enabled");
    reveal_strlit("postures_hks_inject");
    reveal_strlit("posture_alternative_landing");
    reveal_strlit("hook_enter_state");
    reveal_strlit("hook_lookup_entry");
    reveal_strlit("map_icons");
    reveal_strlit("map_icon_points");
    reveal_strlit("silly_you_died");
    reveal_strlit("silly_area_names");
    reveal_strlit("silly_boss_names");
    assert forall|f: Flag| #[trigger] spec_flag_key(f) != "posture_body"@ by {
        if spec_flag_key(f) == "posture_body"@ {
            assert(spec_flag_key(f)[0] == "posture_body"@[0]);
            assert(spec_flag_key(f)[5] == "posture_body"@[5]);
            assert(spec_flag_key(f)[7] == "posture_body"@[7]);
            assert(spec_flag_key(f)[8] == "posture_body"@[8]);
        }
    }
    assert forall|f: Flag| #[trigger] spec_flag_key(f) != "posture_right_arm"@ by {
        if spec_flag_key(f) == "posture_right_arm"@ {
            assert(spec_flag_key(f)[0] == "posture_right_arm"@[0]);
            assert(spec_flag_key(f)[5] == "posture_right_arm"@[5]);
            assert(spec_flag_key(f)[7] == "posture_right_arm"@[7]);
            assert(spec_flag_key(f)[8] == "posture_right_arm"@[8]);
        }
    }
    assert forall|f: Flag| #[trigger] spec_flag_key(f) != "posture_left_arm"@ by {
        if spec_flag_key(f) == "posture_left_arm"@ {
            assert(spec_flag_key(f)[0] == "posture_left_arm"@[0]);
            assert(spec_flag_key(f)[5] == "posture_left_arm"@[5]);
            assert(spec_flag_key(f)[7] == "posture_left_arm"@[7]);
            assert(spec_flag_key(f)[8] == "posture_left_arm"@[8]);
        }
    }
    assert forall|f: Flag| #[trigger] spec_flag_key(f) != "posture_movement"@ by {
        if spec_flag_key(f) == "posture_movement"@ {
            assert(spec_flag_key(f)[0] == "posture_movement"@[0]);
            assert(spec_flag_key(f)[5] == "posture_movement"@[5]);
            assert(spec_flag_key(f)[7] == "posture_movement"@[7]);
            assert(spec_flag_key(f)[8] == "posture_movement"@[8]);
        }
    }
    assert forall|f: Flag| #[trigger] spec_flag_key(f) != "hp_bar_tracks"@ by {
        if spec_flag_key(f) == "hp_bar_tracks"@ {
            assert(spec_flag_key(f)[0] == "hp_bar_tracks"@[0]);
            assert(spec_flag_key(f)[5] == "hp_bar_tracks"@[5]);
            assert(spec_flag_key(f)[7] == "hp_bar_tracks"@[7]);
            assert(spec_flag_key(f)[8] == "hp_bar_tracks"@[8]);
        }
    }
    assert forall|f: Flag| #[trigger] spec_flag_key(f) != "map_icon_point_label"@ by {
        if spec_flag_key(f) == "map_icon_point_label"@ {
            assert(spec_flag_key(f).len() == 20);
        }
    }
    assert("posture_left_arm"@[8] != "posture_movement"@[8]);
}

/// Applying one more line.
pub proof fn lemma_apply_lines_push(m: ConfigModel, ls: Seq<Seq<char>>, l: Seq<char>)
    ensures
        apply_lines(m, ls.push(l)) == apply_line(apply_lines(m, ls), l),
{
    assert(ls.push(l).drop_last() =~= ls);
}

/// The knob lines set the knobs one by one.
proof fn lemma_apply_flag_lines(m0: ConfigModel, flags: Seq<bool>, i: int)
    requires
        flags.len() == TOGGLE_COUNT,
        m0.flags.len() == TOGGLE_COUNT,
        0 <= i <= TOGGLE_COUNT,
    ensures
        apply_lines(m0, flag_lines(flags).take(i)) == (ConfigModel {
            flags: flags.take(i) + m0.flags.skip(i),
            ..m0
        }),
    decreases i,
{
    if i == 0 {
        assert(flag_lines(flags).take(0) =~= Seq::<Seq<char>>::empty());
        assert(flags.take(0) + m0.flags.skip(0) =~= m0.flags);
    } else {
        lemma_apply_flag_lines(m0, flags, i - 1);
        let ls = flag_lines(flags);
        assert(ls.take(i) =~= ls.take(i - 1).push(ls[i - 1]));
        lemma_apply_lines_push(m0, ls.take(i - 1), ls[i - 1]);
        let prev = apply_lines(m0, ls.take(i - 1));
        let f = spec_flag_at(i - 1);
        lemma_flag_at(i - 1);
        lemma_flag_key_is_key(f);
        lemma_bool_text(flags[i - 1]);
        lemma_entry_line(prev, spec_flag_key(f), bool_text(flags[i - 1]));
        lemma_find_toggle_key(f);
        reveal(apply_key_value);
        assert(prev.flags.update(i - 1, flags[i - 1]) =~= flags.take(i) + m0.flags.skip(i));
    }
}

/// The lines after the knobs set the other settings; the label gets the text
/// written for it.
proof fn lemma_apply_field_lines(m1: ConfigModel, m: ConfigModel, label: Seq<char>)
    requires
        is_plain_value(label),
    ensures
        apply_lines(m1, field_lines(m, label)) == (ConfigModel {
            flags: m1.flags,
            posture_body: m.posture_body,
            posture_right_arm: m.posture_right_arm,
            posture_left_arm: m.posture_left_arm,
            posture_movement: m.posture_movement,
            hp_bar_tracks: m.hp_bar_tracks,
            map_icon_point_label: unquote(label),
        }),
{
    lemma_field_keys();
    let ls = field_lines(m, label);
    lemma_number_text(m.posture_body);
    lemma_number_text(m.posture_right_arm);
    lemma_number_text(m.posture_left_arm);
    lemma_number_text(m.posture_movement);
    lemma_hp_text(m.hp_bar_tracks);
    lemma_trim_unchanged(label);
    let e: Seq<Seq<char>> = Seq::empty();
    let s1 = e.push(ls[0]);
    let s2 = s1.push(ls[1]);
    let s3 = s2.push(ls[2]);
    let s4 = s3.push(ls[3]);
    let s5 = s4.push(ls[4]);
    let s6 = s5.push(ls[5]);
    assert(s6 =~= ls);
    let a0 = apply_lines(m1, e);
    lemma_apply_lines_push(m1, e, ls[0]);
    lemma_entry_line(a0, "posture_body"@, format_i32(m.posture_body));
    assert(apply_key_value(a0, "posture_body"@, format_i32(m.posture_body)) == (ConfigModel {
        posture_body: m.posture_body,
        ..a0
    })) by {
        reveal(apply_key_value);
    }
    let a1 = apply_lines(m1, s1);
    lemma_apply_lines_push(m1, s1, ls[1]);
    lemma_entry_line(a1, "posture_right_arm"@, format_i32(m.posture_right_arm));
    assert(apply_key_value(a1, "posture_right_arm"@, format_i32(m.posture_right_arm)) == (ConfigModel {
        posture_right_arm: m.posture_right_arm,
        ..a1
    })) by {
        reveal(apply_key_value);
    }
    let a2 = apply_lines(m1, s2);
    lemma_apply_lines_push(m1, s2, ls[2]);
    lemma_entry_line(a2, "posture_left_arm"@, format_i32(m.posture_left_arm));
    assert(apply_key_value(a2, "posture_left_arm"@, format_i32(m.posture_left_arm)) == (ConfigModel {
        posture_left_arm: m.posture_left_arm,
        ..a2
    })) by {
        reveal(apply_key_value);
    }
    let a3 = apply_lines(m1, s3);
    lemma_apply_lines_push(m1, s3, ls[3]);
    lemma_entry_line(a3, "posture_movement"@, format_i32(m.posture_movement));
    assert(apply_key_value(a3, "posture_movement"@, format_i32(m.posture_movement)) == (ConfigModel {
        posture_movement: m.posture_movement,
        ..a3
    })) by {
        reveal(apply_key_value);
    }
    let a4 = apply_lines(m1, s4);
    lemma_apply_lines_push(m1, s4, ls[4]);
    lemma_entry_line(a4, "hp_bar_tracks"@, hp_bar_tracks_text(m.hp_bar_tracks));
    assert(apply_key_value(a4, "hp_bar_tracks"@, hp_bar_tracks_text(m.hp_bar_tracks)) == (ConfigModel {
        hp_bar_tracks: m.hp_bar_tracks,
        ..a4
    })) by {
        reveal(apply_key_value);
    }
    let a5 = apply_lines(m1, s5);
    lemma_apply_lines_push(m1, s5, ls[5]);
    lemma_entry_line(a5, "map_icon_point_label"@, label);
    assert(apply_key_value(a5, "map_icon_point_label"@, label) == (ConfigModel {
        map_icon_point_label: unquote(label),
        ..a5
    })) by {
        reveal(apply_key_value);
    }
}

/// Reading back a written settings file gives the configuration back: every
/// knob, the posture selections, the readout mode and the map-icon label,
/// which is written as a TOML string and read back unchanged.
pub proof fn law_settings_roundtrip(m: ConfigModel)
    requires
        m.flags.len() == TOGGLE_COUNT,
    ensures
        parse_settings_text(settings_text(m, quote(m.map_icon_point_label))) == m,
{
    let label = quote(m.map_icon_point_label);
    law_quote_roundtrip(m.map_icon_point_label);
    assert(is_plain_value(label));
    let h = header_lines();
    let f = flag_lines(m.flags);
    let x = field_lines(m, label);
    let ls = settings_lines(m, label);
    let d = default_model();
    lemma_header_lines();
    lemma_field_keys();
    lemma_number_text(m.posture_body);
    lemma_number_text(m.posture_right_arm);
    lemma_number_text(m.posture_left_arm);
    lemma_number_text(m.posture_movement);
    lemma_hp_text(m.hp_bar_tracks);
    assert forall|i: int| 0 <= i < ls.len() implies no_newline(#[trigger] ls[i]) by {
        if i < 11 {
            assert(ls[i] == h[i]);
        } else if i < 30 {
            let j = i - 11;
            assert(ls[i] == f[j]);
            lemma_flag_key_is_key(spec_flag_at(j));
            lemma_bool_text(m.flags[j]);
            lemma_entry_line(m, spec_flag_key(spec_flag_at(j)), bool_text(m.flags[j]));
        } else {
            let j = i - 30;
            assert(ls[i] == x[j]);
            lemma_entry_line(m, "posture_body"@, format_i32(m.posture_body));
            lemma_entry_line(m, "posture_right_arm"@, format_i32(m.posture_right_arm));
            lemma_entry_line(m, "posture_left_arm"@, format_i32(m.posture_left_arm));
            lemma_entry_line(m, "posture_movement"@, format_i32(m.posture_movement));
            lemma_entry_line(m, "hp_bar_tracks"@, hp_bar_tracks_text(m.hp_bar_tracks));
            lemma_entry_line(m, "map_icon_point_label"@, label);
        }
    }
    lemma_split_join(ls);
    lemma_apply_lines_append(d, h + f, x);
    lemma_apply_lines_append(d, h, f);
    lemma_apply_skipped(d, h);
    lemma_apply_flag_lines(d, m.flags, TOGGLE_COUNT as int);
    assert(f.take(TOGGLE_COUNT as int) =~= f);
    assert(m.flags.take(TOGGLE_COUNT as int) + d.flags.skip(TOGGLE_COUNT as int) =~= m.flags);
    let m1 = apply_lines(d, h + f);
    lemma_apply_field_lines(m1, m, label);
}

/// The line `key = value` as characters.
fn entry_chars(key: &str, value: &[char]) -> (r: Vec<char>)
    ensures
        r@ == entry_line(key@, value@),
{
    let mut out = str_chars(key);
    let sep = str_chars(" = ");
    push_all(&mut out, sep.as_slice());
    push_all(&mut out, value);
    out
}

/// The settings file for a configuration: the comment header, one line per
/// knob in registry order, then the posture selections, the readout mode and
/// the map-icon label as a TOML string.
pub fn render_settings(cfg: &Config) -> (r: String)
    ensures
        r@ == settings_text(cfg@, quote(cfg.map_icon_point_label@)),
{
    let mut lines: Vec<Vec<char>> = Vec::new();
    lines.push(str_chars("# ERQoL Settings"));
    lines.push(str_chars("# Edit values and restart the game for changes to take effect."));
    lines.push(str_chars("# Runtime-toggleable features can also be flipped from the in-game"));
    lines.push(str_chars("# ERQoL Settings menu (no restart needed for those)."));
    lines.push(str_chars("# Definitions:"));
    lines.push(str_chars("#   hook_enter_state   -- EzState::EnterState entry hook (debug)"));
    lines.push(str_chars("#   hook_lookup_entry  -- MsgRepositoryImp::LookupEntry entry hook (debug)"));
    lines.push(str_chars("#   silly_you_died     -- replace the \"You Died\" death text (default on)"));
    lines.push(str_chars("#   silly_area_names   -- replace area-name splash texts (default on)"));
    lines.push(str_chars("#   silly_boss_names   -- replace boss-name texts (default on)"));
    lines.push(str_chars(""));
    assert(views(lines@) =~= header_lines());
    let ghost flags = cfg.flags@;
    proof {
        cfg.flags.lemma_view_len();
    }
    for i in 0..TOGGLE_COUNT
        invariant
            flags == cfg.flags@,
            flags.len() == TOGGLE_COUNT,
            views(lines@) == header_lines() + flag_lines(flags).take(i as int),
    {
        let f = flag_at(i);
        proof {
            lemma_flag_at(i as int);
        }
        let v = cfg.flags.get(f);
        let value = if v {
            str_chars("true")
        } else {
            str_chars("false")
        };
        let ghost before = views(lines@);
        lines.push(entry_chars(flag_key(f), value.as_slice()));
        assert(flag_lines(flags).take(i + 1) =~= flag_lines(flags).take(i as int).push(
            flag_lines(flags)[i as int],
        ));
        assert(views(lines@) =~= before.push(lines@[i + 11]@));
    }
    assert(flag_lines(flags).take(TOGGLE_COUNT as int) =~= flag_lines(flags));
    lines.push(entry_chars("posture_body", format_i32_chars(cfg.posture_body).as_slice()));
    lines.push(entry_chars("posture_right_arm", format_i32_chars(cfg.posture_right_arm).as_slice()));
    lines.push(entry_chars("posture_left_arm", format_i32_chars(cfg.posture_left_arm).as_slice()));
    lines.push(entry_chars("posture_movement", format_i32_chars(cfg.posture_movement).as_slice()));
    lines.push(entry_chars("hp_bar_tracks", str_chars(cfg.hp_bar_tracks.as_str()).as_slice()));
    let quoted = quote_chars(str_chars(cfg.map_icon_point_label.as_str()).as_slice());
    lines.push(entry_chars("map_icon_point_label", quoted.as_slice()));
    assert(views(lines@) =~= settings_lines(cfg@, quote(cfg.map_icon_point_label@)));
    let text = join_lines_chars(&lines);
    string_from_chars(text.as_slice())
}

} // verus!
