use erqol::config::{
    apply_to_runtime, apply_toggle, config, flag_at, flag_default, flag_index, flag_key, with_feature, Config,
    Flag, HpBarTracks, RuntimeToggles, TOGGLE_COUNT,
};
use erqol::settings::{parse_bool, parse_hp_bar_tracks, parse_settings, render_settings};

fn chars(s: &str) -> Vec<char> {
    s.chars().collect()
}

#[test]
fn default_config_has_registry_defaults() {
    let c = Config::default();
    for i in 0..TOGGLE_COUNT {
        let f = flag_at(i);
        assert_eq!(flag_index(f), i);
        assert_eq!(c.flags.get(f), flag_default(f));
    }
    assert!(!c.flags.get(Flag::PostureAlternativeLanding));
    assert!(!c.flags.get(Flag::MapIconPoints));
    assert!(c.flags.get(Flag::DungeonWarp));
    assert_eq!(c.posture_body, 0);
    assert_eq!(c.hp_bar_tracks, HpBarTracks::Hp);
    assert_eq!(c.map_icon_point_label, "Point");
}

#[test]
fn config_cell_is_initialised_once() {
    let mut cell: Option<Config> = None;
    config(&mut cell);
    let c = cell.as_mut().unwrap();
    assert_eq!(c.map_icon_point_label, "Point");
    c.posture_body = 7;
    config(&mut cell);
    assert_eq!(cell.as_ref().unwrap().posture_body, 7);
}

#[test]
fn parse_bool_accepts_true_one_yes() {
    assert!(parse_bool(&chars("true")));
    assert!(parse_bool(&chars("1")));
    assert!(parse_bool(&chars("  yes ")));
    assert!(!parse_bool(&chars("TRUE")));
    assert!(!parse_bool(&chars("false")));
    assert!(!parse_bool(&chars("")));
}

#[test]
fn parse_hp_bar_tracks_spellings() {
    assert_eq!(parse_hp_bar_tracks(&chars("posture")), HpBarTracks::Posture);
    assert_eq!(parse_hp_bar_tracks(&chars(" P ")), HpBarTracks::Posture);
    assert_eq!(parse_hp_bar_tracks(&chars("Poise")), HpBarTracks::Posture);
    assert_eq!(parse_hp_bar_tracks(&chars("hp")), HpBarTracks::Hp);
    assert_eq!(parse_hp_bar_tracks(&chars("stamina")), HpBarTracks::Hp);
}

#[test]
fn parse_settings_reads_keys_and_skips_noise() {
    let text = "# comment\n// also a comment\n\ndungeon_warp = false\n  map_icons=0\nauto_pickup = yes\n\
                posture_body = 5\nposture_right_arm = -3\nposture_left_arm = +2\nposture_movement = abc\n\
                hp_bar_tracks = Posture\nmap_icon_point_label =  My Label  \nunknown = 1\nno equals sign\n";
    let c = parse_settings(text);
    assert!(!c.flags.get(Flag::DungeonWarp));
    assert!(!c.flags.get(Flag::MapIcons));
    assert!(c.flags.get(Flag::AutoPickup));
    assert!(c.flags.get(Flag::MapInCombat));
    assert_eq!(c.posture_body, 5);
    assert_eq!(c.posture_right_arm, -3);
    assert_eq!(c.posture_left_arm, 2);
    assert_eq!(c.posture_movement, 0);
    assert_eq!(c.hp_bar_tracks, HpBarTracks::Posture);
    assert_eq!(c.map_icon_point_label, "My Label");
}

#[test]
fn parse_settings_of_empty_text_is_default() {
    let c = parse_settings("");
    let d = Config::default();
    for i in 0..TOGGLE_COUNT {
        assert_eq!(c.flags.get(flag_at(i)), d.flags.get(flag_at(i)));
    }
    assert_eq!(c.map_icon_point_label, d.map_icon_point_label);
}

#[test]
fn parse_settings_out_of_range_int_is_zero() {
    let c = parse_settings("posture_body = 2147483648\nposture_movement = -2147483648\n");
    assert_eq!(c.posture_body, 0);
    assert_eq!(c.posture_movement, i32::MIN);
}

#[test]
fn render_settings_default_text() {
    let text = render_settings(&Config::default());
    assert!(text.starts_with("# ERQoL Settings\n"));
    assert!(text.contains("\ndungeon_warp = true\n"));
    assert!(text.contains("\nposture_alternative_landing = false\n"));
    assert!(text.contains("\nposture_body = 0\n"));
    assert!(text.contains("\nhp_bar_tracks = hp\n"));
    assert!(text.ends_with("map_icon_point_label = \"Point\"\n"));
    let lines: Vec<&str> = text.lines().collect();
    assert_eq!(lines.len(), 11 + 19 + 6);
}

#[test]
fn settings_roundtrip_keeps_every_field() {
    let mut c = Config::default();
    c.flags.set(Flag::MapIcons, false);
    c.flags.set(Flag::MapIconPoints, true);
    c.posture_body = 12;
    c.posture_right_arm = -4;
    c.posture_left_arm = 3;
    c.posture_movement = 1;
    c.hp_bar_tracks = HpBarTracks::Posture;
    let back = parse_settings(&render_settings(&c));
    for i in 0..TOGGLE_COUNT {
        assert_eq!(back.flags.get(flag_at(i)), c.flags.get(flag_at(i)), "{}", flag_key(flag_at(i)));
    }
    assert_eq!(back.posture_body, 12);
    assert_eq!(back.posture_right_arm, -4);
    assert_eq!(back.posture_left_arm, 3);
    assert_eq!(back.posture_movement, 1);
    assert_eq!(back.hp_bar_tracks, HpBarTracks::Posture);
    // The label is written as a TOML string and read back unchanged.
    assert_eq!(back.map_icon_point_label, "Point");
    let again = parse_settings(&render_settings(&back));
    assert_eq!(again.map_icon_point_label, "Point");
}

#[test]
fn label_with_special_characters_round_trips() {
    let mut c = Config::default();
    c.map_icon_point_label = String::from("a \"b\" \\ c\td\ne\u{7f}");
    let text = render_settings(&c);
    assert!(text.ends_with("map_icon_point_label = \"a \\\"b\\\" \\\\ c\\u0009d\\u000Ae\\u007F\"\n"));
    let back = parse_settings(&text);
    assert_eq!(back.map_icon_point_label, c.map_icon_point_label);
    let edited = parse_settings("map_icon_point_label = \"x\\ny\\u0041\"\n");
    assert_eq!(edited.map_icon_point_label, "x\nyA");
}

#[test]
fn toggle_twice_restores_and_mirrors_runtime() {
    let mut c = Config::default();
    let mut rt = RuntimeToggles { dungeon_warp_enabled: true };
    assert_eq!(apply_toggle(&mut c, &mut rt, "dungeon_warp"), Some(Flag::DungeonWarp));
    assert!(!c.flags.get(Flag::DungeonWarp));
    assert!(!rt.dungeon_warp_enabled);
    assert_eq!(apply_toggle(&mut c, &mut rt, "dungeon_warp"), Some(Flag::DungeonWarp));
    assert!(c.flags.get(Flag::DungeonWarp));
    assert!(rt.dungeon_warp_enabled);
    assert_eq!(apply_toggle(&mut c, &mut rt, "no_such_key"), None);
    assert!(c.flags.get(Flag::DungeonWarp));
}

#[test]
fn toggle_other_knob_leaves_runtime() {
    let mut c = Config::default();
    let mut rt = RuntimeToggles { dungeon_warp_enabled: true };
    assert_eq!(apply_toggle(&mut c, &mut rt, "silly_boss_names"), Some(Flag::SillyBossNames));
    assert!(!c.flags.get(Flag::SillyBossNames));
    assert!(rt.dungeon_warp_enabled);
}

#[test]
fn runtime_follows_config() {
    let mut c = Config::default();
    c.flags.set(Flag::DungeonWarp, false);
    let mut rt = RuntimeToggles { dungeon_warp_enabled: true };
    apply_to_runtime(&c, &mut rt);
    assert!(!rt.dungeon_warp_enabled);
}

#[test]
fn with_feature_evaluates_guard() {
    let mut c = Config::default();
    assert!(with_feature(&c, |cfg: &Config| cfg.flags.get(Flag::MapIcons)));
    c.flags.set(Flag::MapIcons, false);
    assert!(!with_feature(&c, |cfg: &Config| cfg.flags.get(Flag::MapIcons)));
}

#[test]
fn hp_bar_tracks_text_and_cycle() {
    assert_eq!(HpBarTracks::Hp.as_str(), "hp");
    assert_eq!(HpBarTracks::Posture.as_str(), "posture");
    assert_eq!(HpBarTracks::Hp.cycled(), HpBarTracks::Posture);
    assert_eq!(HpBarTracks::Posture.cycled(), HpBarTracks::Hp);
}
