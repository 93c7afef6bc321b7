//! The mod's settings: every on/off feature knob, the posture selections, the
//! boss-bar readout mode and the map-icon label, plus the toggle registry that
//! drives defaults, the settings file and the grace-menu rows.

use vstd::prelude::*;
use vstd::string::StringExecFns;
use crate::text::{chars_eq, str_chars};

verus! {

broadcast use vstd::string::group_string_axioms;

/// What the damage readout above boss health bars tracks.
#[derive(PartialEq, Eq, Structural, Clone, Copy, Debug)]
pub enum HpBarTracks {
    /// Default game behaviour: shows the recent HP damage dealt.
    Hp,
    /// Shows the boss's remaining posture (stagger) instead.
    Posture,
}

impl Default for HpBarTracks {
    fn default() -> (r: Self)
        ensures
            r == HpBarTracks::Hp,
    {
        HpBarTracks::Hp
    }
}

pub open spec fn hp_bar_tracks_text(t: HpBarTracks) -> Seq<char> {
    match t {
        HpBarTracks::Hp => "hp"@,
        HpBarTracks::Posture => "posture"@,
    }
}

impl HpBarTracks {
    /// The settings-file spelling of the mode.
    pub fn as_str(self) -> (r: &'static str)
        ensures
            r@ == hp_bar_tracks_text(self),
    {
        match self {
            HpBarTracks::Hp => "hp",
            HpBarTracks::Posture => "posture",
        }
    }

    /// The other mode (the grace-menu row cycles between the two).
    pub fn cycled(self) -> (r: Self)
        ensures
            r != self,
    {
        match self {
            HpBarTracks::Hp => HpBarTracks::Posture,
            HpBarTracks::Posture => HpBarTracks::Hp,
        }
    }
}

/// Which settings submenu a feature's row appears in.
#[derive(PartialEq, Eq, Structural, Clone, Copy, Debug)]
pub enum Category {
    /// Changes that don't affect combat results.
    Qol,
    /// Direct gameplay tweaks.
    Tweaks,
    /// Silly string replacements and other jokes.
    Silly,
}

/// Every on/off knob, in the order of the toggle registry.
#[derive(PartialEq, Eq, Structural, Clone, Copy, Debug)]
pub enum Flag {
    DungeonWarp,
    MapInCombat,
    AutoPickup,
    SkipFlaskConfirm,
    AntiFarmShop,
    ConsumeAllRunes,
    MerchantBellBearing,
    RoundtableAtHome,
    SpiritSummonEverywhere,
    PosturesEnabled,
    PosturesHksInject,
    PostureAlternativeLanding,
    HookEnterState,
    HookLookupEntry,
    MapIcons,
    MapIconPoints,
    SillyYouDied,
    SillyAreaNames,
    SillyBossNames,
}

/// Number of entries in the toggle registry.
pub const TOGGLE_COUNT: usize = 19;

/// The registry entry at position `i`.
pub open spec fn spec_flag_at(i: int) -> Flag {
    if i == 0 {
        Flag::DungeonWarp
    } else if i == 1 {
        Flag::MapInCombat
    } else if i == 2 {
        Flag::AutoPickup
    } else if i == 3 {
        Flag::SkipFlaskConfirm
    } else if i == 4 {
        Flag::AntiFarmShop
    } else if i == 5 {
        Flag::ConsumeAllRunes
    } else if i == 6 {
        Flag::MerchantBellBearing
    } else if i == 7 {
        Flag::RoundtableAtHome
    } else if i == 8 {
        Flag::SpiritSummonEverywhere
    } else if i == 9 {
        Flag::PosturesEnabled
    } else if i == 10 {
        Flag::PosturesHksInject
    } else if i == 11 {
        Flag::PostureAlternativeLanding
    } else if i == 12 {
        Flag::HookEnterState
    } else if i == 13 {
        Flag::HookLookupEntry
    } else if i == 14 {
        Flag::MapIcons
    } else if i == 15 {
        Flag::MapIconPoints
    } else if i == 16 {
        Flag::SillyYouDied
    } else if i == 17 {
        Flag::SillyAreaNames
    } else {
        Flag::SillyBossNames
    }
}

/// The registry position of a flag.
pub open spec fn spec_flag_index(f: Flag) -> int {
    match f {
        Flag::DungeonWarp => 0,
        Flag::MapInCombat => 1,
        Flag::AutoPickup => 2,
        Flag::SkipFlaskConfirm => 3,
        Flag::AntiFarmShop => 4,
        Flag::ConsumeAllRunes => 5,
        Flag::MerchantBellBearing => 6,
        Flag::RoundtableAtHome => 7,
        Flag::SpiritSummonEverywhere => 8,
        Flag::PosturesEnabled => 9,
        Flag::PosturesHksInject => 10,
        Flag::PostureAlternativeLanding => 11,
        Flag::HookEnterState => 12,
        Flag::HookLookupEntry => 13,
        Flag::MapIcons => 14,
        Flag::MapIconPoints => 15,
        Flag::SillyYouDied => 16,
        Flag::SillyAreaNames => 17,
        Flag::SillyBossNames => 18,
    }
}

pub fn flag_index(f: Flag) -> (r: usize)
    ensures
        r as int == spec_flag_index(f),
        r < TOGGLE_COUNT,
{
    match f {
        Flag::DungeonWarp => 0,
        Flag::MapInCombat => 1,
        Flag::AutoPickup => 2,
        Flag::SkipFlaskConfirm => 3,
        Flag::AntiFarmShop => 4,
        Flag::ConsumeAllRunes => 5,
        Flag::MerchantBellBearing => 6,
        Flag::RoundtableAtHome => 7,
        Flag::SpiritSummonEverywhere => 8,
        Flag::PosturesEnabled => 9,
        Flag::PosturesHksInject => 10,
        Flag::PostureAlternativeLanding => 11,
        Flag::HookEnterState => 12,
        Flag::HookLookupEntry => 13,
        Flag::MapIcons => 14,
        Flag::MapIconPoints => 15,
        Flag::SillyYouDied => 16,
        Flag::SillyAreaNames => 17,
        Flag::SillyBossNames => 18,
    }
}

pub proof fn lemma_flag_index(f: Flag)
    ensures
        0 <= spec_flag_index(f) < TOGGLE_COUNT,
        spec_flag_at(spec_flag_index(f)) == f,
{
}

pub proof fn lemma_flag_at(i: int)
    requires
        0 <= i < TOGGLE_COUNT,
    ensures
        spec_flag_index(spec_flag_at(i)) == i,
{
}

pub fn flag_at(i: usize) -> (r: Flag)
    requires
        i < TOGGLE_COUNT,
    ensures
        r == spec_flag_at(i as int),
{
    if i == 0 {
        Flag::DungeonWarp
    } else if i == 1 {
        Flag::MapInCombat
    } else if i == 2 {
        Flag::AutoPickup
    } else if i == 3 {
        Flag::SkipFlaskConfirm
    } else if i == 4 {
        Flag::AntiFarmShop
    } else if i == 5 {
        Flag::ConsumeAllRunes
    } else if i == 6 {
        Flag::MerchantBellBearing
    } else if i == 7 {
        Flag::RoundtableAtHome
    } else if i == 8 {
        Flag::SpiritSummonEverywhere
    } else if i == 9 {
        Flag::PosturesEnabled
    } else if i == 10 {
        Flag::PosturesHksInject
    } else if i == 11 {
        Flag::PostureAlternativeLanding
    } else if i == 12 {
        Flag::HookEnterState
    } else if i == 13 {
        Flag::HookLookupEntry
    } else if i == 14 {
        Flag::MapIcons
    } else if i == 15 {
        Flag::MapIconPoints
    } else if i == 16 {
        Flag::SillyYouDied
    } else if i == 17 {
        Flag::SillyAreaNames
    } else {
        Flag::SillyBossNames
    }
}

/// The settings-file key of a knob.
pub open spec fn spec_flag_key(f: Flag) -> Seq<char> {
    match f {
        Flag::DungeonWarp => "dungeon_warp"@,
        Flag::MapInCombat => "map_in_combat"@,
        Flag::AutoPickup => "auto_pickup"@,
        Flag::SkipFlaskConfirm => "skip_flask_confirm"@,
        Flag::AntiFarmShop => "anti_farm_shop"@,
        Flag::ConsumeAllRunes => "consume_all_runes"@,
        Flag::MerchantBellBearing => "merchant_bell_bearing"@,
        Flag::RoundtableAtHome => "roundtable_at_home"@,
        Flag::SpiritSummonEverywhere => "spirit_summon_everywhere"@,
        Flag::PosturesEnabled => "postures_enabled"@,
        Flag::PosturesHksInject => "postures_hks_inject"@,
        Flag::PostureAlternativeLanding => "posture_alternative_landing"@,
        Flag::HookEnterState => "hook_enter_state"@,
        Flag::HookLookupEntry => "hook_lookup_entry"@,
        Flag::MapIcons => "map_icons"@,
        Flag::MapIconPoints => "map_icon_points"@,
        Flag::SillyYouDied => "silly_you_died"@,
        Flag::SillyAreaNames => "silly_area_names"@,
        Flag::SillyBossNames => "silly_boss_names"@,
    }
}

pub fn flag_key(f: Flag) -> (r: &'static str)
    ensures
        r@ == spec_flag_key(f),
{
    match f {
        Flag::DungeonWarp => "dungeon_warp",
        Flag::MapInCombat => "map_in_combat",
        Flag::AutoPickup => "auto_pickup",
        Flag::SkipFlaskConfirm => "skip_flask_confirm",
        Flag::AntiFarmShop => "anti_farm_shop",
        Flag::ConsumeAllRunes => "consume_all_runes",
        Flag::MerchantBellBearing => "merchant_bell_bearing",
        Flag::RoundtableAtHome => "roundtable_at_home",
        Flag::SpiritSummonEverywhere => "spirit_summon_everywhere",
        Flag::PosturesEnabled => "postures_enabled",
        Flag::PosturesHksInject => "postures_hks_inject",
        Flag::PostureAlternativeLanding => "posture_alternative_landing",
        Flag::HookEnterState => "hook_enter_state",
        Flag::HookLookupEntry => "hook_lookup_entry",
        Flag::MapIcons => "map_icons",
        Flag::MapIconPoints => "map_icon_points",
        Flag::SillyYouDied => "silly_you_died",
        Flag::SillyAreaNames => "silly_area_names",
        Flag::SillyBossNames => "silly_boss_names",
    }
}

/// The grace-menu row label of a knob; empty for knobs without a row.
pub open spec fn spec_flag_label(f: Flag) -> Seq<char> {
    match f {
        Flag::DungeonWarp => "Dungeon Warp"@,
        Flag::MapInCombat => "Map in Combat"@,
        Flag::AutoPickup => "Auto Pickup"@,
        Flag::SkipFlaskConfirm => "Skip Flask Confirm"@,
        Flag::AntiFarmShop => "Anti-Farm Shop"@,
        Flag::ConsumeAllRunes => "Consume All Runes"@,
        Flag::MerchantBellBearing => "Merchant Bell Bearing"@,
        Flag::RoundtableAtHome => "Roundtable at Home"@,
        Flag::SpiritSummonEverywhere => "Spirit Summons Everywhere"@,
        Flag::SillyYouDied => "You Died Replacement"@,
        Flag::SillyAreaNames => "Area Name Replacement"@,
        Flag::SillyBossNames => "Boss Name Replacement"@,
        _ => ""@,
    }
}

pub fn flag_label(f: Flag) -> (r: &'static str)
    ensures
        r@ == spec_flag_label(f),
{
    match f {
        Flag::DungeonWarp => "Dungeon Warp",
        Flag::MapInCombat => "Map in Combat",
        Flag::AutoPickup => "Auto Pickup",
        Flag::SkipFlaskConfirm => "Skip Flask Confirm",
        Flag::AntiFarmShop => "Anti-Farm Shop",
        Flag::ConsumeAllRunes => "Consume All Runes",
        Flag::MerchantBellBearing => "Merchant Bell Bearing",
        Flag::RoundtableAtHome => "Roundtable at Home",
        Flag::SpiritSummonEverywhere => "Spirit Summons Everywhere",
        Flag::SillyYouDied => "You Died Replacement",
        Flag::SillyAreaNames => "Area Name Replacement",
        Flag::SillyBossNames => "Boss Name Replacement",
        _ => "",
    }
}

/// The settings submenu of a knob; `None` keeps it out of the menus.
pub open spec fn spec_flag_category(f: Flag) -> Option<Category> {
    match f {
        Flag::DungeonWarp | Flag::MapInCombat | Flag::AutoPickup | Flag::SkipFlaskConfirm
        | Flag::AntiFarmShop | Flag::ConsumeAllRunes | Flag::MerchantBellBearing
        | Flag::RoundtableAtHome => Some(Category::Qol),
        Flag::SpiritSummonEverywhere => Some(Category::Tweaks),
        Flag::SillyYouDied | Flag::SillyAreaNames | Flag::SillyBossNames => Some(Category::Silly),
        _ => None,
    }
}

pub fn flag_category(f: Flag) -> (r: Option<Category>)
    ensures
        r == spec_flag_category(f),
{
    match f {
        Flag::DungeonWarp | Flag::MapInCombat | Flag::AutoPickup | Flag::SkipFlaskConfirm
        | Flag::AntiFarmShop | Flag::ConsumeAllRunes | Flag::MerchantBellBearing
        | Flag::RoundtableAtHome => Some(Category::Qol),
        Flag::SpiritSummonEverywhere => Some(Category::Tweaks),
        Flag::SillyYouDied | Flag::SillyAreaNames | Flag::SillyBossNames => Some(Category::Silly),
        _ => None,
    }
}

/// Whether flipping the knob only takes full effect after a restart.
pub open spec fn spec_flag_needs_reload(f: Flag) -> bool {
    match f {
        Flag::DungeonWarp | Flag::MapInCombat | Flag::SpiritSummonEverywhere
        | Flag::PosturesEnabled | Flag::PosturesHksInject | Flag::HookEnterState
        | Flag::HookLookupEntry | Flag::MapIcons => true,
        _ => false,
    }
}

pub fn flag_needs_reload(f: Flag) -> (r: bool)
    ensures
        r == spec_flag_needs_reload(f),
{
    match f {
        Flag::DungeonWarp | Flag::MapInCombat | Flag::SpiritSummonEverywhere
        | Flag::PosturesEnabled | Flag::PosturesHksInject | Flag::HookEnterState
        | Flag::HookLookupEntry | Flag::MapIcons => true,
        _ => false,
    }
}

/// The value a knob has when the settings file does not mention it.
pub open spec fn spec_flag_default(f: Flag) -> bool {
    match f {
        Flag::PostureAlternativeLanding | Flag::MapIconPoints => false,
        _ => true,
    }
}

pub fn flag_default(f: Flag) -> (r: bool)
    ensures
        r == spec_flag_default(f),
{
    match f {
        Flag::PostureAlternativeLanding | Flag::MapIconPoints => false,
        _ => true,
    }
}

/// No two knobs share a settings key.
pub proof fn lemma_flag_keys_distinct()
    ensures
        forall|a: Flag, b: Flag| #[trigger] spec_flag_key(a) == #[trigger] spec_flag_key(b) ==> a == b,
{
    reveal_strlit("dungeon_warp");
    reveal_strlit("map_in_combat");
    reveal_strlit("auto_pickup");
    reveal_strlit("skip_flask_confirm");
    reveal_strlit("anti_farm_shop");
    reveal_strlit("consume_all_runes");
    reveal_strlit("merchant_bell_bearing");
    reveal_strlit("roundtable_at_home");
    reveal_strlit("spirit_summon_everywhere");
    reveal_strlit("postures_enabled");
    reveal_strlit("postures_hks_inject");
    reveal_strlit("posture_alternative_landing");
    reveal_strlit("hook_enter_state");
    reveal_strlit("hook_lookup_entry");
    reveal_strlit("map_icons");
    reveal_strlit("map_icon_points");
    reveal_strlit("silly_you_died");
    reveal_strlit("silly_area_names");
    reveal_strlit("silly_boss_names");
    assert forall|a: Flag, b: Flag| #[trigger] spec_flag_key(a) == #[trigger] spec_flag_key(b) implies a == b by {
        if a != b {
            assert(spec_flag_key(a).len() != spec_flag_key(b).len() || spec_flag_key(a)[0] != spec_flag_key(b)[0]
                || spec_flag_key(a)[6] != spec_flag_key(b)[6]);
        }
    }
}

/// All on/off knobs, indexed by registry position. A fresh value has every
/// flag `false`; the registry's defaults are applied on top by
/// [`Config::default`].
#[derive(Clone, Copy, Debug)]
pub struct BoolFlags {
    values: [bool; 19],
}

impl Default for BoolFlags {
    fn default() -> (r: Self)
        ensures
            forall|f: Flag| !#[trigger] r.spec_get(f),
    {
        BoolFlags { values: [false; 19] }
    }
}

/// Distinct knobs sit at distinct registry positions.
pub proof fn lemma_flag_index_injective()
    ensures
        forall|f: Flag, g: Flag| #[trigger] spec_flag_index(f) == #[trigger] spec_flag_index(g) ==> f == g,
{
    assert forall|f: Flag, g: Flag| #[trigger] spec_flag_index(f) == #[trigger] spec_flag_index(g) implies f == g by {
        lemma_flag_index(f);
        lemma_flag_index(g);
    }
}

impl View for BoolFlags {
    type V = Seq<bool>;

    /// The knob values in registry order.
    closed spec fn view(&self) -> Seq<bool> {
        self.values@
    }
}

impl BoolFlags {
    pub open spec fn spec_get(self, f: Flag) -> bool {
        self@[spec_flag_index(f)]
    }

    /// There is one value per registry entry.
    pub proof fn lemma_view_len(self)
        ensures
            self@.len() == TOGGLE_COUNT,
    {
    }

    /// Two flag sets hold the same value for every knob.
    pub open spec fn same_as(self, other: BoolFlags) -> bool {
        forall|f: Flag| #[trigger] self.spec_get(f) == other.spec_get(f)
    }

    pub fn get(&self, f: Flag) -> (r: bool)
        ensures
            r == self.spec_get(f),
    {
        self.values[flag_index(f)]
    }

    /// Sets knob `f` to `v`, leaving every other knob alone.
    pub fn set(&mut self, f: Flag, v: bool)
        ensures
            forall|g: Flag| #[trigger]
                final(self).spec_get(g) == if g == f {
                    v
                } else {
                    old(self).spec_get(g)
                },
    {
        let i = flag_index(f);
        self.values.set(i, v);
        proof {
            lemma_flag_index_injective();
        }
    }

    /// Setting one knob updates one position of the value sequence.
    pub proof fn lemma_set_view(self, after: BoolFlags, f: Flag, v: bool)
        requires
            forall|g: Flag| #[trigger] after.spec_get(g) == if g == f { v } else { self.spec_get(g) },
        ensures
            after@ == self@.update(spec_flag_index(f), v),
    {
        self.lemma_view_len();
        after.lemma_view_len();
        lemma_flag_index(f);
        assert forall|i: int| 0 <= i < TOGGLE_COUNT implies after@[i] == self@.update(spec_flag_index(f), v)[i] by {
            lemma_flag_at(i);
            assert(after.spec_get(spec_flag_at(i)) == if spec_flag_at(i) == f { v } else { self.spec_get(spec_flag_at(i)) });
        }
        assert(after@ =~= self@.update(spec_flag_index(f), v));
    }

    /// Two flag sets that agree on every knob are equal.
    pub proof fn lemma_same_eq(self, other: BoolFlags)
        requires
            self.same_as(other),
        ensures
            self == other,
    {
        assert forall|i: int| 0 <= i < 19 implies self.values@[i] == other.values@[i] by {
            lemma_flag_at(i);
            assert(self.spec_get(spec_flag_at(i)) == other.spec_get(spec_flag_at(i)));
            assert(self@ == self.values@);
            assert(other@ == other.values@);
        }
        assert(self.values@ =~= other.values@);
        vstd::array::axiom_array_ext_equal(self.values, other.values);
    }
}

/// The mod's whole configuration.
#[derive(Debug)]
pub struct Config {
    /// On/off feature knobs.
    pub flags: BoolFlags,
    pub posture_body: i32,
    pub posture_right_arm: i32,
    pub posture_left_arm: i32,
    pub posture_movement: i32,
    pub hp_bar_tracks: HpBarTracks,
    pub map_icon_point_label: String,
}

/// The configuration as plain values: the knob values in registry order and
/// the label's characters.
pub struct ConfigModel {
    pub flags: Seq<bool>,
    pub posture_body: i32,
    pub posture_right_arm: i32,
    pub posture_left_arm: i32,
    pub posture_movement: i32,
    pub hp_bar_tracks: HpBarTracks,
    pub map_icon_point_label: Seq<char>,
}

impl View for Config {
    type V = ConfigModel;

    open spec fn view(&self) -> ConfigModel {
        ConfigModel {
            flags: self.flags@,
            posture_body: self.posture_body,
            posture_right_arm: self.posture_right_arm,
            posture_left_arm: self.posture_left_arm,
            posture_movement: self.posture_movement,
            hp_bar_tracks: self.hp_bar_tracks,
            map_icon_point_label: self.map_icon_point_label@,
        }
    }
}

/// The default configuration as plain values.
pub open spec fn default_model() -> ConfigModel {
    ConfigModel {
        flags: Seq::new(TOGGLE_COUNT as nat, |i: int| spec_flag_default(spec_flag_at(i))),
        posture_body: 0,
        posture_right_arm: 0,
        posture_left_arm: 0,
        posture_movement: 0,
        hp_bar_tracks: HpBarTracks::Hp,
        map_icon_point_label: "Point"@,
    }
}

/// The default configuration seen as plain values.
pub proof fn lemma_default_model(c: Config)
    requires
        is_default_config(c),
    ensures
        c@ == default_model(),
{
    c.flags.lemma_view_len();
    assert forall|i: int| 0 <= i < TOGGLE_COUNT implies c.flags@[i] == spec_flag_default(spec_flag_at(i)) by {
        lemma_flag_at(i);
        assert(c.flags.spec_get(spec_flag_at(i)) == spec_flag_default(spec_flag_at(i)));
    }
    assert(c.flags@ =~= default_model().flags);
}

/// The configuration used before (or without) a settings file: every knob at
/// its registry default, no posture selection, the HP readout and the label
/// `Point`.
pub open spec fn is_default_config(c: Config) -> bool {
    &&& forall|f: Flag| #[trigger] c.flags.spec_get(f) == spec_flag_default(f)
    &&& c.posture_body == 0
    &&& c.posture_right_arm == 0
    &&& c.posture_left_arm == 0
    &&& c.posture_movement == 0
    &&& c.hp_bar_tracks == HpBarTracks::Hp
    &&& c.map_icon_point_label@ == "Point"@
}

impl Default for Config {
    fn default() -> (r: Self)
        ensures
            is_default_config(r),
    {
        let mut flags = BoolFlags::default();
        for i in 0..TOGGLE_COUNT
            invariant
                forall|f: Flag|
                    #[trigger] flags.spec_get(f) == if spec_flag_index(f) < i {
                        spec_flag_default(f)
                    } else {
                        false
                    },
        {
            let f = flag_at(i);
            proof {
                lemma_flag_at(i as int);
            }
            flags.set(f, flag_default(f));
        }
        Config {
            flags,
            posture_body: 0,
            posture_right_arm: 0,
            posture_left_arm: 0,
            posture_movement: 0,
            hp_bar_tracks: HpBarTracks::Hp,
            map_icon_point_label: String::from_str("Point"),
        }
    }
}

/// The process-wide configuration cell, initialised with the defaults on
/// first use: afterwards it holds a configuration, and one that was there
/// already is left as it was.
pub fn config(cell: &mut Option<Config>)
    ensures
        *old(cell) is Some ==> *final(cell) == *old(cell),
        *old(cell) is None ==> (*final(cell) matches Some(c) && is_default_config(c)),
{
    if cell.is_none() {
        *cell = Some(Config::default());
    }
}

/// The registry entry whose key is `key`, if any.
pub open spec fn spec_find_toggle(key: Seq<char>) -> Option<Flag> {
    if exists|f: Flag| spec_flag_key(f) == key {
        Some(choose|f: Flag| spec_flag_key(f) == key)
    } else {
        None
    }
}

/// Looks a knob up by its settings key.
pub fn find_toggle(key: &[char]) -> (r: Option<Flag>)
    ensures
        r == spec_find_toggle(key@),
        r matches Some(f) ==> spec_flag_key(f) == key@,
{
    proof {
        lemma_flag_keys_distinct();
    }
    for i in 0..TOGGLE_COUNT
        invariant
            forall|f: Flag| spec_flag_index(f) < i ==> spec_flag_key(f) != key@,
    {
        let f = flag_at(i);
        let k = str_chars(flag_key(f));
        if chars_eq(k.as_slice(), key) {
            proof {
                lemma_flag_keys_distinct();
                let g = choose|g: Flag| spec_flag_key(g) == key@;
                assert(spec_flag_key(g) == spec_flag_key(f));
            }
            return Some(f);
        }
        proof {
            lemma_flag_at(i as int);
        }
    }
    proof {
        assert forall|f: Flag| spec_flag_key(f) != key@ by {
            lemma_flag_index(f);
        }
    }
    None
}

/// The runtime mirror of knobs that take effect without a restart.
#[derive(Clone, Copy, Debug)]
pub struct RuntimeToggles {
    pub dungeon_warp_enabled: bool,
}

/// Applies the configuration to the runtime toggle state (after loading).
pub fn apply_to_runtime(cfg: &Config, runtime: &mut RuntimeToggles)
    ensures
        final(runtime).dungeon_warp_enabled == cfg.flags.spec_get(Flag::DungeonWarp),
{
    runtime.dungeon_warp_enabled = cfg.flags.get(Flag::DungeonWarp);
}

/// Evaluates a feature guard on the configuration: `false` means the feature
/// is disabled.
pub fn with_feature<F>(cfg: &Config, extract: F) -> (r: bool)
    where
        F: FnOnce(&Config) -> bool,
    requires
        extract.requires((cfg,)),
    ensures
        extract.ensures((cfg,), r),
{
    extract(cfg)
}

/// Flips a knob by settings key and runs its side effect (the dungeon-warp
/// runtime mirror). Returns the flipped knob; an unknown key changes nothing.
pub fn apply_toggle(cfg: &mut Config, runtime: &mut RuntimeToggles, key: &str) -> (r: Option<Flag>)
    ensures
        r == spec_find_toggle(key@),
        r matches Some(f) ==> {
            &&& forall|g: Flag| #[trigger]
                final(cfg).flags.spec_get(g) == if g == f {
                    !old(cfg).flags.spec_get(g)
                } else {
                    old(cfg).flags.spec_get(g)
                }
            &&& final(runtime).dungeon_warp_enabled == if f == Flag::DungeonWarp {
                final(cfg).flags.spec_get(Flag::DungeonWarp)
            } else {
                old(runtime).dungeon_warp_enabled
            }
        },
        r is None ==> final(cfg).flags == old(cfg).flags && *final(runtime) == *old(runtime),
        final(cfg).posture_body == old(cfg).posture_body,
        final(cfg).posture_right_arm == old(cfg).posture_right_arm,
        final(cfg).posture_left_arm == old(cfg).posture_left_arm,
        final(cfg).posture_movement == old(cfg).posture_movement,
        final(cfg).hp_bar_tracks == old(cfg).hp_bar_tracks,
        final(cfg).map_icon_point_label == old(cfg).map_icon_point_label,
{
    let key_chars = str_chars(key);
    let f = match find_toggle(key_chars.as_slice()) {
        Some(f) => f,
        None => return None,
    };
    let before = cfg.flags.get(f);
    cfg.flags.set(f, !before);
    if f == Flag::DungeonWarp {
        runtime.dungeon_warp_enabled = cfg.flags.get(f);
    }
    Some(f)
}

/// Flipping the same knob twice restores every knob.
pub proof fn law_toggle_twice(a: BoolFlags, b: BoolFlags, c: BoolFlags, f: Flag)
    requires
        forall|g: Flag| #[trigger] b.spec_get(g) == if g == f { !a.spec_get(g) } else { a.spec_get(g) },
        forall|g: Flag| #[trigger] c.spec_get(g) == if g == f { !b.spec_get(g) } else { b.spec_get(g) },
    ensures
        c.same_as(a),
        c == a,
{
    assert forall|g: Flag| #[trigger] c.spec_get(g) == a.spec_get(g) by {
        assert(b.spec_get(g) == if g == f { !a.spec_get(g) } else { a.spec_get(g) });
    }
    c.lemma_same_eq(a);
}

} // verus!
