//! Silly string swaps: a registry of texts that, while their feature toggle
//! is on, are replaced by one of several candidates picked at random (the
//! random roll comes from the caller).

use vstd::prelude::*;
use crate::config::{spec_flag_index, BoolFlags, Flag};

verus! {

/// One swap: the text replaced, its candidates, and the toggle gating it.
pub struct Reroute {
    pub original: String,
    pub candidates: Vec<String>,
    pub gate: Flag,
}

/// The registered swaps, in registration order.
pub struct RerouteRegistry {
    pub entries: Vec<Reroute>,
}

/// The views of a list of candidate strings.
pub open spec fn string_views(v: Seq<String>) -> Seq<Seq<char>> {
    v.map_values(|s: String| s@)
}

/// The views of a list of candidate literals.
pub open spec fn str_views(v: Seq<&str>) -> Seq<Seq<char>> {
    v.map_values(|s: &str| s@)
}

/// The first swap registered for `text`.
pub open spec fn first_reroute(entries: Seq<Reroute>, text: Seq<char>) -> Option<int> {
    if exists|k: int| 0 <= k < entries.len() && #[trigger] entries[k].original@ == text {
        Some(
            choose|k: int|
                0 <= k < entries.len() && #[trigger] entries[k].original@ == text && forall|j: int|
                    0 <= j < k ==> entries[j].original@ != text,
        )
    } else {
        None
    }
}

/// What `text` is shown as: when the first swap registered for it is on and
/// has candidates, candidate `roll % count`; otherwise nothing replaces it.
pub open spec fn spec_replacement(entries: Seq<Reroute>, flags: Seq<bool>, text: Seq<char>, roll: usize) -> Option<Seq<char>> {
    match first_reroute(entries, text) {
        Some(k) => {
            let e = entries[k];
            if flags[spec_flag_index(e.gate)] && e.candidates@.len() > 0 {
                Some(e.candidates@[roll as int % e.candidates@.len() as int]@)
            } else {
                None
            }
        },
        None => None,
    }
}

fn owned_list(items: &[&str]) -> (r: Vec<String>)
    ensures
        string_views(r@) == str_views(items@),
{
    let mut out: Vec<String> = Vec::new();
    for i in 0..items.len()
        invariant
            out@.len() == i,
            forall|k: int| 0 <= k < i ==> #[trigger] out@[k]@ == items@[k]@,
    {
        out.push(items[i].to_owned());
    }
    assert(string_views(out@) =~= str_views(items@));
    out
}

impl RerouteRegistry {
    /// An empty registry.
    pub fn new() -> (r: Self)
        ensures
            r.entries@.len() == 0,
    {
        RerouteRegistry { entries: Vec::new() }
    }

    /// Registers a swap of `original` for one of `candidates`, gated by `gate`.
    pub fn reroute(&mut self, original: &str, candidates: &[&str], gate: Flag)
        ensures
            final(self).entries@.len() == old(self).entries@.len() + 1,
            forall|k: int| 0 <= k < old(self).entries@.len() ==> #[trigger] final(self).entries@[k] == old(self).entries@[k],
            final(self).entries@.last().original@ == original@,
            string_views(final(self).entries@.last().candidates@) == str_views(candidates@),
            final(self).entries@.last().gate == gate,
    {
        let c = owned_list(candidates);
        self.entries.push(Reroute { original: original.to_owned(), candidates: c, gate });
    }

    /// The text that replaces `text`, if any (see [`spec_replacement`]).
    pub fn replacement(&self, text: &String, flags: &BoolFlags, roll: usize) -> (r: Option<String>)
        ensures
            match r {
                Some(s) => spec_replacement(self.entries@, flags@, text@, roll) == Some(s@),
                None => spec_replacement(self.entries@, flags@, text@, roll) is None,
            },
    {
        for k in 0..self.entries.len()
            invariant
                forall|j: int| 0 <= j < k ==> self.entries@[j].original@ != text@,
        {
            let e = &self.entries[k];
            if e.original == *text {
                proof {
                    let f = first_reroute(self.entries@, text@);
                    let c = choose|q: int|
                        0 <= q < self.entries@.len() && #[trigger] self.entries@[q].original@ == text@ && forall|j: int|
                            0 <= j < q ==> self.entries@[j].original@ != text@;
                    assert(self.entries@[k as int].original@ == text@);
                    assert(f == Some(c));
                    assert(c == k as int) by {
                        if c < k as int {
                        } else if c > k as int {
                        }
                    }
                }
                let n = e.candidates.len();
                if !flags.get(e.gate) || n == 0 {
                    return None;
                }
                return Some(e.candidates[roll % n].clone());
            }
        }
        proof {
            assert(!exists|q: int| 0 <= q < self.entries@.len() && #[trigger] self.entries@[q].original@ == text@);
        }
        None
    }
}

/// Registers the death-screen swaps.
pub fn register_you_died(reg: &mut RerouteRegistry)
    ensures
        final(reg).entries@.len() == old(reg).entries@.len() + 2,
        forall|k: int| 0 <= k < old(reg).entries@.len() ==> #[trigger] final(reg).entries@[k] == old(reg).entries@[k],
{
    let candidates: [&str; 26] = [
        "SKILL ISSUE",
        "NO BITCHES?",
        "AMONG US",
        "OW OOF HOT",
        "SMURF'D",
        "SPECTACLE WRIGGLED",
        "YOU DIED",
        "GUARDS ALERTED",
        "COPE HARDER",
        "TOUCH GRASS",
        "YOU GARFED",
        "OW OOF COLD",
        "I DID NOT SURVIVE",
        "WOW",
        "DAMAGE MANAGED",
        "SKILL CATASTROPHE",
        "TIM BURTON LAND",
        "A MIMIR",
        "PENIS DESTROYED",
        "FUCKING OBAMA NATION",
        "IT'S SPREADING",
        "GET MIYAZAKI'D",
        "WELCOME TO YOUKOSO JAPARI PARK",
        "FORESKIN EVISCERATED",
        "JOHN F. KENNEDY",
        "AMERICAN TRAFFIC",
    ];
    reg.reroute("YOU DIED", &candidates, Flag::SillyYouDied);
    reg.reroute("GREAT ENEMY FELLED", &["GREAT ENEMY FELLED", "BALLS CRUNCHED"], Flag::SillyYouDied);
}

/// Registers the area-name swaps.
pub fn register_area_names(reg: &mut RerouteRegistry)
    ensures
        final(reg).entries@.len() == old(reg).entries@.len() + 3,
        forall|k: int| 0 <= k < old(reg).entries@.len() ==> #[trigger] final(reg).entries@[k] == old(reg).entries@[k],
{
    reg.reroute("Liurnia of the Lakes", &["Ligma of the Lakes", "Eastern Europe"], Flag::SillyAreaNames);
    reg.reroute("Caelid", &["Gary, Indiana", "Mexico", "Detroit"], Flag::SillyAreaNames);
    reg.reroute("Aeonia", &["Florida"], Flag::SillyAreaNames);
}

/// Registers the boss-name swaps.
pub fn register_boss_names(reg: &mut RerouteRegistry)
    ensures
        final(reg).entries@.len() == old(reg).entries@.len() + 11,
        forall|k: int| 0 <= k < old(reg).entries@.len() ==> #[trigger] final(reg).entries@[k] == old(reg).entries@[k],
{
    let g = Flag::SillyBossNames;
    reg.reroute("Margit", &["Margaret Thatcher", "Marge Simpson"], g);
    reg.reroute("The Fell Omen", &["the Fell Refund"], g);
    reg.reroute("Godrick the Grafted", &["Godrick the Garfted", "William Grafton", "Godrick the Minecrafted"], g);
    reg.reroute("Starscourge Radahn", &["Radahn, The Scourge of Reddit"], g);
    reg.reroute("Maliketh, the Black Blade", &["My Furry OC (Do NOT Steal)"], g);
    reg.reroute("Red Wolf of Radagon", &["What the Dog Doing"], g);
    reg.reroute("Godfrey", &["God Freed", "Jake Paul"], g);
    reg.reroute("First Elden Lord", &["Bastard of the Badlands"], g);
    reg.reroute("Grafted Scion", &["Spider-man"], g);
    reg.reroute("Ancestor Spirit", &["Bambi", "Canadian"], g);
    reg.reroute("Erdtree Avatar", &["Sapient Tree"], g);
}

/// Registers every silly swap: the death screen, area names, boss names.
pub fn init(reg: &mut RerouteRegistry)
    ensures
        final(reg).entries@.len() == old(reg).entries@.len() + 16,
        forall|k: int| 0 <= k < old(reg).entries@.len() ==> #[trigger] final(reg).entries@[k] == old(reg).entries@[k],
{
    register_you_died(reg);
    register_area_names(reg);
    register_boss_names(reg);
}

} // verus!
