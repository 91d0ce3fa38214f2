//! The typed snapshot of a match. Every section is optional: absence means
//! that the value is unknown.
use vstd::prelude::*;
use crate::text::text_eq;
use crate::tree::Tree;

verus! {

#[derive(Debug)]
pub struct AuthState {
    pub token: String,
}

#[derive(Debug)]
pub struct TeamInfo {
    pub consecutive_round_losses: i32,
    pub matches_won_this_series: i32,
    pub name: Option<String>,
    pub score: i32,
    pub timeouts_remaining: i32,
}

#[derive(Debug)]
pub struct MapState {
    pub current_spectators: i32,
    pub mode: String,
    pub name: String,
    pub num_matches_to_win_series: i32,
    pub phase: String,
    pub round: i32,
    /// The winner of each finished round, keyed by the round's number in
    /// decimal.
    pub round_wins: Option<Vec<(String, String)>>,
    pub souvenirs_total: i32,
    pub team_ct: TeamInfo,
    pub team_t: TeamInfo,
}

#[derive(Debug)]
pub struct MatchStats {
    pub assists: i32,
    pub deaths: i32,
    pub kills: i32,
    pub mvps: i32,
    pub score: i32,
}

/// The vitals of a player, in whole units (health and armor out of 100,
/// flashed, burning and smoked out of 255).
#[derive(Debug)]
pub struct PlayerState {
    pub armor: i32,
    pub burning: i32,
    pub equip_value: i32,
    pub flashed: i32,
    pub health: i32,
    pub helmet: bool,
    pub money: i32,
    pub round_killhs: i32,
    pub round_kills: i32,
    pub smoked: i32,
}

#[derive(Debug)]
pub struct Weapon {
    pub ammo_clip: Option<i32>,
    pub ammo_clip_max: Option<i32>,
    pub ammo_reserve: Option<i32>,
    pub name: String,
    pub paintkit: String,
    /// "active", "reloading" or "holstered".
    pub state: String,
    /// The kind of weapon, such as "Knife", "C4" or "Rifle".
    pub weapon_type: String,
}

#[derive(Debug)]
pub struct Player {
    pub activity: String,
    pub clan: Option<String>,
    pub match_stats: Option<MatchStats>,
    pub name: String,
    pub observer_slot: Option<i32>,
    pub state: Option<PlayerState>,
    pub steamid: String,
    pub team: Option<String>,
    /// The weapons carried, each under its slot name.
    pub weapons: Option<Vec<(String, Weapon)>>,
}

#[derive(Debug)]
pub struct ProviderState {
    pub appid: i32,
    pub name: String,
    pub steamid: String,
    pub timestamp: u64,
    pub version: i32,
}

#[derive(Debug)]
pub struct RoundState {
    pub bomb: Option<String>,
    pub phase: String,
    pub win_team: Option<String>,
}

/// One snapshot of the match, with the record of what changed since the
/// one before it.
#[derive(Debug)]
pub struct GameState {
    pub auth: Option<AuthState>,
    pub map: Option<MapState>,
    pub player: Option<Player>,
    pub provider: Option<ProviderState>,
    pub round: Option<RoundState>,
    pub previously: Option<Tree>,
}

/// Whether a weapon is the one in hand.
pub open spec fn in_hand(w: Weapon) -> bool {
    w.state@ == "active"@ || w.state@ == "reloading"@
}

/// The first weapon in hand among `ws`.
pub open spec fn first_in_hand(ws: Seq<(String, Weapon)>) -> Option<(String, Weapon)>
    decreases ws.len(),
{
    if ws.len() == 0 {
        None
    } else if in_hand(ws[0].1) {
        Some(ws[0])
    } else {
        first_in_hand(ws.drop_first())
    }
}

/// The weapon in hand, with its slot name.
pub open spec fn active_weapon_spec(s: GameState) -> Option<(String, Weapon)> {
    match s.player {
        Some(p) => match p.weapons {
            Some(ws) => first_in_hand(ws@),
            None => None,
        },
        None => None,
    }
}

pub open spec fn opt_deref_entry(r: Option<&(String, Weapon)>) -> Option<(String, Weapon)> {
    match r {
        Some(e) => Some(*e),
        None => None,
    }
}

fn is_in_hand(w: &Weapon) -> (r: bool)
    ensures
        r == in_hand(*w),
{
    text_eq(w.state.as_str(), "active") || text_eq(w.state.as_str(), "reloading")
}

impl Default for GameState {
    /// The snapshot in which every section is absent.
    fn default() -> (r: GameState)
        ensures
            r.auth is None,
            r.map is None,
            r.player is None,
            r.provider is None,
            r.round is None,
            r.previously is None,
    {
        GameState { auth: None, map: None, player: None, provider: None, round: None, previously: None }
    }
}

impl GameState {
    /// The weapon in hand (state "active" or "reloading"), with its slot name.
    pub fn active_weapon(&self) -> (r: Option<&(String, Weapon)>)
        ensures
            opt_deref_entry(r) == active_weapon_spec(*self),
    {
        match &self.player {
            Some(player) => match &player.weapons {
                Some(weapons) => {
                    let mut i: usize = 0;
                    assert(weapons@.subrange(0, weapons@.len() as int) =~= weapons@);
                    while i < weapons.len()
                        invariant
                            i <= weapons@.len(),
                            active_weapon_spec(*self) == first_in_hand(
                                weapons@.subrange(i as int, weapons@.len() as int),
                            ),
                        decreases weapons@.len() - i,
                    {
                        proof {
                            let rest = weapons@.subrange(i as int, weapons@.len() as int);
                            assert(rest.drop_first() =~= weapons@.subrange(i + 1, weapons@.len() as int));
                            assert(rest[0] == weapons@[i as int]);
                        }
                        let entry: &(String, Weapon) = &weapons[i];
                        if is_in_hand(&entry.1) {
                            return Some(entry);
                        }
                        i = i + 1;
                    }
                    proof {
                        assert(weapons@.subrange(i as int, weapons@.len() as int).len() == 0);
                    }
                    None
                },
                None => None,
            },
            None => None,
        }
    }
}

} // verus!
