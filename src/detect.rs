//! Detection of the events that happened between two snapshots.
use vstd::prelude::*;
use crate::snapshot::{active_weapon_spec, GameState, MatchStats, Player};
use crate::text::text_eq;
use crate::tree::{child, child_of, is_empty_tree, tree_get, is_text, number_of, opt_deref, Tree};

verus! {

/// Something that happened between two snapshots.
#[derive(Clone, Copy, Debug, PartialEq, Eq, Structural)]
pub enum EventType {
    Shoot,
    Kill,
    KnifeKill,
    SwitchWeapon,
    Death,
    MVP,
    NewRound,
}

/// The events of the weapon in hand: a switch to it, or else a shot.
pub open spec fn weapon_events(s: GameState, pp: Option<Tree>) -> Seq<EventType> {
    match active_weapon_spec(s) {
        Some((k, w)) => {
            let pw = child(child(pp, "weapons"@), k@);
            if pw is None {
                seq![]
            } else if is_text(child(pw, "state"@), "holstered"@) {
                seq![EventType::SwitchWeapon]
            } else {
                match (w.ammo_clip, number_of(child(pw, "ammo_clip"@))) {
                    (Some(a), Some(x)) => if (a as int) < (x as int) {
                        seq![EventType::Shoot]
                    } else {
                        seq![]
                    },
                    _ => seq![],
                }
            }
        },
        None => seq![],
    }
}

/// A death: health now zero, and recorded as nonzero before.
pub open spec fn death_events(p: Player, pp: Option<Tree>) -> Seq<EventType> {
    match (p.state, number_of(child(child(pp, "state"@), "health"@))) {
        (Some(st), Some(h)) => if st.health == 0 && h != 0 {
            seq![EventType::Death]
        } else {
            seq![]
        },
        _ => seq![],
    }
}

/// Whether the weapon in hand is a knife.
pub open spec fn knife_in_hand(s: GameState) -> bool {
    match active_weapon_spec(s) {
        Some((_k, w)) => w.weapon_type@ == "Knife"@,
        None => false,
    }
}

/// An MVP award: the count of awards went up.
pub open spec fn mvp_events(ms: MatchStats, ps: Option<Tree>) -> Seq<EventType> {
    match number_of(child(ps, "mvps"@)) {
        Some(m) => if (ms.mvps as int) > (m as int) {
            seq![EventType::MVP]
        } else {
            seq![]
        },
        None => seq![],
    }
}

/// A kill: the count of kills went up; with a knife in hand, a knife kill.
pub open spec fn kill_events(s: GameState, ms: MatchStats, ps: Option<Tree>) -> Seq<EventType> {
    match number_of(child(ps, "kills"@)) {
        Some(k) => if (ms.kills as int) > (k as int) {
            if knife_in_hand(s) {
                seq![EventType::KnifeKill]
            } else {
                seq![EventType::Kill]
            }
        } else {
            seq![]
        },
        None => seq![],
    }
}

/// An MVP award, then a kill, each when its count went up.
pub open spec fn stats_events(s: GameState, p: Player, pp: Option<Tree>) -> Seq<EventType> {
    let ps = child(pp, "match_stats"@);
    match p.match_stats {
        Some(ms) => if ps is Some {
            mvp_events(ms, ps) + kill_events(s, ms, ps)
        } else {
            seq![]
        },
        None => seq![],
    }
}

/// Whether the record names no other player than the one now observed.
pub open spec fn same_player(p: Player, pp: Option<Tree>) -> bool {
    let id = child(pp, "steamid"@);
    id is None || is_text(id, p.steamid@)
}

/// The events of the observed player.
pub open spec fn player_events(s: GameState, prev: Tree) -> Seq<EventType> {
    let pp = tree_child(prev, "player"@);
    match s.player {
        Some(p) => if pp is Some && same_player(p, pp) {
            weapon_events(s, pp) + death_events(p, pp) + stats_events(s, p, pp)
        } else {
            seq![]
        },
        None => seq![],
    }
}

pub open spec fn tree_child(t: Tree, key: Seq<char>) -> Option<Tree> {
    child(Some(t), key)
}

/// A new round: the phase went from "over" to "freezetime".
pub open spec fn round_events(s: GameState, prev: Tree) -> Seq<EventType> {
    match s.round {
        Some(r) => if r.phase@ == "freezetime"@ && is_text(
            child(tree_child(prev, "round"@), "phase"@),
            "over"@,
        ) {
            seq![EventType::NewRound]
        } else {
            seq![]
        },
        None => seq![],
    }
}

/// All the events between the snapshot before and `current`, whose changed
/// fields `prev` records, in rule order.
pub open spec fn detect_spec(current: GameState, prev: Tree) -> Seq<EventType> {
    player_events(current, prev) + round_events(current, prev)
}

fn weapon_rule(s: &GameState, pp: Option<&Tree>, out: &mut Vec<EventType>)
    ensures
        final(out)@ == old(out)@ + weapon_events(*s, opt_deref(pp)),
{
    match s.active_weapon() {
        Some(entry) => {
            let pw = child_of(child_of(pp, "weapons"), entry.0.as_str());
            if pw.is_none() {
                assert(final(out)@ =~= old(out)@ + weapon_events(*s, opt_deref(pp)));
                return;
            }
            let holstered = match child_of(pw, "state") {
                Some(st) => st.is_text("holstered"),
                None => false,
            };
            if holstered {
                out.push(EventType::SwitchWeapon);
            } else {
                match (entry.1.ammo_clip, child_of(pw, "ammo_clip")) {
                    (Some(a), Some(t)) => match t.as_number() {
                        Some(x) => {
                            if (a as i64) < x {
                                out.push(EventType::Shoot);
                            }
                        },
                        None => {},
                    },
                    _ => {},
                }
            }
        },
        None => {},
    }
    assert(final(out)@ =~= old(out)@ + weapon_events(*s, opt_deref(pp)));
}

fn death_rule(p: &Player, pp: Option<&Tree>, out: &mut Vec<EventType>)
    ensures
        final(out)@ == old(out)@ + death_events(*p, opt_deref(pp)),
{
    match (&p.state, child_of(child_of(pp, "state"), "health")) {
        (Some(st), Some(t)) => match t.as_number() {
            Some(h) => {
                if st.health == 0 && h != 0 {
                    out.push(EventType::Death);
                }
            },
            None => {},
        },
        _ => {},
    }
    assert(final(out)@ =~= old(out)@ + death_events(*p, opt_deref(pp)));
}

fn stats_rule(s: &GameState, p: &Player, pp: Option<&Tree>, out: &mut Vec<EventType>)
    ensures
        final(out)@ == old(out)@ + stats_events(*s, *p, opt_deref(pp)),
{
    let ps = child_of(pp, "match_stats");
    match &p.match_stats {
        Some(ms) => {
            if ps.is_none() {
                assert(final(out)@ =~= old(out)@ + stats_events(*s, *p, opt_deref(pp)));
                return;
            }
            match child_of(ps, "mvps") {
                Some(t) => match t.as_number() {
                    Some(m) => {
                        if ms.mvps as i64 > m {
                            out.push(EventType::MVP);
                        }
                    },
                    None => {},
                },
                None => {},
            }
            let ghost mid = out@;
            assert(mid =~= old(out)@ + mvp_events(*ms, opt_deref(ps)));
            match child_of(ps, "kills") {
                Some(t) => match t.as_number() {
                    Some(k) => {
                        if ms.kills as i64 > k {
                            let knife = match s.active_weapon() {
                                Some(entry) => text_eq(entry.1.weapon_type.as_str(), "Knife"),
                                None => false,
                            };
                            if knife {
                                out.push(EventType::KnifeKill);
                            } else {
                                out.push(EventType::Kill);
                            }
                        }
                    },
                    None => {},
                },
                None => {},
            }
            assert(out@ =~= mid + kill_events(*s, *ms, opt_deref(ps)));
        },
        None => {},
    }
    assert(final(out)@ =~= old(out)@ + stats_events(*s, *p, opt_deref(pp)));
}

/// The events between the snapshot before and `current`, given the record
/// `previous` of the fields that changed. A rule whose inputs are missing is
/// skipped; a record that names another player skips every rule of the player.
pub fn detect(current: &GameState, previous: &Tree) -> (r: Vec<EventType>)
    ensures
        r@ == detect_spec(*current, *previous),
{
    let mut out: Vec<EventType> = Vec::new();
    let pp = previous.get("player");
    match &current.player {
        Some(p) => {
            if pp.is_some() {
                let same = match child_of(pp, "steamid") {
                    Some(id) => id.is_text(p.steamid.as_str()),
                    None => true,
                };
                if same {
                    weapon_rule(current, pp, &mut out);
                    death_rule(p, pp, &mut out);
                    stats_rule(current, p, pp, &mut out);
                }
            }
        },
        None => {},
    }
    match &current.round {
        Some(r) => {
            if text_eq(r.phase.as_str(), "freezetime") {
                let phase = child_of(previous.get("round"), "phase");
                let over = match phase {
                    Some(t) => t.is_text("over"),
                    None => false,
                };
                if over {
                    out.push(EventType::NewRound);
                }
            }
        },
        None => {},
    }
    assert(out@ =~= detect_spec(*current, *previous));
    out
}

/// How many times `e` occurs in `s`.
pub open spec fn count(s: Seq<EventType>, e: EventType) -> nat
    decreases s.len(),
{
    if s.len() == 0 {
        0
    } else {
        count(s.drop_last(), e) + if s.last() == e {
            1nat
        } else {
            0nat
        }
    }
}

proof fn lemma_count_add(a: Seq<EventType>, b: Seq<EventType>, e: EventType)
    ensures
        count(a + b, e) == count(a, e) + count(b, e),
    decreases b.len(),
{
    if b.len() > 0 {
        assert((a + b).drop_last() =~= a + b.drop_last());
        lemma_count_add(a, b.drop_last(), e);
    } else {
        assert(a + b =~= a);
    }
}

proof fn lemma_count_small(s: Seq<EventType>, e: EventType)
    requires
        s.len() <= 1,
    ensures
        count(s, e) == if s.len() == 1 && s[0] == e {
            1nat
        } else {
            0nat
        },
{
    if s.len() == 1 {
        assert(s.drop_last().len() == 0);
        assert(count(s.drop_last(), e) == 0);
        assert(s.last() == s[0]);
    }
}

/// The count of `e` in the output is the sum of its counts over the rules.
proof fn lemma_count_rules(s: GameState, prev: Tree, e: EventType)
    ensures
        count(detect_spec(s, prev), e) == count(player_events(s, prev), e) + count(round_events(s, prev), e),
        count(round_events(s, prev), e) == if e == EventType::NewRound && round_events(s, prev).len() == 1 {
            1nat
        } else {
            0nat
        },
        s.player matches Some(p) ==> {
            let pp = tree_child(prev, "player"@);
            pp is Some && same_player(p, pp) ==> count(player_events(s, prev), e) == count(weapon_events(s, pp), e)
                + count(death_events(p, pp), e) + count(stats_events(s, p, pp), e)
        },
        s.player matches Some(p) ==> {
            let pp = tree_child(prev, "player"@);
            let ps = child(pp, "match_stats"@);
            p.match_stats matches Some(ms) ==> (ps is Some ==> count(stats_events(s, p, pp), e) == count(
                mvp_events(ms, ps),
                e,
            ) + count(kill_events(s, ms, ps), e))
        },
{
    lemma_count_add(player_events(s, prev), round_events(s, prev), e);
    lemma_count_small(round_events(s, prev), e);
    if let Some(p) = s.player {
        let pp = tree_child(prev, "player"@);
        let w = weapon_events(s, pp);
        let d = death_events(p, pp);
        let st = stats_events(s, p, pp);
        lemma_count_add(w + d, st, e);
        lemma_count_add(w, d, e);
        if let Some(ms) = p.match_stats {
            let ps = child(pp, "match_stats"@);
            lemma_count_add(mvp_events(ms, ps), kill_events(s, ms, ps), e);
        }
    }
}

/// With no field recorded as changed, nothing happened.
pub proof fn lemma_no_change_no_events(s: GameState, prev: Tree)
    requires
        is_empty_tree(prev),
    ensures
        detect_spec(s, prev) == Seq::<EventType>::empty(),
{
    assert(tree_get(prev, "player"@) is None);
    assert(tree_get(prev, "round"@) is None);
    assert(detect_spec(s, prev) =~= Seq::<EventType>::empty());
}

/// A record that names another player than the one observed yields none of
/// the player's events: only a new round can be detected.
pub proof fn lemma_other_player_no_player_events(s: GameState, prev: Tree)
    requires
        s.player is Some,
        child(tree_child(prev, "player"@), "steamid"@) is Some,
        !is_text(child(tree_child(prev, "player"@), "steamid"@), s.player.unwrap().steamid@),
    ensures
        detect_spec(s, prev) == round_events(s, prev),
{
    assert(detect_spec(s, prev) =~= round_events(s, prev));
}

/// The facts a law about the weapon in hand starts from: the player is
/// observed, the record is about that player and about the weapon in hand.
pub open spec fn weapon_recorded(s: GameState, prev: Tree) -> bool {
    let pp = tree_child(prev, "player"@);
    &&& s.player is Some
    &&& same_player(s.player.unwrap(), pp)
    &&& active_weapon_spec(s) is Some
    &&& child(child(pp, "weapons"@), active_weapon_spec(s).unwrap().0@) is Some
}

/// What the record holds of the weapon in hand.
pub open spec fn recorded_weapon(s: GameState, prev: Tree) -> Option<Tree> {
    child(child(tree_child(prev, "player"@), "weapons"@), active_weapon_spec(s).unwrap().0@)
}

/// Ammunition that went down in the weapon in hand, which was not recorded
/// as holstered, is exactly one shot.
pub proof fn lemma_ammo_drop_one_shot(s: GameState, prev: Tree, a: i32, x: i64)
    requires
        weapon_recorded(s, prev),
        !is_text(child(recorded_weapon(s, prev), "state"@), "holstered"@),
        active_weapon_spec(s).unwrap().1.ammo_clip == Some(a),
        number_of(child(recorded_weapon(s, prev), "ammo_clip"@)) == Some(x),
        (a as int) < (x as int),
    ensures
        count(detect_spec(s, prev), EventType::Shoot) == 1,
{
    let p = s.player.unwrap();
    let pp = tree_child(prev, "player"@);
    lemma_count_rules(s, prev, EventType::Shoot);
    lemma_count_small(weapon_events(s, pp), EventType::Shoot);
    lemma_count_small(death_events(p, pp), EventType::Shoot);
    lemma_stats_no_weapon_events(s, p, pp, EventType::Shoot);
}

/// A weapon recorded as holstered before is exactly one switch, and no shot
/// even where its ammunition went down.
pub proof fn lemma_holstered_one_switch(s: GameState, prev: Tree)
    requires
        weapon_recorded(s, prev),
        is_text(child(recorded_weapon(s, prev), "state"@), "holstered"@),
    ensures
        count(detect_spec(s, prev), EventType::SwitchWeapon) == 1,
        count(detect_spec(s, prev), EventType::Shoot) == 0,
{
    let p = s.player.unwrap();
    let pp = tree_child(prev, "player"@);
    lemma_count_rules(s, prev, EventType::Shoot);
    lemma_count_rules(s, prev, EventType::SwitchWeapon);
    lemma_count_small(weapon_events(s, pp), EventType::Shoot);
    lemma_count_small(weapon_events(s, pp), EventType::SwitchWeapon);
    lemma_count_small(death_events(p, pp), EventType::Shoot);
    lemma_count_small(death_events(p, pp), EventType::SwitchWeapon);
    lemma_stats_no_weapon_events(s, p, pp, EventType::Shoot);
    lemma_stats_no_weapon_events(s, p, pp, EventType::SwitchWeapon);
}

proof fn lemma_stats_no_weapon_events(s: GameState, p: Player, pp: Option<Tree>, e: EventType)
    requires
        e != EventType::MVP,
        e != EventType::Kill,
        e != EventType::KnifeKill,
    ensures
        count(stats_events(s, p, pp), e) == 0,
{
    if let Some(ms) = p.match_stats {
        let ps = child(pp, "match_stats"@);
        lemma_count_add(mvp_events(ms, ps), kill_events(s, ms, ps), e);
        lemma_count_small(mvp_events(ms, ps), e);
        lemma_count_small(kill_events(s, ms, ps), e);
    }
}

/// Health that went from nonzero to zero is exactly one death.
pub proof fn lemma_health_zero_one_death(s: GameState, prev: Tree, h: i64)
    requires
        s.player is Some,
        same_player(s.player.unwrap(), tree_child(prev, "player"@)),
        s.player.unwrap().state is Some,
        s.player.unwrap().state.unwrap().health == 0,
        number_of(child(child(tree_child(prev, "player"@), "state"@), "health"@)) == Some(h),
        h != 0,
    ensures
        count(detect_spec(s, prev), EventType::Death) == 1,
{
    let p = s.player.unwrap();
    let pp = tree_child(prev, "player"@);
    lemma_count_rules(s, prev, EventType::Death);
    lemma_count_small(weapon_events(s, pp), EventType::Death);
    lemma_count_small(death_events(p, pp), EventType::Death);
    lemma_stats_no_weapon_events(s, p, pp, EventType::Death);
}

/// A kill count that went up is exactly one knife kill with a knife in hand,
/// and otherwise exactly one kill.
pub proof fn lemma_kills_up_one_kill(s: GameState, prev: Tree, k: i64)
    requires
        s.player is Some,
        same_player(s.player.unwrap(), tree_child(prev, "player"@)),
        s.player.unwrap().match_stats is Some,
        number_of(child(child(tree_child(prev, "player"@), "match_stats"@), "kills"@)) == Some(k),
        (k as int) < (s.player.unwrap().match_stats.unwrap().kills as int),
    ensures
        knife_in_hand(s) ==> count(detect_spec(s, prev), EventType::KnifeKill) == 1 && count(
            detect_spec(s, prev),
            EventType::Kill,
        ) == 0,
        !knife_in_hand(s) ==> count(detect_spec(s, prev), EventType::Kill) == 1 && count(
            detect_spec(s, prev),
            EventType::KnifeKill,
        ) == 0,
{
    let p = s.player.unwrap();
    let ms = p.match_stats.unwrap();
    let pp = tree_child(prev, "player"@);
    let ps = child(pp, "match_stats"@);
    lemma_count_rules(s, prev, EventType::Kill);
    lemma_count_rules(s, prev, EventType::KnifeKill);
    lemma_count_small(weapon_events(s, pp), EventType::Kill);
    lemma_count_small(weapon_events(s, pp), EventType::KnifeKill);
    lemma_count_small(death_events(p, pp), EventType::Kill);
    lemma_count_small(death_events(p, pp), EventType::KnifeKill);
    lemma_count_small(mvp_events(ms, ps), EventType::Kill);
    lemma_count_small(mvp_events(ms, ps), EventType::KnifeKill);
    lemma_count_small(kill_events(s, ms, ps), EventType::Kill);
    lemma_count_small(kill_events(s, ms, ps), EventType::KnifeKill);
}

/// A round phase that went from "over" to "freezetime" is exactly one new
/// round, and it comes last.
pub proof fn lemma_round_over_new_round(s: GameState, prev: Tree)
    requires
        s.round is Some,
        s.round.unwrap().phase@ == "freezetime"@,
        is_text(child(tree_child(prev, "round"@), "phase"@), "over"@),
    ensures
        count(detect_spec(s, prev), EventType::NewRound) == 1,
        detect_spec(s, prev).last() == EventType::NewRound,
{
    lemma_count_rules(s, prev, EventType::NewRound);
    lemma_player_no_new_round(s, prev);
}

/// The player's rules never yield a new round.
pub proof fn lemma_player_no_new_round(s: GameState, prev: Tree)
    ensures
        count(player_events(s, prev), EventType::NewRound) == 0,
{
    if let Some(p) = s.player {
        let pp = tree_child(prev, "player"@);
        lemma_count_rules(s, prev, EventType::NewRound);
        lemma_count_small(weapon_events(s, pp), EventType::NewRound);
        lemma_count_small(death_events(p, pp), EventType::NewRound);
        lemma_stats_no_weapon_events(s, p, pp, EventType::NewRound);
    }
}

} // verus!
