use game_lights::detect::{detect, EventType};
use game_lights::snapshot::{GameState, MatchStats, Player, PlayerState, RoundState, Weapon};
use game_lights::tree::Tree;

fn obj(entries: Vec<(&str, Tree)>) -> Tree {
    Tree::Object(entries.into_iter().map(|(k, v)| (k.to_string(), v)).collect())
}

fn text(s: &str) -> Tree {
    Tree::Text(s.to_string())
}

fn weapon(kind: &str, state: &str, clip: Option<i32>) -> Weapon {
    Weapon {
        ammo_clip: clip,
        ammo_clip_max: clip.map(|_| 30),
        ammo_reserve: None,
        name: format!("weapon_{}", kind.to_lowercase()),
        paintkit: "default".to_string(),
        state: state.to_string(),
        weapon_type: kind.to_string(),
    }
}

fn vitals(health: i32) -> PlayerState {
    PlayerState {
        armor: 100,
        burning: 0,
        equip_value: 0,
        flashed: 0,
        health,
        helmet: true,
        money: 800,
        round_killhs: 0,
        round_kills: 0,
        smoked: 0,
    }
}

fn stats(kills: i32, mvps: i32) -> MatchStats {
    MatchStats { assists: 0, deaths: 0, kills, mvps, score: 0 }
}

fn player(steamid: &str, weapons: Vec<(&str, Weapon)>, health: i32, kills: i32, mvps: i32) -> Player {
    Player {
        activity: "playing".to_string(),
        clan: None,
        match_stats: Some(stats(kills, mvps)),
        name: "someone".to_string(),
        observer_slot: Some(1),
        state: Some(vitals(health)),
        steamid: steamid.to_string(),
        team: Some("CT".to_string()),
        weapons: Some(weapons.into_iter().map(|(k, w)| (k.to_string(), w)).collect()),
    }
}

fn with_player(p: Player) -> GameState {
    let mut s = GameState::default();
    s.player = Some(p);
    s
}

fn rifle_player(clip: i32) -> Player {
    player(
        "765",
        vec![("weapon_0", weapon("Knife", "holstered", None)), ("weapon_1", weapon("Rifle", "active", Some(clip)))],
        100,
        0,
        0,
    )
}

#[test]
fn empty_record_gives_no_events() {
    let mut s = with_player(rifle_player(20));
    s.round = Some(RoundState { bomb: None, phase: "freezetime".to_string(), win_team: None });
    assert_eq!(detect(&s, &obj(vec![])), vec![]);
    assert_eq!(detect(&s, &Tree::Null), vec![]);
}

#[test]
fn ammo_drop_is_one_shot() {
    let s = with_player(rifle_player(20));
    let prev = obj(vec![("player", obj(vec![("weapons", obj(vec![("weapon_1", obj(vec![("ammo_clip", Tree::Number(21))]))]))]))]);
    assert_eq!(detect(&s, &prev), vec![EventType::Shoot]);
}

#[test]
fn ammo_drop_with_active_previous_state_is_one_shot() {
    let s = with_player(rifle_player(20));
    let prev = obj(vec![(
        "player",
        obj(vec![("weapons", obj(vec![("weapon_1", obj(vec![("state", text("reloading")), ("ammo_clip", Tree::Number(30))]))]))]),
    )]);
    assert_eq!(detect(&s, &prev), vec![EventType::Shoot]);
}

#[test]
fn ammo_rise_is_no_shot() {
    let s = with_player(rifle_player(30));
    let prev = obj(vec![("player", obj(vec![("weapons", obj(vec![("weapon_1", obj(vec![("ammo_clip", Tree::Number(5))]))]))]))]);
    assert_eq!(detect(&s, &prev), vec![]);
}

#[test]
fn holstered_weapon_is_one_switch_and_no_shot() {
    let s = with_player(rifle_player(20));
    let prev = obj(vec![(
        "player",
        obj(vec![("weapons", obj(vec![("weapon_1", obj(vec![("state", text("holstered")), ("ammo_clip", Tree::Number(25))]))]))]),
    )]);
    assert_eq!(detect(&s, &prev), vec![EventType::SwitchWeapon]);
}

#[test]
fn other_player_suppresses_player_events() {
    let mut s = with_player(rifle_player(20));
    s.round = Some(RoundState { bomb: None, phase: "freezetime".to_string(), win_team: None });
    let prev = obj(vec![
        (
            "player",
            obj(vec![
                ("steamid", text("999")),
                ("weapons", obj(vec![("weapon_1", obj(vec![("ammo_clip", Tree::Number(21))]))])),
                ("state", obj(vec![("health", Tree::Number(100))])),
                ("match_stats", obj(vec![("kills", Tree::Number(-1))])),
            ]),
        ),
        ("round", obj(vec![("phase", text("over"))])),
    ]);
    assert_eq!(detect(&s, &prev), vec![EventType::NewRound]);
}

#[test]
fn same_player_id_keeps_player_events() {
    let s = with_player(rifle_player(20));
    let prev = obj(vec![(
        "player",
        obj(vec![("steamid", text("765")), ("weapons", obj(vec![("weapon_1", obj(vec![("ammo_clip", Tree::Number(21))]))]))]),
    )]);
    assert_eq!(detect(&s, &prev), vec![EventType::Shoot]);
}

#[test]
fn health_to_zero_is_one_death() {
    let s = with_player(player("765", vec![], 0, 0, 0));
    let prev = obj(vec![("player", obj(vec![("state", obj(vec![("health", Tree::Number(37))]))]))]);
    assert_eq!(detect(&s, &prev), vec![EventType::Death]);
    let still_dead = obj(vec![("player", obj(vec![("state", obj(vec![("health", Tree::Number(0))]))]))]);
    assert_eq!(detect(&s, &still_dead), vec![]);
}

#[test]
fn kill_with_rifle_is_kill() {
    let s = with_player(player("765", vec![("weapon_1", weapon("Rifle", "active", Some(10)))], 100, 3, 0));
    let prev = obj(vec![("player", obj(vec![("match_stats", obj(vec![("kills", Tree::Number(2))]))]))]);
    assert_eq!(detect(&s, &prev), vec![EventType::Kill]);
}

#[test]
fn kill_without_weapon_in_hand_is_kill() {
    let s = with_player(player("765", vec![], 100, 3, 0));
    let prev = obj(vec![("player", obj(vec![("match_stats", obj(vec![("kills", Tree::Number(2))]))]))]);
    assert_eq!(detect(&s, &prev), vec![EventType::Kill]);
}

#[test]
fn knife_kill_from_four_to_five() {
    let s = with_player(player(
        "765",
        vec![("weapon_0", weapon("Knife", "active", None)), ("weapon_1", weapon("Pistol", "holstered", Some(12)))],
        100,
        5,
        0,
    ));
    let prev = obj(vec![("player", obj(vec![("match_stats", obj(vec![("kills", Tree::Number(4))]))]))]);
    assert_eq!(detect(&s, &prev), vec![EventType::KnifeKill]);
}

#[test]
fn mvp_then_kill_in_rule_order() {
    let s = with_player(player("765", vec![("weapon_1", weapon("Rifle", "active", Some(10)))], 100, 3, 2));
    let prev = obj(vec![("player", obj(vec![("match_stats", obj(vec![("kills", Tree::Number(2)), ("mvps", Tree::Number(1))]))]))]);
    assert_eq!(detect(&s, &prev), vec![EventType::MVP, EventType::Kill]);
}

#[test]
fn round_over_to_freezetime_is_new_round() {
    let mut s = GameState::default();
    s.round = Some(RoundState { bomb: None, phase: "freezetime".to_string(), win_team: None });
    let prev = obj(vec![("round", obj(vec![("phase", text("over"))]))]);
    assert_eq!(detect(&s, &prev), vec![EventType::NewRound]);
    let live = obj(vec![("round", obj(vec![("phase", text("live"))]))]);
    assert_eq!(detect(&s, &live), vec![]);
}

#[test]
fn all_rules_fire_in_order() {
    let mut s = with_player(player("765", vec![("weapon_1", weapon("Rifle", "active", Some(10)))], 0, 3, 2));
    s.round = Some(RoundState { bomb: None, phase: "freezetime".to_string(), win_team: None });
    let prev = obj(vec![
        (
            "player",
            obj(vec![
                ("weapons", obj(vec![("weapon_1", obj(vec![("ammo_clip", Tree::Number(11))]))])),
                ("state", obj(vec![("health", Tree::Number(1))])),
                ("match_stats", obj(vec![("kills", Tree::Number(2)), ("mvps", Tree::Number(1))])),
            ]),
        ),
        ("round", obj(vec![("phase", text("over"))])),
    ]);
    assert_eq!(
        detect(&s, &prev),
        vec![EventType::Shoot, EventType::Death, EventType::MVP, EventType::Kill, EventType::NewRound]
    );
}

#[test]
fn ill_typed_record_skips_rules() {
    let s = with_player(rifle_player(20));
    let prev = obj(vec![("player", obj(vec![("weapons", obj(vec![("weapon_1", obj(vec![("ammo_clip", text("21"))]))]))]))]);
    assert_eq!(detect(&s, &prev), vec![]);
}

#[test]
fn active_weapon_is_first_in_hand() {
    let s = with_player(rifle_player(20));
    let e = s.active_weapon().unwrap();
    assert_eq!(e.0, "weapon_1");
    assert_eq!(e.1.weapon_type, "Rifle");
    assert!(GameState::default().active_weapon().is_none());
}
