use game_lights::color::{Color, ONE};
use game_lights::detect::EventType;
use game_lights::engine::{Event, Overlays, Renderer, STRIP_LEN};
use game_lights::frame::do_rainbow;
use game_lights::shared::{Context, EventQueue};
use game_lights::snapshot::{GameState, MapState, MatchStats, Player, PlayerState, RoundState, TeamInfo, Weapon};
use game_lights::tree::Tree;

fn obj(entries: Vec<(&str, Tree)>) -> Tree {
    Tree::Object(entries.into_iter().map(|(k, v)| (k.to_string(), v)).collect())
}

fn team() -> TeamInfo {
    TeamInfo { consecutive_round_losses: 0, matches_won_this_series: 0, name: None, score: 0, timeouts_remaining: 4 }
}

fn map_state(wins: Option<Vec<(&str, &str)>>) -> MapState {
    MapState {
        current_spectators: 0,
        mode: "competitive".to_string(),
        name: "de_dust2".to_string(),
        num_matches_to_win_series: 0,
        phase: "live".to_string(),
        round: 3,
        round_wins: wins.map(|w| w.into_iter().map(|(k, v)| (k.to_string(), v.to_string())).collect()),
        souvenirs_total: 0,
        team_ct: team(),
        team_t: team(),
    }
}

fn round(phase: &str, win_team: Option<&str>) -> RoundState {
    RoundState { bomb: None, phase: phase.to_string(), win_team: win_team.map(|t| t.to_string()) }
}

fn weapon(kind: &str, clip: Option<i32>, clip_max: Option<i32>) -> Weapon {
    Weapon {
        ammo_clip: clip,
        ammo_clip_max: clip_max,
        ammo_reserve: None,
        name: "weapon".to_string(),
        paintkit: "default".to_string(),
        state: "active".to_string(),
        weapon_type: kind.to_string(),
    }
}

fn player(weapon_in_hand: Weapon, health: i32, armor: i32, flashed: i32, kills: i32, mvps: i32) -> Player {
    Player {
        activity: "playing".to_string(),
        clan: None,
        match_stats: Some(MatchStats { assists: 0, deaths: 0, kills, mvps, score: 0 }),
        name: "someone".to_string(),
        observer_slot: None,
        state: Some(PlayerState {
            armor,
            burning: 0,
            equip_value: 0,
            flashed,
            health,
            helmet: false,
            money: 0,
            round_killhs: 0,
            round_kills: 0,
            smoked: 0,
        }),
        steamid: "765".to_string(),
        team: None,
        weapons: Some(vec![("weapon_1".to_string(), weapon_in_hand)]),
    }
}

fn black() -> Vec<Color> {
    vec![Color(0, 0, 0); STRIP_LEN]
}

fn tick(r: &mut Renderer, ctx: &mut Context, now: u64) {
    let events = ctx.drain_events();
    r.tick(&events, &ctx.state, now);
}

#[test]
fn blank_frame_before_any_snapshot() {
    let mut ctx = Context::new();
    let mut r = Renderer::new();
    tick(&mut r, &mut ctx, 5);
    assert_eq!(r.frame, black());
    let bytes = r.frame_bytes();
    assert_eq!(bytes.len(), 2 + 3 * STRIP_LEN + 2);
    assert_eq!(&bytes[..2], &[4, 0]);
    assert_eq!(&bytes[bytes.len() - 2..], &[0, 0]);
}

#[test]
fn knife_kill_rainbow_then_base_layer() {
    let mut ctx = Context::new();
    let mut r = Renderer::new();
    let mut s = GameState::default();
    s.player = Some(player(weapon("Knife", None, None), 100, 0, 0, 5, 0));
    s.previously = Some(obj(vec![("player", obj(vec![("match_stats", obj(vec![("kills", Tree::Number(4))]))]))]));
    ctx.ingest(s);
    assert_eq!(ctx.queue.events, vec![EventType::KnifeKill]);

    tick(&mut r, &mut ctx, 1000);
    assert_eq!(r.overlays.kill_event, Some(Event { kind: EventType::KnifeKill, at_ms: 1000 }));
    let mut expected = black();
    do_rainbow(&mut expected, 1000, 1000, 2 * ONE);
    assert_eq!(r.frame, expected);
    assert_eq!(r.frame[0], Color(ONE, 0, 0));

    tick(&mut r, &mut ctx, 1500);
    let mut expected = black();
    do_rainbow(&mut expected, 1500, 1000, 2 * ONE - ONE / 4);
    assert_eq!(r.frame, expected);

    tick(&mut r, &mut ctx, 2000);
    let mut expected = black();
    do_rainbow(&mut expected, 2000, 1000, 2 * ONE - ONE / 2);
    assert_eq!(r.frame, expected);
    assert!(r.overlays.kill_event.is_some());

    // past one second the slot is cleared; this tick still shows it
    tick(&mut r, &mut ctx, 2001);
    assert!(r.overlays.kill_event.is_none());
    tick(&mut r, &mut ctx, 2002);
    assert_eq!(r.frame, black());
}

#[test]
fn knife_kill_expiry_leaves_last_event() {
    let mut o = Overlays::new();
    o.apply(EventType::Death, 0);
    o.apply(EventType::KnifeKill, 0);
    o.expire(1500);
    assert!(o.kill_event.is_none());
    assert_eq!(o.last_event, Some(Event { kind: EventType::Death, at_ms: 0 }));
}

#[test]
fn newest_event_replaces_slot() {
    let mut o = Overlays::new();
    o.apply_all(&vec![EventType::Shoot, EventType::Kill, EventType::SwitchWeapon], 70);
    assert_eq!(o.last_event, Some(Event { kind: EventType::Kill, at_ms: 70 }));
    assert_eq!(o.knife_start, 70);
    assert!(o.kill_event.is_none());
    o.expire(1070);
    assert!(o.last_event.is_some());
    o.expire(1071);
    assert!(o.last_event.is_none());
}

#[test]
fn shot_flash_fades_in_an_eighth_second() {
    let mut o = Overlays::new();
    o.apply(EventType::Shoot, 0);
    let mut r = Renderer::new();
    r.overlays = o;
    let s = GameState::default();
    r.tick(&vec![], &s, 0);
    assert_eq!(r.frame, vec![Color(ONE, ONE, ONE / 4); STRIP_LEN]);
    r.tick(&vec![], &s, 62);
    // alpha = 1 - 62 * 8 / 1000
    let a = ONE - 62 * 8 * ONE / 1000;
    assert_eq!(r.frame[0], Color(a, a, a / 4));
    r.tick(&vec![], &s, 126);
    assert!(r.overlays.last_event.is_none());
    r.tick(&vec![], &s, 127);
    assert_eq!(r.frame, black());
}

#[test]
fn death_turns_strip_red() {
    let mut r = Renderer::new();
    r.overlays.apply(EventType::Death, 100);
    let mut s = GameState::default();
    s.map = Some(map_state(None));
    s.round = Some(round("live", Some("CT")));
    r.tick(&vec![], &s, 2100);
    assert_eq!(r.frame, vec![Color(ONE / 2, 0, 0); STRIP_LEN]);
}

#[test]
fn mvp_then_new_round() {
    let mut ctx = Context::new();
    let mut r = Renderer::new();
    let mut s = GameState::default();
    s.map = Some(map_state(None));
    s.round = Some(round("live", None));
    s.player = Some(player(weapon("Rifle", Some(30), Some(30)), 100, 100, 0, 0, 1));
    s.previously = Some(obj(vec![("player", obj(vec![("match_stats", obj(vec![("mvps", Tree::Number(0))]))]))]));
    ctx.ingest(s);
    tick(&mut r, &mut ctx, 10);
    assert!(r.overlays.mvp);
    let mut expected = black();
    do_rainbow(&mut expected, 10, 1000, ONE);
    assert_eq!(r.frame, expected);

    let mut s = GameState::default();
    s.map = Some(map_state(None));
    s.round = Some(round("freezetime", None));
    s.previously = Some(obj(vec![("round", obj(vec![("phase", Tree::Text("over".to_string()))]))]));
    ctx.ingest(s);
    tick(&mut r, &mut ctx, 20);
    assert!(!r.overlays.mvp);
    assert_eq!(r.frame, black());
}

#[test]
fn winning_team_fills_strip() {
    let mut ctx = Context::new();
    let mut r = Renderer::new();
    let mut s = GameState::default();
    s.map = Some(map_state(None));
    s.round = Some(round("over", Some("CT")));
    ctx.ingest(s);
    tick(&mut r, &mut ctx, 0);
    assert_eq!(r.frame, vec![Color(6554, 19661, ONE); STRIP_LEN]);
    let mut s = GameState::default();
    s.map = Some(map_state(None));
    s.round = Some(round("over", Some("T")));
    ctx.ingest(s);
    tick(&mut r, &mut ctx, 0);
    assert_eq!(r.frame, vec![Color(ONE, 32768, 6554); STRIP_LEN]);
}

#[test]
fn freezetime_shows_round_history() {
    let mut ctx = Context::new();
    let mut r = Renderer::new();
    let mut s = GameState::default();
    s.map = Some(map_state(Some(vec![("2", "t_win_bomb"), ("1", "ct_win_elimination")])));
    s.round = Some(round("freezetime", None));
    ctx.ingest(s);
    tick(&mut r, &mut ctx, 0);
    // round 1 covers the whole strip, round 2 the second half
    assert_eq!(r.frame[0], Color(6554, 19661, ONE));
    assert_eq!(r.frame[29], Color(6554, 19661, ONE));
    assert_eq!(r.frame[30], Color(ONE, 32768, 6554));
    assert_eq!(r.frame[59], Color(ONE, 32768, 6554));
}

#[test]
fn status_bars_for_ammo_health_armor() {
    let mut ctx = Context::new();
    let mut r = Renderer::new();
    let mut s = GameState::default();
    s.map = Some(map_state(None));
    s.round = Some(round("live", None));
    s.player = Some(player(weapon("Rifle", Some(15), Some(30)), 50, 100, 0, 0, 0));
    ctx.ingest(s);
    tick(&mut r, &mut ctx, 0);
    assert_eq!(r.frame[0], Color(ONE / 2, ONE / 2, ONE / 2));
    assert_eq!(r.frame[29], Color(ONE / 2, ONE / 2, ONE / 2));
    assert_eq!(r.frame[30], Color(0, 0, ONE / 2));
    assert_eq!(r.frame[59], Color(0, 0, ONE / 2));
}

#[test]
fn knife_and_bomb_pulses() {
    let mut r = Renderer::new();
    let mut s = GameState::default();
    s.map = Some(map_state(None));
    s.round = Some(round("live", None));
    s.player = Some(player(weapon("Knife", None, None), 100, 0, 0, 0, 0));
    r.tick(&vec![], &s, 0);
    // weight 1/2 of a dim red
    assert_eq!(r.frame[0], Color(13107 / 2, 0, 0));
    r.tick(&vec![], &s, 1000);
    assert_eq!(r.frame[0], Color(0, 0, 0));
    s.player = Some(player(weapon("C4", None, None), 100, 0, 0, 0, 0));
    r.tick(&vec![], &s, 125);
    assert_eq!(r.frame[0], Color(6554, 6554, 0));
    r.tick(&vec![], &s, 250);
    assert_eq!(r.frame[0], Color(6554 / 4, 6554 / 4, 0));
}

#[test]
fn full_flash_is_white() {
    let mut r = Renderer::new();
    let mut s = GameState::default();
    s.player = Some(player(weapon("Rifle", None, None), 100, 0, 255, 0, 0));
    r.tick(&vec![], &s, 0);
    assert_eq!(r.frame, vec![Color(ONE, ONE, ONE); STRIP_LEN]);
}

#[test]
fn queue_drains_in_order() {
    let mut q = EventQueue::new();
    q.append(EventType::Shoot);
    q.append(EventType::NewRound);
    assert_eq!(q.drain_all(), vec![EventType::Shoot, EventType::NewRound]);
    assert_eq!(q.drain_all(), vec![]);
}
