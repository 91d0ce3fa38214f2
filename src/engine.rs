//! The animation engine: events become time-decaying overlays, and each tick
//! composes one frame from the current snapshot and the overlays.
use vstd::prelude::*;
use crate::color::{BlendMode, Color, ONE};
use crate::detect::EventType;
use crate::encode::{encode_spec, Instruction};
use crate::frame::{
    clear, clear_spec, do_rainbow, draw_line, fill, fill_spec, line_spec, rainbow_spec, MAX_PIXELS,
};
use crate::history::{round_history, round_history_spec};
use crate::snapshot::{active_weapon_spec, GameState, PlayerState, Weapon};
use crate::text::text_eq;

verus! {

/// The number of pixels of the strip.
pub const STRIP_LEN: usize = 60;

/// The period of a rainbow, in milliseconds.
pub const RAINBOW_MS: u64 = 1000;

/// The period of the knife pulse, in milliseconds.
pub const KNIFE_PERIOD_MS: u64 = 1321;

/// The period of the bomb pulse, in milliseconds.
pub const C4_PERIOD_MS: u64 = 250;

/// An event with the time at which the render loop took it in.
#[derive(Clone, Copy, Debug, PartialEq, Eq, Structural)]
pub struct Event {
    pub kind: EventType,
    /// Milliseconds since the render loop started.
    pub at_ms: u64,
}

/// The transient effects of the render loop.
#[derive(Clone, Copy, Debug, PartialEq, Eq, Structural)]
pub struct Overlays {
    /// When the weapon in hand was last switched to, in milliseconds.
    pub knife_start: u64,
    /// Whether the rainbow of an MVP award is on.
    pub mvp: bool,
    /// The newest shot, death or kill, with when it was taken in.
    pub last_event: Option<Event>,
    /// The newest knife kill, with when it was taken in.
    pub kill_event: Option<Event>,
}

/// The overlays after taking in `e` at `now`.
pub open spec fn apply_event_spec(o: Overlays, e: EventType, now: u64) -> Overlays {
    match e {
        EventType::SwitchWeapon => Overlays { knife_start: now, ..o },
        EventType::MVP => Overlays { mvp: true, ..o },
        EventType::NewRound => Overlays { mvp: false, ..o },
        EventType::Shoot | EventType::Death | EventType::Kill => Overlays {
            last_event: Some(Event { kind: e, at_ms: now }),
            ..o
        },
        EventType::KnifeKill => Overlays { kill_event: Some(Event { kind: e, at_ms: now }), ..o },
    }
}

/// The overlays after taking in `es` in order at `now`.
pub open spec fn fold_events(o: Overlays, es: Seq<EventType>, now: u64) -> Overlays
    decreases es.len(),
{
    if es.len() == 0 {
        o
    } else {
        apply_event_spec(fold_events(o, es.drop_last(), now), es.last(), now)
    }
}

/// The milliseconds from `t` to `now`; none where `now` comes first.
pub open spec fn elapsed(now: int, t: int) -> int {
    if now >= t {
        now - t
    } else {
        0
    }
}

/// `max(0, 1 - 8 d / 1000)`: a shot fades over 125 ms.
pub open spec fn shoot_alpha(d: int) -> int {
    if d >= 125 {
        0
    } else {
        ONE - d * 8 * ONE / 1000
    }
}

/// `max(0, 1 - d / 4000)`: a death fades over 4 s.
pub open spec fn death_alpha(d: int) -> int {
    if d >= 4000 {
        0
    } else {
        ONE - d * ONE / 4000
    }
}

/// `max(0, 1 - d / 1000)`: a kill fades over 1 s.
pub open spec fn kill_alpha(d: int) -> int {
    if d >= 1000 {
        0
    } else {
        ONE - d * ONE / 1000
    }
}

/// `max(0, 2 - d / 2000)`: the rainbow of a knife kill starts at weight 2.
pub open spec fn knife_kill_alpha(d: int) -> int {
    if d >= 4000 {
        0
    } else {
        2 * ONE - d * ONE / 2000
    }
}

/// `flashed / 255`; any flash of 255 or more turns the strip fully white.
pub open spec fn flash_alpha(flashed: int) -> int {
    if flashed >= 255 {
        ONE as int
    } else {
        flashed * ONE / 255
    }
}

/// The weight of the knife pulse `t` ms into its period: falling from 1/2
/// at twice the rate over the first quarter second, from 1/4 over the second,
/// then off.
pub open spec fn knife_pulse(t: int) -> int {
    if t < 250 {
        ONE / 2 - t * 2 * ONE / 1000
    } else if t < 500 {
        ONE / 2 - t * ONE / 1000
    } else {
        0
    }
}

/// The weight of the bomb pulse `t` ms into its period: a triangle wave
/// mapped into `[1/4, 1]`.
pub open spec fn c4_pulse(t: int) -> int {
    let tri = if t < 125 {
        t * 2 * ONE / 250
    } else {
        (500 - 2 * t) * ONE / 250
    };
    tri * 3 / 4 + ONE / 4
}

pub open spec fn ct_color() -> Color {
    Color(6554, 19661, ONE)
}

pub open spec fn t_color() -> Color {
    Color(ONE, 32768, 6554)
}

/// The color of a team: the counter-terrorists' or the terrorists'.
pub open spec fn team_color(ct: bool) -> Color {
    if ct {
        ct_color()
    } else {
        t_color()
    }
}

pub open spec fn knife_color() -> Color {
    Color(13107, 0, 0)
}

pub open spec fn c4_color() -> Color {
    Color(6554, 6554, 0)
}

pub open spec fn shoot_color() -> Color {
    Color(ONE, ONE, 16384)
}

pub open spec fn kill_color() -> Color {
    Color(ONE, ONE, 0)
}

pub open spec fn red() -> Color {
    Color(ONE, 0, 0)
}

pub open spec fn white() -> Color {
    Color(ONE, ONE, ONE)
}

/// Where a bar for `v` out of `max` ends on a strip of `len` pixels.
pub open spec fn bar_end(len: int, v: int, max: int) -> int {
    let c = if v < 0 {
        0
    } else if v > max {
        max
    } else {
        v
    };
    len * ONE * c / max
}

/// The first `k` segments of the round history `h`: segment `i` runs from
/// `i / n` of the strip to its end in the winner's color.
pub open spec fn win_segments(f: Seq<Color>, h: Seq<(u64, bool)>, k: int) -> Seq<Color>
    decreases k,
{
    if k <= 0 {
        f
    } else {
        line_spec(
            win_segments(f, h, k - 1),
            (k - 1) * f.len() * ONE / (h.len() as int),
            f.len() * ONE,
            team_color(h[k - 1].1),
            BlendMode::Mix,
        )
    }
}

/// Bars from the first pixel for ammunition (red), health (green) and
/// armor (blue), added up.
pub open spec fn status_bars(f: Seq<Color>, clip: int, clip_max: int, st: PlayerState) -> Seq<Color> {
    let len = f.len() as int;
    let f1 = line_spec(f, 0, bar_end(len, clip, clip_max), Color(32768, 0, 0), BlendMode::Add);
    let f2 = line_spec(f1, 0, bar_end(len, st.health as int, 100), Color(0, 32768, 0), BlendMode::Add);
    line_spec(f2, 0, bar_end(len, st.armor as int, 100), Color(0, 0, 32768), BlendMode::Add)
}

/// The base layer in live play, by the weapon in hand.
pub open spec fn weapon_layer(s: GameState, o: Overlays, now: int, f: Seq<Color>) -> Seq<Color> {
    let d = elapsed(now, o.knife_start as int);
    match (s.player, active_weapon_spec(s)) {
        (Some(p), Some((_k, w))) => if w.weapon_type@ == "Knife"@ {
            fill_spec(f, knife_color(), knife_pulse(d % (KNIFE_PERIOD_MS as int)))
        } else if w.weapon_type@ == "C4"@ {
            fill_spec(f, c4_color(), c4_pulse(d % (C4_PERIOD_MS as int)))
        } else {
            match (w.ammo_clip, w.ammo_clip_max, p.state) {
                (Some(c), Some(mx), Some(st)) => if mx > 0 {
                    status_bars(f, c as int, mx as int, st)
                } else {
                    f
                },
                _ => f,
            }
        },
        _ => f,
    }
}

/// The base layer: the round history during freeze time, else the MVP
/// rainbow, else the winning team's color, else the weapon in hand.
pub open spec fn base_layer(s: GameState, o: Overlays, now: int, f: Seq<Color>) -> Seq<Color> {
    match (s.map, s.round) {
        (Some(m), Some(r)) => if r.phase@ == "freezetime"@ {
            match m.round_wins {
                Some(w) => match round_history_spec(w@) {
                    Some(h) => win_segments(f, h, h.len() as int),
                    None => f,
                },
                None => f,
            }
        } else if o.mvp {
            rainbow_spec(f, now, RAINBOW_MS as int, ONE as int)
        } else {
            match r.win_team {
                Some(t) => fill_spec(f, team_color(t@ == "CT"@), ONE as int),
                None => weapon_layer(s, o, now, f),
            }
        },
        _ => f,
    }
}

/// The overlay of the newest shot, death or kill.
pub open spec fn event_layer(o: Overlays, now: int, f: Seq<Color>) -> Seq<Color> {
    match o.last_event {
        Some(Event { kind: EventType::Shoot, at_ms: t }) => fill_spec(f, shoot_color(), shoot_alpha(elapsed(now, t as int))),
        Some(Event { kind: EventType::Death, at_ms: t }) => fill_spec(
            clear_spec(f.len()),
            red(),
            death_alpha(elapsed(now, t as int)),
        ),
        Some(Event { kind: EventType::Kill, at_ms: t }) => fill_spec(f, kill_color(), kill_alpha(elapsed(now, t as int))),
        _ => f,
    }
}

/// The rainbow of the newest knife kill.
pub open spec fn knife_kill_layer(o: Overlays, now: int, f: Seq<Color>) -> Seq<Color> {
    match o.kill_event {
        Some(Event { kind: EventType::KnifeKill, at_ms: t }) => rainbow_spec(
            f,
            now,
            RAINBOW_MS as int,
            knife_kill_alpha(elapsed(now, t as int)),
        ),
        _ => f,
    }
}

/// White over everything while the player is flashed.
pub open spec fn flash_layer(s: GameState, f: Seq<Color>) -> Seq<Color> {
    match s.player {
        Some(p) => match p.state {
            Some(st) => if st.flashed > 0 {
                fill_spec(f, white(), flash_alpha(st.flashed as int))
            } else {
                f
            },
            None => f,
        },
        None => f,
    }
}

/// The frame of `n` pixels composed at `now`.
pub open spec fn render_spec(s: GameState, o: Overlays, now: int, n: nat) -> Seq<Color> {
    flash_layer(s, knife_kill_layer(o, now, event_layer(o, now, base_layer(s, o, now, clear_spec(n)))))
}

/// The overlays once those past their time are cleared. A knife kill past
/// its second clears its own slot and leaves the newest shot, death or kill.
pub open spec fn expire_spec(o: Overlays, now: int) -> Overlays {
    let last = match o.last_event {
        Some(Event { kind: EventType::Shoot, at_ms: t }) => if elapsed(now, t as int) > 125 {
            None
        } else {
            o.last_event
        },
        Some(Event { kind: EventType::Death, at_ms: t }) => if elapsed(now, t as int) > 4000 {
            None
        } else {
            o.last_event
        },
        Some(Event { kind: EventType::Kill, at_ms: t }) => if elapsed(now, t as int) > 1000 {
            None
        } else {
            o.last_event
        },
        _ => o.last_event,
    };
    let kill = match o.kill_event {
        Some(Event { kind: EventType::KnifeKill, at_ms: t }) => if elapsed(now, t as int) > 1000 {
            None
        } else {
            o.kill_event
        },
        _ => o.kill_event,
    };
    Overlays { last_event: last, kill_event: kill, ..o }
}

impl Overlays {
    /// No effect pending; the weapon timer starts at zero.
    pub fn new() -> (r: Overlays)
        ensures
            r == (Overlays { knife_start: 0, mvp: false, last_event: None, kill_event: None }),
    {
        Overlays { knife_start: 0, mvp: false, last_event: None, kill_event: None }
    }

    /// Takes in one event at `now`; the newest event of a slot replaces the
    /// one it held.
    pub fn apply(&mut self, e: EventType, now: u64)
        ensures
            *final(self) == apply_event_spec(*old(self), e, now),
    {
        match e {
            EventType::SwitchWeapon => self.knife_start = now,
            EventType::MVP => self.mvp = true,
            EventType::NewRound => self.mvp = false,
            EventType::Shoot | EventType::Death | EventType::Kill => {
                self.last_event = Some(Event { kind: e, at_ms: now });
            },
            EventType::KnifeKill => self.kill_event = Some(Event { kind: e, at_ms: now }),
        }
    }

    /// Takes in `events` in order at `now`.
    pub fn apply_all(&mut self, events: &Vec<EventType>, now: u64)
        ensures
            *final(self) == fold_events(*old(self), events@, now),
    {
        let mut i: usize = 0;
        while i < events.len()
            invariant
                i <= events@.len(),
                *self == fold_events(*old(self), events@.subrange(0, i as int), now),
            decreases events@.len() - i,
        {
            proof {
                let t = events@.subrange(0, i + 1);
                assert(t.drop_last() =~= events@.subrange(0, i as int));
            }
            self.apply(events[i], now);
            i = i + 1;
        }
        assert(events@.subrange(0, events@.len() as int) =~= events@);
    }

    /// Clears the overlays whose time is over at `now`.
    pub fn expire(&mut self, now: u64)
        ensures
            *final(self) == expire_spec(*old(self), now as int),
    {
        match self.last_event {
            Some(ev) => {
                let d = elapsed_ms(now, ev.at_ms);
                let limit: u64 = match ev.kind {
                    EventType::Shoot => 125,
                    EventType::Death => 4000,
                    EventType::Kill => 1000,
                    _ => u64::MAX,
                };
                if d > limit {
                    self.last_event = None;
                }
            },
            None => {},
        }
        match self.kill_event {
            Some(ev) => {
                if ev.kind == EventType::KnifeKill && elapsed_ms(now, ev.at_ms) > 1000 {
                    self.kill_event = None;
                }
            },
            None => {},
        }
    }
}

fn elapsed_ms(now: u64, t: u64) -> (r: u64)
    ensures
        r == elapsed(now as int, t as int),
{
    if now >= t {
        now - t
    } else {
        0
    }
}

fn shoot_alpha_of(d: u64) -> (r: i32)
    ensures
        r == shoot_alpha(d as int),
{
    if d >= 125 {
        0
    } else {
        (ONE as i64 - (d as i64) * 8 * (ONE as i64) / 1000) as i32
    }
}

fn death_alpha_of(d: u64) -> (r: i32)
    ensures
        r == death_alpha(d as int),
{
    if d >= 4000 {
        0
    } else {
        (ONE as i64 - (d as i64) * (ONE as i64) / 4000) as i32
    }
}

fn kill_alpha_of(d: u64) -> (r: i32)
    ensures
        r == kill_alpha(d as int),
{
    if d >= 1000 {
        0
    } else {
        (ONE as i64 - (d as i64) * (ONE as i64) / 1000) as i32
    }
}

fn knife_kill_alpha_of(d: u64) -> (r: i32)
    ensures
        r == knife_kill_alpha(d as int),
{
    if d >= 4000 {
        0
    } else {
        (2 * (ONE as i64) - (d as i64) * (ONE as i64) / 2000) as i32
    }
}

fn flash_alpha_of(flashed: i32) -> (r: i32)
    requires
        flashed > 0,
    ensures
        r == flash_alpha(flashed as int),
{
    if flashed >= 255 {
        ONE
    } else {
        proof {
            assert(0 < flashed * 65536 < 255 * 65536) by (nonlinear_arith)
                requires 0 < flashed < 255;
        }
        ((flashed as i64) * (ONE as i64) / 255) as i32
    }
}

fn knife_pulse_of(t: u64) -> (r: i32)
    requires
        t < KNIFE_PERIOD_MS,
    ensures
        r == knife_pulse(t as int),
{
    let t = t as i64;
    let one = ONE as i64;
    if t < 250 {
        (one / 2 - t * 2 * one / 1000) as i32
    } else if t < 500 {
        (one / 2 - t * one / 1000) as i32
    } else {
        0
    }
}

fn c4_pulse_of(t: u64) -> (r: i32)
    requires
        t < C4_PERIOD_MS,
    ensures
        r == c4_pulse(t as int),
{
    let t = t as i64;
    let one = ONE as i64;
    let tri: i64 = if t < 125 {
        t * 2 * one / 250
    } else {
        (500 - 2 * t) * one / 250
    };
    (tri * 3 / 4 + one / 4) as i32
}

fn team_color_of(ct: bool) -> (r: Color)
    ensures
        r == team_color(ct),
{
    if ct {
        Color(6554, 19661, ONE)
    } else {
        Color(ONE, 32768, 6554)
    }
}

fn bar_end_of(len: usize, v: i32, max: i32) -> (r: i64)
    requires
        len <= MAX_PIXELS,
        max > 0,
    ensures
        r == bar_end(len as int, v as int, max as int),
{
    let c: i32 = if v < 0 {
        0
    } else if v > max {
        max
    } else {
        v
    };
    proof {
        assert((len as int) * 65536 * (c as int) <= 65536 * 65536 * 0x8000_0000) by (nonlinear_arith)
            requires 0 <= len <= 65536, 0 <= c < 0x8000_0000;
    }
    let num: u128 = (len as u128) * (ONE as u128) * (c as u128);
    let q: u128 = num / (max as u128);
    proof {
        assert(q <= (len as int) * 65536) by (nonlinear_arith)
            requires
                q == (num as int) / (max as int),
                num == (len as int) * 65536 * (c as int),
                0 <= c <= max,
                max > 0,
                len >= 0;
    }
    q as i64
}

fn draw_history(cols: &mut Vec<Color>, h: &Vec<(u64, bool)>)
    requires
        old(cols)@.len() <= MAX_PIXELS,
    ensures
        final(cols)@.len() == old(cols)@.len(),
        final(cols)@ == win_segments(old(cols)@, h@, h@.len() as int),
{
    let n: usize = h.len();
    let len: usize = cols.len();
    let mut k: usize = 0;
    while k < n
        invariant
            k <= n,
            n == h@.len(),
            len == old(cols)@.len(),
            len <= MAX_PIXELS,
            cols@ == win_segments(old(cols)@, h@, k as int),
            cols@.len() == len,
        decreases n - k,
    {
        let whole: u128 = (len as u128) * (ONE as u128);
        proof {
            assert((k as int) * whole <= 0x1_0000_0000_0000_0000 * 65536 * 65536) by (nonlinear_arith)
                requires whole == (len as int) * 65536, len <= 65536, 0 <= k < 0x1_0000_0000_0000_0000;
        }
        let from: u128 = (k as u128) * whole / (n as u128);
        proof {
            assert(from <= whole) by (nonlinear_arith)
                requires from == (k as int) * whole / (n as int), k < n, whole >= 0;
            assert(whole <= 65536 * 65536) by (nonlinear_arith)
                requires whole == (len as int) * 65536, len <= 65536;
            assert((k as int) * (len as int) * 65536 == (k as int) * whole) by (nonlinear_arith)
                requires whole == (len as int) * 65536;
        }
        draw_line(cols, from as i64, whole as i64, team_color_of(h[k].1), BlendMode::Mix);
        k = k + 1;
    }
}

fn draw_status_bars(cols: &mut Vec<Color>, clip: i32, clip_max: i32, st: &PlayerState)
    requires
        old(cols)@.len() <= MAX_PIXELS,
        clip_max > 0,
    ensures
        final(cols)@.len() == old(cols)@.len(),
        final(cols)@ == status_bars(old(cols)@, clip as int, clip_max as int, *st),
{
    let len = cols.len();
    draw_line(cols, 0, bar_end_of(len, clip, clip_max), Color(32768, 0, 0), BlendMode::Add);
    draw_line(cols, 0, bar_end_of(len, st.health, 100), Color(0, 32768, 0), BlendMode::Add);
    draw_line(cols, 0, bar_end_of(len, st.armor, 100), Color(0, 0, 32768), BlendMode::Add);
}

fn draw_weapon_layer(cols: &mut Vec<Color>, s: &GameState, o: &Overlays, now: u64)
    requires
        old(cols)@.len() <= MAX_PIXELS,
    ensures
        final(cols)@.len() == old(cols)@.len(),
        final(cols)@ == weapon_layer(*s, *o, now as int, old(cols)@),
{
    let d = elapsed_ms(now, o.knife_start);
    match (&s.player, s.active_weapon()) {
        (Some(p), Some(entry)) => {
            let w: &Weapon = &entry.1;
            if text_eq(w.weapon_type.as_str(), "Knife") {
                fill(cols, Color(13107, 0, 0), knife_pulse_of(d % KNIFE_PERIOD_MS));
            } else if text_eq(w.weapon_type.as_str(), "C4") {
                fill(cols, Color(6554, 6554, 0), c4_pulse_of(d % C4_PERIOD_MS));
            } else {
                match (w.ammo_clip, w.ammo_clip_max, &p.state) {
                    (Some(c), Some(mx), Some(st)) => {
                        if mx > 0 {
                            draw_status_bars(cols, c, mx, st);
                        }
                    },
                    _ => {},
                }
            }
        },
        _ => {},
    }
}

fn draw_base(cols: &mut Vec<Color>, s: &GameState, o: &Overlays, now: u64)
    requires
        old(cols)@.len() <= MAX_PIXELS,
    ensures
        final(cols)@.len() == old(cols)@.len(),
        final(cols)@ == base_layer(*s, *o, now as int, old(cols)@),
{
    match (&s.map, &s.round) {
        (Some(m), Some(r)) => {
            if text_eq(r.phase.as_str(), "freezetime") {
                match &m.round_wins {
                    Some(w) => match round_history(w) {
                        Some(h) => draw_history(cols, &h),
                        None => {},
                    },
                    None => {},
                }
            } else if o.mvp {
                do_rainbow(cols, now, RAINBOW_MS, ONE);
            } else {
                match &r.win_team {
                    Some(t) => {
                        let ct = text_eq(t.as_str(), "CT");
                        fill(cols, team_color_of(ct), ONE);
                    },
                    None => draw_weapon_layer(cols, s, o, now),
                }
            }
        },
        _ => {},
    }
}

fn draw_event_layer(cols: &mut Vec<Color>, o: &Overlays, now: u64)
    requires
        old(cols)@.len() <= MAX_PIXELS,
    ensures
        final(cols)@.len() == old(cols)@.len(),
        final(cols)@ == event_layer(*o, now as int, old(cols)@),
{
    match o.last_event {
        Some(ev) => {
            let d = elapsed_ms(now, ev.at_ms);
            match ev.kind {
                EventType::Shoot => fill(cols, Color(ONE, ONE, 16384), shoot_alpha_of(d)),
                EventType::Death => {
                    clear(cols);
                    fill(cols, Color(ONE, 0, 0), death_alpha_of(d));
                },
                EventType::Kill => fill(cols, Color(ONE, ONE, 0), kill_alpha_of(d)),
                _ => {},
            }
        },
        None => {},
    }
}

fn draw_knife_kill(cols: &mut Vec<Color>, o: &Overlays, now: u64)
    requires
        old(cols)@.len() <= MAX_PIXELS,
    ensures
        final(cols)@.len() == old(cols)@.len(),
        final(cols)@ == knife_kill_layer(*o, now as int, old(cols)@),
{
    match o.kill_event {
        Some(ev) => {
            if ev.kind == EventType::KnifeKill {
                let d = elapsed_ms(now, ev.at_ms);
                do_rainbow(cols, now, RAINBOW_MS, knife_kill_alpha_of(d));
            }
        },
        None => {},
    }
}

fn draw_flash(cols: &mut Vec<Color>, s: &GameState)
    ensures
        final(cols)@.len() == old(cols)@.len(),
        final(cols)@ == flash_layer(*s, old(cols)@),
{
    match &s.player {
        Some(p) => match &p.state {
            Some(st) => {
                if st.flashed > 0 {
                    fill(cols, Color(ONE, ONE, ONE), flash_alpha_of(st.flashed));
                }
            },
            None => {},
        },
        None => {},
    }
}

/// Composes the frame at `now` from the snapshot and the overlays: black,
/// then the base layer, the newest shot, death or kill, the rainbow of a
/// knife kill, and the flash.
pub fn render(cols: &mut Vec<Color>, s: &GameState, o: &Overlays, now: u64)
    requires
        old(cols)@.len() <= MAX_PIXELS,
    ensures
        final(cols)@ == render_spec(*s, *o, now as int, old(cols)@.len()),
{
    clear(cols);
    draw_base(cols, s, o, now);
    draw_event_layer(cols, o, now);
    draw_knife_kill(cols, o, now);
    draw_flash(cols, s);
}

/// The render loop's own state: the overlays and the frame last composed.
pub struct Renderer {
    pub overlays: Overlays,
    pub frame: Vec<Color>,
}

impl Renderer {
    /// A black strip of `STRIP_LEN` pixels with no effect pending.
    pub fn new() -> (r: Renderer)
        ensures
            r.overlays == (Overlays { knife_start: 0, mvp: false, last_event: None, kill_event: None }),
            r.frame@ == clear_spec(STRIP_LEN as nat),
    {
        let mut frame: Vec<Color> = Vec::new();
        let mut i: usize = 0;
        while i < STRIP_LEN
            invariant
                i <= STRIP_LEN,
                frame@ == clear_spec(i as nat),
            decreases STRIP_LEN - i,
        {
            frame.push(Color(0, 0, 0));
            i = i + 1;
            assert(frame@ =~= clear_spec(i as nat));
        }
        Renderer { overlays: Overlays::new(), frame }
    }

    /// One tick at `now`: takes in the drained `events`, composes the frame
    /// from `state` and the overlays, then clears the overlays whose time is
    /// over.
    pub fn tick(&mut self, events: &Vec<EventType>, state: &GameState, now: u64)
        requires
            old(self).frame@.len() <= MAX_PIXELS,
        ensures
            final(self).frame@ == render_spec(
                *state,
                fold_events(old(self).overlays, events@, now),
                now as int,
                old(self).frame@.len(),
            ),
            final(self).overlays == expire_spec(fold_events(old(self).overlays, events@, now), now as int),
    {
        self.overlays.apply_all(events, now);
        let o = self.overlays;
        render(&mut self.frame, state, &o, now);
        self.overlays.expire(now);
    }

    /// The bytes that send the frame to the strip and present it.
    pub fn frame_bytes(&self) -> (r: Vec<u8>)
        requires
            self.frame@.len() <= MAX_PIXELS,
        ensures
            r@ == seq![4u8, 0u8] + encode_spec(self.frame@) + seq![0u8, 0u8],
    {
        let mut copy: Vec<Color> = Vec::new();
        let mut i: usize = 0;
        while i < self.frame.len()
            invariant
                i <= self.frame@.len(),
                copy@ == self.frame@.subrange(0, i as int),
            decreases self.frame@.len() - i,
        {
            copy.push(self.frame[i]);
            i = i + 1;
            assert(copy@ =~= self.frame@.subrange(0, i as int));
        }
        assert(copy@ =~= self.frame@);
        let mut out: Vec<u8> = Vec::new();
        Instruction::SetPixels(copy).write(&mut out);
        Instruction::Show.write(&mut out);
        assert(out@ =~= seq![4u8, 0u8] + encode_spec(self.frame@) + seq![0u8, 0u8]);
        out
    }
}

} // verus!
