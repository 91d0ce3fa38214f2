use game_lights::color::{BlendMode, Color, ONE};
use game_lights::encode::{ColorFormat, Instruction};
use game_lights::frame::{clear, draw_line, fill};
use game_lights::history::{parse_round, round_history};
use game_lights::text::{starts_with, text_eq};

#[test]
fn add_blend_is_clamped() {
    let big = Color(5 * ONE, -3 * ONE, ONE);
    let r = BlendMode::Add.blend(&big, &Color(ONE, ONE, ONE), 10 * ONE);
    assert_eq!(r, Color(ONE, 0, ONE));
    let r = BlendMode::Add.blend(&Color(-ONE, 0, 100), &Color(0, 0, 0), ONE);
    assert_eq!(r, Color(0, 0, 100));
    let r = BlendMode::Add.blend(&Color(1000, 2000, 3000), &Color(ONE, 0, ONE / 2), ONE / 2);
    assert_eq!(r, Color(1000 + ONE / 2, 2000, 3000 + ONE / 4));
}

#[test]
fn mix_ends_keep_colors() {
    let prev = Color(100, 20000, ONE);
    let new = Color(ONE, 0, 12345);
    assert_eq!(BlendMode::Mix.blend(&prev, &new, 0), prev);
    assert_eq!(BlendMode::Mix.blend(&prev, &new, ONE), new);
    assert_eq!(BlendMode::Mix.blend(&Color(0, 0, 0), &Color(ONE, ONE, 0), ONE / 2), Color(ONE / 2, ONE / 2, 0));
}

#[test]
fn replace_scales_new_color() {
    let r = BlendMode::Replace.blend(&Color(ONE, ONE, ONE), &Color(ONE, ONE / 2, 0), ONE / 2);
    assert_eq!(r, Color(ONE / 2, ONE / 4, 0));
}

#[test]
fn hue_wheel() {
    assert_eq!(Color::from_hue(0), Color(ONE, 0, 0));
    assert_eq!(Color::from_hue(ONE as u64), Color(ONE, 0, 0));
    // a third of a turn (rounded down) is just short of green
    let g = Color::from_hue((ONE as u64) / 3);
    assert_eq!(g.1, ONE);
    assert_eq!(g.2, 0);
    // half a turn is cyan
    assert_eq!(Color::from_hue((ONE as u64) / 2), Color(0, ONE, ONE));
    assert_eq!(Color::from_hue((ONE as u64) / 12), Color(ONE, 32766, 0));
}

#[test]
fn byte_levels() {
    assert_eq!(Color(ONE, ONE / 2, 0).as_byte_color(), (255, 127, 0));
    assert_eq!(Color(2 * ONE, -5, ONE / 4).as_byte_color(), (255, 0, 63));
}

#[test]
fn encoding_is_green_red_blue() {
    let cols = vec![Color(ONE, 0, 0), Color(0, ONE, ONE / 2), Color(ONE / 4, ONE / 2, ONE)];
    let bytes = ColorFormat::GRB.as_bytes(&cols);
    assert_eq!(bytes, vec![0, 255, 0, 255, 0, 127, 127, 63, 255]);
    assert_eq!(ColorFormat::GRB.as_bytes(&[]), Vec::<u8>::new());
}

#[test]
fn clamping_before_encoding_changes_nothing() {
    let cols = vec![Color(3 * ONE, -ONE, ONE / 2), Color(-1, ONE + 1, 77)];
    let clamped: Vec<Color> = cols.iter().map(|c| c.clamped()).collect();
    assert_eq!(clamped[0], Color(ONE, 0, ONE / 2));
    assert_eq!(ColorFormat::GRB.as_bytes(&clamped), ColorFormat::GRB.as_bytes(&cols));
}

#[test]
fn instruction_framing() {
    let mut out = Vec::new();
    Instruction::Show.write(&mut out);
    Instruction::Clear.write(&mut out);
    assert_eq!(out, vec![0, 0, 1, 0]);
    let mut out = Vec::new();
    Instruction::SetPixelColor(0x0102, Color(ONE, 0, ONE / 2)).write(&mut out);
    assert_eq!(out, vec![2, 0, 2, 1, 255, 0, 127]);
    let mut out = Vec::new();
    Instruction::SetPixelColorGamma(300, Color(0, ONE, 0)).write(&mut out);
    assert_eq!(out, vec![3, 0, 44, 1, 0, 255, 0]);
    let mut out = vec![9];
    Instruction::SetPixels(vec![Color(ONE, 0, 0), Color(0, 0, ONE)]).write(&mut out);
    assert_eq!(out, vec![9, 4, 0, 0, 255, 0, 0, 0, 255]);
}

#[test]
fn line_covers_partial_pixels() {
    let mut cols = vec![Color(0, 0, 0); 4];
    draw_line(&mut cols, (ONE / 2) as i64, (2 * ONE) as i64, Color(ONE, ONE, ONE), BlendMode::Replace);
    assert_eq!(cols, vec![Color(ONE / 2, ONE / 2, ONE / 2), Color(ONE, ONE, ONE), Color(0, 0, 0), Color(0, 0, 0)]);
}

#[test]
fn line_outside_strip_draws_nothing() {
    let mut cols = vec![Color(1, 2, 3); 3];
    draw_line(&mut cols, -(5 * ONE as i64), 0, Color(ONE, ONE, ONE), BlendMode::Replace);
    assert_eq!(cols, vec![Color(1, 2, 3); 3]);
    draw_line(&mut cols, 10 * ONE as i64, 20 * ONE as i64, Color(ONE, ONE, ONE), BlendMode::Replace);
    assert_eq!(cols, vec![Color(1, 2, 3); 3]);
}

#[test]
fn fill_and_clear() {
    let mut cols = vec![Color(ONE, 0, 0); 2];
    fill(&mut cols, Color(0, 0, ONE), ONE / 4);
    assert_eq!(cols, vec![Color(3 * ONE / 4, 0, ONE / 4); 2]);
    clear(&mut cols);
    assert_eq!(cols, vec![Color(0, 0, 0); 2]);
}

#[test]
fn round_numbers() {
    assert_eq!(parse_round("123"), Some(123));
    assert_eq!(parse_round("007"), Some(7));
    assert_eq!(parse_round(""), None);
    assert_eq!(parse_round("12a"), None);
    assert_eq!(parse_round("-1"), None);
    assert_eq!(parse_round("18446744073709551615"), Some(u64::MAX));
    assert_eq!(parse_round("18446744073709551616"), None);
}

#[test]
fn history_in_round_order() {
    let wins = vec![
        ("10".to_string(), "t_win_bomb".to_string()),
        ("3".to_string(), "ct_win_elimination".to_string()),
        ("1".to_string(), "t_win_elimination".to_string()),
    ];
    assert_eq!(round_history(&wins), Some(vec![(1, false), (3, true), (10, false)]));
    let bad = vec![("x".to_string(), "ct_win_time".to_string())];
    assert_eq!(round_history(&bad), None);
    assert_eq!(round_history(&vec![]), Some(vec![]));
}

#[test]
fn text_comparisons() {
    assert!(text_eq("Knife", "Knife"));
    assert!(!text_eq("Knife", "knife"));
    assert!(starts_with("ct_win_time", "ct_"));
    assert!(!starts_with("ct", "ct_"));
    assert!(!starts_with("t_win_bomb", "ct_"));
}
