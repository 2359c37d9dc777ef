use my_open_claude::app_state::App;
use my_open_claude::header::{
    format_tokens_compact, header_model_display, is_thinking, logo_symbol, title_text, title_x,
    token_usage_color, tokens_label, UsageColor,
};

fn app() -> App {
    App::new("m".to_string(), "m".to_string(), false, 128_000, vec![], None)
}

#[test]
fn tokens_compact_forms() {
    assert_eq!(format_tokens_compact(0), "0");
    assert_eq!(format_tokens_compact(999), "999");
    assert_eq!(format_tokens_compact(1000), "1k");
    assert_eq!(format_tokens_compact(1234), "1k");
    assert_eq!(format_tokens_compact(128_000), "128k");
    assert_eq!(format_tokens_compact(1_000_000), "1M");
    assert_eq!(format_tokens_compact(1_500_000), "1.5M");
    assert_eq!(format_tokens_compact(2_340_000), "2.3M");
}

#[test]
fn usage_colours_follow_the_ratio() {
    assert_eq!(token_usage_color(10, 0), UsageColor::DarkGray);
    assert_eq!(token_usage_color(50, 100), UsageColor::Green);
    assert_eq!(token_usage_color(51, 100), UsageColor::Yellow);
    assert_eq!(token_usage_color(80, 100), UsageColor::Yellow);
    assert_eq!(token_usage_color(81, 100), UsageColor::Red);
}

#[test]
fn token_label_before_and_after_usage() {
    let mut a = app();
    assert_eq!(tokens_label(&a), ("—/128k".to_string(), UsageColor::DarkGray));
    a.token_usage = Some(120_000);
    assert_eq!(tokens_label(&a), ("120k/128k".to_string(), UsageColor::Red));
}

#[test]
fn title_marks_unsaved_changes() {
    let mut a = app();
    assert_eq!(title_text(&a, "prog"), "prog ");
    a.mark_dirty();
    assert_eq!(title_text(&a, "prog"), "prog * ");
    assert_eq!(title_x(0, 80, 10), 35);
    assert_eq!(title_x(5, 4, 10), 5);
}

#[test]
fn model_names_keep_their_end() {
    assert_eq!(header_model_display("short", 28), "short");
    assert_eq!(header_model_display("abcdefghij", 5), "…ghij");
}

#[test]
fn logo_spins_while_thinking() {
    let mut a = app();
    assert!(!is_thinking(&a));
    assert_eq!(logo_symbol(false, 500), "◆");
    a.set_thinking(true);
    assert!(is_thinking(&a));
    assert_eq!(logo_symbol(true, 0), "⠋");
    assert_eq!(logo_symbol(true, 80), "⠙");
    assert_eq!(logo_symbol(true, 250), "⠸");
    assert_eq!(logo_symbol(true, 320), "⠋");
}

fn float_millions(tokens: u64) -> String {
    let m = tokens as f64 / 1_000_000.0;
    if m == m.floor() {
        format!("{}M", m as u64)
    } else {
        format!("{:.1}M", m)
    }
}

#[test]
fn millions_round_as_the_double_quotient_does() {
    assert_eq!(format_tokens_compact(1_050_000), "1.1M");
    assert_eq!(format_tokens_compact(1_150_000), "1.1M");
    assert_eq!(format_tokens_compact(1_250_000), float_millions(1_250_000));
    assert_eq!(format_tokens_compact(1_950_000), float_millions(1_950_000));
    let mut special = vec![
        1_000_001,
        9_007_199_254_740_993,
        10_000_000_000_000_000_001,
        10_000_000_000_000_001_000,
        u64::MAX,
        u64::MAX - 1_000_000,
        (1u64 << 63) + 1,
    ];
    let mut t = 1_000_000u64;
    while t < 100_000_000 {
        special.push(t);
        t += 50_000;
    }
    let mut x: u64 = 0x9E37_79B9_7F4A_7C15;
    for _ in 0..20_000 {
        x = x.wrapping_mul(6364136223846793005).wrapping_add(1442695040888963407);
        let shift = (x >> 58) as u32;
        let v = (x >> shift) | 1_000_000;
        special.push(v);
        special.push(v - v % 50_000);
        special.push((v - v % 50_000).saturating_add(50_000));
    }
    for v in special {
        if v >= 1_000_000 {
            assert_eq!(format_tokens_compact(v), float_millions(v), "tokens {}", v);
        }
    }
}

fn float_usage(used: u64, total: u64) -> UsageColor {
    if total == 0 {
        return UsageColor::DarkGray;
    }
    let ratio = used as f64 / total as f64;
    if ratio > 0.80 {
        UsageColor::Red
    } else if ratio > 0.50 {
        UsageColor::Yellow
    } else {
        UsageColor::Green
    }
}

#[test]
fn usage_colour_follows_the_double_ratio() {
    assert_eq!(token_usage_color(400_000_000_000_000_001, 500_000_000_000_000_000), UsageColor::Yellow);
    assert_eq!(token_usage_color(80, 100), UsageColor::Yellow);
    assert_eq!(token_usage_color(50, 100), UsageColor::Green);
    let mut pairs: Vec<(u64, u64)> = vec![(0, 1), (1, 0), (u64::MAX, u64::MAX), (u64::MAX, 1), (1, u64::MAX)];
    for total in [1u64, 2, 3, 5, 7, 10, 100, 1000, 128_000, 200_000, 1 << 53, (1 << 53) + 1, u64::MAX / 3] {
        for num in [1u64, 2, 4, 5, 8, 10] {
            for den in [2u64, 5, 10] {
                let base = (total as u128 * num as u128 / den as u128) as u64;
                for d in [0u64, 1, 2, 3] {
                    pairs.push((base.saturating_add(d), total));
                    pairs.push((base.saturating_sub(d), total));
                }
            }
        }
    }
    let mut x: u64 = 0x2545_F491_4F6C_DD1D;
    for _ in 0..20_000 {
        x = x.wrapping_mul(6364136223846793005).wrapping_add(1442695040888963407);
        let total = x >> ((x >> 58) as u32);
        let used = (total as u128 * ((x >> 20) % 1000) as u128 / 1000) as u64;
        pairs.push((used, total));
        pairs.push((used.saturating_add(1), total));
    }
    for (u, t) in pairs {
        assert_eq!(token_usage_color(u, t), float_usage(u, t), "used {} total {}", u, t);
    }
}
