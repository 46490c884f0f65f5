use sysfetch::args::{ArgHandler, Args};
use sysfetch::config::{apply_align, apply_width, default_config, Align, Theme};

fn handler(tokens: &[&str]) -> ArgHandler {
    let mut args = vec!["prog".to_string()];
    args.extend(tokens.iter().map(|s| s.to_string()));
    ArgHandler { args }
}

fn test_theme() -> Theme {
    Theme {
        gradient_from: 0xffffff,
        gradient_to: 0,
        headers: 0x9FA1C9,
        text_key: 0xF5C2E7,
        text_value: 0x75AFFA,
        width_permille: 500,
        align: Align::Left,
    }
}

#[test]
fn width_without_value_degrades_to_help() {
    let actions = handler(&["--width"]).handle();
    assert_eq!(actions.len(), 1);
    assert_eq!(actions[0].arg, Args::Help);
    assert_eq!(actions[0].value, "");
}

#[test]
fn width_with_value_carries_it() {
    let actions = handler(&["--width=0.6"]).handle();
    assert_eq!(actions.len(), 1);
    assert_eq!(actions[0].arg, Args::Width);
    assert_eq!(actions[0].value, "0.6");
}

#[test]
fn unrecognized_token_is_invalid() {
    let actions = handler(&["--frobnicate"]).handle();
    assert_eq!(actions.len(), 1);
    assert_eq!(actions[0].arg, Args::Invalid);
    assert_eq!(actions[0].value, "--frobnicate");
}

#[test]
fn align_without_value_discards_other_actions() {
    let actions = handler(&["-h", "--align"]).handle();
    assert_eq!(actions.len(), 1);
    assert_eq!(actions[0].arg, Args::Help);
}

#[test]
fn short_and_long_flags_agree() {
    for (short, long, kind) in [
        ("-h", "--help", Args::Help),
        ("-v", "--version", Args::Version),
        ("-c", "--config", Args::Config),
    ] {
        for flag in [short, long] {
            let actions = handler(&[flag]).handle();
            assert_eq!(actions.len(), 1);
            assert_eq!(actions[0].arg, kind);
            assert_eq!(actions[0].value, "");
        }
    }
}

#[test]
fn several_tokens_keep_their_order() {
    let actions = handler(&["-w=0.4", "-a=center", "nonsense"]).handle();
    assert_eq!(actions.len(), 3);
    assert_eq!(actions[0].arg, Args::Width);
    assert_eq!(actions[0].value, "0.4");
    assert_eq!(actions[1].arg, Args::Align);
    assert_eq!(actions[1].value, "center");
    assert_eq!(actions[2].arg, Args::Invalid);
    assert_eq!(actions[2].value, "nonsense");
}

#[test]
fn value_stops_at_a_second_equals_sign() {
    let actions = handler(&["-w=0.5=junk"]).handle();
    assert_eq!(actions[0].arg, Args::Width);
    assert_eq!(actions[0].value, "0.5");
}

#[test]
fn width_above_one_leaves_theme_unchanged() {
    let mut theme = test_theme();
    apply_width(&mut theme, "1.5");
    assert_eq!(theme.width_permille, 500);
}

#[test]
fn width_in_range_updates_theme() {
    let mut theme = test_theme();
    apply_width(&mut theme, "0.6");
    assert_eq!(theme.width_permille, 600);
    apply_width(&mut theme, "1.0");
    assert_eq!(theme.width_permille, 1000);
    apply_width(&mut theme, "1");
    assert_eq!(theme.width_permille, 1000);
    apply_width(&mut theme, ".25");
    assert_eq!(theme.width_permille, 250);
}

#[test]
fn width_zero_or_malformed_is_ignored() {
    let mut theme = test_theme();
    for bad in ["0", "0.0", "-0.5", "abc", "", "0..5", "1.001"] {
        apply_width(&mut theme, bad);
        assert_eq!(theme.width_permille, 500);
    }
}

#[test]
fn align_accepts_the_three_names_only() {
    let mut theme = test_theme();
    apply_align(&mut theme, "right");
    assert_eq!(theme.align, Align::Right);
    apply_align(&mut theme, "center");
    assert_eq!(theme.align, Align::Center);
    apply_align(&mut theme, "left");
    assert_eq!(theme.align, Align::Left);
    apply_align(&mut theme, "middle");
    assert_eq!(theme.align, Align::Left);
}

#[test]
fn default_config_matches_documented_defaults() {
    let c = default_config();
    assert_eq!(c.version, "0.1.0");
    assert_eq!(c.theme.gradient_from, 0xffffff);
    assert_eq!(c.theme.gradient_to, 0x000000);
    assert_eq!(c.theme.headers, 0x9FA1C9);
    assert_eq!(c.theme.text_key, 0xF5C2E7);
    assert_eq!(c.theme.text_value, 0x75AFFA);
    assert_eq!(c.theme.width_permille, 500);
    assert_eq!(c.theme.align, Align::Left);
    assert_eq!(c.modules.len(), 2);
    assert_eq!(c.modules[0].name, "CPU");
    assert_eq!(c.modules[0].icon, "f4bc");
    assert_eq!(
        c.modules[0].stats,
        ["name", "cores", "threads", "speed", "usage", "vendor", "architecture"]
    );
    assert_eq!(c.modules[1].name, "Memory");
    assert_eq!(c.modules[1].icon, "efc5");
    assert_eq!(
        c.modules[1].stats,
        ["total", "used", "free", "available", "swap_total", "swap_used", "swap_free", "percent"]
    );
}
