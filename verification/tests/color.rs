use poc_scada_core::color::{bold, colorize};

#[test]
fn colors_dangerous_rule_red() {
    assert_eq!(
        colorize("x", "dangerous-function-code", true),
        "\x1b[31mx\x1b[0m"
    );
}

#[test]
fn colors_select_rule_yellow() {
    assert_eq!(
        colorize("rule ", "select-before-operate-violation", true),
        "\x1b[33mrule \x1b[0m"
    );
}

#[test]
fn no_color_when_disabled_or_unknown_rule() {
    assert_eq!(colorize("x", "dangerous-function-code", false), "x");
    assert_eq!(colorize("x", "some-other-rule", true), "x");
}

#[test]
fn bold_when_enabled_only() {
    assert_eq!(bold("t", true), "\x1b[1mt\x1b[0m");
    assert_eq!(bold("t", false), "t");
}
