use blackjack::input::{declines_replay, Choice};

#[test]
fn reads_the_three_tokens() {
    assert_eq!(Choice::read("h"), Choice::Hit);
    assert_eq!(Choice::read("s"), Choice::Stand);
    assert_eq!(Choice::read("q"), Choice::Quit);
}

#[test]
fn reads_a_token_within_white_space() {
    assert_eq!(Choice::read("h\n"), Choice::Hit);
    assert_eq!(Choice::read("s\r\n"), Choice::Stand);
    assert_eq!(Choice::read("  q  "), Choice::Quit);
    assert_eq!(Choice::read("\t h \t\n"), Choice::Hit);
    assert_eq!(Choice::read("\u{3000}s\u{a0}"), Choice::Stand);
}

#[test]
fn any_other_line_is_no_choice() {
    for line in ["", " ", "\n", "x", "hit", "hs", "h s", "h h", "H", "S", "Q", "n", "y", "1", "hq\n"] {
        assert_eq!(Choice::read(line), Choice::Other, "line {:?}", line);
    }
}

#[test]
fn white_space_is_what_std_trims() {
    for code in 0..=0x10FFFFu32 {
        if let Some(c) = char::from_u32(code) {
            let line = format!("{}h{}", c, c);
            let expected = if c.is_whitespace() { Choice::Hit } else { Choice::Other };
            assert_eq!(Choice::read(&line), expected, "code {:x}", code);
        }
    }
}

#[test]
fn reads_as_std_trim_does() {
    let lines = [
        "h", " h", "h ", " h ", "\nh\n", "h\u{2028}", "\u{85}q", "s\u{200a}", "s\u{200b}",
        "\u{feff}h", "h\u{0}", " \u{1680} s \u{205f} ", "q\u{202f}\u{2029}", "\u{b}\u{c}h",
        "h\u{1c}", "é", " é ", "h é", "",
    ];
    for line in lines {
        let expected = match line.trim() {
            "h" => Choice::Hit,
            "s" => Choice::Stand,
            "q" => Choice::Quit,
            _ => Choice::Other,
        };
        assert_eq!(Choice::read(line), expected, "line {:?}", line);
        assert_eq!(declines_replay(line), line.trim() == "n", "line {:?}", line);
    }
}

#[test]
fn only_n_declines_a_replay() {
    assert!(declines_replay("n"));
    assert!(declines_replay("n\n"));
    assert!(declines_replay("  n\t"));
    for line in ["", "y", "N", "no", "nn", "n n", "h", "\n"] {
        assert!(!declines_replay(line), "line {:?}", line);
    }
}
