use hashbench::hashers::Preset;
use hashbench::session::{
    is_whitespace, parse_command, repeats_or_default, trim, Command, Reply, Session,
    DEFAULT_REPEATS,
};

#[test]
fn repeats_default_to_fifteen() {
    assert_eq!(DEFAULT_REPEATS, 15);
    assert_eq!(repeats_or_default(None), 15);
    assert_eq!(repeats_or_default(Some(0)), 0);
    assert_eq!(repeats_or_default(Some(3)), 3);
    assert_eq!(repeats_or_default(Some(65535)), 65535);
}

#[test]
fn white_space_is_what_the_standard_library_calls_so() {
    for code in 0u32..=0x11_0000 {
        if let Some(c) = char::from_u32(code) {
            assert_eq!(is_whitespace(c), c.is_whitespace(), "at {:#x}", code);
        }
    }
}

#[test]
fn trim_drops_white_space_at_both_ends_only() {
    let samples = vec![
        "",
        " ",
        "   \t\r\n",
        "a",
        " a",
        "a ",
        "  a b  ",
        "\tpreset  x \n",
        "\u{a0}\u{3000}word\u{2003}\u{85}",
        "in\u{2028}side",
        "\u{feff}bom is no space ",
        "  \u{1680} \u{205f}",
        "héllo wörld  ",
    ];
    for sample in samples {
        assert_eq!(trim(sample), sample.trim(), "for {:?}", sample);
    }
}

#[test]
fn exit_is_read_in_any_case() {
    for line in ["exit", "EXIT", "Exit", "  eXiT \n", "exit\r\n"] {
        assert!(matches!(parse_command(line), Command::Exit), "for {:?}", line);
    }
}

#[test]
fn exit_with_more_text_is_hashed() {
    for line in ["exit now", "exits", "e xit", "\u{212a}exit"] {
        assert!(
            matches!(parse_command(line), Command::Hash(ref input) if input == line),
            "for {:?}",
            line
        );
    }
}

#[test]
fn preset_command_names_a_preset() {
    assert!(matches!(parse_command("preset bcrypt10"), Command::Switch(ref name) if name == "bcrypt10"));
    assert!(matches!(parse_command("  preset   Argon2i  \n"), Command::Switch(ref name) if name == "Argon2i"));
    assert!(matches!(parse_command("preset  "), Command::Hash(ref input) if input == "preset"));
    assert!(matches!(parse_command("preset \u{a0}x"), Command::Switch(ref name) if name == "x"));
    assert!(matches!(parse_command("preset a b"), Command::Switch(ref name) if name == "a b"));
}

#[test]
fn preset_keyword_is_matched_as_written() {
    assert!(matches!(parse_command("Preset bcrypt10"), Command::Hash(ref input) if input == "Preset bcrypt10"));
    assert!(matches!(parse_command("preset"), Command::Hash(ref input) if input == "preset"));
    assert!(matches!(parse_command("presets x"), Command::Hash(ref input) if input == "presets x"));
    assert!(matches!(parse_command("preset\tx"), Command::Hash(ref input) if input == "preset\tx"));
}

#[test]
fn other_lines_are_text_to_hash() {
    assert!(matches!(parse_command("hunter2\n"), Command::Hash(ref input) if input == "hunter2"));
    assert!(matches!(parse_command("  two words \n"), Command::Hash(ref input) if input == "two words"));
    assert!(matches!(parse_command("\n"), Command::Hash(ref input) if input.is_empty()));
    assert!(matches!(parse_command(""), Command::Hash(ref input) if input.is_empty()));
}

#[test]
fn session_switches_to_a_known_preset() {
    let mut session = Session::new(Preset::Argon2idFast);
    assert!(matches!(session.handle("preset BCRYPT12\n"), Reply::Changed(Preset::Bcrypt12)));
    assert_eq!(session.preset, Preset::Bcrypt12);
}

#[test]
fn session_keeps_its_preset_on_an_unknown_name() {
    let mut session = Session::new(Preset::Argon2d);
    assert!(matches!(session.handle("preset sha1\n"), Reply::Unknown(ref name) if name == "sha1"));
    assert_eq!(session.preset, Preset::Argon2d);
}

#[test]
fn session_hashes_under_the_preset_in_use() {
    let mut session = Session::new(Preset::Bcrypt10);
    match session.handle("  secret text \n") {
        Reply::Hash { preset, input } => {
            assert_eq!(preset, Preset::Bcrypt10);
            assert_eq!(input, "secret text");
        }
        other => panic!("expected text to hash, got {:?}", other),
    }
    assert_eq!(session.preset, Preset::Bcrypt10);
    session.handle("preset argon2i");
    assert!(matches!(
        session.handle("x"),
        Reply::Hash { preset: Preset::Argon2i, ref input } if input == "x"
    ));
}

#[test]
fn session_ends_on_exit() {
    let mut session = Session::new(Preset::Bcrypt14);
    assert!(matches!(session.handle("Exit\n"), Reply::Exit));
    assert_eq!(session.preset, Preset::Bcrypt14);
}

#[test]
fn operator_selects_a_preset_by_a_line() {
    assert_eq!(Session::select(" bcrypt14 \n").ok(), Some(Session::new(Preset::Bcrypt14)));
    assert_eq!(Session::select("ARGON2IDSECURE").ok(), Some(Session::new(Preset::Argon2idSecure)));
    assert_eq!(Session::select("  md5\n").err(), Some("md5".to_string()));
    assert_eq!(Session::select("\n").err(), Some(String::new()));
}
