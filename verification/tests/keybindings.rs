use concord_tui::keybindings::{
    char_chord, ctrl_chord, key_chord, key_chords_match_same_event, key_code_label,
    looks_like_bare_modifier_key, modified_key_chord, parse_angle_key, parse_key_code,
    parse_plain_sequence_token, parse_sequence_token, KeyChord, KeyCode, KeyEvent, KeyModifiers,
};

fn mods(shift: bool, control: bool, alt: bool) -> KeyModifiers {
    KeyModifiers { shift, control, alt }
}

#[test]
fn parses_single_chars_and_named_keys() {
    assert_eq!(parse_key_code("q"), Ok(KeyCode::Char('q')));
    assert_eq!(parse_key_code("Enter"), Ok(KeyCode::Enter));
    assert_eq!(parse_key_code("ESCAPE"), Ok(KeyCode::Esc));
    assert_eq!(parse_key_code("page-down"), Ok(KeyCode::PageDown));
    assert_eq!(parse_key_code("space"), Ok(KeyCode::Char(' ')));
    assert_eq!(parse_key_code("del"), Ok(KeyCode::Delete));
    assert_eq!(parse_key_code("F12"), Ok(KeyCode::F(12)));
}

#[test]
fn function_key_numbers_must_fit_a_byte() {
    assert_eq!(parse_key_code("f256"), Err("unsupported key `f256`".to_owned()));
    assert_eq!(parse_key_code("F1x"), Err("unsupported key `f1x`".to_owned()));
    assert_eq!(parse_key_code("foo"), Err("unsupported key `foo`".to_owned()));
}

#[test]
fn unknown_key_names_are_refused() {
    assert_eq!(parse_key_code("Hyper"), Err("unsupported key `Hyper`".to_owned()));
}

#[test]
fn from_str_refuses_empty_and_plus_bindings() {
    assert_eq!(KeyChord::from_str("   "), Err("keybinding cannot be empty".to_owned()));
    assert_eq!(
        KeyChord::from_str("ctrl+w"),
        Err("unsupported key `ctrl+w`; use Vim-style angle modifiers like `<C-w>`".to_owned())
    );
    assert_eq!(KeyChord::from_str(" tab "), Ok(key_chord(KeyCode::Tab)));
}

#[test]
fn angle_keys_take_hyphen_modifiers() {
    assert_eq!(parse_angle_key("C-w"), Ok(ctrl_chord('w')));
    assert_eq!(
        parse_angle_key("A-S-enter"),
        Ok(modified_key_chord(KeyCode::Enter, mods(true, false, true)))
    );
    assert_eq!(parse_angle_key("M-x"), Ok(modified_key_chord(KeyCode::Char('x'), mods(false, false, true))));
    assert_eq!(
        parse_angle_key("X-w"),
        Err("unsupported angle key modifier `X`".to_owned())
    );
    assert_eq!(
        parse_angle_key("C+w"),
        Err("unsupported angle key `C+w`; use Vim-style hyphen modifiers like `C-w`".to_owned())
    );
    assert_eq!(parse_angle_key("tab"), Ok(key_chord(KeyCode::Tab)));
}

#[test]
fn bare_modifier_keys_are_recognized() {
    assert!(looks_like_bare_modifier_key("C-w"));
    assert!(looks_like_bare_modifier_key("ctrl-x"));
    assert!(!looks_like_bare_modifier_key("C-"));
    assert!(!looks_like_bare_modifier_key("page-down"));
    assert!(!looks_like_bare_modifier_key("gg"));
}

#[test]
fn plain_tokens_are_named_keys_or_char_runs() {
    assert_eq!(parse_plain_sequence_token("enter"), Ok(vec![key_chord(KeyCode::Enter)]));
    assert_eq!(parse_plain_sequence_token("gg"), Ok(vec![char_chord('g'), char_chord('g')]));
    assert_eq!(
        parse_plain_sequence_token("C-w"),
        Err("unsupported key `C-w`; use Vim-style angle modifiers like `<C-w>`".to_owned())
    );
}

#[test]
fn sequence_tokens_mix_angle_keys_leader_and_chars() {
    let leader = char_chord(' ');
    assert_eq!(
        parse_sequence_token("<leader>g<C-w>", leader),
        Ok(vec![leader, char_chord('g'), ctrl_chord('w')])
    );
    assert_eq!(parse_sequence_token("<LEADER>", leader), Ok(vec![leader]));
    assert_eq!(parse_sequence_token("  ", leader), Ok(vec![]));
    assert_eq!(
        parse_sequence_token("<C-w", leader),
        Err("unsupported key `<C-w`".to_owned())
    );
    assert_eq!(
        parse_sequence_token("a+b", leader),
        Err("unsupported key `a+b`; use Vim-style angle modifiers like `<C-w>`".to_owned())
    );
    assert_eq!(
        parse_sequence_token("C-x<tab>", leader),
        Err("unsupported key `C-x`; use Vim-style angle modifiers like `<C-w>`".to_owned())
    );
}

#[test]
fn labels_name_modifiers_and_keys() {
    assert_eq!(modified_key_chord(KeyCode::Tab, mods(true, true, false)).label(), "Ctrl+Shift+Tab");
    assert_eq!(char_chord(' ').label(), "Space");
    assert_eq!(key_code_label(KeyCode::F(5)), "F5");
    assert_eq!(key_code_label(KeyCode::BackTab), "Shift+Tab");
}

#[test]
fn title_labels_use_angle_brackets_for_modified_keys() {
    assert_eq!(char_chord('x').title_label(), "x");
    assert_eq!(char_chord(' ').title_label(), " ");
    assert_eq!(ctrl_chord('x').title_label(), "<C-x>");
    assert_eq!(key_chord(KeyCode::Enter).title_label(), "<Enter>");
    assert_eq!(modified_key_chord(KeyCode::Char('a'), mods(true, true, true)).title_label(), "<C-A-S-a>");
}

#[test]
fn shifted_letters_match_every_terminal_encoding() {
    let shift_r = modified_key_chord(KeyCode::Char('r'), mods(true, false, false));
    assert!(shift_r.matches(KeyEvent::new(KeyCode::Char('R'), mods(true, false, false))));
    assert!(shift_r.matches(KeyEvent::new(KeyCode::Char('r'), mods(true, false, false))));
    assert!(!shift_r.matches(KeyEvent::new(KeyCode::Char('r'), mods(false, false, false))));
    let upper = char_chord('R');
    assert!(upper.matches(KeyEvent::new(KeyCode::Char('R'), mods(true, false, false))));
}

#[test]
fn backtab_matches_shift_tab() {
    let shift_tab = modified_key_chord(KeyCode::Tab, mods(true, false, false));
    assert!(shift_tab.matches(KeyEvent::new(KeyCode::BackTab, mods(false, false, false))));
    assert_eq!(key_chord(KeyCode::BackTab).canonical(), shift_tab);
}

#[test]
fn chords_from_one_key_press_are_the_same_shortcut() {
    let upper = char_chord('A');
    let shift_a = modified_key_chord(KeyCode::Char('a'), mods(true, false, false));
    assert!(key_chords_match_same_event(upper, shift_a));
    assert!(upper.matches_chord(shift_a));
    assert!(!key_chords_match_same_event(char_chord('a'), char_chord('b')));
    assert!(char_chord('q').matches_char('q'));
}

#[test]
fn canonical_chords_stay_canonical() {
    let backtab = modified_key_chord(KeyCode::BackTab, mods(false, true, false));
    let once = backtab.canonical();
    assert_eq!(once, modified_key_chord(KeyCode::Tab, mods(true, true, false)));
    assert_eq!(once.canonical(), once);
}

#[test]
fn shared_key_presses_do_not_depend_on_order() {
    let chords = [
        char_chord('a'),
        char_chord('A'),
        modified_key_chord(KeyCode::Char('a'), mods(true, false, false)),
        ctrl_chord('a'),
        key_chord(KeyCode::Tab),
        modified_key_chord(KeyCode::BackTab, mods(false, false, false)),
    ];
    for left in chords {
        assert!(key_chords_match_same_event(left, left));
        assert!(left.matches(KeyEvent::new(left.code, left.modifiers)));
        for right in chords {
            assert_eq!(key_chords_match_same_event(left, right), key_chords_match_same_event(right, left));
        }
    }
}
