use nodash::terminal::{
    get_terminal_emulator, holds_terminal, probe_order, program_matches, select_terminal,
    LaunchError, Terminal, TerminalSignals,
};

fn no_signals() -> TerminalSignals {
    TerminalSignals {
        kitty_window_id: false,
        alacritty_socket: false,
        alacritty_log: false,
        wezterm_executable: false,
        term_program: None,
        tmux: false,
        sty: false,
    }
}

#[test]
fn nothing_set_detects_nothing() {
    assert_eq!(get_terminal_emulator(&no_signals()), None);
}

#[test]
fn each_signal_detects_its_terminal() {
    let mut s = no_signals();
    s.kitty_window_id = true;
    assert_eq!(get_terminal_emulator(&s), Some(Terminal::Kitty));
    let mut s = no_signals();
    s.alacritty_socket = true;
    assert_eq!(get_terminal_emulator(&s), Some(Terminal::Alacritty));
    let mut s = no_signals();
    s.alacritty_log = true;
    assert_eq!(get_terminal_emulator(&s), Some(Terminal::Alacritty));
    let mut s = no_signals();
    s.wezterm_executable = true;
    assert_eq!(get_terminal_emulator(&s), Some(Terminal::Wezterm));
    let mut s = no_signals();
    s.term_program = Some("iTerm.app".to_string());
    assert_eq!(get_terminal_emulator(&s), Some(Terminal::Iterm2));
    let mut s = no_signals();
    s.term_program = Some("Apple_Terminal".to_string());
    assert_eq!(get_terminal_emulator(&s), Some(Terminal::AppleTerminal));
    let mut s = no_signals();
    s.tmux = true;
    assert_eq!(get_terminal_emulator(&s), Some(Terminal::Tmux));
    let mut s = no_signals();
    s.sty = true;
    assert_eq!(get_terminal_emulator(&s), Some(Terminal::Screen));
}

#[test]
fn window_id_wins_over_multiplexer_marker() {
    let mut s = no_signals();
    s.kitty_window_id = true;
    s.tmux = true;
    assert_eq!(get_terminal_emulator(&s), Some(Terminal::Kitty));
    s.sty = true;
    assert_eq!(get_terminal_emulator(&s), Some(Terminal::Kitty));
}

#[test]
fn signals_are_tried_in_the_fixed_order() {
    let mut s = TerminalSignals {
        kitty_window_id: true,
        alacritty_socket: true,
        alacritty_log: true,
        wezterm_executable: true,
        term_program: Some("iTerm.app".to_string()),
        tmux: true,
        sty: true,
    };
    assert_eq!(get_terminal_emulator(&s), Some(Terminal::Kitty));
    s.kitty_window_id = false;
    assert_eq!(get_terminal_emulator(&s), Some(Terminal::Alacritty));
    s.alacritty_socket = false;
    assert_eq!(get_terminal_emulator(&s), Some(Terminal::Alacritty));
    s.alacritty_log = false;
    assert_eq!(get_terminal_emulator(&s), Some(Terminal::Wezterm));
    s.wezterm_executable = false;
    assert_eq!(get_terminal_emulator(&s), Some(Terminal::Iterm2));
    s.term_program = Some("Apple_Terminal".to_string());
    assert_eq!(get_terminal_emulator(&s), Some(Terminal::AppleTerminal));
    s.term_program = Some("vscode".to_string());
    assert_eq!(get_terminal_emulator(&s), Some(Terminal::Tmux));
    s.tmux = false;
    assert_eq!(get_terminal_emulator(&s), Some(Terminal::Screen));
    s.sty = false;
    assert_eq!(get_terminal_emulator(&s), None);
}

#[test]
fn terminal_program_must_match_exactly() {
    assert!(program_matches(&Some("iTerm.app".to_string()), "iTerm.app"));
    assert!(!program_matches(&Some("iterm.app".to_string()), "iTerm.app"));
    assert!(!program_matches(&Some("iTerm.app2".to_string()), "iTerm.app"));
    assert!(!program_matches(&Some("".to_string()), "iTerm.app"));
    assert!(!program_matches(&None, "iTerm.app"));
}

#[test]
fn program_names_are_the_labels() {
    assert_eq!(Terminal::Kitty.program(), "kitty");
    assert_eq!(Terminal::Alacritty.program(), "alacritty");
    assert_eq!(Terminal::Wezterm.program(), "wezterm");
    assert_eq!(Terminal::Iterm2.program(), "iterm2");
    assert_eq!(Terminal::AppleTerminal.program(), "terminal");
    assert_eq!(Terminal::Tmux.program(), "tmux");
    assert_eq!(Terminal::Screen.program(), "screen");
    assert_eq!(Terminal::GnomeTerminal.program(), "gnome-terminal");
    assert_eq!(Terminal::Xterm.program(), "xterm");
}

#[test]
fn probe_order_is_the_detected_terminal_alone() {
    assert_eq!(probe_order(Some(Terminal::Tmux)), vec![Terminal::Tmux]);
    assert_eq!(probe_order(Some(Terminal::Iterm2)), vec![Terminal::Iterm2]);
}

#[test]
fn probe_order_without_detection_is_the_common_list() {
    assert_eq!(
        probe_order(None),
        vec![
            Terminal::Kitty,
            Terminal::Alacritty,
            Terminal::Wezterm,
            Terminal::GnomeTerminal,
            Terminal::Xterm,
        ]
    );
}

#[test]
fn holds_terminal_finds_members() {
    let list = vec![Terminal::Xterm, Terminal::Kitty];
    assert!(holds_terminal(&list, Terminal::Kitty));
    assert!(holds_terminal(&list, Terminal::Xterm));
    assert!(!holds_terminal(&list, Terminal::Tmux));
    assert!(!holds_terminal(&Vec::new(), Terminal::Kitty));
}

#[test]
fn detected_terminal_is_used_when_found() {
    let available = vec![Terminal::Xterm, Terminal::Tmux];
    assert_eq!(select_terminal(Some(Terminal::Tmux), &available), Ok(Terminal::Tmux));
}

#[test]
fn detected_terminal_that_is_missing_is_an_error() {
    let available = vec![Terminal::Xterm, Terminal::Kitty];
    assert_eq!(
        select_terminal(Some(Terminal::Alacritty), &available),
        Err(LaunchError::TerminalNotFound(Terminal::Alacritty))
    );
    assert_eq!(
        select_terminal(Some(Terminal::Screen), &Vec::new()),
        Err(LaunchError::TerminalNotFound(Terminal::Screen))
    );
}

#[test]
fn without_detection_the_first_common_terminal_is_used() {
    assert_eq!(
        select_terminal(None, &vec![Terminal::Xterm, Terminal::Wezterm]),
        Ok(Terminal::Wezterm)
    );
    assert_eq!(
        select_terminal(None, &vec![Terminal::Xterm, Terminal::GnomeTerminal]),
        Ok(Terminal::GnomeTerminal)
    );
    assert_eq!(select_terminal(None, &vec![Terminal::Xterm]), Ok(Terminal::Xterm));
    assert_eq!(
        select_terminal(None, &vec![Terminal::Alacritty, Terminal::Kitty]),
        Ok(Terminal::Kitty)
    );
}

#[test]
fn without_detection_only_common_terminals_count() {
    assert_eq!(
        select_terminal(None, &vec![Terminal::Tmux, Terminal::Screen, Terminal::Iterm2]),
        Err(LaunchError::NoTerminal)
    );
    assert_eq!(select_terminal(None, &Vec::new()), Err(LaunchError::NoTerminal));
}

#[test]
fn error_messages_name_the_terminal() {
    assert_eq!(LaunchError::TerminalNotFound(Terminal::Kitty).message(), "kitty not found");
    assert_eq!(LaunchError::TerminalNotFound(Terminal::Tmux).message(), "tmux not found");
    assert_eq!(
        LaunchError::TerminalNotFound(Terminal::AppleTerminal).message(),
        "terminal not found"
    );
    assert_eq!(LaunchError::NoTerminal.message(), "No suitable terminal emulator found");
}
