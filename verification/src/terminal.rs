//! The terminal emulator around the process: how it is recognised from the
//! environment, and which one is used to open a window.

use vstd::prelude::*;
use vstd::string::StringExecFns;

verus! {

/// A terminal emulator or multiplexer that can be asked for a new window.
#[derive(Debug, Clone, Copy, PartialEq, Eq, Structural)]
pub enum Terminal {
    Kitty,
    Alacritty,
    Wezterm,
    Iterm2,
    AppleTerminal,
    Tmux,
    Screen,
    GnomeTerminal,
    Xterm,
}

/// What the environment says about the terminal around the process: for each
/// variable that a terminal sets, whether it is set, and the value of the
/// variable that names the terminal program.
#[derive(Debug)]
pub struct TerminalSignals {
    /// `KITTY_WINDOW_ID` is set.
    pub kitty_window_id: bool,
    /// `ALACRITTY_SOCKET` is set.
    pub alacritty_socket: bool,
    /// `ALACRITTY_LOG` is set.
    pub alacritty_log: bool,
    /// `WEZTERM_EXECUTABLE` is set.
    pub wezterm_executable: bool,
    /// The value of `TERM_PROGRAM`, where it is set.
    pub term_program: Option<String>,
    /// `TMUX` is set.
    pub tmux: bool,
    /// `STY` is set.
    pub sty: bool,
}

/// Why no window could be opened.
#[derive(Debug, Clone, Copy, PartialEq, Eq, Structural)]
pub enum LaunchError {
    /// The terminal around the process was recognised, but its program
    /// cannot be found.
    TerminalNotFound(Terminal),
    /// No terminal was recognised and none of the common ones can be found.
    NoTerminal,
}

/// The value of the terminal program variable is `name`.
pub open spec fn program_is(term_program: Option<String>, name: Seq<char>) -> bool {
    match term_program {
        Some(p) => p@ == name,
        None => false,
    }
}

/// The terminal that the signals point to: the first that matches, in this
/// order. A terminal's own variables come before the markers of the
/// multiplexers, since a terminal may well run inside one.
pub open spec fn detected_terminal(s: TerminalSignals) -> Option<Terminal> {
    if s.kitty_window_id {
        Some(Terminal::Kitty)
    } else if s.alacritty_socket || s.alacritty_log {
        Some(Terminal::Alacritty)
    } else if s.wezterm_executable {
        Some(Terminal::Wezterm)
    } else if program_is(s.term_program, "iTerm.app"@) {
        Some(Terminal::Iterm2)
    } else if program_is(s.term_program, "Apple_Terminal"@) {
        Some(Terminal::AppleTerminal)
    } else if s.tmux {
        Some(Terminal::Tmux)
    } else if s.sty {
        Some(Terminal::Screen)
    } else {
        None
    }
}

/// The name of the program of the terminal `t`, which is also its label.
pub open spec fn program_name(t: Terminal) -> Seq<char> {
    match t {
        Terminal::Kitty => "kitty"@,
        Terminal::Alacritty => "alacritty"@,
        Terminal::Wezterm => "wezterm"@,
        Terminal::Iterm2 => "iterm2"@,
        Terminal::AppleTerminal => "terminal"@,
        Terminal::Tmux => "tmux"@,
        Terminal::Screen => "screen"@,
        Terminal::GnomeTerminal => "gnome-terminal"@,
        Terminal::Xterm => "xterm"@,
    }
}

/// The common terminals that are tried, in this order, where none was
/// recognised.
pub open spec fn fallback_terminals() -> Seq<Terminal> {
    seq![
        Terminal::Kitty,
        Terminal::Alacritty,
        Terminal::Wezterm,
        Terminal::GnomeTerminal,
        Terminal::Xterm,
    ]
}

/// The terminals whose programs have to be looked for: the recognised one
/// alone, or else the common ones.
pub open spec fn candidates(detected: Option<Terminal>) -> Seq<Terminal> {
    match detected {
        Some(t) => seq![t],
        None => fallback_terminals(),
    }
}

/// The first of `order` from position `from` on that is among `available`.
pub open spec fn first_available(
    order: Seq<Terminal>,
    available: Seq<Terminal>,
    from: int,
) -> Option<Terminal>
    decreases order.len() - from,
{
    if from < 0 || from >= order.len() {
        None
    } else if available.contains(order[from]) {
        Some(order[from])
    } else {
        first_available(order, available, from + 1)
    }
}

/// The terminal to use, where `available` holds the terminals whose programs
/// can be found. A recognised terminal is used or nothing is: it is an error
/// for its program to be missing. Where none was recognised, the first of the
/// common terminals that can be found is used.
pub open spec fn chosen_terminal(
    detected: Option<Terminal>,
    available: Seq<Terminal>,
) -> Result<Terminal, LaunchError> {
    match detected {
        Some(t) => if available.contains(t) {
            Ok(t)
        } else {
            Err(LaunchError::TerminalNotFound(t))
        },
        None => match first_available(fallback_terminals(), available, 0) {
            Some(t) => Ok(t),
            None => Err(LaunchError::NoTerminal),
        },
    }
}

/// What is said to the user about the error `e`.
pub open spec fn error_text(e: LaunchError) -> Seq<char> {
    match e {
        LaunchError::TerminalNotFound(t) => program_name(t) + " not found"@,
        LaunchError::NoTerminal => "No suitable terminal emulator found"@,
    }
}

impl Terminal {
    /// The name of the terminal's program, which is also its label.
    pub fn program(&self) -> (name: &'static str)
        ensures
            name@ == program_name(*self),
    {
        match self {
            Terminal::Kitty => "kitty",
            Terminal::Alacritty => "alacritty",
            Terminal::Wezterm => "wezterm",
            Terminal::Iterm2 => "iterm2",
            Terminal::AppleTerminal => "terminal",
            Terminal::Tmux => "tmux",
            Terminal::Screen => "screen",
            Terminal::GnomeTerminal => "gnome-terminal",
            Terminal::Xterm => "xterm",
        }
    }
}

impl LaunchError {
    /// What is said to the user about the error.
    pub fn message(&self) -> (text: String)
        ensures
            text@ == error_text(*self),
    {
        match self {
            LaunchError::TerminalNotFound(t) => {
                let mut text = t.program().to_owned();
                text.append(" not found");
                text
            },
            LaunchError::NoTerminal => "No suitable terminal emulator found".to_owned(),
        }
    }
}

/// Whether the terminal program variable has the value `name`.
pub fn program_matches(term_program: &Option<String>, name: &str) -> (b: bool)
    ensures
        b == program_is(*term_program, name@),
{
    match term_program {
        Some(p) => {
            let wanted = name.to_owned();
            *p == wanted
        },
        None => false,
    }
}

/// The terminal around the process, as far as the signals tell.
pub fn get_terminal_emulator(signals: &TerminalSignals) -> (t: Option<Terminal>)
    ensures
        t == detected_terminal(*signals),
{
    if signals.kitty_window_id {
        Some(Terminal::Kitty)
    } else if signals.alacritty_socket || signals.alacritty_log {
        Some(Terminal::Alacritty)
    } else if signals.wezterm_executable {
        Some(Terminal::Wezterm)
    } else if program_matches(&signals.term_program, "iTerm.app") {
        Some(Terminal::Iterm2)
    } else if program_matches(&signals.term_program, "Apple_Terminal") {
        Some(Terminal::AppleTerminal)
    } else if signals.tmux {
        Some(Terminal::Tmux)
    } else if signals.sty {
        Some(Terminal::Screen)
    } else {
        None
    }
}

/// Whether `t` is among `list`.
pub fn holds_terminal(list: &Vec<Terminal>, t: Terminal) -> (b: bool)
    ensures
        b == list@.contains(t),
{
    let mut i: usize = 0;
    while i < list.len()
        invariant
            i <= list.len(),
            forall|k: int| 0 <= k < i ==> list@[k] != t,
        decreases list.len() - i,
    {
        if list[i] == t {
            return true;
        }
        i += 1;
    }
    false
}

/// The terminals whose programs have to be looked for.
pub fn probe_order(detected: Option<Terminal>) -> (order: Vec<Terminal>)
    ensures
        order@ == candidates(detected),
{
    let mut order: Vec<Terminal> = Vec::new();
    match detected {
        Some(t) => {
            order.push(t);
            assert(order@ =~= seq![t]);
        },
        None => {
            order.push(Terminal::Kitty);
            order.push(Terminal::Alacritty);
            order.push(Terminal::Wezterm);
            order.push(Terminal::GnomeTerminal);
            order.push(Terminal::Xterm);
            assert(order@ =~= fallback_terminals());
        },
    }
    order
}

/// The terminal to use, where `available` holds the terminals whose programs
/// can be found.
pub fn select_terminal(detected: Option<Terminal>, available: &Vec<Terminal>) -> (r: Result<
    Terminal,
    LaunchError,
>)
    ensures
        r == chosen_terminal(detected, available@),
{
    match detected {
        Some(t) => {
            if holds_terminal(available, t) {
                Ok(t)
            } else {
                Err(LaunchError::TerminalNotFound(t))
            }
        },
        None => {
            let order = probe_order(None);
            let mut i: usize = 0;
            while i < order.len()
                invariant
                    i <= order.len(),
                    detected is None,
                    order@ == fallback_terminals(),
                    first_available(fallback_terminals(), available@, 0) == first_available(
                        fallback_terminals(),
                        available@,
                        i as int,
                    ),
                decreases order.len() - i,
            {
                if holds_terminal(available, order[i]) {
                    return Ok(order[i]);
                }
                i += 1;
            }
            Err(LaunchError::NoTerminal)
        },
    }
}

} // verus!
