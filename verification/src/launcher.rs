//! The launch of a project: which program is started with which arguments, so
//! that a new window opens with the project's shell in it, and what the launch
//! records in the project.
//!
//! Nothing here starts a process or touches a file. The caller gathers what
//! the environment says into a `LaunchProbe`, gets a `Launch` back, writes the
//! startup file where the plan asks for one, and starts the program without
//! waiting for it.

use vstd::prelude::*;
use vstd::string::StringExecFns;
use crate::activation::{
    joined, join_path, plan_activation, plan_of, shim_dir_name, shim_dir_name_of, Activation,
    ActivationPlan, ActivationView, PlanView, CONFIG_DIR_VAR,
};
use crate::clock::{launch_stamp, stamp_of, utc_now};
use crate::project::{
    detect_node_version, opt_str, opt_text, version_in, Project, ProjectView, Timestamp,
};
use crate::shell::{get_current_shell, shell_of};
use crate::text::{push_text, texts};
use crate::terminal::{
    chosen_terminal, detected_terminal, get_terminal_emulator, program_name, select_terminal,
    LaunchError, Terminal, TerminalSignals,
};

verus! {

/// A program to start: its name, its arguments, and the configuration
/// directory to set for zsh in the environment of the new process, if any.
#[derive(Debug)]
pub struct SpawnRecipe {
    pub program: String,
    pub args: Vec<String>,
    pub config_dir: Option<String>,
}

/// What a `SpawnRecipe` holds, as mathematical values.
pub struct RecipeView {
    pub program: Seq<char>,
    pub args: Seq<Seq<char>>,
    pub config_dir: Option<Seq<char>>,
}

impl View for SpawnRecipe {
    type V = RecipeView;

    open spec fn view(&self) -> RecipeView {
        RecipeView {
            program: self.program@,
            args: texts(self.args@),
            config_dir: opt_text(self.config_dir),
        }
    }
}

/// The arguments that make the terminal `t` run a command in a new window.
/// A multiplexer opens the window inside its session, in the directory
/// `path`.
pub open spec fn window_args(t: Terminal, path: Seq<char>) -> Seq<Seq<char>> {
    match t {
        Terminal::Kitty => seq!["--hold"@, "--"@],
        Terminal::Wezterm => seq!["start"@, "--"@],
        Terminal::GnomeTerminal => seq!["--"@],
        Terminal::Tmux => seq!["new-window"@, "-c"@, path],
        Terminal::Alacritty => seq!["-e"@],
        Terminal::Xterm => seq!["-e"@],
        Terminal::Iterm2 => seq!["-e"@],
        Terminal::AppleTerminal => seq!["-e"@],
        Terminal::Screen => seq!["-e"@],
    }
}

/// Whether the terminal `t` takes the configuration directory as an argument,
/// through `env`, and not from the environment of the process that is
/// started.
pub open spec fn passes_env_as_argument(t: Terminal) -> bool {
    t == Terminal::Tmux
}

/// The assignment that hands the configuration directory `dir` to `env`.
pub open spec fn config_dir_assignment(dir: Seq<char>) -> Seq<char> {
    CONFIG_DIR_VAR@ + "="@ + dir
}

/// The arguments that start the shell of the plan: interactive, with the
/// command of the plan where it has one.
pub open spec fn shell_args(t: Terminal, plan: PlanView) -> Seq<Seq<char>> {
    match plan.activation {
        ActivationView::Inline(command) => seq![plan.shell, "-i"@, "-c"@, command],
        ActivationView::Shim { dir, startup } => if passes_env_as_argument(t) {
            seq!["env"@, config_dir_assignment(dir), plan.shell, "-i"@]
        } else {
            seq![plan.shell, "-i"@]
        },
    }
}

/// The configuration directory that the new process finds in its
/// environment.
pub open spec fn config_dir_of(t: Terminal, plan: PlanView) -> Option<Seq<char>> {
    match plan.activation {
        ActivationView::Inline(command) => None,
        ActivationView::Shim { dir, startup } => if passes_env_as_argument(t) {
            None
        } else {
            Some(dir)
        },
    }
}

/// How the terminal `t` is started for the plan `plan` and the project
/// directory `path`.
pub open spec fn recipe_of(t: Terminal, plan: PlanView, path: Seq<char>) -> RecipeView {
    RecipeView {
        program: program_name(t),
        args: window_args(t, path) + shell_args(t, plan),
        config_dir: config_dir_of(t, plan),
    }
}

/// How the terminal `t` is started for the plan and the project directory.
pub fn spawn_recipe(t: Terminal, plan: &ActivationPlan, path: &str) -> (recipe: SpawnRecipe)
    ensures
        recipe@ == recipe_of(t, plan@, path@),
{
    let mut args: Vec<String> = Vec::new();
    proof {
        assert(texts(args@) =~= Seq::<Seq<char>>::empty());
    }
    match t {
        Terminal::Kitty => {
            push_text(&mut args, "--hold");
            push_text(&mut args, "--");
        },
        Terminal::Wezterm => {
            push_text(&mut args, "start");
            push_text(&mut args, "--");
        },
        Terminal::GnomeTerminal => {
            push_text(&mut args, "--");
        },
        Terminal::Tmux => {
            push_text(&mut args, "new-window");
            push_text(&mut args, "-c");
            push_text(&mut args, path);
        },
        _ => {
            push_text(&mut args, "-e");
        },
    }
    assert(texts(args@) =~= window_args(t, path@));
    let by_argument = match t {
        Terminal::Tmux => true,
        _ => false,
    };
    let mut config_dir: Option<String> = None;
    match &plan.activation {
        Activation::Inline(command) => {
            push_text(&mut args, plan.shell.as_str());
            push_text(&mut args, "-i");
            push_text(&mut args, "-c");
            push_text(&mut args, command.as_str());
        },
        Activation::Shim { dir, startup } => {
            if by_argument {
                let mut assignment = CONFIG_DIR_VAR.to_owned();
                assignment.append("=");
                assignment.append(dir.as_str());
                push_text(&mut args, "env");
                push_text(&mut args, assignment.as_str());
            } else {
                config_dir = Some(dir.clone());
            }
            push_text(&mut args, plan.shell.as_str());
            push_text(&mut args, "-i");
        },
    }
    assert(texts(args@) =~= window_args(t, path@) + shell_args(t, plan@));
    SpawnRecipe { program: t.program().to_owned(), args, config_dir }
}

/// What the caller has found out about the environment before a launch.
#[derive(Debug)]
pub struct LaunchProbe {
    /// The value of the variable that names the user's shell, where it is
    /// set.
    pub shell: Option<String>,
    /// What the environment says about the terminal around the process.
    pub signals: TerminalSignals,
    /// The terminals whose programs can be found.
    pub available: Vec<Terminal>,
    /// The contents of the project's marker file, where it has one.
    pub marker: Option<String>,
    /// The directory for temporary files.
    pub temp_dir: String,
    /// The id of this process.
    pub process_id: u32,
}

/// A launch that was decided on: how the shell is started, and the program
/// that opens the window for it.
#[derive(Debug)]
pub struct Launch {
    pub plan: ActivationPlan,
    pub recipe: SpawnRecipe,
}

/// What a `Launch` holds, as mathematical values.
pub struct LaunchView {
    pub plan: PlanView,
    pub recipe: RecipeView,
}

impl View for Launch {
    type V = LaunchView;

    open spec fn view(&self) -> LaunchView {
        LaunchView { plan: self.plan@, recipe: self.recipe@ }
    }
}

/// The directory that holds the startup file of the launch with the stamp
/// `stamp`.
pub open spec fn shim_dir_of(probe: LaunchProbe, stamp: int) -> Seq<char> {
    joined(probe.temp_dir@, shim_dir_name_of(probe.process_id as nat, stamp))
}

/// The launch of the project directory `path` with the stamp `stamp`, or the
/// reason why there is none. The terminal is the one that the signals point
/// to, or else the first common one that can be found; the shell is the
/// user's.
pub open spec fn launch_of(path: Seq<char>, probe: LaunchProbe, stamp: int) -> Result<
    LaunchView,
    LaunchError,
> {
    match chosen_terminal(detected_terminal(probe.signals), probe.available@) {
        Err(e) => Err(e),
        Ok(t) => {
            let plan = plan_of(path, shell_of(opt_text(probe.shell)), shim_dir_of(probe, stamp));
            Ok(LaunchView { plan: plan, recipe: recipe_of(t, plan, path) })
        },
    }
}

/// The project `before` after it was opened at the moment `now`, with
/// `marker` holding the contents of its marker file, if it has one: the
/// moment is recorded and the version is read anew.
pub open spec fn opened(before: ProjectView, now: Timestamp, marker: Option<Seq<char>>) -> ProjectView {
    ProjectView {
        last_opened: Some(now),
        node_version: match marker {
            Some(contents) => Some(version_in(contents)),
            None => None,
        },
        ..before
    }
}

/// What opening a project at the moment `now` comes to: either the launch
/// was decided on and the project records it, or there is an error and the
/// project is as it was.
pub open spec fn opened_at(
    before: ProjectView,
    after: ProjectView,
    probe: LaunchProbe,
    r: Result<Launch, LaunchError>,
    now: Timestamp,
) -> bool {
    match launch_of(before.path, probe, stamp_of(now)) {
        Ok(launch) => r is Ok && r->Ok_0@ == launch && after == opened(
            before,
            now,
            opt_text(probe.marker),
        ),
        Err(e) => r is Err && r->Err_0 == e && after == before,
    }
}

/// A borrowed form of an optional text.
pub fn as_opt_str(s: &Option<String>) -> (r: Option<&str>)
    ensures
        opt_str(r) == opt_text(*s),
{
    match s {
        Some(t) => Some(t.as_str()),
        None => None,
    }
}

/// Decides on the launch of the project directory `path`, with `stamp` to
/// tell this launch from others.
pub fn plan_launch(path: &str, probe: &LaunchProbe, stamp: i64) -> (r: Result<Launch, LaunchError>)
    ensures
        match launch_of(path@, *probe, stamp as int) {
            Ok(launch) => r is Ok && r->Ok_0@ == launch,
            Err(e) => r is Err && r->Err_0 == e,
        },
{
    let detected = get_terminal_emulator(&probe.signals);
    match select_terminal(detected, &probe.available) {
        Err(e) => Err(e),
        Ok(t) => {
            let shell = get_current_shell(as_opt_str(&probe.shell));
            let name = shim_dir_name(probe.process_id, stamp);
            let shim_dir = join_path(probe.temp_dir.as_str(), name.as_str());
            let plan = plan_activation(path, shell.as_str(), shim_dir.as_str());
            let recipe = spawn_recipe(t, &plan, path);
            Ok(Launch { plan, recipe })
        },
    }
}

/// Records in the project that it was opened at the moment `now`, and reads
/// its version anew from the contents of its marker file.
pub fn record_open(proj: &mut Project, now: Timestamp, marker: Option<&str>)
    ensures
        final(proj)@ == opened(old(proj)@, now, opt_str(marker)),
{
    proj.last_opened = Some(now);
    proj.node_version = match detect_node_version(marker) {
        Ok(v) => Some(v),
        Err(_) => None,
    };
}

/// Opens the project: decides on the launch and, where there is one, records
/// the current moment and the version in the project. On an error the project
/// is left as it was. The moment is read from the clock here; whatever it is,
/// the result is the one that `plan_launch` and `record_open` give for it.
pub fn open_project(proj: &mut Project, probe: &LaunchProbe) -> (r: Result<Launch, LaunchError>)
    ensures
        r is Err <==> chosen_terminal(detected_terminal(probe.signals), probe.available@) is Err,
        exists|now: Timestamp|
            now.secs >= 0 && now.nanos < 1_000_000_000 && #[trigger] opened_at(
                old(proj)@,
                final(proj)@,
                *probe,
                r,
                now,
            ),
{
    let now = utc_now();
    let r = plan_launch(proj.path.as_str(), probe, launch_stamp(now));
    if r.is_ok() {
        record_open(proj, now, as_opt_str(&probe.marker));
    }
    proof {
        assert(opened_at(old(proj)@, proj@, *probe, r, now));
    }
    r
}

} // verus!
