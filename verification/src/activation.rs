//! The activation of a project: the command, or for zsh the startup file,
//! that enters the project directory, engages the version manager and leaves
//! an interactive shell running.

use vstd::prelude::*;
use vstd::string::StringExecFns;
use crate::shell::{dialect_of, shell_dialect, sh_escape_single_quoted, single_quoted, Dialect};
use crate::text::{
    decimal, i64_to_decimal, is_digit, lemma_decimal_digits, lemma_decimal_injective,
    lemma_signed_decimal_injective, signed_decimal, u64_to_decimal,
};

verus! {

/// The name of the startup file that zsh reads from its configuration
/// directory.
pub const SHIM_FILE: &'static str = ".zshrc";

/// The variable that names the configuration directory of zsh.
pub const CONFIG_DIR_VAR: &'static str = "ZDOTDIR";

/// For a POSIX-like shell, what follows the change of directory: the first
/// init script of nvm that exists is sourced, from the directory that
/// `NVM_DIR` names, from the system or from the user's configuration; then
/// nvm is used, with an install where that fails, else fnm in the same way,
/// else a plain `node` is reported, else the lack of any of them.
pub open spec fn posix_steps() -> Seq<char> {
    " && export NVM_DIR=\"${NVM_DIR:-$HOME/.nvm}\"; if [ -s \"$NVM_DIR/nvm.sh\" ]; then . \"$NVM_DIR/nvm.sh\"; elif [ -s /usr/share/nvm/init-nvm.sh ]; then . /usr/share/nvm/init-nvm.sh; elif [ -s \"$HOME/.config/nvm/nvm.sh\" ]; then . \"$HOME/.config/nvm/nvm.sh\"; fi; if command -v nvm >/dev/null 2>&1; then (nvm use 2>/dev/null || nvm install); elif command -v fnm >/dev/null 2>&1; then eval \"$(fnm env)\" && (fnm use 2>/dev/null || fnm install); elif command -v node >/dev/null 2>&1; then echo 'Node.js available'; else echo 'No Node.js version manager found'; fi; hash -r; "@
}

/// For fish, what follows the change of directory: nvm, else fnm, else a
/// plain `node`, else the report that none was found.
pub open spec fn fish_steps() -> Seq<char> {
    " ; if functions -q nvm\n  nvm use 2>/dev/null; or nvm install\nelse if command -q fnm\n  fnm use 2>/dev/null; or fnm install\nelse if command -q node\n  echo 'Node.js available'\nelse\n  echo 'No Node.js version manager found'\nend ; "@
}

/// The start of the startup file for zsh: it sources the user's own startup
/// file.
pub open spec fn shim_head() -> Seq<char> {
    "\n# nodash zsh shim\n# Load user's regular zshrc if present\nif [ -f \"$HOME/.zshrc\" ]; then\n  . \"$HOME/.zshrc\"\nfi\n\n"@
}

/// The end of the startup file for zsh: the same steps as for a POSIX-like
/// shell, and a refresh of the table of commands.
pub open spec fn shim_steps() -> Seq<char> {
    "\n\nexport NVM_DIR=\"${NVM_DIR:-$HOME/.nvm}\"\nif [ -s \"$NVM_DIR/nvm.sh\" ]; then\n  . \"$NVM_DIR/nvm.sh\"\nelif [ -s /usr/share/nvm/init-nvm.sh ]; then\n  . /usr/share/nvm/init-nvm.sh\nelif [ -s \"$HOME/.config/nvm/nvm.sh\" ]; then\n  . \"$HOME/.config/nvm/nvm.sh\"\nfi\n\nif command -v nvm >/dev/null 2>&1; then\n  nvm use >/dev/null 2>&1 || nvm install\nelif command -v fnm >/dev/null 2>&1; then\n  eval \"$(fnm env)\"\n  fnm use >/dev/null 2>&1 || fnm install\nelif command -v node >/dev/null 2>&1; then\n  echo 'Node.js available'\nelse\n  echo 'No Node.js version manager found'\nfi\n\n# Refresh command hash\nhash -r\n"@
}

/// The command that enters the directory `path`: `cd` and the path between
/// single quotes.
pub open spec fn enter_directory(path: Seq<char>) -> Seq<char> {
    "cd "@ + single_quoted(path)
}

/// The command for a POSIX-like shell `shell`: it enters the directory,
/// engages the version manager and starts the shell as an interactive child.
pub open spec fn posix_command(path: Seq<char>, shell: Seq<char>) -> Seq<char> {
    enter_directory(path) + posix_steps() + shell + " -i"@
}

/// The command for the fish shell `shell`.
pub open spec fn fish_command(path: Seq<char>, shell: Seq<char>) -> Seq<char> {
    enter_directory(path) + fish_steps() + shell + " -i"@
}

/// The startup file that makes zsh enter the directory `path`.
pub open spec fn zsh_shim(path: Seq<char>) -> Seq<char> {
    shim_head() + enter_directory(path) + shim_steps()
}

/// The name of the directory that holds the startup file of one launch, made
/// of the id of the process and of the moment of the launch in nanoseconds.
pub open spec fn shim_dir_name_of(process_id: nat, stamp: int) -> Seq<char> {
    "nodash-zsh-"@ + decimal(process_id) + "-"@ + signed_decimal(stamp)
}

/// The path of the entry `name` of the directory `base`.
pub open spec fn joined(base: Seq<char>, name: Seq<char>) -> Seq<char> {
    if base.len() == 0 || base.last() == '/' {
        base + name
    } else {
        base + "/"@ + name
    }
}

/// How the shell is made to activate a project.
#[derive(Debug)]
pub enum Activation {
    /// By this command, handed to the shell with `-c`.
    Inline(String),
    /// By a startup file with the contents `startup`, to be written into the
    /// directory `dir`, which the shell takes for its configuration
    /// directory.
    Shim { dir: String, startup: String },
}

/// How a shell is started for a project.
#[derive(Debug)]
pub struct ActivationPlan {
    /// The shell to start.
    pub shell: String,
    pub activation: Activation,
}

/// What an `Activation` holds, as mathematical values.
pub enum ActivationView {
    Inline(Seq<char>),
    Shim { dir: Seq<char>, startup: Seq<char> },
}

/// What an `ActivationPlan` holds, as mathematical values.
pub struct PlanView {
    pub shell: Seq<char>,
    pub activation: ActivationView,
}

impl View for Activation {
    type V = ActivationView;

    open spec fn view(&self) -> ActivationView {
        match *self {
            Activation::Inline(command) => ActivationView::Inline(command@),
            Activation::Shim { dir, startup } => ActivationView::Shim {
                dir: dir@,
                startup: startup@,
            },
        }
    }
}

impl View for ActivationPlan {
    type V = PlanView;

    open spec fn view(&self) -> PlanView {
        PlanView { shell: self.shell@, activation: self.activation@ }
    }
}

/// The plan for the project directory `path` under the shell `shell`, with
/// `shim_dir` as the directory for a startup file. zsh gets a startup file;
/// every other shell gets a command in its dialect.
pub open spec fn plan_of(path: Seq<char>, shell: Seq<char>, shim_dir: Seq<char>) -> PlanView {
    PlanView {
        shell: shell,
        activation: match dialect_of(shell) {
            Dialect::Zsh => ActivationView::Shim { dir: shim_dir, startup: zsh_shim(path) },
            Dialect::Fish => ActivationView::Inline(fish_command(path, shell)),
            Dialect::Posix => ActivationView::Inline(posix_command(path, shell)),
        },
    }
}

fn posix_steps_text() -> (text: &'static str)
    ensures
        text@ == posix_steps(),
{
    " && export NVM_DIR=\"${NVM_DIR:-$HOME/.nvm}\"; if [ -s \"$NVM_DIR/nvm.sh\" ]; then . \"$NVM_DIR/nvm.sh\"; elif [ -s /usr/share/nvm/init-nvm.sh ]; then . /usr/share/nvm/init-nvm.sh; elif [ -s \"$HOME/.config/nvm/nvm.sh\" ]; then . \"$HOME/.config/nvm/nvm.sh\"; fi; if command -v nvm >/dev/null 2>&1; then (nvm use 2>/dev/null || nvm install); elif command -v fnm >/dev/null 2>&1; then eval \"$(fnm env)\" && (fnm use 2>/dev/null || fnm install); elif command -v node >/dev/null 2>&1; then echo 'Node.js available'; else echo 'No Node.js version manager found'; fi; hash -r; "
}

fn fish_steps_text() -> (text: &'static str)
    ensures
        text@ == fish_steps(),
{
    " ; if functions -q nvm\n  nvm use 2>/dev/null; or nvm install\nelse if command -q fnm\n  fnm use 2>/dev/null; or fnm install\nelse if command -q node\n  echo 'Node.js available'\nelse\n  echo 'No Node.js version manager found'\nend ; "
}

fn shim_head_text() -> (text: &'static str)
    ensures
        text@ == shim_head(),
{
    "\n# nodash zsh shim\n# Load user's regular zshrc if present\nif [ -f \"$HOME/.zshrc\" ]; then\n  . \"$HOME/.zshrc\"\nfi\n\n"
}

fn shim_steps_text() -> (text: &'static str)
    ensures
        text@ == shim_steps(),
{
    "\n\nexport NVM_DIR=\"${NVM_DIR:-$HOME/.nvm}\"\nif [ -s \"$NVM_DIR/nvm.sh\" ]; then\n  . \"$NVM_DIR/nvm.sh\"\nelif [ -s /usr/share/nvm/init-nvm.sh ]; then\n  . /usr/share/nvm/init-nvm.sh\nelif [ -s \"$HOME/.config/nvm/nvm.sh\" ]; then\n  . \"$HOME/.config/nvm/nvm.sh\"\nfi\n\nif command -v nvm >/dev/null 2>&1; then\n  nvm use >/dev/null 2>&1 || nvm install\nelif command -v fnm >/dev/null 2>&1; then\n  eval \"$(fnm env)\"\n  fnm use >/dev/null 2>&1 || fnm install\nelif command -v node >/dev/null 2>&1; then\n  echo 'Node.js available'\nelse\n  echo 'No Node.js version manager found'\nfi\n\n# Refresh command hash\nhash -r\n"
}

/// The command that enters the directory `path`.
pub fn enter_directory_command(path: &str) -> (command: String)
    ensures
        command@ == enter_directory(path@),
{
    let mut command = "cd ".to_owned();
    let ghost start = command@;
    command.append("'");
    command.append(sh_escape_single_quoted(path).as_str());
    command.append("'");
    proof {
        reveal_strlit("'");
        assert("'"@ =~= seq!['\'']);
        assert(command@ =~= start + single_quoted(path@));
    }
    command
}

/// The activation command for a POSIX-like shell.
pub fn posix_activation_command(path: &str, shell: &str) -> (command: String)
    ensures
        command@ == posix_command(path@, shell@),
{
    let mut command = enter_directory_command(path);
    command.append(posix_steps_text());
    command.append(shell);
    command.append(" -i");
    command
}

/// The activation command for fish.
pub fn fish_activation_command(path: &str, shell: &str) -> (command: String)
    ensures
        command@ == fish_command(path@, shell@),
{
    let mut command = enter_directory_command(path);
    command.append(fish_steps_text());
    command.append(shell);
    command.append(" -i");
    command
}

/// The contents of the startup file for zsh.
pub fn zsh_shim_contents(path: &str) -> (contents: String)
    ensures
        contents@ == zsh_shim(path@),
{
    let mut contents = shim_head_text().to_owned();
    contents.append(enter_directory_command(path).as_str());
    contents.append(shim_steps_text());
    contents
}

/// The name of the directory that holds the startup file of one launch.
pub fn shim_dir_name(process_id: u32, stamp: i64) -> (name: String)
    ensures
        name@ == shim_dir_name_of(process_id as nat, stamp as int),
{
    let mut name = "nodash-zsh-".to_owned();
    name.append(u64_to_decimal(process_id as u64).as_str());
    name.append("-");
    name.append(i64_to_decimal(stamp).as_str());
    name
}

/// The path of the entry `name` of the directory `base`.
pub fn join_path(base: &str, name: &str) -> (path: String)
    ensures
        path@ == joined(base@, name@),
{
    let n = base.unicode_len();
    let mut path = base.to_owned();
    if n > 0 && base.get_char(n - 1) != '/' {
        path.append("/");
    }
    path.append(name);
    path
}

/// The plan for the project directory `path` under the shell `shell`.
pub fn plan_activation(path: &str, shell: &str, shim_dir: &str) -> (plan: ActivationPlan)
    ensures
        plan@ == plan_of(path@, shell@, shim_dir@),
{
    let activation = match shell_dialect(shell) {
        Dialect::Zsh => Activation::Shim {
            dir: shim_dir.to_owned(),
            startup: zsh_shim_contents(path),
        },
        Dialect::Fish => Activation::Inline(fish_activation_command(path, shell)),
        Dialect::Posix => Activation::Inline(posix_activation_command(path, shell)),
    };
    ActivationPlan { shell: shell.to_owned(), activation }
}

/// Two launches get the same directory name only where they come from the
/// same process at the same moment: the name tells the process and the stamp.
pub proof fn lemma_shim_dir_name_injective(
    process_a: nat,
    stamp_a: int,
    process_b: nat,
    stamp_b: int,
)
    requires
        shim_dir_name_of(process_a, stamp_a) == shim_dir_name_of(process_b, stamp_b),
    ensures
        process_a == process_b,
        stamp_a == stamp_b,
{
    reveal_strlit("-");
    let head = "nodash-zsh-"@;
    let dash = "-"@;
    let pa = decimal(process_a);
    let pb = decimal(process_b);
    let sa = signed_decimal(stamp_a);
    let sb = signed_decimal(stamp_b);
    let ta = pa + dash + sa;
    let tb = pb + dash + sb;
    let na = shim_dir_name_of(process_a, stamp_a);
    let nb = shim_dir_name_of(process_b, stamp_b);
    assert(na =~= head + ta);
    assert(nb =~= head + tb);
    assert(ta =~= na.skip(head.len() as int));
    assert(tb =~= nb.skip(head.len() as int));
    assert(ta == tb);
    lemma_decimal_digits(process_a);
    lemma_decimal_digits(process_b);
    assert(dash.len() == 1 && dash[0] == '-');
    assert(ta[pa.len() as int] == '-');
    assert(tb[pb.len() as int] == '-');
    if pa.len() < pb.len() {
        assert(tb[pa.len() as int] == pb[pa.len() as int]);
        assert(is_digit(pb[pa.len() as int]));
    } else if pb.len() < pa.len() {
        assert(ta[pb.len() as int] == pa[pb.len() as int]);
        assert(is_digit(pa[pb.len() as int]));
    }
    assert(pa =~= ta.take(pa.len() as int));
    assert(pb =~= tb.take(pb.len() as int));
    assert(sa =~= ta.skip(pa.len() as int + 1));
    assert(sb =~= tb.skip(pb.len() as int + 1));
    lemma_decimal_injective(process_a, process_b);
    lemma_signed_decimal_injective(stamp_a, stamp_b);
}

} // verus!
