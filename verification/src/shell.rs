//! The invoking shell: which one it is, which dialect it speaks, and how a
//! text is written inside single quotes for it.

use vstd::prelude::*;
use crate::text::{chars_of, is_substring, str_contains, string_from_chars};

verus! {

/// The shell that is used where the environment names none.
pub const DEFAULT_SHELL: &'static str = "/bin/bash";

/// The dialect in which a shell takes commands.
#[derive(Debug, Clone, Copy, PartialEq, Eq, Structural)]
pub enum Dialect {
    /// A POSIX-like shell such as `sh` or `bash`.
    Posix,
    Fish,
    Zsh,
}

/// The shell to start: the value of the environment's shell variable, or the
/// default where the variable is not set.
pub open spec fn shell_of(var: Option<Seq<char>>) -> Seq<char> {
    match var {
        Some(shell) => shell,
        None => DEFAULT_SHELL@,
    }
}

/// The dialect of the shell `shell`: zsh where its path holds `zsh`, else
/// fish where it holds `fish`, else POSIX-like.
pub open spec fn dialect_of(shell: Seq<char>) -> Dialect {
    if is_substring("zsh"@, shell) {
        Dialect::Zsh
    } else if is_substring("fish"@, shell) {
        Dialect::Fish
    } else {
        Dialect::Posix
    }
}

/// What stands for the character `c` inside single quotes: a single quote
/// closes the quotation, is written escaped, and opens it again; every other
/// character stands for itself.
pub open spec fn escaped_char(c: char) -> Seq<char> {
    if c == '\'' {
        seq!['\'', '\\', '\'', '\'']
    } else {
        seq![c]
    }
}

/// `s` as it is written between single quotes.
pub open spec fn escaped(s: Seq<char>) -> Seq<char>
    decreases s.len(),
{
    if s.len() == 0 {
        s
    } else {
        escaped_char(s.first()) + escaped(s.drop_first())
    }
}

/// What a POSIX shell reads from the word `s`, where the word is made of
/// single-quoted parts and backslash-escaped characters alone; `quoted` says
/// whether a quotation is open at the start of `s`. Between single quotes
/// every character stands for itself up to the closing quote; outside them a
/// backslash makes the next character stand for itself. `None` where a
/// quotation is left open, a backslash ends the word, or a bare character
/// stands outside the quotes.
pub open spec fn sh_word(s: Seq<char>, quoted: bool) -> Option<Seq<char>>
    decreases s.len(),
{
    if s.len() == 0 {
        if quoted {
            None
        } else {
            Some(Seq::empty())
        }
    } else if quoted {
        if s[0] == '\'' {
            sh_word(s.drop_first(), false)
        } else {
            match sh_word(s.drop_first(), true) {
                Some(rest) => Some(seq![s[0]] + rest),
                None => None,
            }
        }
    } else if s[0] == '\'' {
        sh_word(s.drop_first(), true)
    } else if s[0] == '\\' && s.len() >= 2 {
        match sh_word(s.skip(2), false) {
            Some(rest) => Some(seq![s[1]] + rest),
            None => None,
        }
    } else {
        None
    }
}

/// `s` between single quotes, as it is put into a command.
pub open spec fn single_quoted(s: Seq<char>) -> Seq<char> {
    seq!['\''] + escaped(s) + seq!['\'']
}

/// The shell to start.
pub fn get_current_shell(shell_var: Option<&str>) -> (shell: String)
    ensures
        shell@ == shell_of(
            match shell_var {
                Some(s) => Some(s@),
                None => None,
            },
        ),
{
    match shell_var {
        Some(s) => s.to_owned(),
        None => DEFAULT_SHELL.to_owned(),
    }
}

/// Whether the shell is fish: its path holds `fish`.
pub fn is_fish_shell(shell: &str) -> (b: bool)
    ensures
        b == is_substring("fish"@, shell@),
{
    str_contains(shell, "fish")
}

/// Whether the shell is zsh: its path holds `zsh`.
pub fn is_zsh_shell(shell: &str) -> (b: bool)
    ensures
        b == is_substring("zsh"@, shell@),
{
    str_contains(shell, "zsh")
}

/// The dialect of the shell.
pub fn shell_dialect(shell: &str) -> (d: Dialect)
    ensures
        d == dialect_of(shell@),
{
    if is_zsh_shell(shell) {
        Dialect::Zsh
    } else if is_fish_shell(shell) {
        Dialect::Fish
    } else {
        Dialect::Posix
    }
}

/// `s` as it is written between single quotes: every single quote becomes
/// the four characters `'\''`.
pub fn sh_escape_single_quoted(s: &str) -> (r: String)
    ensures
        r@ == escaped(s@),
{
    let v = chars_of(s);
    let mut out: Vec<char> = Vec::new();
    let mut i: usize = 0;
    proof {
        assert(v@.skip(0) =~= v@);
        assert(out@ + escaped(v@) =~= escaped(v@));
    }
    while i < v.len()
        invariant
            i <= v.len(),
            escaped(v@) == out@ + escaped(v@.skip(i as int)),
        decreases v.len() - i,
    {
        let c = v[i];
        proof {
            let rest = v@.skip(i as int);
            assert(rest.first() == c);
            assert(rest.drop_first() =~= v@.skip(i + 1));
            assert(out@ + (escaped_char(c) + escaped(v@.skip(i + 1))) =~= (out@ + escaped_char(c))
                + escaped(v@.skip(i + 1)));
        }
        let ghost before = out@;
        if c == '\'' {
            out.push('\'');
            out.push('\\');
            out.push('\'');
            out.push('\'');
        } else {
            out.push(c);
        }
        assert(out@ =~= before + escaped_char(c));
        i += 1;
    }
    assert(out@ + escaped(v@.skip(i as int)) =~= out@);
    string_from_chars(&out)
}

/// Read back by a shell, an open quotation that holds the escaped form of `s`
/// and then closes gives `s`.
pub proof fn lemma_escaped_reads_back(s: Seq<char>)
    ensures
        sh_word(escaped(s) + seq!['\''], true) == Some(s),
    decreases s.len(),
{
    let close = seq!['\''];
    if s.len() == 0 {
        assert(escaped(s) + close =~= close);
        assert(close.drop_first() =~= Seq::<char>::empty());
        assert(sh_word(close.drop_first(), false) == Some(Seq::<char>::empty()));
        assert(s =~= Seq::<char>::empty());
    } else {
        let c = s.first();
        let rest = s.drop_first();
        let tail = escaped(rest) + close;
        lemma_escaped_reads_back(rest);
        assert(s =~= seq![c] + rest);
        if c == '\'' {
            let w0 = escaped(s) + close;
            assert(w0 =~= seq!['\'', '\\', '\'', '\''] + tail);
            let w1 = w0.drop_first();
            assert(w1 =~= seq!['\\', '\'', '\''] + tail);
            assert(sh_word(w0, true) == sh_word(w1, false));
            let w2 = w1.skip(2);
            assert(w2 =~= seq!['\''] + tail);
            assert(w2.drop_first() =~= tail);
            assert(sh_word(w2, false) == sh_word(tail, true));
            assert(w1[1] == '\'');
        } else {
            let w0 = escaped(s) + close;
            assert(w0 =~= seq![c] + tail);
            assert(w0.drop_first() =~= tail);
        }
    }
}

/// A text between single quotes is read back by a POSIX shell as the text
/// itself, whatever it holds, single quotes included.
pub proof fn lemma_single_quoted_round_trip(s: Seq<char>)
    ensures
        sh_word(single_quoted(s), false) == Some(s),
{
    lemma_escaped_reads_back(s);
    let w = single_quoted(s);
    assert(w.drop_first() =~= escaped(s) + seq!['\'']);
}

} // verus!
