//! Whether interactively typed secrets are echoed to the terminal.
//!
//! Codewords and shard or main-document payloads typed at a prompt are
//! exactly the data needed to recover the secret, so echo is suppressed by
//! default when standard input is a terminal. Echo can only be suppressed
//! by reading from the controlling terminal, which is done only when
//! standard input is that terminal: piped input is always read plainly.

use vstd::prelude::*;

verus! {

/// The effective echo setting for the `--echo` and `--no-echo` flags.
pub open spec fn resolved_echo(echo_flag: bool, no_echo_flag: bool, stdin_is_terminal: bool) -> bool {
    if echo_flag {
        true
    } else if no_echo_flag {
        false
    } else {
        !stdin_is_terminal
    }
}

/// Resolves the effective echo setting from the `--echo` and `--no-echo`
/// flags (at most one of which is given) and whether standard input is a
/// terminal: a flag decides when given, otherwise echo is on exactly when
/// standard input is not a terminal.
pub fn resolve_echo(echo_flag: bool, no_echo_flag: bool, stdin_is_terminal: bool) -> (r: bool)
    ensures
        r == resolved_echo(echo_flag, no_echo_flag, stdin_is_terminal),
{
    if echo_flag {
        true
    } else if no_echo_flag {
        false
    } else {
        !stdin_is_terminal
    }
}

/// Where a line of secret input is read from.
#[derive(Debug, Clone, Copy, PartialEq, Eq, Structural)]
pub enum LineSource {
    /// A plain line from standard input, echoed as usual.
    Stdin,
    /// A line from the controlling terminal, with echo turned off.
    Terminal,
}

/// The source of a line of secret input for an echo setting.
pub open spec fn source_for(echo: bool, stdin_is_terminal: bool) -> LineSource {
    if echo || !stdin_is_terminal {
        LineSource::Stdin
    } else {
        LineSource::Terminal
    }
}

/// Chooses where a line of secret input is read from: standard input when
/// echo is on or standard input is not a terminal, otherwise the terminal
/// with echo off. A prompt that reads from the terminal tells the user that
/// the input will not be echoed.
pub fn line_source(echo: bool, stdin_is_terminal: bool) -> (r: LineSource)
    ensures
        r == source_for(echo, stdin_is_terminal),
{
    if echo || !stdin_is_terminal {
        LineSource::Stdin
    } else {
        LineSource::Terminal
    }
}

/// Echo is only ever suppressed when standard input is an interactive
/// terminal.
pub proof fn lemma_echo_suppressed_only_on_terminal(echo: bool, stdin_is_terminal: bool)
    ensures
        source_for(echo, stdin_is_terminal) == LineSource::Terminal ==> stdin_is_terminal,
{
}

/// Piped input is read plainly from standard input whatever the flags say.
pub proof fn lemma_piped_input_read_plainly(echo_flag: bool, no_echo_flag: bool)
    ensures
        source_for(resolved_echo(echo_flag, no_echo_flag, false), false) == LineSource::Stdin,
{
}

/// With neither flag, typed input is not echoed on a terminal.
pub proof fn lemma_no_echo_by_default_on_terminal()
    ensures
        !resolved_echo(false, false, true),
        source_for(resolved_echo(false, false, true), true) == LineSource::Terminal,
{
}

/// `--echo` always reads plainly from standard input; `--no-echo` on a
/// terminal always reads from the terminal without echo.
pub proof fn lemma_flags_decide(stdin_is_terminal: bool)
    ensures
        source_for(resolved_echo(true, false, stdin_is_terminal), stdin_is_terminal) == LineSource::Stdin,
        source_for(resolved_echo(false, true, true), true) == LineSource::Terminal,
{
}

} // verus!
