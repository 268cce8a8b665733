//! The one decision the presentation layer delegates to the library: whether
//! colored output is wanted, from the user's choice and the kind of output
//! stream. Interrogating the environment itself (is standard output a
//! terminal?) stays with the caller, so this stays a pure function.

use vstd::prelude::*;

verus! {

/// When to color the output: follow the terminal, always, or never.
#[derive(Debug, Clone, Copy, PartialEq, Eq, Structural)]
pub enum ColorChoice {
    Auto,
    Always,
    Never,
}

/// Whether output should be colored: `Auto` follows whether standard output
/// is an interactive terminal, the other choices override it.
pub fn color_enabled(choice: ColorChoice, stdout_is_terminal: bool) -> (r: bool)
    ensures
        r == match choice {
            ColorChoice::Auto => stdout_is_terminal,
            ColorChoice::Always => true,
            ColorChoice::Never => false,
        },
{
    match choice {
        ColorChoice::Auto => stdout_is_terminal,
        ColorChoice::Always => true,
        ColorChoice::Never => false,
    }
}

} // verus!
