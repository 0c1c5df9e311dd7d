//! The command line: which command runs, and what its arguments mean.
pub mod colors;
pub mod index;

use vstd::prelude::*;

use crate::text::str_is;

verus! {

/// The commands of the program.
#[derive(PartialEq, Eq, Structural, Clone, Copy, Debug)]
pub enum CommandName {
    Index,
    Colors,
}

/// The command a name selects: `index` or `colors`; `None` for any other name.
pub fn parse_command(name: &str) -> (r: Option<CommandName>)
    ensures
        r == (if name@ == "index"@ {
            Some(CommandName::Index)
        } else if name@ == "colors"@ {
            Some(CommandName::Colors)
        } else {
            None
        }),
{
    if str_is(name, "index") {
        Some(CommandName::Index)
    } else if str_is(name, "colors") {
        Some(CommandName::Colors)
    } else {
        None
    }
}

} // verus!
