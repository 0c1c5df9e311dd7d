//! Arguments of `colors <strategy> <path-to-image>`.
use vstd::prelude::*;

use crate::text::str_is;

verus! {

/// The palette extraction engines.
#[derive(PartialEq, Eq, Structural, Clone, Copy, Debug)]
pub enum ColorStrategyChoice {
    Native,
}

/// The engine that a strategy flag selects: `-native`; `None` for any other flag.
pub fn color_strategy_choice(flag: &str) -> (r: Option<ColorStrategyChoice>)
    ensures
        r == (if flag@ == "-native"@ {
            Some(ColorStrategyChoice::Native)
        } else {
            None
        }),
{
    if str_is(flag, "-native") {
        Some(ColorStrategyChoice::Native)
    } else {
        None
    }
}

/// The arguments of the `colors` command.
pub struct ColorsArgs {
    pub strategy_flag: String,
    pub image_path: String,
}

/// Reads `colors <strategy> <path-to-image>`: `args[0]` is the command name,
/// `args[1]` the strategy flag and `args[2]` the image; further arguments are
/// ignored. `None` when there are fewer than three arguments.
pub fn parse_colors_args(args: &[String]) -> (r: Option<ColorsArgs>)
    ensures
        r is None <==> args@.len() < 3,
        r matches Some(a) ==> a.strategy_flag@ == args@[1]@ && a.image_path@ == args@[2]@,
{
    if args.len() < 3 {
        return None;
    }
    Some(ColorsArgs { strategy_flag: args[1].clone(), image_path: args[2].clone() })
}

} // verus!
