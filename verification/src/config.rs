//! Command-line configuration for a line search: a pattern and a target
//! file, taken from exactly two arguments after the program name.

use vstd::prelude::*;

verus! {

/// Why the arguments were rejected: in both cases the count carried along
/// is the number of arguments that were actually given.
#[derive(Debug, Clone, Copy, PartialEq, Eq, Structural)]
pub enum ConfigParseErr {
    NotEnoughArguments(usize),
    TooManyArguments(usize),
}

/// A parsed configuration: what to search for, and where.
#[derive(Debug)]
pub struct Config {
    pub target: String,
    pub pattern: String,
}

impl Config {
    /// Parse the argument list.  The first entry is the program name; the
    /// two after it are the pattern and the target, in that order.  Any
    /// other count is rejected, reporting how many arguments were given.
    pub fn parse(args: Vec<String>) -> (r: Result<Config, ConfigParseErr>)
        ensures
            args@.len() == 3 ==> (r matches Ok(c) && c.pattern@ == args@[1]@ && c.target@
                == args@[2]@),
            0 < args@.len() < 3 ==> r == Err::<Config, ConfigParseErr>(
                ConfigParseErr::NotEnoughArguments((args@.len() - 1) as usize),
            ),
            args@.len() == 0 ==> r == Err::<Config, ConfigParseErr>(
                ConfigParseErr::NotEnoughArguments(0),
            ),
            args@.len() > 3 ==> r == Err::<Config, ConfigParseErr>(
                ConfigParseErr::TooManyArguments((args@.len() - 1) as usize),
            ),
    {
        let n = args.len();
        if n == 3 {
            let mut args = args;
            let pattern = args.remove(1);
            let target = args.remove(1);
            Ok(Config { target, pattern })
        } else if n == 0 {
            Err(ConfigParseErr::NotEnoughArguments(0))
        } else if n < 3 {
            Err(ConfigParseErr::NotEnoughArguments(n - 1))
        } else {
            Err(ConfigParseErr::TooManyArguments(n - 1))
        }
    }
}

} // verus!
