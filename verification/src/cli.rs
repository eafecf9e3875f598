//! The arguments of the program.
//!
//! After the name of the program there may stand the flag `--logout` and
//! the command `login`, which takes no arguments of its own. `-h`, `--help`
//! and, in the place of a command, `help` ask for the help text. Anything
//! else is an error.

use crate::text::str_equal;
use vstd::prelude::*;

verus! {

/// What the program is asked to do instead of showing the calendar.
#[derive(Debug, Clone, Copy, PartialEq, Eq, Structural)]
pub enum Command {
    /// Log in and leave.
    Login,
}

/// The arguments of the program, read.
#[derive(Debug, Clone, Copy, PartialEq, Eq, Structural)]
pub struct Cli {
    pub command: Option<Command>,
    /// Delete the stored credentials and leave.
    pub logout: bool,
}

/// Why the arguments could not be read.
#[derive(Debug, Clone, Copy, PartialEq, Eq, Structural)]
pub enum CliError {
    /// The argument at `index` is not one that may stand there.
    UnexpectedArgument { index: usize },
    /// The flag at `index` was given before.
    RepeatedFlag { index: usize },
    /// The help text was asked for.
    HelpRequested,
}

/// Whether `arg` asks for the help text.
pub open spec fn is_help(arg: Seq<char>) -> bool {
    arg == "--help"@ || arg == "-h"@
}

/// What the arguments from `from` on mean, when the flag `--logout` was
/// seen or not before them, as `logout` says. The first argument that may
/// not stand where it stands decides the error.
pub open spec fn parse_rest(args: Seq<Seq<char>>, from: int, logout: bool) -> Result<Cli, CliError>
    decreases args.len() - from,
{
    if from >= args.len() {
        Ok(Cli { command: None, logout })
    } else if is_help(args[from]) {
        Err(CliError::HelpRequested)
    } else if args[from] == "--logout"@ {
        if logout {
            Err(CliError::RepeatedFlag { index: from as usize })
        } else {
            parse_rest(args, from + 1, true)
        }
    } else if args[from] == "help"@ {
        Err(CliError::HelpRequested)
    } else if args[from] == "login"@ {
        if from + 1 >= args.len() {
            Ok(Cli { command: Some(Command::Login), logout })
        } else if is_help(args[from + 1]) {
            Err(CliError::HelpRequested)
        } else {
            Err(CliError::UnexpectedArgument { index: (from + 1) as usize })
        }
    } else {
        Err(CliError::UnexpectedArgument { index: from as usize })
    }
}

/// What the arguments `args` mean; the first of them is the name of the
/// program.
pub open spec fn parsed(args: Seq<Seq<char>>) -> Result<Cli, CliError> {
    parse_rest(args, 1, false)
}

/// The texts of the arguments `args`.
pub open spec fn texts(args: Seq<&str>) -> Seq<Seq<char>> {
    args.map_values(|arg: &str| arg@)
}

/// The texts of the arguments `args`.
pub open spec fn owned_texts(args: Seq<String>) -> Seq<Seq<char>> {
    args.map_values(|arg: String| arg@)
}

impl Cli {
    /// Reads the arguments `args`, of which the first is the name of the
    /// program.
    pub fn try_parse_from(args: &[&str]) -> (r: Result<Cli, CliError>)
        ensures
            r == parsed(texts(args@)),
    {
        let ghost all = texts(args@);
        let mut logout = false;
        let mut i: usize = 1;
        while i < args.len()
            invariant
                1 <= i,
                all == texts(args@),
                parsed(all) == parse_rest(all, i as int, logout),
            decreases args@.len() - i,
        {
            let arg: &str = args[i];
            assert(all[i as int] == arg@);
            if str_equal(arg, "--help") || str_equal(arg, "-h") {
                return Err(CliError::HelpRequested);
            } else if str_equal(arg, "--logout") {
                if logout {
                    return Err(CliError::RepeatedFlag { index: i });
                }
                logout = true;
            } else if str_equal(arg, "help") {
                return Err(CliError::HelpRequested);
            } else if str_equal(arg, "login") {
                if i + 1 >= args.len() {
                    return Ok(Cli { command: Some(Command::Login), logout });
                }
                let next: &str = args[i + 1];
                assert(all[i + 1] == next@);
                if str_equal(next, "--help") || str_equal(next, "-h") {
                    return Err(CliError::HelpRequested);
                }
                return Err(CliError::UnexpectedArgument { index: i + 1 });
            } else {
                return Err(CliError::UnexpectedArgument { index: i });
            }
            i = i + 1;
        }
        Ok(Cli { command: None, logout })
    }

    /// Reads arguments that are known to be well-formed.
    pub fn parse_from(args: &[&str]) -> (r: Cli)
        requires
            parsed(texts(args@)) is Ok,
        ensures
            Ok::<Cli, CliError>(r) == parsed(texts(args@)),
    {
        match Cli::try_parse_from(args) {
            Ok(cli) => cli,
            Err(_) => Cli { command: None, logout: false },
        }
    }

    /// Reads the arguments of the program as the system hands them over,
    /// the name of the program first.
    pub fn parse_args(args: &Vec<String>) -> (r: Result<Cli, CliError>)
        ensures
            r == parsed(owned_texts(args@)),
    {
        let mut borrowed: Vec<&str> = Vec::new();
        let mut i: usize = 0;
        while i < args.len()
            invariant
                i <= args@.len(),
                texts(borrowed@) == owned_texts(args@.take(i as int)),
            decreases args@.len() - i,
        {
            let ghost before = borrowed@;
            borrowed.push(args[i].as_str());
            i = i + 1;
            assert(texts(borrowed@) =~= texts(before).push(args@[i - 1]@));
            assert(owned_texts(args@.take(i as int)) =~= owned_texts(args@.take(i - 1)).push(
                args@[i - 1]@,
            ));
        }
        assert(args@.take(i as int) =~= args@);
        Cli::try_parse_from(borrowed.as_slice())
    }

    /// Whether the stored credentials are to be deleted.
    pub fn is_logout(&self) -> (b: bool)
        ensures
            b == self.logout,
    {
        self.logout
    }

    /// Whether the program is asked to log in and leave.
    pub fn is_login(&self) -> (b: bool)
        ensures
            b == (self.command matches Some(Command::Login)),
    {
        match self.command {
            Some(Command::Login) => true,
            None => false,
        }
    }
}

} // verus!
