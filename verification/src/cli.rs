//! The command line: one argument, the path of the source file.
use vstd::prelude::*;

verus! {

#[derive(Debug)]
pub struct CliArgs {
    pub source: String,
}

/// What can be wrong with the command line or the file it names. A file
/// that cannot be read is reported with its path and the text of the
/// error of the operating system.
#[derive(Debug)]
pub enum CliError {
    InvalidArgumentsLength,
    NoArguments,
    FileReadError { path: String, error: String },
}

impl CliArgs {
    /// The arguments of the program, without its own name: there must be
    /// exactly one, the path of the source file.
    pub fn new(args: Vec<String>) -> (r: Result<CliArgs, CliError>)
        ensures
            args@.len() == 0 ==> r is Err && r->Err_0 is NoArguments,
            args@.len() > 1 ==> r is Err && r->Err_0 is InvalidArgumentsLength,
            args@.len() == 1 ==> r is Ok && r->Ok_0.source == args@[0],
    {
        let mut args = args;
        if args.len() == 0 {
            return Err(CliError::NoArguments);
        }
        if args.len() > 1 {
            return Err(CliError::InvalidArgumentsLength);
        }
        match args.pop() {
            Some(source) => Ok(CliArgs { source }),
            None => Err(CliError::NoArguments),
        }
    }
}

/// The arguments and the text of the file that they name.
#[derive(Debug)]
pub struct Cli {
    pub args: CliArgs,
    pub source: String,
}

impl Cli {
    /// The arguments and what came of reading the file that they name: its
    /// text, or the text of the error that reading met.
    pub fn new(args: CliArgs, read: Result<String, String>) -> (r: Result<Cli, CliError>)
        ensures
            match read {
                Ok(text) => r is Ok && r->Ok_0.source == text && r->Ok_0.args == args,
                Err(error) => r is Err && r->Err_0 == (CliError::FileReadError {
                    path: args.source,
                    error,
                }),
            },
    {
        match read {
            Ok(source) => Ok(Cli { args, source }),
            Err(error) => Err(CliError::FileReadError { path: args.source, error }),
        }
    }
}

} // verus!
