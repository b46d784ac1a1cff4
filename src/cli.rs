use vstd::prelude::*;

verus! {

/// The subcommands.
pub enum Commands {
    /// Print where the hook configuration is read from.
    ConfigPath,
    /// Run the command given by `args` under the wrapper.
    Run { args: Vec<String> },
}

/// The parsed command line: a subcommand, or a command to wrap given
/// directly, and an optional configuration file.
pub struct Cli {
    pub command: Option<Commands>,
    pub config: Option<String>,
    pub args: Vec<String>,
}

/// What the command line asks for.
pub enum Invocation {
    ShowConfigPath,
    Run { config: Option<String>, args: Vec<String> },
    /// Neither a subcommand nor a command to wrap was given.
    MissingCommand,
}

impl Cli {
    /// Decides what to do: a subcommand wins over direct arguments, and
    /// without either there is nothing to run.
    pub fn resolve(self) -> (r: Invocation)
        ensures
            self.command matches Some(Commands::ConfigPath) ==> r is ShowConfigPath,
            self.command matches Some(Commands::Run { args }) ==> (r matches Invocation::Run {
                config,
                args: a,
            } && config == self.config && a@ == args@),
            self.command is None && self.args@.len() == 0 ==> r is MissingCommand,
            self.command is None && self.args@.len() > 0 ==> (r matches Invocation::Run {
                config,
                args: a,
            } && config == self.config && a@ == self.args@),
    {
        match self.command {
            Some(Commands::ConfigPath) => Invocation::ShowConfigPath,
            Some(Commands::Run { args }) => Invocation::Run { config: self.config, args },
            None => {
                if self.args.len() == 0 {
                    Invocation::MissingCommand
                } else {
                    Invocation::Run { config: self.config, args: self.args }
                }
            },
        }
    }
}

} // verus!
