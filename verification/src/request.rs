//! The parsed invocation.

use vstd::prelude::*;

verus! {

/// What the caller asked for on the command line.
#[derive(Debug, Clone, PartialEq, Eq)]
pub struct App {
    /// Run the command detached, without waiting for it.
    pub background: bool,
    /// The account to run the command as; `root` where absent.
    pub user: Option<String>,
    /// Ask for the password even where cache and policy would not.
    pub validate: bool,
    /// The program followed by its arguments.
    pub cmd: Option<Vec<String>>,
}

/// The account a request without `user` runs as.
pub open spec fn default_account() -> Seq<char> {
    "root"@
}

impl App {
    /// The account the command is to run as.
    pub open spec fn alias_spec(&self) -> Seq<char> {
        match self.user {
            Some(name) => name@,
            None => default_account(),
        }
    }

    /// The request names a program to run.
    pub open spec fn has_command(&self) -> bool {
        self.cmd matches Some(tokens) && tokens@.len() > 0
    }

    /// The program the request names.
    pub open spec fn program_spec(&self) -> Seq<char>
        recommends
            self.has_command(),
    {
        self.cmd->Some_0@[0]@
    }

    /// The arguments handed to the program: every token after the first.
    pub open spec fn arguments_spec(&self) -> Seq<Seq<char>>
        recommends
            self.has_command(),
    {
        Seq::new(
            (self.cmd->Some_0@.len() - 1) as nat,
            |i: int| self.cmd->Some_0@[i + 1]@,
        )
    }

    /// Returns the account the command is to run as.
    pub fn alias(&self) -> (name: &str)
        ensures
            name@ == self.alias_spec(),
    {
        match &self.user {
            Some(name) => name.as_str(),
            None => "root",
        }
    }

    /// Returns the program to run, or `None` where the request names none.
    pub fn program(&self) -> (name: Option<&str>)
        ensures
            name is Some == self.has_command(),
            name matches Some(text) ==> text@ == self.program_spec(),
    {
        match &self.cmd {
            Some(tokens) => {
                if tokens.len() > 0 {
                    Some(tokens[0].as_str())
                } else {
                    None
                }
            },
            None => None,
        }
    }
}

} // verus!
