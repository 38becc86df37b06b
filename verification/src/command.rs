//! The command builder, and what a spawn makes of it.

use std::collections::HashMap;
use std::path::PathBuf;
use vstd::prelude::*;
use vstd::string::StringExecFns;
use crate::error::Error;

verus! {

/// `std::path::PathBuf`, declared so that it can stand in signatures and
/// fields. Nothing is claimed of what a path holds: one is taken from the
/// caller and handed on as it came.
#[verifier::external_type_specification]
#[verifier::external_body]
pub struct ExPathBuf(std::path::PathBuf);

/// The kind of system that the child is spawned on.
#[derive(Debug, Clone, Copy, PartialEq, Eq, Structural)]
pub enum Platform {
    Unix,
    Windows,
}

/// The process creation flag that keeps Windows from opening a console
/// window for the child.
pub const CREATE_NO_WINDOW: u32 = 0x0800_0000;

/// A [`Command`] as plain mathematical values.
pub struct CommandView {
    pub program: Seq<char>,
    pub args: Seq<Seq<char>>,
    pub env_clear: bool,
    pub env: Map<String, String>,
    pub current_dir: Option<PathBuf>,
}

/// What to spawn: a program, its arguments, its environment and its
/// working directory.
#[derive(Debug)]
pub struct Command {
    program: String,
    args: Vec<String>,
    env_clear: bool,
    env: HashMap<String, String>,
    current_dir: Option<PathBuf>,
}

impl View for Command {
    type V = CommandView;

    closed spec fn view(&self) -> CommandView {
        CommandView {
            program: self.program@,
            args: self.args.deep_view(),
            env_clear: self.env_clear,
            env: self.env@,
            current_dir: self.current_dir,
        }
    }
}

/// The parameters of the operating system's process creation.
#[derive(Debug)]
pub struct SpawnParams {
    pub program: String,
    pub args: Vec<String>,
    /// Whether the child starts from an empty environment rather than from
    /// that of its parent.
    pub env_clear: bool,
    /// Variables to set in the child's environment.
    pub env: HashMap<String, String>,
    /// The child's working directory, if it is not to be that of the parent.
    pub current_dir: Option<PathBuf>,
    /// Process creation flags, on a platform that has them.
    pub creation_flags: Option<u32>,
}

/// The path of the file `command` in the directory `dir`, as `platform`
/// writes it. On Windows the file is an `.exe`.
pub open spec fn path_beside(dir: Seq<char>, command: Seq<char>, platform: Platform) -> Seq<char> {
    match platform {
        Platform::Unix => dir + seq!['/'] + command,
        Platform::Windows => dir + seq!['\\'] + command + seq!['.', 'e', 'x', 'e'],
    }
}

/// The path under which `command` is looked up beside the running
/// executable, whose directory is `exe_dir`. An executable without a
/// directory is an error.
pub fn relative_command_path(exe_dir: Option<&str>, command: &str, platform: Platform) -> (path:
    Result<String, Error>)
    ensures
        match exe_dir {
            Some(dir) => path.is_ok() && path.unwrap()@ == path_beside(dir@, command@, platform),
            None => path == Err::<String, Error>(Error::CurrentExeHasNoParent),
        },
{
    match exe_dir {
        Some(dir) => {
            let mut path = String::from_str(dir);
            proof {
                reveal_strlit("/");
                reveal_strlit("\\");
                reveal_strlit(".exe");
            }
            match platform {
                Platform::Unix => {
                    path.append("/");
                    path.append(command);
                    assert(path@ == path_beside(dir@, command@, platform));
                },
                Platform::Windows => {
                    path.append("\\");
                    path.append(command);
                    path.append(".exe");
                    assert(path@ == path_beside(dir@, command@, platform));
                },
            }
            Ok(path)
        },
        None => Err(Error::CurrentExeHasNoParent),
    }
}

impl Command {
    /// A command that runs `program` with no arguments, in the environment
    /// and the working directory of its parent.
    pub fn new(program: &str) -> (command: Command)
        ensures
            command@ == (CommandView {
                program: program@,
                args: Seq::empty(),
                env_clear: false,
                env: Map::empty(),
                current_dir: None,
            }),
    {
        let command = Command {
            program: String::from_str(program),
            args: Vec::new(),
            env_clear: false,
            env: HashMap::new(),
            current_dir: None,
        };
        assert(command.args.deep_view() == Seq::<Seq<char>>::empty());
        command
    }

    /// A command that runs the program `program` that lies beside the
    /// running executable, whose directory is `exe_dir`.
    pub fn new_sidecar(program: &str, exe_dir: Option<&str>, platform: Platform) -> (command:
        Result<Command, Error>)
        ensures
            match exe_dir {
                Some(dir) => command.is_ok() && command.unwrap()@ == (CommandView {
                    program: path_beside(dir@, program@, platform),
                    args: Seq::empty(),
                    env_clear: false,
                    env: Map::empty(),
                    current_dir: None,
                }),
                None => command.is_err() && command.unwrap_err() == Error::CurrentExeHasNoParent,
            },
    {
        match relative_command_path(exe_dir, program, platform) {
            Ok(path) => Ok(Command::new(path.as_str())),
            Err(e) => Err(e),
        }
    }

    /// Appends arguments to the command.
    #[must_use]
    pub fn args(self, args: &[&str]) -> (command: Command)
        ensures
            command@ == (CommandView {
                args: self@.args + Seq::new(args@.len(), |i: int| args@[i]@),
                ..self@
            }),
    {
        let mut command = self;
        let mut i: usize = 0;
        while i < args.len()
            invariant
                i <= args.len(),
                command@ == (CommandView {
                    args: self@.args + Seq::new(i as nat, |j: int| args@[j]@),
                    ..self@
                }),
            decreases args.len() - i,
        {
            let ghost before = command.args.deep_view();
            let arg = String::from_str(args[i]);
            command.args.push(arg);
            assert(command.args.deep_view() == before.push(arg@));
            assert(self@.args + Seq::new((i + 1) as nat, |j: int| args@[j]@) == (self@.args
                + Seq::new(i as nat, |j: int| args@[j]@)).push(arg@));
            i += 1;
        }
        command
    }

    /// Makes the child start from an empty environment.
    #[must_use]
    pub fn env_clear(self) -> (command: Command)
        ensures
            command@ == (CommandView { env_clear: true, ..self@ }),
    {
        let mut command = self;
        command.env_clear = true;
        command
    }

    /// Sets the variables to add to the child's environment. They take the
    /// place of any set before.
    #[must_use]
    pub fn envs(self, env: HashMap<String, String>) -> (command: Command)
        ensures
            command@ == (CommandView { env: env@, ..self@ }),
    {
        let mut command = self;
        command.env = env;
        command
    }

    /// Sets the working directory of the child.
    #[must_use]
    pub fn current_dir(self, current_dir: PathBuf) -> (command: Command)
        ensures
            command@ == (CommandView { current_dir: Some(current_dir), ..self@ }),
    {
        let mut command = self;
        command.current_dir = Some(current_dir);
        command
    }

    /// Turns the command into the parameters of process creation: what the
    /// builder was given, unchanged, and on Windows the flag that keeps a
    /// console window from opening for the child.
    pub fn spawn_params(self, platform: Platform) -> (params: SpawnParams)
        ensures
            params.program@ == self@.program,
            params.args.deep_view() == self@.args,
            params.env_clear == self@.env_clear,
            params.env@ == self@.env,
            params.current_dir == self@.current_dir,
            params.creation_flags == match platform {
                Platform::Unix => None::<u32>,
                Platform::Windows => Some(CREATE_NO_WINDOW),
            },
    {
        SpawnParams {
            program: self.program,
            args: self.args,
            env_clear: self.env_clear,
            env: self.env,
            current_dir: self.current_dir,
            creation_flags: match platform {
                Platform::Unix => None,
                Platform::Windows => Some(CREATE_NO_WINDOW),
            },
        }
    }
}

} // verus!
