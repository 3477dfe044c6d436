//! Launchable items: an application, a shell command, or a plain line of
//! text, each with a displayable name and a bound action.  Launching itself
//! (spawning, printing) lives outside this core; the error type carries what
//! that boundary reports.

use vstd::prelude::*;

verus! {

/// A desktop application: display name, description, and the command line of
/// its executable.
pub struct Application {
    pub name: String,
    pub description: String,
    pub exec_line: String,
}

/// A bare command line handed to a shell.
pub struct ShellCommand {
    pub exec_line: String,
}

/// One launchable item.  `Empty` is the inert default that a freshly
/// constructed row carries before it is bound.
pub enum LauncherItem {
    Application(Application),
    Command(ShellCommand),
    String(String),
    Empty,
}

/// A failed launch: the failing command, a human-readable message, and the
/// operating system's own error rendered as text.
pub struct LaunchError {
    cause: String,
    error: String,
    command: String,
}

impl Application {
    /// Builds an application entry.
    pub fn new(name: String, description: String, exec_line: String) -> (r: Application)
        ensures
            r.name == name,
            r.description == description,
            r.exec_line == exec_line,
    {
        Application { name, description, exec_line }
    }
}

impl ShellCommand {
    /// Builds a shell-command entry.
    pub fn new(exec_line: String) -> (r: ShellCommand)
        ensures
            r.exec_line == exec_line,
    {
        ShellCommand { exec_line }
    }
}

impl LauncherItem {
    /// The displayable name of an entry: an application's name, a command's
    /// own text, or the line of text itself.
    pub open spec fn name_spec(&self) -> Seq<char> {
        match self {
            LauncherItem::Application(a) => a.name@,
            LauncherItem::Command(c) => c.exec_line@,
            LauncherItem::String(s) => s@,
            LauncherItem::Empty => Seq::empty(),
        }
    }

    /// The displayable name.  The inert `Empty` entry has none to give.
    pub fn name(&self) -> (r: &String)
        requires
            !(self matches LauncherItem::Empty),
        ensures
            r@ == self.name_spec(),
    {
        match self {
            LauncherItem::Application(a) => &a.name,
            LauncherItem::Command(c) => &c.exec_line,
            LauncherItem::String(s) => s,
            LauncherItem::Empty => unreached(),
        }
    }
}

impl Default for LauncherItem {
    /// A fresh row's entry before anything is bound to it.
    fn default() -> (r: Self)
        ensures
            r matches LauncherItem::Empty,
    {
        LauncherItem::Empty
    }
}

impl LaunchError {
    /// Builds the report of one failed launch.
    pub fn new(cause: String, error: String, command: String) -> (r: LaunchError)
        ensures
            r.cause_spec() == cause,
            r.error_spec() == error,
            r.command_spec() == command,
    {
        LaunchError { cause, error, command }
    }

    /// The operating system's error, rendered as text.
    pub closed spec fn cause_spec(&self) -> String {
        self.cause
    }

    /// The human-readable message.
    pub closed spec fn error_spec(&self) -> String {
        self.error
    }

    /// The command that failed.
    pub closed spec fn command_spec(&self) -> String {
        self.command
    }

    /// The operating system's error, rendered as text.
    pub fn cause(&self) -> (r: &String)
        ensures
            r == self.cause_spec(),
    {
        &self.cause
    }

    /// The human-readable message.
    pub fn error(&self) -> (r: &String)
        ensures
            r == self.error_spec(),
    {
        &self.error
    }

    /// The command that failed.
    pub fn command(&self) -> (r: &String)
        ensures
            r == self.command_spec(),
    {
        &self.command
    }
}

} // verus!
