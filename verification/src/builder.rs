//! The build: which command compiles a project, and what its outcome
//! means. Running the command is the caller's part.

use crate::layout::{
    artifact_path, artifact_path_of, components_view, kernel_dir, kernel_dir_of,
};
use vstd::prelude::*;

verus! {

/// The toolchain invocation for a project: a program, its arguments, and
/// the directory to run it in.
#[derive(Clone, Debug, PartialEq, Eq)]
pub struct BuildCommand {
    pub program: String,
    pub arguments: Vec<String>,
    pub directory: Vec<String>,
}

/// What the toolchain left behind: its exit code, if it exited by itself,
/// its status in the words of the platform, and what it printed.
#[derive(Clone, Debug, PartialEq, Eq)]
pub struct BuildOutput {
    pub exit_code: Option<i32>,
    pub status: String,
    pub stdout: String,
    pub stderr: String,
}

/// A build that failed: the project, and all that the toolchain left
/// behind.
#[derive(Clone, Debug, PartialEq, Eq)]
pub struct BuildFailure {
    pub project: String,
    pub exit_code: Option<i32>,
    pub status: String,
    pub stdout: String,
    pub stderr: String,
}

/// The toolchain succeeded: it exited by itself, with code zero.
pub open spec fn succeeded(exit_code: Option<i32>) -> bool {
    exit_code == Some(0i32)
}

/// The report of a failed build, for the one who has to mend it.
pub open spec fn failure_message(
    project: Seq<char>,
    status: Seq<char>,
    stdout: Seq<char>,
    stderr: Seq<char>,
) -> Seq<char> {
    "Kernel compilation failed for "@ + project + ", status: "@ + status + "\n\nStdout:\n"@ + stdout
        + "\n\nStderr:\n"@ + stderr
}

impl BuildFailure {
    /// The failure in terms of plain texts: project, status, standard
    /// output, standard error.
    pub open spec fn view(&self) -> (Seq<char>, Option<i32>, Seq<char>, Seq<char>, Seq<char>) {
        (self.project@, self.exit_code, self.status@, self.stdout@, self.stderr@)
    }

    /// The report of this failure.
    pub fn message(&self) -> (text: String)
        ensures
            text@ == failure_message(self.project@, self.status@, self.stdout@, self.stderr@),
    {
        let mut text = String::from_str("Kernel compilation failed for ");
        text.append(self.project.as_str());
        text.append(", status: ");
        text.append(self.status.as_str());
        text.append("\n\nStdout:\n");
        text.append(self.stdout.as_str());
        text.append("\n\nStderr:\n");
        text.append(self.stderr.as_str());
        text
    }
}

/// The command that builds the project `name`: an optimized build, run in
/// the project's directory.
pub fn build_command(name: &str) -> (command: BuildCommand)
    ensures
        command.program@ == "cargo"@,
        components_view(command.arguments@) == seq!["build"@, "--release"@],
        components_view(command.directory@) == kernel_dir_of(name@),
{
    let mut arguments: Vec<String> = Vec::new();
    arguments.push(String::from_str("build"));
    arguments.push(String::from_str("--release"));
    assert(components_view(arguments@) =~= seq!["build"@, "--release"@]);
    BuildCommand { program: String::from_str("cargo"), arguments, directory: kernel_dir(name) }
}

/// What a build of the project `name` returns, given what the toolchain
/// left behind: the place where the binary is expected if and only if the
/// toolchain succeeded, and else the failure with all that was captured.
/// Whether the binary is there is for the caller to see.
pub fn build(name: &str, output: BuildOutput) -> (r: Result<Vec<String>, BuildFailure>)
    ensures
        match r {
            Ok(path) => succeeded(output.exit_code) && components_view(path@) == artifact_path_of(
                name@,
            ),
            Err(failure) => !succeeded(output.exit_code) && failure.view() == (
                name@,
                output.exit_code,
                output.status@,
                output.stdout@,
                output.stderr@,
            ),
        },
{
    let success = match output.exit_code {
        Some(code) => code == 0,
        None => false,
    };
    if success {
        Ok(artifact_path(name))
    } else {
        Err(
            BuildFailure {
                project: String::from_str(name),
                exit_code: output.exit_code,
                status: output.status,
                stdout: output.stdout,
                stderr: output.stderr,
            },
        )
    }
}

} // verus!
