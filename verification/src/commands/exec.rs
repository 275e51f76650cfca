//! Running a command inside the sandbox.

use vstd::prelude::*;
use crate::text::{extend_args, push_text, strings};

verus! {

/// The arguments of the `exec` command.
#[derive(Clone, Debug, PartialEq, Eq)]
pub struct ExecArgs {
    /// The command to run inside the sandbox, with its arguments.
    pub cmd: Vec<String>,
}

/// The arguments for the sandbox tool that run `cmd` in the sandbox of the
/// workspace at `folder`, with the merged configuration where there is one.
pub open spec fn exec_command(
    folder: Seq<char>,
    config: Option<Seq<char>>,
    cmd: Seq<Seq<char>>,
) -> Seq<Seq<char>> {
    seq!["exec"@, "--workspace-folder"@, folder] + (match config {
        Some(path) => seq!["--config"@, path],
        None => Seq::<Seq<char>>::empty(),
    }) + cmd
}

/// The arguments with which the sandbox tool is run for `args`.
pub fn run(args: &ExecArgs, workspace_folder: &str, merged_config: Option<&str>) -> (command: Vec<
    String,
>)
    ensures
        strings(command@) == exec_command(
            workspace_folder@,
            match merged_config {
                Some(path) => Some(path@),
                None => None,
            },
            strings(args.cmd@),
        ),
{
    let mut command: Vec<String> = Vec::new();
    assert(strings(command@) =~= Seq::<Seq<char>>::empty());
    push_text(&mut command, "exec");
    push_text(&mut command, "--workspace-folder");
    push_text(&mut command, workspace_folder);
    match merged_config {
        Some(path) => {
            push_text(&mut command, "--config");
            push_text(&mut command, path);
        },
        None => {},
    }
    let ghost head = strings(command@);
    assert(head =~= seq!["exec"@, "--workspace-folder"@, workspace_folder@] + (match merged_config {
        Some(path) => seq!["--config"@, path@],
        None => Seq::<Seq<char>>::empty(),
    }));
    extend_args(&mut command, &args.cmd);
    command
}

} // verus!
