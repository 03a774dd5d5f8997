//! The rules of an adapter that drives the external `7z` program: which
//! arguments each request takes, and what the program's answer means. The
//! host runs the program.

use vstd::prelude::*;
use vstd::string::StringExecFns;
use crate::plugin_api::base::{PluginError, PluginErrorView};

verus! {

/// What a finished run of the program left behind.
#[derive(Debug)]
pub struct ToolOutput {
    pub success: bool,
    pub stderr: String,
}

/// The answer to a request to run the program: what a finished run left
/// behind, or why the program could not be started.
pub type ToolResult = Result<ToolOutput, String>;

/// The views of a list of arguments.
pub open spec fn arguments_view(arguments: Seq<String>) -> Seq<Seq<char>> {
    Seq::new(arguments.len(), |i: int| arguments[i]@)
}

/// The name of the program.
pub open spec fn program_name() -> Seq<char> {
    "7z"@
}

/// The arguments that ask the program whether it is there.
pub open spec fn probe_arguments_of() -> Seq<Seq<char>> {
    seq!["--help"@]
}

/// The arguments that pack `input_files` into `output_file`: add to a 7z
/// archive at normal strength.
pub open spec fn compress_arguments_of(input_files: Seq<Seq<char>>, output_file: Seq<char>) -> Seq<
    Seq<char>,
> {
    seq!["a"@, "-t7z"@, "-mx=5"@, output_file] + input_files
}

/// The arguments that unpack `archive_file` with full paths below
/// `output_dir`, answering every question with yes.
pub open spec fn decompress_arguments_of(archive_file: Seq<char>, output_dir: Seq<char>) -> Seq<
    Seq<char>,
> {
    seq!["x"@, archive_file, "-o"@ + output_dir, "-y"@]
}

/// What the answer to the probe means: the program is there when it
/// started and ended well; anything else is an `ExecutionError` that keeps
/// the reason where there is one.
pub open spec fn probe_outcome_of(started: Result<(bool, Seq<char>), Seq<char>>) -> Result<
    (),
    PluginErrorView,
> {
    match started {
        Err(reason) => Err(PluginErrorView::ExecutionError("7-Zip is not installed: "@ + reason)),
        Ok((success, _)) => if success {
            Ok(())
        } else {
            Err(PluginErrorView::ExecutionError("7-Zip is not installed"@))
        },
    }
}

/// What the answer to a request means: success when the program started
/// and ended well; an `ExecutionError` with the reason where it could not
/// be started, with what it wrote to its error stream where it ended badly.
pub open spec fn run_outcome_of(started: Result<(bool, Seq<char>), Seq<char>>) -> Result<
    (),
    PluginErrorView,
> {
    match started {
        Err(reason) => Err(PluginErrorView::ExecutionError("Failed to execute 7z: "@ + reason)),
        Ok((success, stderr)) => if success {
            Ok(())
        } else {
            Err(PluginErrorView::ExecutionError(stderr))
        },
    }
}

/// The view of the program's answer.
pub open spec fn tool_view(result: ToolResult) -> Result<(bool, Seq<char>), Seq<char>> {
    match result {
        Ok(output) => Ok((output.success, output.stderr@)),
        Err(reason) => Err(reason@),
    }
}

/// The rules of the adapter for the external `7z` program.
pub struct SevenZipTool;

impl SevenZipTool {
    /// The name of the program to run.
    pub fn program() -> (r: String)
        ensures
            r@ == program_name(),
    {
        String::from_str("7z")
    }

    /// The arguments of the run that `initialize` makes to see whether the
    /// program is installed.
    pub fn probe_arguments() -> (r: Vec<String>)
        ensures
            arguments_view(r@) == probe_arguments_of(),
    {
        let mut out: Vec<String> = Vec::new();
        out.push(String::from_str("--help"));
        assert(arguments_view(out@) =~= probe_arguments_of());
        out
    }

    /// What `initialize` returns for the probe's answer.
    pub fn initialize(probe: ToolResult) -> (r: Result<(), PluginError>)
        ensures
            crate::plugin_api::base::outcome_view(r) == probe_outcome_of(tool_view(probe)),
    {
        match probe {
            Err(reason) => Err(
                PluginError::ExecutionError(
                    String::from_str("7-Zip is not installed: ").concat(reason.as_str()),
                ),
            ),
            Ok(output) => {
                if output.success {
                    Ok(())
                } else {
                    Err(PluginError::ExecutionError(String::from_str("7-Zip is not installed")))
                }
            },
        }
    }

    /// The arguments of the run that packs `input_files` into
    /// `output_file`.
    pub fn compress(input_files: &Vec<String>, output_file: &String) -> (r: Vec<String>)
        ensures
            arguments_view(r@) == compress_arguments_of(
                arguments_view(input_files@),
                output_file@,
            ),
    {
        let mut out: Vec<String> = Vec::new();
        out.push(String::from_str("a"));
        out.push(String::from_str("-t7z"));
        out.push(String::from_str("-mx=5"));
        out.push(output_file.clone());
        let ghost fixed = arguments_view(out@);
        assert(fixed =~= seq!["a"@, "-t7z"@, "-mx=5"@, output_file@]);
        let mut i: usize = 0;
        assert(arguments_view(out@) =~= fixed + arguments_view(input_files@).take(0));
        while i < input_files.len()
            invariant
                i <= input_files@.len(),
                fixed.len() == 4,
                arguments_view(out@) == fixed + arguments_view(input_files@).take(i as int),
            decreases input_files@.len() - i,
        {
            let ghost before = arguments_view(out@);
            out.push(input_files[i].clone());
            assert(arguments_view(out@) =~= before.push(input_files@[i as int]@));
            assert(arguments_view(input_files@).take(i + 1) =~= arguments_view(
                input_files@,
            ).take(i as int).push(input_files@[i as int]@));
            assert(arguments_view(out@) =~= fixed + arguments_view(input_files@).take(i + 1));
            i += 1;
        }
        assert(arguments_view(input_files@).take(i as int) =~= arguments_view(input_files@));
        out
    }

    /// The arguments of the run that unpacks `archive_file` below
    /// `output_dir`, or `NotFound` where the archive does not exist.
    pub fn decompress(archive_exists: bool, archive_file: &String, output_dir: &String) -> (r:
        Result<Vec<String>, PluginError>)
        ensures
            match r {
                Ok(arguments) => archive_exists && arguments_view(arguments@)
                    == decompress_arguments_of(archive_file@, output_dir@),
                Err(e) => !archive_exists && e@ == PluginErrorView::NotFound(archive_file@),
            },
    {
        if !archive_exists {
            return Err(PluginError::NotFound(archive_file.clone()));
        }
        let mut out: Vec<String> = Vec::new();
        out.push(String::from_str("x"));
        out.push(archive_file.clone());
        out.push(String::from_str("-o").concat(output_dir.as_str()));
        out.push(String::from_str("-y"));
        assert(arguments_view(out@) =~= decompress_arguments_of(archive_file@, output_dir@));
        Ok(out)
    }

    /// What a request returns for the program's answer.
    pub fn finish(result: ToolResult) -> (r: Result<(), PluginError>)
        ensures
            crate::plugin_api::base::outcome_view(r) == run_outcome_of(tool_view(result)),
    {
        match result {
            Err(reason) => Err(
                PluginError::ExecutionError(
                    String::from_str("Failed to execute 7z: ").concat(reason.as_str()),
                ),
            ),
            Ok(output) => {
                if output.success {
                    Ok(())
                } else {
                    Err(PluginError::ExecutionError(output.stderr))
                }
            },
        }
    }
}

} // verus!
