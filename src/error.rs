use vstd::prelude::*;

verus! {

/// `std::io::Error`, carried opaquely as the cause of a failed outside operation.
#[verifier::external_type_specification]
#[verifier::external_body]
pub struct ExIoError(std::io::Error);

/// `inquire`'s prompt error, carried opaquely as the cause of a failed confirmation.
#[verifier::external_type_specification]
#[verifier::external_body]
pub struct ExInquireError(inquire::error::InquireError);

/// Why running the text editor failed.
#[derive(Debug)]
pub enum EditorError {
    /// The editor process could not be started.
    Command(std::io::Error),
    /// The editor ran but did not exit successfully; holds its exit code, if any.
    Status(Option<i32>),
}

/// Why the confirmation prompt failed.
#[derive(Debug)]
pub enum CliError {
    /// The interactive prompt could not be completed.
    Prompt(inquire::error::InquireError),
    /// A line could not be read from the terminal.
    ReadLine(std::io::Error),
}

/// Why computing or carrying out a rename plan failed.
#[derive(Debug)]
pub enum RenameError {
    /// The edited list does not hold as many entries as the original one
    /// (original count, edited count).
    MismatchEntries(usize, usize),
    /// Renaming the first path to the second failed, for the given cause.
    RenameFailure(String, String, std::io::Error),
    /// Asking the user for confirmation failed.
    Cli(CliError),
}

} // verus!
