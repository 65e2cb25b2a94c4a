use vstd::prelude::*;

verus! {

#[verifier::external_type_specification]
#[verifier::external_body]
pub struct ExIoError(std::io::Error);

#[verifier::external_type_specification]
#[verifier::external_body]
pub struct ExJoinError(tokio::task::JoinError);

/// Every error that the library and its runner report.
#[derive(Debug)]
pub enum Error {
    /// The data file could not be opened.
    OpenDataFile(std::io::Error),
    /// The data file could not be read.
    ReadDataFile(std::io::Error),
    /// The data file's metadata could not be read.
    ReadMeta(std::io::Error),
    /// No tick was loaded.
    MissingPricesData,
    /// A task of the pipeline failed.
    TokioJoinError(tokio::task::JoinError),
}

} // verus!
