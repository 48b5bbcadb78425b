use vstd::prelude::*;

verus! {

/// The error taxonomy of the whole run.
///
/// `ConfigurationError` and `SearchExhausted` are fatal to the run;
/// `PersistenceBatchFailure` degrades to individual inserts;
/// `PersistenceIndividualFailure` is reported and skipped;
/// `LocalBackupFailure` is fatal because the local log is the durability net.
#[derive(Clone, Copy, Debug, PartialEq, Eq, Structural)]
pub enum VanityError {
    ConfigurationError,
    SearchExhausted,
    PersistenceBatchFailure,
    PersistenceIndividualFailure,
    LocalBackupFailure,
}

} // verus!
