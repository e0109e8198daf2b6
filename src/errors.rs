use vstd::prelude::*;

verus! {

/// Failures that a stage or a closure reports to its caller.
#[derive(Debug, Clone, Copy, PartialEq, Eq, Structural)]
pub enum JobError {
    /// A closure was executed without a bound scope.
    MissingEnvironment,
    /// A closure holds no stage.
    EmptyPipeline,
    /// Call arguments are missing, misnamed or of the wrong kind.
    ArgumentError,
    /// A referenced column is absent, or a stream's schema conflicts with its producer.
    SchemaMismatch,
    /// The consumer of a stream has gone away.
    StreamDisconnected,
    /// Two cells of mutually incomparable kinds were compared.
    IncomparableValues,
    /// A stage argument names a variable that no frame binds.
    UnknownVariable,
}

impl JobError {
    pub open spec fn spec_message(self) -> Seq<char> {
        match self {
            JobError::MissingEnvironment => "Closure without env"@,
            JobError::EmptyPipeline => "Empty closures not supported"@,
            JobError::ArgumentError => "Bad comparison key"@,
            JobError::SchemaMismatch => "Schema mismatch"@,
            JobError::StreamDisconnected => "Stream disconnected"@,
            JobError::IncomparableValues => "Values cannot be compared"@,
            JobError::UnknownVariable => "Unknown variable"@,
        }
    }

    /// The text shown to the user for this error.
    pub fn message(&self) -> (r: &'static str)
        ensures
            r@ == self.spec_message(),
    {
        match self {
            JobError::MissingEnvironment => "Closure without env",
            JobError::EmptyPipeline => "Empty closures not supported",
            JobError::ArgumentError => "Bad comparison key",
            JobError::SchemaMismatch => "Schema mismatch",
            JobError::StreamDisconnected => "Stream disconnected",
            JobError::IncomparableValues => "Values cannot be compared",
            JobError::UnknownVariable => "Unknown variable",
        }
    }
}

pub type JobResult<T> = Result<T, JobError>;

} // verus!
