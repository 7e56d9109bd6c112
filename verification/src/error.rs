use vstd::prelude::*;

verus! {

/// The category of a failure, used by contracts and by callers that match on
/// the outcome without caring about any payload.
#[derive(Clone, Copy, Debug, PartialEq, Eq, Structural)]
pub enum ErrorKind {
    MismatchedSchema,
    UnsupportedTypeVariant,
    Unexpected,
    InvalidColumn,
    Io,
    DecodeProto,
}

/// Errors surfaced by schema resolution, stripe assembly and batch decoding.
/// Every fallible operation returns one of these; there is no silent recovery.
#[derive(Debug)]
pub enum OrcError {
    /// The output field tree's shape or type disagrees with the logical schema.
    MismatchedSchema,
    /// A structurally valid but unsupported case, such as a sorted map.
    UnsupportedTypeVariant,
    /// An internal shape invariant was violated: a corrupt file or an engine bug.
    Unexpected,
    /// A stream that is mandatory for a column's type is absent from the stream map.
    InvalidColumn { name: String },
    /// A byte range could not be read, or an encoded stream ended short.
    Io,
    /// The stripe footer's serialized form is malformed.
    DecodeProto,
}

impl OrcError {
    pub open spec fn kind_spec(&self) -> ErrorKind {
        match self {
            OrcError::MismatchedSchema => ErrorKind::MismatchedSchema,
            OrcError::UnsupportedTypeVariant => ErrorKind::UnsupportedTypeVariant,
            OrcError::Unexpected => ErrorKind::Unexpected,
            OrcError::InvalidColumn { .. } => ErrorKind::InvalidColumn,
            OrcError::Io => ErrorKind::Io,
            OrcError::DecodeProto => ErrorKind::DecodeProto,
        }
    }

    pub fn kind(&self) -> (r: ErrorKind)
        ensures
            r == self.kind_spec(),
    {
        match self {
            OrcError::MismatchedSchema => ErrorKind::MismatchedSchema,
            OrcError::UnsupportedTypeVariant => ErrorKind::UnsupportedTypeVariant,
            OrcError::Unexpected => ErrorKind::Unexpected,
            OrcError::InvalidColumn { .. } => ErrorKind::InvalidColumn,
            OrcError::Io => ErrorKind::Io,
            OrcError::DecodeProto => ErrorKind::DecodeProto,
        }
    }
}

} // verus!
