use vstd::prelude::*;

verus! {

/// The failure taxonomy of the build engine.
///
/// Every failure is surfaced immediately and carries the path it concerns,
/// so that a caller can match on the kind instead of parsing message text.
#[derive(Debug)]
pub enum BuildError {
    /// Malformed glob pattern syntax, or a missing or mistyped context binding.
    Config { path: String, detail: String },
    /// A filesystem access failure reported by the caller that enumerated,
    /// read or wrote files.
    Io { path: String, detail: String },
    /// A discovered path that cannot be projected relative to its declared root.
    Path { path: String, detail: String },
    /// A transform collaborator rejected its input.
    Transform { path: String, detail: String },
}

impl BuildError {
    /// The path this error concerns.
    pub open spec fn path_spec(&self) -> Seq<char> {
        match self {
            BuildError::Config { path, .. } => path@,
            BuildError::Io { path, .. } => path@,
            BuildError::Path { path, .. } => path@,
            BuildError::Transform { path, .. } => path@,
        }
    }

    /// The human-readable detail attached to this error.
    pub open spec fn detail_spec(&self) -> Seq<char> {
        match self {
            BuildError::Config { detail, .. } => detail@,
            BuildError::Io { detail, .. } => detail@,
            BuildError::Path { detail, .. } => detail@,
            BuildError::Transform { detail, .. } => detail@,
        }
    }

    /// The path this error concerns.
    pub fn path(&self) -> (r: &String)
        ensures
            r@ == self.path_spec(),
    {
        match self {
            BuildError::Config { path, .. } => path,
            BuildError::Io { path, .. } => path,
            BuildError::Path { path, .. } => path,
            BuildError::Transform { path, .. } => path,
        }
    }

    /// The error as one line of text: the path it concerns, then the detail.
    pub fn message(&self) -> (r: String)
        ensures
            r@ == self.path_spec() + ": "@ + self.detail_spec(),
    {
        let mut s = self.path().clone();
        s.append(": ");
        s.append(self.detail().as_str());
        proof {
            reveal_strlit(": ");
        }
        s
    }

    /// The human-readable detail attached to this error.
    pub fn detail(&self) -> (r: &String)
        ensures
            r@ == self.detail_spec(),
    {
        match self {
            BuildError::Config { detail, .. } => detail,
            BuildError::Io { detail, .. } => detail,
            BuildError::Path { detail, .. } => detail,
            BuildError::Transform { detail, .. } => detail,
        }
    }
}

} // verus!
