use vstd::prelude::*;

verus! {

broadcast use vstd::string::group_string_axioms;

/// The failure of a part that the document service works with: a
/// downloader, a storage or a repository. What it says is the part's own.
#[derive(Debug)]
pub struct Failure {
    pub message: String,
}

impl Failure {
    pub fn to_string(&self) -> (s: String)
        ensures
            s@ == self.message@,
    {
        self.message.clone()
    }
}

impl Clone for Failure {
    fn clone(&self) -> (r: Self)
        ensures
            r == *self,
    {
        Failure { message: self.message.clone() }
    }
}

impl From<&str> for Failure {
    /// The failure with `message` as its text.
    fn from(message: &str) -> (r: Failure)
        ensures
            r.message@ == message@,
    {
        Failure { message: message.to_string() }
    }
}

impl vstd::std_specs::convert::FromSpecImpl<&str> for Failure {
    /// Two texts with the same characters need not be one value, so the
    /// conversion is described by its characters and not by a spec
    /// function.
    open spec fn obeys_from_spec() -> bool {
        false
    }

    open spec fn from_spec(message: &str) -> Failure {
        arbitrary()
    }
}

/// Why the document service failed.
#[derive(Debug)]
pub enum ServiceError {
    DocumentAlreadyExists,
    NoDownloaderAvailable,
    DocumentNotFound,
    DocumentAlreadyStored,
    NoStorageAvailable,
    /// A downloader, a storage or a repository failed.
    Failure(Failure),
}

impl ServiceError {
    /// The text of the error.
    pub open spec fn message(&self) -> Seq<char> {
        match self {
            ServiceError::DocumentAlreadyExists => "Document already exists"@,
            ServiceError::NoDownloaderAvailable => "No downloader available"@,
            ServiceError::DocumentNotFound => "Document not found"@,
            ServiceError::DocumentAlreadyStored => "Document already stored"@,
            ServiceError::NoStorageAvailable => "No storage available"@,
            ServiceError::Failure(failure) => failure.message@,
        }
    }

    pub fn to_string(&self) -> (s: String)
        ensures
            s@ == self.message(),
    {
        match self {
            ServiceError::DocumentAlreadyExists => "Document already exists".to_string(),
            ServiceError::NoDownloaderAvailable => "No downloader available".to_string(),
            ServiceError::DocumentNotFound => "Document not found".to_string(),
            ServiceError::DocumentAlreadyStored => "Document already stored".to_string(),
            ServiceError::NoStorageAvailable => "No storage available".to_string(),
            ServiceError::Failure(failure) => failure.to_string(),
        }
    }
}

} // verus!
