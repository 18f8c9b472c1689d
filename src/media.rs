use vstd::prelude::*;

verus! {

/// Form of a media upload: an optional description and the file, which is streamed
/// separately and carries nothing here.
#[derive(Debug)]
pub struct CreateAttachment {
    pub description: Option<String>,
    pub file: (),
}

/// Form of a media update: the new description.
#[derive(Clone, Debug, PartialEq, Eq)]
pub struct UpdateAttachment {
    pub description: String,
}

} // verus!
