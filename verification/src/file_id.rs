use vstd::prelude::*;

verus! {

/// Identifier of a source file known to the workspace.
#[derive(Debug, Clone, Copy, PartialEq, Eq, Hash, Structural)]
pub struct FileId {
    pub id: u32,
}

impl FileId {
    pub fn new(id: u32) -> (r: FileId)
        ensures
            r.id == id,
    {
        FileId { id }
    }
}

/// Why an inference step gave up.
#[derive(Debug, Clone, Copy, PartialEq, Eq, Structural)]
pub enum InferFailReason {
    Unavailable,
    RecursiveInfer,
    FieldNotFound,
    UnResolveModuleExport(FileId),
}

} // verus!
