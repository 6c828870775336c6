//! The request for all the trees under a directory.

use vstd::prelude::*;

verus! {

/// A path inside a repository.
#[derive(Clone, Debug, PartialEq, Eq, Hash, Default)]
pub struct RepoPathBuf(pub String);

/// The identifier of a node: twenty bytes.
#[derive(Clone, Copy, Debug, PartialEq, Eq, Hash)]
pub struct HgId(pub [u8; 20]);

/// The arguments of a request for the trees under `rootdir`: the manifest
/// nodes that are wanted, those that the client has, and how deep to go.
#[derive(Clone, Debug, Eq, PartialEq)]
pub struct CompleteTreeRequest {
    pub rootdir: RepoPathBuf,
    pub mfnodes: Vec<HgId>,
    pub basemfnodes: Vec<HgId>,
    pub depth: Option<usize>,
}

impl CompleteTreeRequest {
    /// A request made of its four parts.
    pub fn new(
        rootdir: RepoPathBuf,
        mfnodes: Vec<HgId>,
        basemfnodes: Vec<HgId>,
        depth: Option<usize>,
    ) -> (res: Self)
        ensures
            res.rootdir == rootdir,
            res.mfnodes == mfnodes,
            res.basemfnodes == basemfnodes,
            res.depth == depth,
    {
        Self { rootdir, mfnodes, basemfnodes, depth }
    }
}

} // verus!
