//! Where the filesystem blob store keeps a blob: `blobs/sha256/<first two hex digits>/<hex>`
//! under its root directory. Reading and writing the files is left to the application.

use crate::crypto::sha256_of;
use crate::hexcodec::hex_lower;
use crate::identity::ContentId;
use crate::text::concat_str;
use vstd::prelude::*;

verus! {

/// A path joined to a directory, as `Path::join` does for a relative component: directly after an
/// empty directory or one that ends in `/`, else after a `/`.
pub open spec fn path_join(dir: Seq<char>, rel: Seq<char>) -> Seq<char> {
    if dir.len() == 0 || dir.last() == '/' {
        dir + rel
    } else {
        dir + "/"@ + rel
    }
}

/// Where a blob with this digest lives, relative to the store's root.
pub open spec fn blob_rel_path(digest: Seq<u8>) -> Seq<char> {
    "blobs/sha256/"@ + hex_lower(digest).take(2) + "/"@ + hex_lower(digest)
}

/// A content-addressed blob store on the filesystem.
#[derive(Clone, Debug)]
pub struct FsArtifactStore {
    root: String,
}

impl FsArtifactStore {
    /// The root directory.
    pub closed spec fn root(self) -> Seq<char> {
        self.root@
    }

    /// A store under `root`.
    pub fn new(root: String) -> (r: Self)
        ensures
            r.root() == root@,
    {
        FsArtifactStore { root }
    }

    /// The root directory.
    pub fn root_dir(&self) -> (r: &str)
        ensures
            r@ == self.root(),
    {
        self.root.as_str()
    }

    /// The file that holds the blob `cid`.
    pub fn path_for(&self, cid: &ContentId) -> (r: String)
        ensures
            r@ == path_join(self.root(), blob_rel_path(cid.0@)),
    {
        let hex = cid.to_hex();
        proof {
            crate::hexcodec::lemma_hex_roundtrip(cid.0@);
        }
        let head = concat_str("blobs/sha256/", hex.as_str().substring_char(0, 2));
        let rel0 = concat_str(head.as_str(), "/");
        let rel = concat_str(rel0.as_str(), hex.as_str());
        let n = self.root.unicode_len();
        if n == 0 || self.root.get_char(n - 1) == '/' {
            concat_str(self.root.as_str(), rel.as_str())
        } else {
            let dir = concat_str(self.root.as_str(), "/");
            concat_str(dir.as_str(), rel.as_str())
        }
    }
}

/// Whether fetched bytes are the blob asked for: their SHA-256 is its digest.
pub fn blob_matches(bytes: &[u8], cid: &ContentId) -> (r: bool)
    ensures
        r == (sha256_of(bytes@) == cid.0@),
{
    let got = ContentId::of_bytes(bytes);
    let mut same = true;
    for i in 0..32
        invariant
            got.0@ == sha256_of(bytes@),
            got.0@.len() == 32,
            cid.0@.len() == 32,
            same == forall|j: int| 0 <= j < i ==> got.0@[j] == cid.0@[j],
    {
        if got.0[i] != cid.0[i] {
            same = false;
        }
    }
    proof {
        if same {
            assert(got.0@ =~= cid.0@);
        }
    }
    same
}

} // verus!
