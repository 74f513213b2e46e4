use vstd::prelude::*;
use vstd::string::StringExecFns;

verus! {

/// Version number of a table's immutable metadata.
pub type MetadataVersion = u32;

/// Version given to freshly created metadata.
pub const INIT_META_VERSION: MetadataVersion = 0;

/// Name of the manifest file inside a table directory.
pub const IMMUTABLE_MANIFEST_FILE: &'static str = "_immutable_manifest";

/// What a table's immutable manifest records: the table's name and id
/// and the metadata version.
#[derive(Clone, Debug, PartialEq, Eq)]
pub struct ImmutableMetadata {
    pub table_name: String,
    pub table_id: u32,
    pub version: MetadataVersion,
}

/// The manifest file name, as a sequence of characters.
pub open spec fn manifest_file_spec() -> Seq<char> {
    seq!['_', 'i', 'm', 'm', 'u', 't', 'a', 'b', 'l', 'e', '_', 'm', 'a', 'n', 'i', 'f', 'e', 's', 't']
}

/// Path of the immutable manifest inside directory `dir`: the directory
/// followed directly by the file name.
pub fn manifest_path(dir: &str) -> (r: String)
    ensures
        r@ == dir@ + manifest_file_spec(),
{
    proof {
        reveal_strlit("_immutable_manifest");
    }
    let d: String = dir.to_owned();
    let r = d.concat(IMMUTABLE_MANIFEST_FILE);
    proof {
        assert(IMMUTABLE_MANIFEST_FILE@ =~= manifest_file_spec());
    }
    r
}

} // verus!
