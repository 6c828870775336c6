//! How a blob of the blobstore is shown: the arguments of a fetch, and the
//! choice of a decoder from the key of the blob.

use vstd::prelude::*;
use vstd::string::StrSliceExecFns;

verus! {

/// The arguments of a fetch of one blob.
#[derive(Debug, PartialEq, Eq)]
pub struct BlobstoreFetchArgs {
    /// Write raw blob bytes to the given filename instead of printing them.
    pub output: Option<String>,
    /// Blobstore key to fetch.
    pub key: String,
    /// Don't show blob info header.
    pub quiet: bool,
    /// Decode as a particular type.
    pub decode_as: DecodeAs,
}

/// The types that a blob can be decoded as.
#[derive(Copy, Clone, Eq, PartialEq, Structural, Debug)]
pub enum DecodeAs {
    Hex,
    Auto,
    Changeset,
    Content,
    ContentChunk,
    HgChangeset,
    HgManifest,
    HgFilenode,
    GitTree,
    SkeletonManifest,
    Fsnode,
    ContentMetadataV2,
    Alias,
    FileUnode,
    ManifestUnode,
    FastlogBatch,
    DeletedManifestV2MapNode,
    DeletedManifestV2,
    BlameV2,
    BasenameSuffixSkeletonManifestMapNode,
    BasenameSuffixSkeletonManifest,
    BasenameSuffixSkeletonManifestV3MapNode,
    BasenameSuffixSkeletonManifestV3,
    ChangesetInfo,
    TestManifest,
    TestShardedManifest,
    TestShardedManifestMapNode,
}

/// The key prefixes that name a type, in the order in which they are tried.
/// A prefix that begins another one stands after it.
pub open spec fn key_prefixes() -> Seq<(Seq<char>, DecodeAs)> {
    seq![
        ("changeset."@, DecodeAs::Changeset),
        ("content."@, DecodeAs::Content),
        ("chunk."@, DecodeAs::ContentChunk),
        ("hgchangeset."@, DecodeAs::HgChangeset),
        ("hgmanifest."@, DecodeAs::HgManifest),
        ("hgfilenode."@, DecodeAs::HgFilenode),
        ("git.tree."@, DecodeAs::GitTree),
        ("skeletonmanifest."@, DecodeAs::SkeletonManifest),
        ("fsnode."@, DecodeAs::Fsnode),
        ("content_metadata2."@, DecodeAs::ContentMetadataV2),
        ("alias."@, DecodeAs::Alias),
        ("fileunode."@, DecodeAs::FileUnode),
        ("manifestunode."@, DecodeAs::ManifestUnode),
        ("fastlogbatch."@, DecodeAs::FastlogBatch),
        ("deletedmanifest2.mapnode."@, DecodeAs::DeletedManifestV2MapNode),
        ("deletedmanifest2."@, DecodeAs::DeletedManifestV2),
        ("blame_v2."@, DecodeAs::BlameV2),
        ("bssm.mapnode."@, DecodeAs::BasenameSuffixSkeletonManifestMapNode),
        ("bssm."@, DecodeAs::BasenameSuffixSkeletonManifest),
        ("bssm3.map2node."@, DecodeAs::BasenameSuffixSkeletonManifestV3MapNode),
        ("bssm3."@, DecodeAs::BasenameSuffixSkeletonManifestV3),
        ("testmanifest."@, DecodeAs::TestManifest),
        ("testshardedmanifest.map2node."@, DecodeAs::TestShardedManifestMapNode),
        ("testshardedmanifest."@, DecodeAs::TestShardedManifest),
        ("changeset_info."@, DecodeAs::ChangesetInfo),
    ]
}

/// Whether `key` reads `prefix` from position `index` on.
pub open spec fn is_prefix_at(key: Seq<char>, index: int, prefix: Seq<char>) -> bool {
    &&& 0 <= index
    &&& index + prefix.len() <= key.len()
    &&& key.subrange(index, index + prefix.len()) == prefix
}

/// The type of the first prefix of `table`, at or after position `from` of
/// the table, that `key` reads at `index`.
pub open spec fn match_at(
    key: Seq<char>,
    index: int,
    table: Seq<(Seq<char>, DecodeAs)>,
    from: int,
) -> Option<DecodeAs>
    decreases table.len() - from,
{
    if from < 0 || from >= table.len() {
        None
    } else if is_prefix_at(key, index, table[from].0) {
        Some(table[from].1)
    } else {
        match_at(key, index, table, from + 1)
    }
}

/// Whether a prefix may begin at `index`: at the start of the key and
/// behind every dot.
pub open spec fn is_component_start(key: Seq<char>, index: int) -> bool {
    index == 0 || (0 < index <= key.len() && key[index - 1] == '.')
}

/// The type named by the first component start of `key`, at or after
/// `index`, at which `key` reads a prefix of the table.
pub open spec fn from_key_prefix_from(key: Seq<char>, index: int) -> Option<DecodeAs>
    decreases key.len() + 1 - index,
{
    if index < 0 || index > key.len() {
        None
    } else if is_component_start(key, index) && match_at(key, index, key_prefixes(), 0).is_some() {
        match_at(key, index, key_prefixes(), 0)
    } else {
        from_key_prefix_from(key, index + 1)
    }
}

fn key_prefix_table() -> (res: Vec<(&'static str, DecodeAs)>)
    ensures
        res@.len() == key_prefixes().len(),
        forall|i: int|
            0 <= i < res@.len() ==> (#[trigger] res@[i]).0@ == key_prefixes()[i].0 && res@[i].1
                == key_prefixes()[i].1,
{
    let mut table: Vec<(&'static str, DecodeAs)> = Vec::new();
    table.push(("changeset.", DecodeAs::Changeset));
    table.push(("content.", DecodeAs::Content));
    table.push(("chunk.", DecodeAs::ContentChunk));
    table.push(("hgchangeset.", DecodeAs::HgChangeset));
    table.push(("hgmanifest.", DecodeAs::HgManifest));
    table.push(("hgfilenode.", DecodeAs::HgFilenode));
    table.push(("git.tree.", DecodeAs::GitTree));
    table.push(("skeletonmanifest.", DecodeAs::SkeletonManifest));
    table.push(("fsnode.", DecodeAs::Fsnode));
    table.push(("content_metadata2.", DecodeAs::ContentMetadataV2));
    table.push(("alias.", DecodeAs::Alias));
    table.push(("fileunode.", DecodeAs::FileUnode));
    table.push(("manifestunode.", DecodeAs::ManifestUnode));
    table.push(("fastlogbatch.", DecodeAs::FastlogBatch));
    table.push(("deletedmanifest2.mapnode.", DecodeAs::DeletedManifestV2MapNode));
    table.push(("deletedmanifest2.", DecodeAs::DeletedManifestV2));
    table.push(("blame_v2.", DecodeAs::BlameV2));
    table.push(("bssm.mapnode.", DecodeAs::BasenameSuffixSkeletonManifestMapNode));
    table.push(("bssm.", DecodeAs::BasenameSuffixSkeletonManifest));
    table.push(("bssm3.map2node.", DecodeAs::BasenameSuffixSkeletonManifestV3MapNode));
    table.push(("bssm3.", DecodeAs::BasenameSuffixSkeletonManifestV3));
    table.push(("testmanifest.", DecodeAs::TestManifest));
    table.push(("testshardedmanifest.map2node.", DecodeAs::TestShardedManifestMapNode));
    table.push(("testshardedmanifest.", DecodeAs::TestShardedManifest));
    table.push(("changeset_info.", DecodeAs::ChangesetInfo));
    table
}

fn chars_of(s: &str) -> (res: Vec<char>)
    ensures
        res@ == s@,
{
    let len = s.unicode_len();
    let mut res: Vec<char> = Vec::new();
    let mut i: usize = 0;
    while i < len
        invariant
            len == s@.len(),
            i <= len,
            res@ == s@.subrange(0, i as int),
        decreases len - i,
    {
        res.push(s.get_char(i));
        i += 1;
    }
    assert(s@.subrange(0, i as int) == s@);
    res
}

fn starts_with_at(key: &Vec<char>, index: usize, prefix: &Vec<char>) -> (res: bool)
    ensures
        res == is_prefix_at(key@, index as int, prefix@),
{
    if index > key.len() || prefix.len() > key.len() - index {
        return false;
    }
    let mut j: usize = 0;
    while j < prefix.len()
        invariant
            index + prefix.len() <= key.len(),
            j <= prefix.len(),
            forall|k: int| 0 <= k < j ==> key@[index + k] == prefix@[k],
        decreases prefix.len() - j,
    {
        if key[index + j] != prefix[j] {
            assert(key@.subrange(index as int, index + prefix@.len())[j as int] != prefix@[j as int]);
            return false;
        }
        j += 1;
    }
    assert(key@.subrange(index as int, index + prefix@.len()) =~= prefix@);
    true
}

impl DecodeAs {
    /// The type that the key of a blob names. A key is made of components
    /// that end in a dot, and a type prefix may stand at the start of any of
    /// them. The first component start at which a prefix of the table is
    /// read decides, and there the first such prefix of the table.
    pub fn from_key_prefix(key: &str) -> (res: Option<DecodeAs>)
        ensures
            res == from_key_prefix_from(key@, 0),
    {
        let chars = chars_of(key);
        let names = key_prefix_table();
        let mut prefixes: Vec<Vec<char>> = Vec::new();
        let mut n: usize = 0;
        while n < names.len()
            invariant
                n <= names.len(),
                prefixes@.len() == n,
                names@.len() == key_prefixes().len(),
                forall|i: int|
                    0 <= i < names@.len() ==> (#[trigger] names@[i]).0@ == key_prefixes()[i].0
                        && names@[i].1 == key_prefixes()[i].1,
                forall|i: int| 0 <= i < n ==> (#[trigger] prefixes@[i])@ == key_prefixes()[i].0,
            decreases names.len() - n,
        {
            prefixes.push(chars_of(names[n].0));
            n += 1;
        }

        let mut index: usize = 0;
        loop
            invariant
                chars@ == key@,
                index <= chars.len(),
                names@.len() == key_prefixes().len(),
                prefixes@.len() == names@.len(),
                forall|i: int|
                    0 <= i < names@.len() ==> (#[trigger] names@[i]).1 == key_prefixes()[i].1,
                forall|i: int|
                    0 <= i < prefixes@.len() ==> (#[trigger] prefixes@[i])@ == key_prefixes()[i].0,
                from_key_prefix_from(key@, 0) == from_key_prefix_from(key@, index as int),
            ensures
                from_key_prefix_from(key@, 0).is_none(),
            decreases chars.len() - index,
        {
            if index == 0 || chars[index - 1] == '.' {
                let mut p: usize = 0;
                while p < prefixes.len()
                    invariant
                        chars@ == key@,
                        index <= chars.len(),
                        p <= prefixes.len(),
                        names@.len() == key_prefixes().len(),
                        prefixes@.len() == names@.len(),
                        forall|i: int|
                            0 <= i < names@.len() ==> (#[trigger] names@[i]).1
                                == key_prefixes()[i].1,
                        forall|i: int|
                            0 <= i < prefixes@.len() ==> (#[trigger] prefixes@[i])@
                                == key_prefixes()[i].0,
                        is_component_start(key@, index as int),
                        match_at(key@, index as int, key_prefixes(), 0) == match_at(
                            key@,
                            index as int,
                            key_prefixes(),
                            p as int,
                        ),
                        from_key_prefix_from(key@, 0) == from_key_prefix_from(key@, index as int),
                    decreases prefixes.len() - p,
                {
                    if starts_with_at(&chars, index, &prefixes[p]) {
                        return Some(names[p].1);
                    }
                    p += 1;
                }
            }
            if index == chars.len() {
                assert(from_key_prefix_from(key@, index + 1).is_none());
                break ;
            }
            index += 1;
        }
        None
    }
}

/// A key never names `Hex` or `Auto`: the table holds types only.
pub proof fn lemma_key_names_a_type(key: Seq<char>, index: int)
    ensures
        from_key_prefix_from(key, index) != Some(DecodeAs::Hex),
        from_key_prefix_from(key, index) != Some(DecodeAs::Auto),
    decreases key.len() + 1 - index,
{
    if 0 <= index <= key.len() {
        lemma_match_names_a_type(key, index, 0);
        lemma_key_names_a_type(key, index + 1);
    }
}

proof fn lemma_match_names_a_type(key: Seq<char>, index: int, from: int)
    ensures
        match_at(key, index, key_prefixes(), from) != Some(DecodeAs::Hex),
        match_at(key, index, key_prefixes(), from) != Some(DecodeAs::Auto),
    decreases key_prefixes().len() - from,
{
    if 0 <= from < key_prefixes().len() {
        lemma_match_names_a_type(key, index, from + 1);
        assert(key_prefixes()[from].1 != DecodeAs::Hex);
        assert(key_prefixes()[from].1 != DecodeAs::Auto);
    }
}

/// The type that a blob is decoded as: the type asked for, and for `Auto`
/// the type that the key names. `None` where the blob is shown as raw hex:
/// where `Hex` was asked for, and where `Auto` was and the key names no type.
pub open spec fn decoder(key: Seq<char>, decode_as: DecodeAs) -> Option<DecodeAs> {
    match decode_as {
        DecodeAs::Hex => None,
        DecodeAs::Auto => from_key_prefix_from(key, 0),
        other => Some(other),
    }
}

/// Chooses the type to decode the blob with key `key` as; `None` stands for
/// a dump of the raw bytes.
pub fn decode(key: &str, decode_as: DecodeAs) -> (res: Option<DecodeAs>)
    ensures
        res == decoder(key@, decode_as),
{
    proof {
        lemma_key_names_a_type(key@, 0);
    }
    let mut decode_as = decode_as;
    if decode_as == DecodeAs::Auto {
        if let Some(auto_decode_as) = DecodeAs::from_key_prefix(key) {
            decode_as = auto_decode_as;
        }
    }
    match decode_as {
        DecodeAs::Hex | DecodeAs::Auto => None,
        other => Some(other),
    }
}

} // verus!
