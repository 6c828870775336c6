use x_repo_sync::blobstore_fetch::{decode, BlobstoreFetchArgs, DecodeAs};

#[test]
fn prefix_at_the_start_of_the_key() {
    assert_eq!(DecodeAs::from_key_prefix("changeset.blake2.abc"), Some(DecodeAs::Changeset));
    assert_eq!(DecodeAs::from_key_prefix("content.blake2.abc"), Some(DecodeAs::Content));
    assert_eq!(DecodeAs::from_key_prefix("chunk.blake2.abc"), Some(DecodeAs::ContentChunk));
    assert_eq!(DecodeAs::from_key_prefix("hgchangeset.sha1.abc"), Some(DecodeAs::HgChangeset));
    assert_eq!(DecodeAs::from_key_prefix("hgmanifest.sha1.abc"), Some(DecodeAs::HgManifest));
    assert_eq!(DecodeAs::from_key_prefix("hgfilenode.sha1.abc"), Some(DecodeAs::HgFilenode));
    assert_eq!(DecodeAs::from_key_prefix("git.tree.abc"), Some(DecodeAs::GitTree));
    assert_eq!(
        DecodeAs::from_key_prefix("skeletonmanifest.blake2.abc"),
        Some(DecodeAs::SkeletonManifest)
    );
    assert_eq!(DecodeAs::from_key_prefix("fsnode.blake2.abc"), Some(DecodeAs::Fsnode));
    assert_eq!(
        DecodeAs::from_key_prefix("content_metadata2.blake2.abc"),
        Some(DecodeAs::ContentMetadataV2)
    );
    assert_eq!(DecodeAs::from_key_prefix("alias.sha256.abc"), Some(DecodeAs::Alias));
    assert_eq!(DecodeAs::from_key_prefix("fileunode.blake2.abc"), Some(DecodeAs::FileUnode));
    assert_eq!(DecodeAs::from_key_prefix("manifestunode.blake2.abc"), Some(DecodeAs::ManifestUnode));
    assert_eq!(DecodeAs::from_key_prefix("fastlogbatch.blake2.abc"), Some(DecodeAs::FastlogBatch));
    assert_eq!(DecodeAs::from_key_prefix("blame_v2.blake2.abc"), Some(DecodeAs::BlameV2));
    assert_eq!(DecodeAs::from_key_prefix("testmanifest.blake2.abc"), Some(DecodeAs::TestManifest));
    assert_eq!(DecodeAs::from_key_prefix("changeset_info.blake2.abc"), Some(DecodeAs::ChangesetInfo));
}

#[test]
fn longer_prefix_wins_over_the_prefix_it_begins_with() {
    assert_eq!(
        DecodeAs::from_key_prefix("deletedmanifest2.mapnode.blake2.abc"),
        Some(DecodeAs::DeletedManifestV2MapNode)
    );
    assert_eq!(
        DecodeAs::from_key_prefix("deletedmanifest2.blake2.abc"),
        Some(DecodeAs::DeletedManifestV2)
    );
    assert_eq!(
        DecodeAs::from_key_prefix("bssm.mapnode.blake2.abc"),
        Some(DecodeAs::BasenameSuffixSkeletonManifestMapNode)
    );
    assert_eq!(
        DecodeAs::from_key_prefix("bssm.blake2.abc"),
        Some(DecodeAs::BasenameSuffixSkeletonManifest)
    );
    assert_eq!(
        DecodeAs::from_key_prefix("bssm3.map2node.blake2.abc"),
        Some(DecodeAs::BasenameSuffixSkeletonManifestV3MapNode)
    );
    assert_eq!(
        DecodeAs::from_key_prefix("bssm3.blake2.abc"),
        Some(DecodeAs::BasenameSuffixSkeletonManifestV3)
    );
    assert_eq!(
        DecodeAs::from_key_prefix("testshardedmanifest.map2node.blake2.abc"),
        Some(DecodeAs::TestShardedManifestMapNode)
    );
    assert_eq!(
        DecodeAs::from_key_prefix("testshardedmanifest.blake2.abc"),
        Some(DecodeAs::TestShardedManifest)
    );
}

#[test]
fn prefix_behind_a_dot() {
    assert_eq!(
        DecodeAs::from_key_prefix("repo0000.changeset.blake2.abc"),
        Some(DecodeAs::Changeset)
    );
    assert_eq!(
        DecodeAs::from_key_prefix("flat/repo0001.derived.fsnode.blake2.abc"),
        Some(DecodeAs::Fsnode)
    );
}

#[test]
fn first_component_that_names_a_type_decides() {
    assert_eq!(
        DecodeAs::from_key_prefix("repo0000.content.changeset.abc"),
        Some(DecodeAs::Content)
    );
    assert_eq!(DecodeAs::from_key_prefix("alias.content.abc"), Some(DecodeAs::Alias));
}

#[test]
fn prefix_inside_a_component_does_not_count() {
    assert_eq!(DecodeAs::from_key_prefix("mychangeset.blake2.abc"), None);
    assert_eq!(DecodeAs::from_key_prefix("xcontent.abc"), None);
    assert_eq!(DecodeAs::from_key_prefix("repo0000changeset.abc"), None);
}

#[test]
fn key_without_a_type_names_none() {
    assert_eq!(DecodeAs::from_key_prefix(""), None);
    assert_eq!(DecodeAs::from_key_prefix("."), None);
    assert_eq!(DecodeAs::from_key_prefix("changeset"), None);
    assert_eq!(DecodeAs::from_key_prefix("repo0000.unknown.abc"), None);
    assert_eq!(DecodeAs::from_key_prefix("repo0000.changeset"), None);
    assert_eq!(DecodeAs::from_key_prefix("git.abc"), None);
}

#[test]
fn keys_with_characters_beyond_ascii() {
    assert_eq!(DecodeAs::from_key_prefix("d\u{e9}p\u{f4}t.fsnode.abc"), Some(DecodeAs::Fsnode));
    assert_eq!(DecodeAs::from_key_prefix("d\u{e9}p\u{f4}t.fsn\u{f6}de.abc"), None);
}

#[test]
fn auto_takes_the_type_of_the_key() {
    assert_eq!(decode("repo0000.changeset.blake2.abc", DecodeAs::Auto), Some(DecodeAs::Changeset));
    assert_eq!(decode("nothing", DecodeAs::Auto), None);
}

#[test]
fn hex_is_never_decoded() {
    assert_eq!(decode("repo0000.changeset.blake2.abc", DecodeAs::Hex), None);
    assert_eq!(decode("nothing", DecodeAs::Hex), None);
}

#[test]
fn a_type_that_was_asked_for_is_kept() {
    assert_eq!(decode("repo0000.changeset.blake2.abc", DecodeAs::Fsnode), Some(DecodeAs::Fsnode));
    assert_eq!(decode("nothing", DecodeAs::GitTree), Some(DecodeAs::GitTree));
}

#[test]
fn fetch_args_hold_their_parts() {
    let args = BlobstoreFetchArgs {
        output: Some("out.bin".to_string()),
        key: "repo0000.changeset.blake2.abc".to_string(),
        quiet: true,
        decode_as: DecodeAs::Auto,
    };
    assert_eq!(decode(&args.key, args.decode_as), Some(DecodeAs::Changeset));
    assert!(args.quiet);
    assert_eq!(args.output.as_deref(), Some("out.bin"));
}
