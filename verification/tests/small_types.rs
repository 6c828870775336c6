use x_repo_sync::cli::{OnceCommandArgs, TailCommandArgs};
use x_repo_sync::cloud_config::{
    cloudsync_retries, connected_subscribers_path, home_dir_os, tcp_receiver_port,
    user_token_path, CommitCloudConfig,
};
use x_repo_sync::complete_tree::{CompleteTreeRequest, HgId, RepoPathBuf};
use x_repo_sync::manifest::{Entry, Traced};

#[test]
fn default_retries_and_port() {
    assert_eq!(cloudsync_retries(), 2);
    assert_eq!(tcp_receiver_port(), 15432);
}

#[test]
fn home_directory_is_the_value_that_is_set() {
    assert_eq!(home_dir_os(Some("/home/user".to_string())), Some("/home/user".to_string()));
    assert_eq!(home_dir_os(Some(String::new())), None);
    assert_eq!(home_dir_os(None), None);
}

#[test]
fn default_paths_are_the_home_directory() {
    assert_eq!(
        connected_subscribers_path(Some("/home/user".to_string())),
        Some("/home/user".to_string())
    );
    assert_eq!(connected_subscribers_path(Some(String::new())), None);
    assert_eq!(connected_subscribers_path(None), None);
    assert_eq!(user_token_path(Some("/home/user".to_string())), Some("/home/user".to_string()));
    assert_eq!(user_token_path(Some(String::new())), None);
    assert_eq!(user_token_path(None), None);
}

#[test]
fn cloud_config_holds_its_fields() {
    let config = CommitCloudConfig {
        notification_url: None,
        polling_update_url: Some("https://example.com/poll".to_string()),
        polling_updates_enabled: false,
        connected_subscribers_path: connected_subscribers_path(Some("/home/user".to_string())),
        user_token_path: user_token_path(None),
        cloudsync_retries: cloudsync_retries(),
        tcp_receiver_port: tcp_receiver_port(),
    };
    assert_eq!(config.cloudsync_retries, 2);
    assert_eq!(config.tcp_receiver_port, 15432);
    assert_eq!(config.connected_subscribers_path, Some("/home/user".to_string()));
    assert_eq!(config.user_token_path, None);
}

#[test]
fn complete_tree_request_holds_its_parts() {
    let request = CompleteTreeRequest::new(
        RepoPathBuf("dir/sub".to_string()),
        vec![HgId([1; 20]), HgId([2; 20])],
        vec![HgId([3; 20])],
        Some(4),
    );
    assert_eq!(request.rootdir, RepoPathBuf("dir/sub".to_string()));
    assert_eq!(request.mfnodes, vec![HgId([1; 20]), HgId([2; 20])]);
    assert_eq!(request.basemfnodes, vec![HgId([3; 20])]);
    assert_eq!(request.depth, Some(4));
    assert_eq!(request.clone(), request);
}

#[test]
fn command_args_hold_their_fields() {
    let once = OnceCommandArgs { target_bookmark: Some("master".to_string()), commit: "abc".to_string() };
    assert_eq!(once.commit, "abc");
    assert_eq!(once.target_bookmark.as_deref(), Some("master"));
    let tail = TailCommandArgs {
        sleep_secs: 10,
        catch_up_once: false,
        backsync_pressure_repo_ids: vec![1, 2],
        hg_sync_backpressure: true,
        derived_data_types: vec!["fsnodes".to_string()],
        bookmark_regex: None,
    };
    let copy = tail.clone();
    assert_eq!(copy.sleep_secs, 10);
    assert_eq!(copy.backsync_pressure_repo_ids, vec![1, 2]);
    assert_eq!(copy.derived_data_types, vec!["fsnodes".to_string()]);
}

#[test]
fn entry_into_tree_and_leaf() {
    let tree: Entry<u32, &str> = Entry::Tree(7);
    let leaf: Entry<u32, &str> = Entry::Leaf("file");
    assert_eq!(tree.into_tree(), Some(7));
    assert_eq!(tree.into_leaf(), None);
    assert_eq!(leaf.into_tree(), None);
    assert_eq!(leaf.into_leaf(), Some("file"));
    assert!(tree.is_tree());
    assert!(!leaf.is_tree());
}

#[test]
fn entry_maps_only_its_own_side() {
    let tree: Entry<u32, u32> = Entry::Tree(7);
    let leaf: Entry<u32, u32> = Entry::Leaf(8);
    assert_eq!(tree.map_leaf(|l| l + 1), Entry::Tree(7));
    assert_eq!(leaf.map_leaf(|l| l + 1), Entry::Leaf(9));
    assert_eq!(tree.map_tree(|t| t * 2), Entry::Tree(14));
    assert_eq!(leaf.map_tree(|t| t * 2), Entry::Leaf(8));
    assert_eq!(leaf.map_leaf(|l| l.to_string()), Entry::<u32, String>::Leaf("8".to_string()));
}

#[test]
fn traced_values_carry_their_mark() {
    let generated: Traced<u8, &str> = Traced::generate("tree");
    assert_eq!(generated.id(), None);
    assert_eq!(*generated.untraced(), "tree");
    let assigned = Traced::assign(3u8, "tree");
    assert_eq!(assigned.id(), Some(&3));
    assert_eq!(*assigned.untraced(), "tree");
    assert_eq!(assigned.into_untraced(), "tree");
}

#[test]
fn traced_values_compare_without_their_mark() {
    assert!(Traced::assign(1u8, "a") == Traced::assign(2u8, "a"));
    assert!(Traced::assign(1u8, "a") == Traced::generate("a"));
    assert!(Traced::assign(1u8, "a") != Traced::assign(1u8, "b"));
    let copy = Traced::assign(1u8, "a").clone();
    assert_eq!(copy.id(), Some(&1));
    assert_eq!(*copy.untraced(), "a");
}

#[test]
fn traced_values_hash_without_their_mark() {
    let mut set = std::collections::HashSet::new();
    set.insert(Traced::assign(1u8, "a"));
    assert!(set.contains(&Traced::assign(2u8, "a")));
    assert!(set.contains(&Traced::generate("a")));
    assert!(!set.contains(&Traced::generate("b")));
}

#[test]
fn mark_is_inherited_into_an_entry() {
    let parent = Traced::assign(5u8, ());
    let tree: Entry<u32, &str> = Entry::Tree(7);
    let leaf: Entry<u32, &str> = Entry::Leaf("file");
    match parent.inherit_into_entry(tree) {
        Entry::Tree(traced) => {
            assert_eq!(traced.id(), Some(&5));
            assert_eq!(*traced.untraced(), 7);
        }
        Entry::Leaf(_) => panic!("a tree became a leaf"),
    }
    match parent.inherit_into_entry(leaf) {
        Entry::Leaf(traced) => {
            assert_eq!(traced.id(), Some(&5));
            assert_eq!(*traced.untraced(), "file");
        }
        Entry::Tree(_) => panic!("a leaf became a tree"),
    }
    let unmarked: Traced<u8, ()> = Traced::generate(());
    match unmarked.inherit_into_entry(tree) {
        Entry::Tree(traced) => assert_eq!(traced.id(), None),
        Entry::Leaf(_) => panic!("a tree became a leaf"),
    }
}

#[test]
fn traced_entry_gives_up_its_mark() {
    let traced: Entry<Traced<u8, u32>, Traced<u8, &str>> = Entry::Tree(Traced::assign(1, 7));
    assert_eq!(Entry::<u32, &str>::from(traced), Entry::Tree(7));
    let traced: Entry<Traced<u8, u32>, Traced<u8, &str>> = Entry::Leaf(Traced::generate("file"));
    assert_eq!(Entry::<u32, &str>::from(traced), Entry::Leaf("file"));
}
