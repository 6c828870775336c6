use x_repo_sync::edenfs::{insert_redirection, merge_redirections, read_redirections, ConfigRead};

fn entry(place: &str, kind: &str) -> (String, String) {
    (place.to_string(), kind.to_string())
}

fn text(s: &str) -> ConfigRead {
    ConfigRead::Text(s.to_string())
}

#[test]
fn redirections_of_one_file() {
    let files = vec![text("[redirections]\n\"buck-out\" = \"bind\"\n\"a/b\" = \"symlink\"\n")];
    // entries come by ascending key, values in TOML notation
    assert_eq!(
        read_redirections(&files),
        Some(vec![entry("a/b", "\"symlink\""), entry("buck-out", "\"bind\"")])
    );
}

#[test]
fn values_are_written_in_toml_notation() {
    let files = vec![text("[redirections]\nn = 3\nflag = true\nlist = [1, 2]\n")];
    assert_eq!(
        read_redirections(&files),
        Some(vec![entry("flag", "true"), entry("list", "[1, 2]"), entry("n", "3")])
    );
}

#[test]
fn later_file_overrides_and_adds() {
    let files = vec![
        text("[redirections]\n\"buck-out\" = \"bind\"\nother = \"bind\"\n"),
        text("[redirections]\n\"buck-out\" = \"symlink\"\nzzz = \"bind\"\naaa = \"bind\"\n"),
    ];
    assert_eq!(
        read_redirections(&files),
        Some(vec![
            entry("buck-out", "\"symlink\""),
            entry("other", "\"bind\""),
            entry("aaa", "\"bind\""),
            entry("zzz", "\"bind\""),
        ])
    );
}

#[test]
fn file_without_redirections_adds_nothing() {
    assert_eq!(read_redirections(&vec![text("")]), Some(vec![]));
    assert_eq!(read_redirections(&vec![text("[other]\nkey = \"value\"\n")]), Some(vec![]));
    // `redirections` is no table
    assert_eq!(read_redirections(&vec![text("redirections = 5\n")]), Some(vec![]));
    assert_eq!(read_redirections(&vec![text("[redirections]\n")]), Some(vec![]));
}

#[test]
fn file_that_is_no_toml_adds_nothing() {
    let files = vec![
        text("[redirections]\nkeep = \"bind\"\n"),
        text("this is = not [ toml"),
    ];
    assert_eq!(read_redirections(&files), Some(vec![entry("keep", "\"bind\"")]));
}

#[test]
fn missing_file_is_passed_over() {
    let files = vec![ConfigRead::NotFound, text("[redirections]\nkeep = \"bind\"\n")];
    assert_eq!(read_redirections(&files), Some(vec![entry("keep", "\"bind\"")]));
    assert_eq!(read_redirections(&vec![ConfigRead::NotFound, ConfigRead::NotFound]), Some(vec![]));
    assert_eq!(read_redirections(&vec![]), Some(vec![]));
}

#[test]
fn file_that_cannot_be_read_ends_the_reading() {
    let files = vec![text("[redirections]\nkeep = \"bind\"\n"), ConfigRead::Failed];
    assert_eq!(read_redirections(&files), None);
    let files = vec![ConfigRead::Failed, text("[redirections]\nkeep = \"bind\"\n")];
    assert_eq!(read_redirections(&files), None);
}

#[test]
fn insertion_overrides_the_first_entry_of_a_place() {
    let mut redirections = vec![entry("a", "bind"), entry("b", "bind")];
    insert_redirection(&mut redirections, "b".to_string(), "symlink".to_string());
    assert_eq!(redirections, vec![entry("a", "bind"), entry("b", "symlink")]);
    insert_redirection(&mut redirections, "c".to_string(), "bind".to_string());
    assert_eq!(redirections, vec![entry("a", "bind"), entry("b", "symlink"), entry("c", "bind")]);
    insert_redirection(&mut redirections, "a".to_string(), "symlink".to_string());
    assert_eq!(
        redirections,
        vec![entry("a", "symlink"), entry("b", "symlink"), entry("c", "bind")]
    );
}

#[test]
fn merging_sets_entries_in_order() {
    let mut redirections = vec![entry("a", "bind")];
    merge_redirections(
        &mut redirections,
        vec![entry("b", "bind"), entry("a", "symlink"), entry("b", "symlink")],
    );
    assert_eq!(redirections, vec![entry("a", "symlink"), entry("b", "symlink")]);
    merge_redirections(&mut redirections, vec![]);
    assert_eq!(redirections, vec![entry("a", "symlink"), entry("b", "symlink")]);
}
