//! Checkouts in a working copy that a virtual file system serves: whether
//! a conflict that the file system reports ends the checkout, and whether
//! the redirections of the working copy are in order.

use vstd::prelude::*;
use vstd::string::StringExecFns;

verus! {

/// What kind of conflict the file system met in a checkout.
#[derive(Clone, Copy, Debug, PartialEq, Eq, Structural)]
pub enum ConflictType {
    Error,
    ModifiedRemoved,
    UntrackedAdded,
    RemovedModified,
    MissingRemoved,
    ModifiedModified,
    DirectoryNotEmpty,
}

/// One conflict that the file system met in a checkout.
#[derive(Debug, PartialEq, Eq)]
pub struct CheckoutConflict {
    pub path: String,
    pub conflict_type: ConflictType,
    pub message: String,
}

/// The conflict that ends a checkout.
#[derive(Debug, PartialEq, Eq)]
pub struct EdenConflictError {
    pub path: String,
    pub message: String,
}

/// The position of the first conflict of kind `Error` at or after `from`.
pub open spec fn first_error_from(conflicts: Seq<CheckoutConflict>, from: int) -> Option<int>
    decreases conflicts.len() - from,
{
    if from < 0 || from >= conflicts.len() {
        None
    } else if conflicts[from].conflict_type == ConflictType::Error {
        Some(from)
    } else {
        first_error_from(conflicts, from + 1)
    }
}

/// Ends the checkout on a conflict of kind `Error`, where `abort` says that
/// the configuration asks for that. The error names the first such
/// conflict. Without such a conflict, or with `abort` off, the checkout goes
/// on.
pub fn abort_on_eden_conflict_error(abort: bool, conflicts: Vec<CheckoutConflict>) -> (res: Result<
    (),
    EdenConflictError,
>)
    ensures
        !abort ==> res.is_ok(),
        abort ==> match first_error_from(conflicts@, 0) {
            Some(i) => res matches Err(e) && e.path == conflicts@[i].path && e.message
                == conflicts@[i].message,
            None => res.is_ok(),
        },
{
    if !abort {
        return Ok(());
    }
    let mut i: usize = 0;
    while i < conflicts.len()
        invariant
            abort,
            i <= conflicts.len(),
            first_error_from(conflicts@, 0) == first_error_from(conflicts@, i as int),
        decreases conflicts.len() - i,
    {
        if conflicts[i].conflict_type == ConflictType::Error {
            return Err(
                EdenConflictError {
                    path: conflicts[i].path.clone(),
                    message: conflicts[i].message.clone(),
                },
            );
        }
        i += 1;
    }
    Ok(())
}

/// What is known of the place that a redirection names.
#[derive(Debug, PartialEq, Eq)]
pub struct Redirection {
    /// How the place is redirected, as the configuration spells it.
    pub kind: String,
    /// Whether the place could be examined. A place that could not is
    /// passed over.
    pub found: bool,
    /// Whether the place is a symbolic link.
    pub is_symlink: bool,
    /// The device that holds the place.
    pub device: u64,
}

/// Whether the place of a redirection is as it should be. A symbolic link
/// is asked for on Windows and for the kind "symlink"; elsewhere the place
/// has to lie on another device than the root of the working copy.
pub open spec fn redirection_is_okay(
    redirection: Redirection,
    root_device: u64,
    windows: bool,
) -> bool {
    if !redirection.found {
        true
    } else if windows || redirection.kind@ == "symlink"@ {
        redirection.is_symlink
    } else {
        redirection.device != root_device
    }
}

/// Whether the redirections look okay; `None` where there is none, so that
/// nothing needs to be mended.
pub open spec fn redirections_okay(
    redirections: Seq<Redirection>,
    root_device: u64,
    windows: bool,
) -> Option<bool> {
    if redirections.len() == 0 {
        None
    } else {
        Some(
            forall|i: int|
                0 <= i < redirections.len() ==> redirection_is_okay(
                    #[trigger] redirections[i],
                    root_device,
                    windows,
                ),
        )
    }
}

/// Decides whether the redirections of a working copy look okay, from what
/// was found at the places that they name.
pub fn is_edenfs_redirect_okay(redirections: &Vec<Redirection>, root_device: u64, windows: bool) -> (res:
    Option<bool>)
    ensures
        res == redirections_okay(redirections@, root_device, windows),
{
    if redirections.len() == 0 {
        return None;
    }
    let symlink = String::from_str("symlink");
    let mut i: usize = 0;
    while i < redirections.len()
        invariant
            i <= redirections.len(),
            redirections@.len() > 0,
            symlink@ == "symlink"@,
            forall|j: int|
                0 <= j < i ==> redirection_is_okay(
                    #[trigger] redirections@[j],
                    root_device,
                    windows,
                ),
        decreases redirections.len() - i,
    {
        let redirection = &redirections[i];
        if redirection.found {
            if windows || redirection.kind == symlink {
                // kind is "bind" or "symlink". On Windows, "bind" is not supported
                if !redirection.is_symlink {
                    return Some(false);
                }
            } else {
                // Bind mount should have a different device
                if redirection.device == root_device {
                    return Some(false);
                }
            }
        }
        i += 1;
    }
    Some(true)
}

/// How the redirections are mended after a checkout.
#[derive(Clone, Copy, Debug, PartialEq, Eq, Structural)]
pub enum RedirectFixup {
    /// There is no redirection: nothing is run.
    Nothing,
    /// The redirections look okay: the fixup runs in the background.
    Background,
    /// Something is amiss or unknown: the fixup runs in the foreground.
    Foreground,
}

/// Decides how the redirections are mended, from whether they look okay.
/// `is_okay` is `None` where looking at them failed.
pub fn edenfs_redirect_fixup(is_okay: Option<Option<bool>>) -> (res: RedirectFixup)
    ensures
        res == match is_okay {
            Some(None) => RedirectFixup::Nothing,
            Some(Some(true)) => RedirectFixup::Background,
            Some(Some(false)) => RedirectFixup::Foreground,
            None => RedirectFixup::Foreground,
        },
{
    let is_okay = match is_okay {
        Some(known) => known,
        None => Some(false),
    };
    match is_okay {
        Some(true) => RedirectFixup::Background,
        Some(false) => RedirectFixup::Foreground,
        None => RedirectFixup::Nothing,
    }
}


/// What reading a file that may configure redirections came to.
#[derive(Debug, PartialEq, Eq)]
pub enum ConfigRead {
    /// The text of the file.
    Text(String),
    /// There is no such file.
    NotFound,
    /// The file could not be read.
    Failed,
}

/// A redirected place and the kind of its redirection, as the
/// configuration spells them.
pub type RedirectionEntry = (String, String);

/// The entries of the table that the TOML document `text` holds under the
/// top-level key `name`, by ascending key, each value in TOML notation.
/// Empty where `text` is no TOML document, or holds no table under `name`.
pub uninterp spec fn toml_table_entries(text: Seq<char>, name: Seq<char>) -> Seq<
    (Seq<char>, Seq<char>),
>;

/// The mathematical value of a list of entries.
pub open spec fn entries_view(entries: Seq<RedirectionEntry>) -> Seq<(Seq<char>, Seq<char>)> {
    Seq::new(entries.len(), |i: int| (entries[i].0@, entries[i].1@))
}

/// Parses `text` with `toml::from_str` as a `toml::Table`, looks up `name`
/// in it with `Map::get`, and hands out the entries of the table found
/// there with `Map::iter`, each value written with its `Display`. Verus
/// takes on trust that the result is what the name `toml_table_entries`
/// stands for: that it depends on the two texts alone.
#[verifier::external_body]
fn toml_table(text: &str, name: &str) -> (res: Vec<RedirectionEntry>)
    ensures
        entries_view(res@) == toml_table_entries(text@, name@),
{
    match toml::from_str::<toml::Table>(text) {
        Ok(document) => match document.get(name).and_then(|value| value.as_table()) {
            Some(table) => table.iter().map(|(k, v)| (k.to_owned(), v.to_string())).collect(),
            None => Vec::new(),
        },
        Err(_) => Vec::new(),
    }
}

/// The entries `entries` with `kind` set for `place`: the first entry for
/// the place gets the new kind, and a place without an entry gets one at
/// the end.
pub open spec fn with_redirection(
    entries: Seq<(Seq<char>, Seq<char>)>,
    place: Seq<char>,
    kind: Seq<char>,
) -> Seq<(Seq<char>, Seq<char>)>
    decreases entries.len(),
{
    if entries.len() == 0 {
        seq![(place, kind)]
    } else if entries[0].0 == place {
        entries.update(0, (place, kind))
    } else {
        seq![entries[0]] + with_redirection(entries.skip(1), place, kind)
    }
}

/// The entries `entries` with every entry of `found` set, in order: a later
/// entry for a place overrides an earlier one.
pub open spec fn with_redirections(
    entries: Seq<(Seq<char>, Seq<char>)>,
    found: Seq<(Seq<char>, Seq<char>)>,
) -> Seq<(Seq<char>, Seq<char>)>
    decreases found.len(),
{
    if found.len() == 0 {
        entries
    } else {
        with_redirection(
            with_redirections(entries, found.drop_last()),
            found.last().0,
            found.last().1,
        )
    }
}

proof fn lemma_with_redirection(
    entries: Seq<(Seq<char>, Seq<char>)>,
    place: Seq<char>,
    kind: Seq<char>,
    at: int,
)
    requires
        0 <= at <= entries.len(),
        forall|j: int| 0 <= j < at ==> (#[trigger] entries[j]).0 != place,
        at < entries.len() ==> entries[at].0 == place,
    ensures
        at < entries.len() ==> with_redirection(entries, place, kind) == entries.update(
            at,
            (place, kind),
        ),
        at == entries.len() ==> with_redirection(entries, place, kind) == entries.push(
            (place, kind),
        ),
    decreases entries.len(),
{
    if entries.len() > 0 && at > 0 {
        let rest = entries.skip(1);
        assert forall|j: int| 0 <= j < at - 1 implies (#[trigger] rest[j]).0 != place by {
            assert(rest[j] == entries[j + 1]);
        }
        lemma_with_redirection(rest, place, kind, at - 1);
        if at < entries.len() {
            assert(seq![entries[0]] + rest.update(at - 1, (place, kind)) =~= entries.update(
                at,
                (place, kind),
            ));
        } else {
            assert(seq![entries[0]] + rest.push((place, kind)) =~= entries.push((place, kind)));
        }
    } else if entries.len() == 0 {
        assert(seq![(place, kind)] =~= entries.push((place, kind)));
    }
}

/// Sets the kind of the redirection of `place`, as an insertion into a map
/// does: a place that has an entry gets the new kind in it, another place
/// gets a new entry.
pub fn insert_redirection(redirections: &mut Vec<RedirectionEntry>, place: String, kind: String)
    ensures
        entries_view(final(redirections)@) == with_redirection(
            entries_view(old(redirections)@),
            place@,
            kind@,
        ),
{
    let ghost before = entries_view(redirections@);
    let mut i: usize = 0;
    while i < redirections.len()
        invariant
            i <= redirections.len(),
            redirections@ == old(redirections)@,
            before == entries_view(redirections@),
            forall|j: int| 0 <= j < i ==> (#[trigger] before[j]).0 != place@,
        decreases redirections.len() - i,
    {
        if redirections[i].0 == place {
            proof {
                lemma_with_redirection(before, place@, kind@, i as int);
            }
            redirections.set(i, (place, kind));
            assert(entries_view(redirections@) =~= before.update(i as int, (place@, kind@)));
            return ;
        }
        assert(before[i as int].0 == redirections@[i as int].0@);
        i += 1;
    }
    proof {
        lemma_with_redirection(before, place@, kind@, i as int);
    }
    redirections.push((place, kind));
    assert(entries_view(redirections@) =~= before.push((place@, kind@)));
}

/// Sets every redirection of `found`, in order.
pub fn merge_redirections(redirections: &mut Vec<RedirectionEntry>, found: Vec<RedirectionEntry>)
    ensures
        entries_view(final(redirections)@) == with_redirections(
            entries_view(old(redirections)@),
            entries_view(found@),
        ),
{
    let ghost all = entries_view(found@);
    for entry in iter: found
        invariant
            iter.seq() == found@,
            all == entries_view(found@),
            entries_view(redirections@) == with_redirections(
                entries_view(old(redirections)@),
                all.subrange(0, iter.index() as int),
            ),
    {
        assert(all.subrange(0, iter.index() + 1).drop_last() == all.subrange(
            0,
            iter.index() as int,
        ));
        assert(all.subrange(0, iter.index() + 1).last() == (entry.0@, entry.1@));
        insert_redirection(redirections, entry.0, entry.1);
    }
    assert(all.subrange(0, found@.len() as int) == all);
}

/// The redirections that the first `count` files configure, each file
/// adding to and overriding what the files before it said. A file that is
/// not there and a file that is no TOML document add nothing.
pub open spec fn configured_redirections(files: Seq<ConfigRead>, count: int) -> Seq<
    (Seq<char>, Seq<char>),
>
    decreases count,
{
    if count <= 0 || count > files.len() {
        Seq::empty()
    } else {
        match files[count - 1] {
            ConfigRead::Text(text) => with_redirections(
                configured_redirections(files, count - 1),
                toml_table_entries(text@, "redirections"@),
            ),
            _ => configured_redirections(files, count - 1),
        }
    }
}

/// Whether a file could not be read.
pub open spec fn any_read_failed(files: Seq<ConfigRead>) -> bool {
    exists|i: int| 0 <= i < files.len() && #[trigger] files[i] == ConfigRead::Failed
}

/// Gathers the redirections of a working copy from the files that may
/// configure them, in the order of the files: the entries of the table
/// `redirections` of each file that is a TOML document. `None` where a file
/// could not be read: then nothing can be said of the redirections.
pub fn read_redirections(files: &Vec<ConfigRead>) -> (res: Option<Vec<RedirectionEntry>>)
    ensures
        any_read_failed(files@) ==> res.is_none(),
        !any_read_failed(files@) ==> (res matches Some(redirections) && entries_view(redirections@)
            == configured_redirections(files@, files@.len() as int)),
{
    let mut redirections: Vec<RedirectionEntry> = Vec::new();
    let mut i: usize = 0;
    while i < files.len()
        invariant
            i <= files.len(),
            forall|j: int| 0 <= j < i ==> #[trigger] files@[j] != ConfigRead::Failed,
            entries_view(redirections@) == configured_redirections(files@, i as int),
        decreases files.len() - i,
    {
        match &files[i] {
            ConfigRead::Text(text) => {
                let found = toml_table(text.as_str(), "redirections");
                merge_redirections(&mut redirections, found);
            },
            ConfigRead::NotFound => {},
            ConfigRead::Failed => {
                return None;
            },
        }
        i += 1;
    }
    Some(redirections)
}

} // verus!
