//! Entries of a manifest: a directory listing whose items are trees or
//! leaves, and entries that carry the mark of the parent they came from.

use vstd::prelude::*;
use vstd::std_specs::cmp::PartialEqSpec;

verus! {

/// An item of a manifest: a tree (a directory) or a leaf (a file).
#[derive(Copy, Clone, PartialEq, Eq, Hash, Debug)]
pub enum Entry<T, L> {
    Tree(T),
    Leaf(L),
}

impl<T, L> Entry<T, L> {
    /// The tree, if the entry is one.
    pub fn into_tree(self) -> (res: Option<T>)
        ensures
            match self {
                Entry::Tree(tree) => res == Some(tree),
                Entry::Leaf(_) => res.is_none(),
            },
    {
        match self {
            Entry::Tree(tree) => Some(tree),
            _ => None,
        }
    }

    /// The leaf, if the entry is one.
    pub fn into_leaf(self) -> (res: Option<L>)
        ensures
            match self {
                Entry::Leaf(leaf) => res == Some(leaf),
                Entry::Tree(_) => res.is_none(),
            },
    {
        match self {
            Entry::Leaf(leaf) => Some(leaf),
            _ => None,
        }
    }

    /// The entry with `m` applied to its leaf. A tree stays as it is, and
    /// `m` is not called.
    pub fn map_leaf<L2, F: FnOnce(L) -> L2>(self, m: F) -> (res: Entry<T, L2>)
        requires
            self matches Entry::Leaf(leaf) ==> m.requires((leaf,)),
        ensures
            match self {
                Entry::Tree(tree) => res == Entry::<T, L2>::Tree(tree),
                Entry::Leaf(leaf) => res matches Entry::Leaf(leaf2) && m.ensures((leaf,), leaf2),
            },
    {
        match self {
            Entry::Tree(tree) => Entry::Tree(tree),
            Entry::Leaf(leaf) => Entry::Leaf(m(leaf)),
        }
    }

    /// The entry with `m` applied to its tree. A leaf stays as it is, and
    /// `m` is not called.
    pub fn map_tree<T2, F: FnOnce(T) -> T2>(self, m: F) -> (res: Entry<T2, L>)
        requires
            self matches Entry::Tree(tree) ==> m.requires((tree,)),
        ensures
            match self {
                Entry::Tree(tree) => res matches Entry::Tree(tree2) && m.ensures((tree,), tree2),
                Entry::Leaf(leaf) => res == Entry::<T2, L>::Leaf(leaf),
            },
    {
        match self {
            Entry::Tree(tree) => Entry::Tree(m(tree)),
            Entry::Leaf(leaf) => Entry::Leaf(leaf),
        }
    }

    /// Whether the entry is a tree.
    pub fn is_tree(&self) -> (res: bool)
        ensures
            res == (self is Tree),
    {
        match self {
            Entry::Tree(_) => true,
            _ => false,
        }
    }
}

/// A value that carries the mark of the parent it was derived from, so that
/// entries can be traced back through a derivation. Two traced values are
/// the same when the values are, whatever their marks.
#[derive(Debug)]
pub struct Traced<I, E>(Option<I>, E);

impl<I, E> Traced<I, E> {
    /// The mark of the value.
    pub closed spec fn mark(&self) -> Option<I> {
        self.0
    }

    /// The value that is traced.
    pub closed spec fn value(&self) -> E {
        self.1
    }

    /// A value without a mark.
    pub fn generate(e: E) -> (res: Self)
        ensures
            res.mark().is_none(),
            res.value() == e,
    {
        Self(None, e)
    }

    /// A value with the mark `i`.
    pub fn assign(i: I, e: E) -> (res: Self)
        ensures
            res.mark() == Some(i),
            res.value() == e,
    {
        Self(Some(i), e)
    }

    /// The mark, if the value has one.
    pub fn id(&self) -> (res: Option<&I>)
        ensures
            match self.mark() {
                Some(i) => res == Some(&i),
                None => res.is_none(),
            },
    {
        self.0.as_ref()
    }

    /// The value without its mark.
    pub fn untraced(&self) -> (res: &E)
        ensures
            *res == self.value(),
    {
        &self.1
    }

    /// The value without its mark.
    pub fn into_untraced(self) -> (res: E)
        ensures
            res == self.value(),
    {
        self.1
    }
}

impl<I: Copy, E> Traced<I, E> {
    /// The entry `e` with the mark of `self` on its tree or leaf.
    pub fn inherit_into_entry<TreeId, LeafId>(&self, e: Entry<TreeId, LeafId>) -> (res: Entry<
        Traced<I, TreeId>,
        Traced<I, LeafId>,
    >)
        ensures
            match e {
                Entry::Tree(t) => res matches Entry::Tree(traced) && traced.mark() == self.mark()
                    && traced.value() == t,
                Entry::Leaf(l) => res matches Entry::Leaf(traced) && traced.mark() == self.mark()
                    && traced.value() == l,
            },
    {
        match e {
            Entry::Tree(t) => Entry::Tree(Traced(self.0, t)),
            Entry::Leaf(l) => Entry::Leaf(Traced(self.0, l)),
        }
    }
}

impl<I, E: PartialEq> PartialEq for Traced<I, E> {
    fn eq(&self, other: &Self) -> (res: bool) {
        self.1 == other.1
    }
}

impl<I, E: PartialEq> vstd::std_specs::cmp::PartialEqSpecImpl for Traced<I, E> {
    open spec fn obeys_eq_spec() -> bool {
        E::obeys_eq_spec()
    }

    open spec fn eq_spec(&self, other: &Self) -> bool {
        self.value().eq_spec(&other.value())
    }
}

impl<I, E: Eq> Eq for Traced<I, E> {

}

impl<I: Copy, E: Copy> Copy for Traced<I, E> {

}

impl<I: Clone, E: Clone> Clone for Traced<I, E> {
    fn clone(&self) -> (res: Self)
        ensures
            match (self.mark(), res.mark()) {
                (Some(i), Some(i2)) => cloned::<I>(i, i2),
                (None, None) => true,
                _ => false,
            },
            cloned::<E>(self.value(), res.value()),
    {
        Self(
            match &self.0 {
                Some(i) => Some(i.clone()),
                None => None,
            },
            self.1.clone(),
        )
    }
}

impl<I, E: std::hash::Hash> std::hash::Hash for Traced<I, E> {
    /// Hashes the value and leaves the mark out, as equality does.
    #[verifier::external_body]
    fn hash<H: std::hash::Hasher>(&self, state: &mut H) {
        self.1.hash(state);
    }
}

impl<I, TreeId, LeafId> From<Entry<Traced<I, TreeId>, Traced<I, LeafId>>> for Entry<TreeId, LeafId> {
    /// The entry without the mark on its tree or leaf.
    fn from(entry: Entry<Traced<I, TreeId>, Traced<I, LeafId>>) -> (res: Self) {
        match entry {
            Entry::Tree(traced) => Entry::Tree(traced.into_untraced()),
            Entry::Leaf(traced) => Entry::Leaf(traced.into_untraced()),
        }
    }
}

impl<I, TreeId, LeafId> vstd::std_specs::convert::FromSpecImpl<Entry<Traced<I, TreeId>, Traced<I, LeafId>>> for Entry<TreeId, LeafId> {
    open spec fn obeys_from_spec() -> bool {
        true
    }

    open spec fn from_spec(entry: Entry<Traced<I, TreeId>, Traced<I, LeafId>>) -> Self {
        match entry {
            Entry::Tree(traced) => Entry::Tree(traced.value()),
            Entry::Leaf(traced) => Entry::Leaf(traced.value()),
        }
    }
}


/// One element of a path: the name of a file or of a directory.
#[derive(Debug, PartialEq, Eq, Hash)]
pub struct MPathElement(pub Vec<u8>);

impl View for MPathElement {
    type V = Seq<u8>;

    open spec fn view(&self) -> Seq<u8> {
        self.0@
    }
}

impl Clone for MPathElement {
    fn clone(&self) -> (res: Self)
        ensures
            res@ == self@,
    {
        let mut bytes: Vec<u8> = Vec::new();
        let mut i: usize = 0;
        while i < self.0.len()
            invariant
                i <= self.0.len(),
                bytes@ == self.0@.subrange(0, i as int),
            decreases self.0.len() - i,
        {
            bytes.push(self.0[i]);
            i += 1;
        }
        assert(self.0@.subrange(0, i as int) == self.0@);
        MPathElement(bytes)
    }
}

/// Whether `name` begins with `prefix`.
pub open spec fn has_prefix(name: Seq<u8>, prefix: Seq<u8>) -> bool {
    prefix.len() <= name.len() && name.subrange(0, prefix.len() as int) == prefix
}

impl MPathElement {
    /// Whether the name begins with `prefix`.
    pub fn starts_with(&self, prefix: &[u8]) -> (res: bool)
        ensures
            res == has_prefix(self@, prefix@),
    {
        if prefix.len() > self.0.len() {
            return false;
        }
        let mut i: usize = 0;
        while i < prefix.len()
            invariant
                prefix@.len() <= self.0@.len(),
                i <= prefix.len(),
                forall|j: int| 0 <= j < i ==> self.0@[j] == prefix@[j],
            decreases prefix.len() - i,
        {
            if self.0[i] != prefix[i] {
                assert(self.0@.subrange(0, prefix@.len() as int)[i as int] != prefix@[i as int]);
                return false;
            }
            i += 1;
        }
        assert(self.0@.subrange(0, prefix@.len() as int) =~= prefix@);
        true
    }
}

/// The items of `items` whose name begins with `prefix`, in order.
pub open spec fn items_with_prefix<E>(items: Seq<(MPathElement, E)>, prefix: Seq<u8>) -> Seq<
    (MPathElement, E),
>
    decreases items.len(),
{
    if items.len() == 0 {
        Seq::empty()
    } else if has_prefix(items.last().0@, prefix) {
        items_with_prefix(items.drop_last(), prefix).push(items.last())
    } else {
        items_with_prefix(items.drop_last(), prefix)
    }
}

/// Keeps the items of a listing whose name begins with `prefix`.
pub fn list_prefix<E>(items: Vec<(MPathElement, E)>, prefix: &[u8]) -> (res: Vec<(MPathElement, E)>)
    ensures
        res@ == items_with_prefix(items@, prefix@),
{
    let mut res: Vec<(MPathElement, E)> = Vec::new();
    for item in iter: items
        invariant
            iter.seq() == items@,
            res@ == items_with_prefix(items@.subrange(0, iter.index() as int), prefix@),
    {
        assert(items@.subrange(0, iter.index() + 1).drop_last() == items@.subrange(
            0,
            iter.index() as int,
        ));
        assert(items@.subrange(0, iter.index() + 1).last() == item);
        if item.0.starts_with(prefix) {
            res.push(item);
        }
    }
    assert(items@.subrange(0, items@.len() as int) == items@);
    res
}

/// Whether `traced` is `entry` with the mark `mark` on its tree or leaf.
pub open spec fn is_marked<I, T, L>(
    mark: Option<I>,
    entry: Entry<T, L>,
    traced: Entry<Traced<I, T>, Traced<I, L>>,
) -> bool {
    match (entry, traced) {
        (Entry::Tree(t), Entry::Tree(traced)) => traced.mark() == mark && traced.value() == t,
        (Entry::Leaf(l), Entry::Leaf(traced)) => traced.mark() == mark && traced.value() == l,
        _ => false,
    }
}

/// A directory listing: the items of one directory by name.
pub trait Manifest: Sized {
    type TreeId;

    type LeafId;

    /// All the items of the directory.
    fn list(&self) -> Vec<(MPathElement, Entry<Self::TreeId, Self::LeafId>)>;

    /// The item called `name`, if the directory has one.
    fn lookup(&self, name: &MPathElement) -> Option<Entry<Self::TreeId, Self::LeafId>>;
}

impl<I: Copy, M: Manifest> Manifest for Traced<I, M> {
    type TreeId = Traced<I, M::TreeId>;

    type LeafId = Traced<I, M::LeafId>;

    /// The items of the traced directory, each with the mark of the
    /// directory: whatever the directory lists, in its order, marked.
    fn list(&self) -> (res: Vec<(MPathElement, Entry<Self::TreeId, Self::LeafId>)>)
        ensures
            exists|listed: Vec<(MPathElement, Entry<M::TreeId, M::LeafId>)>|
                {
                    &&& #[trigger] call_ensures(M::list, (&self.value(),), listed)
                    &&& res@.len() == listed@.len()
                    &&& forall|i: int|
                        0 <= i < res@.len() ==> (#[trigger] res@[i]).0 == listed@[i].0 && is_marked(
                            self.mark(),
                            listed@[i].1,
                            res@[i].1,
                        )
                },
    {
        let items = self.1.list();
        let ghost listed = items;
        let mut res: Vec<(MPathElement, Entry<Self::TreeId, Self::LeafId>)> = Vec::new();
        for item in iter: items
            invariant
                call_ensures(M::list, (&self.value(),), listed),
                iter.seq() == listed@,
                res@.len() == iter.index(),
                forall|i: int|
                    0 <= i < res@.len() ==> (#[trigger] res@[i]).0 == listed@[i].0 && is_marked(
                        self.mark(),
                        listed@[i].1,
                        res@[i].1,
                    ),
        {
            res.push((item.0, self.inherit_into_entry(item.1)));
        }
        assert(call_ensures(M::list, (&self.value(),), listed) && res@.len() == listed@.len());
        res
    }

    /// The item called `name` of the traced directory, with the mark of the
    /// directory: whatever the directory gives for the name, marked.
    fn lookup(&self, name: &MPathElement) -> (res: Option<Entry<Self::TreeId, Self::LeafId>>)
        ensures
            exists|found: Option<Entry<M::TreeId, M::LeafId>>|
                {
                    &&& #[trigger] call_ensures(M::lookup, (&self.value(), name), found)
                    &&& match (found, res) {
                        (Some(entry), Some(traced)) => is_marked(self.mark(), entry, traced),
                        (None, None) => true,
                        _ => false,
                    }
                },
    {
        match self.1.lookup(name) {
            Some(e) => Some(self.inherit_into_entry(e)),
            None => None,
        }
    }
}

/// How much lies below a directory; the order in which directories are
/// visited goes by it.
pub type Weight = usize;

/// The weight of a directory that counts `rollup_count` items below it: the
/// count, and the largest weight where the count does not fit.
pub fn convert_bssm_to_weighted<D>(entry: Entry<D, ()>, rollup_count: u64) -> (res: Entry<
    (Weight, D),
    (),
>)
    ensures
        match entry {
            Entry::Tree(dir) => res == Entry::<(Weight, D), ()>::Tree(
                (
                    if rollup_count <= usize::MAX {
                        rollup_count as usize
                    } else {
                        usize::MAX
                    },
                    dir,
                ),
            ),
            Entry::Leaf(()) => res == Entry::<(Weight, D), ()>::Leaf(()),
        },
{
    match entry {
        Entry::Tree(dir) => {
            let weight: usize = if rollup_count <= usize::MAX as u64 {
                rollup_count as usize
            } else {
                usize::MAX
            };
            Entry::Tree((weight, dir))
        },
        Entry::Leaf(()) => Entry::Leaf(()),
    }
}

/// The weight of a directory of a skeleton manifest: the files and the
/// directories below it, cut to the size of a weight.
pub fn convert_skeleton_manifest_weighted<Id>(
    entry: Entry<Id, ()>,
    descendant_files_count: u64,
    descendant_dirs_count: u64,
) -> (res: Entry<(Weight, Id), ()>)
    requires
        entry is Tree ==> descendant_files_count + descendant_dirs_count <= u64::MAX,
    ensures
        match entry {
            Entry::Tree(id) => res == Entry::<(Weight, Id), ()>::Tree(
                ((descendant_files_count + descendant_dirs_count) as usize, id),
            ),
            Entry::Leaf(()) => res == Entry::<(Weight, Id), ()>::Leaf(()),
        },
{
    match entry {
        Entry::Tree(id) => {
            let weight = descendant_files_count + descendant_dirs_count;
            Entry::Tree((
                #[verifier::truncate]
                (weight as Weight),
                id,
            ))
        },
        Entry::Leaf(()) => Entry::Leaf(()),
    }
}

/// The weight of a directory of an fsnode: the files below it and the
/// directories directly in it, cut to the size of a weight. The count of
/// directories is a lower bound, since an fsnode does not count the
/// directories further down.
pub fn convert_fsnode_weighted<Id, File>(
    entry: Entry<Id, File>,
    descendant_files_count: u64,
    child_dirs_count: u64,
) -> (res: Entry<(Weight, Id), File>)
    requires
        entry is Tree ==> descendant_files_count + child_dirs_count <= u64::MAX,
    ensures
        match entry {
            Entry::Tree(id) => res == Entry::<(Weight, Id), File>::Tree(
                ((descendant_files_count + child_dirs_count) as usize, id),
            ),
            Entry::Leaf(file) => res == Entry::<(Weight, Id), File>::Leaf(file),
        },
{
    match entry {
        Entry::Tree(id) => {
            let weight = descendant_files_count + child_dirs_count;
            Entry::Tree((
                #[verifier::truncate]
                (weight as Weight),
                id,
            ))
        },
        Entry::Leaf(file) => Entry::Leaf(file),
    }
}

} // verus!
