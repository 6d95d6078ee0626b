use vstd::prelude::*;
use vstd::string::*;

use crate::error::{Error, IoError};
use crate::path::{extension, extension_of};

verus! {

/// What a path is, in a model of a file system: a file, or a directory with
/// the paths of its entries.
pub enum Node {
    File,
    Dir(Seq<Seq<char>>),
}

/// What the file system says of a path when discovery asks.
pub enum Entry {
    Missing,
    File,
    Dir(Vec<String>),
}

impl View for Entry {
    type V = Option<Node>;

    open spec fn view(&self) -> Option<Node> {
        match self {
            Entry::Missing => None,
            Entry::File => Some(Node::File),
            Entry::Dir(entries) => Some(Node::Dir(entries.deep_view())),
        }
    }
}

/// The filter keeps the file at `path`: there is no filter, or the file's
/// extension is exactly the filter.
pub open spec fn keeps(path: Seq<char>, filter: Option<Seq<char>>) -> bool {
    match filter {
        None => true,
        Some(f) => extension_of(path) == Some(f),
    }
}

/// Says whether `filter` keeps the file at `path`.
pub fn keeps_file(path: &str, filter: &Option<String>) -> (r: bool)
    ensures
        r == keeps(path@, filter.deep_view()),
{
    match filter {
        None => true,
        Some(f) => match extension(path) {
            Some(e) => e == *f,
            None => false,
        },
    }
}

/// `chain` goes down the tree of `fs`: each path after the first is an entry
/// of the directory before it.
pub open spec fn is_chain(fs: Map<Seq<char>, Node>, chain: Seq<Seq<char>>) -> bool {
    &&& chain.len() > 0
    &&& forall|k: int|
        0 <= k < chain.len() - 1 ==> #[trigger] fs.contains_key(chain[k]) && (fs[chain[k]] matches Node::Dir(
            entries,
        ) && entries.contains(chain[k + 1]))
}

/// `p` is `root` itself or lies somewhere under it in `fs`.
pub open spec fn lies_under(fs: Map<Seq<char>, Node>, root: Seq<char>, p: Seq<char>) -> bool {
    exists|chain: Seq<Seq<char>>| is_chain(fs, chain) && chain[0] == root && chain.last() == p
}

/// The files of `fs` under any of `roots` that the filter keeps.
pub open spec fn kept_under(fs: Map<Seq<char>, Node>, roots: Seq<Seq<char>>, filter: Option<Seq<char>>) -> Set<Seq<char>> {
    Set::new(
        |p: Seq<char>|
            {
                &&& fs.contains_key(p)
                &&& fs[p] is File
                &&& keeps(p, filter)
                &&& exists|i: int| 0 <= i < roots.len() && lies_under(fs, roots[i], p)
            },
    )
}

/// What a walk will have found once no path is pending, if the file system
/// is `fs`: the files found so far and the kept files under the pending paths.
pub open spec fn outcome(
    fs: Map<Seq<char>, Node>,
    pending: Seq<Seq<char>>,
    found: Seq<Seq<char>>,
    filter: Option<Seq<char>>,
) -> Set<Seq<char>> {
    found.to_set() + kept_under(fs, pending, filter)
}

/// A walk starts with the kept files under its root still to be found.
pub proof fn lemma_outcome_at_start(fs: Map<Seq<char>, Node>, root: Seq<char>, filter: Option<Seq<char>>)
    ensures
        outcome(fs, seq![root], Seq::empty(), filter) == kept_under(fs, seq![root], filter),
{
    assert(Seq::<Seq<char>>::empty().to_set() =~= Set::empty());
    assert(outcome(fs, seq![root], Seq::empty(), filter) =~= kept_under(fs, seq![root], filter));
}

/// A walk with no path pending has found all it will find.
pub proof fn lemma_outcome_at_end(fs: Map<Seq<char>, Node>, found: Seq<Seq<char>>, filter: Option<Seq<char>>)
    ensures
        outcome(fs, Seq::empty(), found, filter) == found.to_set(),
{
    assert(kept_under(fs, Seq::empty(), filter) =~= Set::empty());
    assert(outcome(fs, Seq::empty(), found, filter) =~= found.to_set());
}

/// Visiting the next path with what `fs` says of it keeps the outcome: a
/// walk over an unchanging file system finds exactly the kept files under its
/// root, whatever order the directories list their entries in.
pub proof fn lemma_visit_keeps_outcome(
    fs: Map<Seq<char>, Node>,
    pending: Seq<Seq<char>>,
    found: Seq<Seq<char>>,
    filter: Option<Seq<char>>,
    path: Seq<char>,
)
    requires
        fs.contains_key(path),
    ensures
        fs[path] is File ==> outcome(
            fs,
            pending,
            if keeps(path, filter) { found.push(path) } else { found },
            filter,
        ) == outcome(fs, pending.push(path), found, filter),
        fs[path] matches Node::Dir(entries) ==> outcome(fs, pending + entries, found, filter)
            == outcome(fs, pending.push(path), found, filter),
{
    let before = pending.push(path);
    match fs[path] {
        Node::File => {
            let found2 = if keeps(path, filter) { found.push(path) } else { found };
            assert forall|p: Seq<char>| #[trigger] kept_under(fs, before, filter).contains(p)
                implies outcome(fs, pending, found2, filter).contains(p) by {
                let i = choose|i: int| 0 <= i < before.len() && lies_under(fs, before[i], p);
                if i < pending.len() {
                    assert(pending[i] == before[i]);
                    assert(kept_under(fs, pending, filter).contains(p));
                } else {
                    let chain = choose|chain: Seq<Seq<char>>|
                        is_chain(fs, chain) && chain[0] == path && chain.last() == p;
                    if chain.len() > 1 {
                        assert(fs.contains_key(chain[0]));
                    }
                    assert(p == path);
                    assert(found2[found2.len() - 1] == p);
                    assert(found2.contains(p));
                }
            }
            assert forall|p: Seq<char>| #[trigger] found2.to_set().contains(p)
                implies outcome(fs, before, found, filter).contains(p) by {
                if !found.contains(p) {
                    assert(found2.contains(p));
                    let k = choose|k: int| 0 <= k < found2.len() && found2[k] == p;
                    assert(keeps(path, filter));
                    if k < found.len() {
                        assert(found[k] == p);
                    }
                    assert(p == path);
                    let chain = seq![path];
                    assert(is_chain(fs, chain));
                    assert(chain[0] == path && chain.last() == p);
                    assert(before[pending.len() as int] == path);
                    assert(lies_under(fs, before[pending.len() as int], p));
                }
            }
            assert forall|p: Seq<char>| #[trigger] kept_under(fs, pending, filter).contains(p)
                implies kept_under(fs, before, filter).contains(p) by {
                let i = choose|i: int| 0 <= i < pending.len() && lies_under(fs, pending[i], p);
                assert(before[i] == pending[i]);
            }
            assert forall|p: Seq<char>| #[trigger] found.to_set().contains(p)
                implies found2.to_set().contains(p) by {
                assert(found.contains(p));
                let k = choose|k: int| 0 <= k < found.len() && found[k] == p;
                assert(found2[k] == p);
            }
            assert(outcome(fs, pending, found2, filter) =~= outcome(fs, before, found, filter));
        },
        Node::Dir(entries) => {
            let after = pending + entries;
            assert forall|p: Seq<char>| #[trigger] kept_under(fs, after, filter).contains(p)
                implies kept_under(fs, before, filter).contains(p) by {
                let i = choose|i: int| 0 <= i < after.len() && lies_under(fs, after[i], p);
                if i < pending.len() {
                    assert(before[i] == after[i]);
                } else {
                    let chain = choose|chain: Seq<Seq<char>>|
                        is_chain(fs, chain) && chain[0] == after[i] && chain.last() == p;
                    let longer = seq![path] + chain;
                    assert(entries.contains(after[i])) by {
                        assert(entries[i - pending.len()] == after[i]);
                    }
                    assert forall|k: int| 0 <= k < longer.len() - 1 implies #[trigger] fs.contains_key(longer[k])
                        && (fs[longer[k]] matches Node::Dir(es) && es.contains(longer[k + 1])) by {
                        if k > 0 {
                            assert(longer[k] == chain[k - 1]);
                            assert(fs.contains_key(chain[k - 1]));
                        }
                    }
                    assert(is_chain(fs, longer));
                    assert(longer[0] == path);
                    assert(longer.last() == chain.last());
                    assert(before[pending.len() as int] == path);
                    assert(lies_under(fs, before[pending.len() as int], p));
                }
            }
            assert forall|p: Seq<char>| #[trigger] kept_under(fs, before, filter).contains(p)
                implies kept_under(fs, after, filter).contains(p) by {
                let i = choose|i: int| 0 <= i < before.len() && lies_under(fs, before[i], p);
                if i < pending.len() {
                    assert(before[i] == after[i]);
                } else {
                    let chain = choose|chain: Seq<Seq<char>>|
                        is_chain(fs, chain) && chain[0] == path && chain.last() == p;
                    assert(chain.len() > 1) by {
                        if chain.len() == 1 {
                            assert(p == path);
                        }
                    }
                    assert(fs.contains_key(chain[0]));
                    let next = chain[1];
                    assert(entries.contains(next));
                    let j = choose|j: int| 0 <= j < entries.len() && entries[j] == next;
                    let rest = chain.drop_first();
                    assert forall|k: int| 0 <= k < rest.len() - 1 implies #[trigger] fs.contains_key(rest[k])
                        && (fs[rest[k]] matches Node::Dir(es) && es.contains(rest[k + 1])) by {
                        assert(rest[k] == chain[k + 1]);
                        assert(fs.contains_key(chain[k + 1]));
                    }
                    assert(is_chain(fs, rest));
                    assert(rest[0] == next);
                    assert(rest.last() == chain.last());
                    assert(after[pending.len() + j] == next);
                    assert(lies_under(fs, after[pending.len() + j], p));
                }
            }
            assert(outcome(fs, after, found, filter) =~= outcome(fs, before, found, filter));
        },
    }
}

/// A walk over the files under a root, with an explicit list of the paths
/// still to visit. The caller asks for the next path, looks it up in the file
/// system, and hands back what it found, until no path is left.
pub struct Discovery {
    pending: Vec<String>,
    found: Vec<String>,
    filter: Option<String>,
}

impl Discovery {
    /// The paths still to visit; the last is visited next.
    pub closed spec fn pending(&self) -> Seq<Seq<char>> {
        self.pending.deep_view()
    }

    /// The files found so far, in the order they were found.
    pub closed spec fn found(&self) -> Seq<Seq<char>> {
        self.found.deep_view()
    }

    /// The extension that files must have to be kept, if any.
    pub closed spec fn filter(&self) -> Option<Seq<char>> {
        self.filter.deep_view()
    }

    /// A walk that starts at `root`.
    pub fn new(root: String, filter: Option<String>) -> (r: Discovery)
        ensures
            r.pending() == seq![root@],
            r.found() == Seq::<Seq<char>>::empty(),
            r.filter() == filter.deep_view(),
    {
        let pending = vec![root];
        let found: Vec<String> = Vec::new();
        let r = Discovery { pending, found, filter };
        assert(r.pending() =~= seq![root@]);
        assert(r.found() =~= Seq::<Seq<char>>::empty());
        r
    }

    /// The next path to visit, taken off the list; `None` once the walk is
    /// done.
    pub fn next_path(&mut self) -> (r: Option<String>)
        ensures
            final(self).found() == old(self).found(),
            final(self).filter() == old(self).filter(),
            old(self).pending().len() == 0 ==> r is None && final(self).pending() == old(self).pending(),
            old(self).pending().len() > 0 ==> (r matches Some(p) && p@ == old(self).pending().last())
                && final(self).pending() == old(self).pending().drop_last(),
    {
        let r = self.pending.pop();
        if r.is_some() {
            assert(self.pending.deep_view() =~= old(self).pending.deep_view().drop_last());
        }
        r
    }

    /// Takes in what the file system says of `path`: a missing path fails the
    /// walk, a file is kept if the filter keeps it, and a directory's entries
    /// are added to the paths to visit.
    pub fn visit(&mut self, path: String, entry: Entry) -> (r: Result<(), Error>)
        ensures
            final(self).filter() == old(self).filter(),
            match entry@ {
                None => {
                    &&& r == Err::<(), Error>(Error::Io(IoError::NotFound(path)))
                    &&& final(self).pending() == old(self).pending()
                    &&& final(self).found() == old(self).found()
                },
                Some(Node::File) => {
                    &&& r is Ok
                    &&& final(self).pending() == old(self).pending()
                    &&& final(self).found() == if keeps(path@, old(self).filter()) {
                        old(self).found().push(path@)
                    } else {
                        old(self).found()
                    }
                },
                Some(Node::Dir(entries)) => {
                    &&& r is Ok
                    &&& final(self).pending() == old(self).pending() + entries
                    &&& final(self).found() == old(self).found()
                },
            },
    {
        match entry {
            Entry::Missing => Err(Error::Io(IoError::NotFound(path))),
            Entry::File => {
                if keeps_file(path.as_str(), &self.filter) {
                    self.found.push(path);
                    assert(self.found.deep_view() =~= old(self).found.deep_view().push(path@));
                }
                Ok(())
            },
            Entry::Dir(entries) => {
                let mut entries = entries;
                let ghost added = entries.deep_view();
                self.pending.append(&mut entries);
                assert(self.pending.deep_view() =~= old(self).pending.deep_view() + added);
                Ok(())
            },
        }
    }

    /// The files that the walk found.
    pub fn into_files(self) -> (r: Vec<String>)
        ensures
            r.deep_view() == self.found(),
    {
        self.found
    }
}

} // verus!
