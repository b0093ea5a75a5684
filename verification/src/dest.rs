//! The destination directory: a model of the build system's writable
//! storage with explicit commit semantics. A child becomes durable when
//! it is closed; the whole tree becomes visible to consumers only when
//! the top-level directory itself is closed, exactly once, at the end of
//! a successful run.

use vstd::prelude::*;

verus! {

/// One child of the destination directory, identified by the relative
/// path it was created at.
#[derive(Debug, PartialEq, Eq)]
pub enum Node {
    Directory { path: String },
    File { path: String, data: Vec<u8> },
}

/// The mathematical picture of one child: its path as text and, for a
/// file, its contents as bytes.
pub enum EntryModel {
    Directory { path: Seq<char> },
    File { path: Seq<char>, data: Seq<u8> },
}

impl View for Node {
    type V = EntryModel;

    open spec fn view(&self) -> EntryModel {
        match self {
            Node::Directory { path } => EntryModel::Directory { path: path@ },
            Node::File { path, data } => EntryModel::File { path: path@, data: data@ },
        }
    }
}

impl DeepView for Node {
    type V = EntryModel;

    open spec fn deep_view(&self) -> EntryModel {
        self.view()
    }
}

/// A write-capable handle for a destination directory. Exclusively owned
/// by the pipeline until committed.
#[derive(Debug)]
pub struct WriteDirectory {
    name: String,
    entries: Vec<Node>,
    open_child: Option<Node>,
    skipped: Vec<String>,
    committed: bool,
}

impl WriteDirectory {
    /// The name the directory was created under.
    pub closed spec fn spec_name(self) -> Seq<char> {
        self.name@
    }

    /// The committed children, in creation order.
    pub closed spec fn spec_entries(self) -> Seq<EntryModel> {
        self.entries.deep_view()
    }

    /// The child created but not yet closed, if any.
    pub closed spec fn spec_open_child(self) -> Option<EntryModel> {
        match self.open_child {
            Some(n) => Some(n@),
            None => None,
        }
    }

    /// The paths of entries skipped for diagnostic visibility.
    pub closed spec fn spec_skipped(self) -> Seq<Seq<char>> {
        self.skipped.deep_view()
    }

    /// Whether the top-level close has happened.
    pub closed spec fn spec_committed(self) -> bool {
        self.committed
    }

    /// What consumers of the final tree can observe: nothing at all
    /// until the top-level directory is committed.
    pub open spec fn spec_visible(self) -> Option<Seq<EntryModel>> {
        if self.spec_committed() {
            Some(self.spec_entries())
        } else {
            None
        }
    }

    /// A committed directory holds no open child.
    pub open spec fn wf(self) -> bool {
        self.spec_committed() ==> self.spec_open_child() is None
    }

    /// Creates a fresh, empty, uncommitted destination directory.
    pub fn new(name: String) -> (r: WriteDirectory)
        ensures
            r.wf(),
            r.spec_name() == name@,
            r.spec_entries() == Seq::<EntryModel>::empty(),
            r.spec_open_child() is None,
            r.spec_skipped() == Seq::<Seq<char>>::empty(),
            !r.spec_committed(),
    {
        let r = WriteDirectory {
            name,
            entries: Vec::new(),
            open_child: None,
            skipped: Vec::new(),
            committed: false,
        };
        proof {
            assert(r.spec_entries() =~= Seq::<EntryModel>::empty());
            assert(r.spec_skipped() =~= Seq::<Seq<char>>::empty());
        }
        r
    }

    /// Creates a child directory at `path`; it stays open until closed.
    pub fn create_directory(&mut self, path: String)
        requires
            !old(self).spec_committed(),
            old(self).spec_open_child() is None,
        ensures
            final(self).spec_name() == old(self).spec_name(),
            final(self).spec_entries() == old(self).spec_entries(),
            final(self).spec_skipped() == old(self).spec_skipped(),
            final(self).spec_committed() == old(self).spec_committed(),
            final(self).spec_open_child() == Some((EntryModel::Directory { path: path@ })),
    {
        self.open_child = Some(Node::Directory { path });
    }

    /// Creates a child file at `path`, empty; it stays open for appends
    /// until closed.
    pub fn create_file(&mut self, path: String)
        requires
            !old(self).spec_committed(),
            old(self).spec_open_child() is None,
        ensures
            final(self).spec_name() == old(self).spec_name(),
            final(self).spec_entries() == old(self).spec_entries(),
            final(self).spec_skipped() == old(self).spec_skipped(),
            final(self).spec_committed() == old(self).spec_committed(),
            final(self).spec_open_child() == Some(
                (EntryModel::File { path: path@, data: Seq::<u8>::empty() }),
            ),
    {
        let data: Vec<u8> = Vec::new();
        self.open_child = Some(Node::File { path, data });
    }

    /// Appends a chunk at the end of the open child file.
    pub fn append(&mut self, chunk: &[u8])
        requires
            !old(self).spec_committed(),
            old(self).spec_open_child() matches Some(EntryModel::File { .. }),
        ensures
            final(self).spec_name() == old(self).spec_name(),
            final(self).spec_entries() == old(self).spec_entries(),
            final(self).spec_skipped() == old(self).spec_skipped(),
            final(self).spec_committed() == old(self).spec_committed(),
            match (final(self).spec_open_child(), old(self).spec_open_child()) {
                (
                    Some(EntryModel::File { path: p, data: d }),
                    Some(EntryModel::File { path: q, data: e }),
                ) => p == q && d == e + chunk@,
                _ => false,
            },
    {
        let child = self.open_child.take();
        match child {
            Some(Node::File { path, data }) => {
                let mut data = data;
                data.extend_from_slice(chunk);
                self.open_child = Some(Node::File { path, data });
            },
            _ => {
                proof {
                    assert(false);
                }
            },
        }
    }

    /// Closes the open child, committing it: it becomes the last of the
    /// directory's entries and can no longer change.
    pub fn close_child(&mut self)
        requires
            !old(self).spec_committed(),
            old(self).spec_open_child() is Some,
        ensures
            final(self).spec_name() == old(self).spec_name(),
            final(self).spec_skipped() == old(self).spec_skipped(),
            final(self).spec_committed() == old(self).spec_committed(),
            final(self).spec_open_child() is None,
            final(self).spec_entries() == old(self).spec_entries().push(
                old(self).spec_open_child()->Some_0,
            ),
    {
        let ghost prev = self.entries.deep_view();
        let child = self.open_child.take();
        match child {
            Some(n) => {
                self.entries.push(n);
                proof {
                    assert(self.entries.deep_view() =~~= prev.push(self.entries@.last()@));
                }
            },
            None => {
                proof {
                    assert(false);
                }
            },
        }
    }

    /// Records the path of an entry that was skipped, for diagnostics.
    pub fn record_skipped(&mut self, path: String)
        requires
            !old(self).spec_committed(),
        ensures
            final(self).spec_name() == old(self).spec_name(),
            final(self).spec_entries() == old(self).spec_entries(),
            final(self).spec_open_child() == old(self).spec_open_child(),
            final(self).spec_committed() == old(self).spec_committed(),
            final(self).spec_skipped() == old(self).spec_skipped().push(path@),
    {
        let ghost prev = self.skipped.deep_view();
        self.skipped.push(path);
        proof {
            assert(self.skipped.deep_view() =~~= prev.push(self.skipped@.last()@));
        }
    }

    /// The top-level close: commits the whole directory, making the tree
    /// visible and durable. One-way, and only legal once every child has
    /// been closed.
    pub fn close(&mut self)
        requires
            !old(self).spec_committed(),
            old(self).spec_open_child() is None,
        ensures
            final(self).wf(),
            final(self).spec_name() == old(self).spec_name(),
            final(self).spec_entries() == old(self).spec_entries(),
            final(self).spec_open_child() is None,
            final(self).spec_skipped() == old(self).spec_skipped(),
            final(self).spec_committed(),
            final(self).spec_visible() == Some(old(self).spec_entries()),
    {
        self.committed = true;
    }

    /// The committed children, for reading the materialized tree.
    pub fn entries(&self) -> (r: &Vec<Node>)
        ensures
            r.deep_view() == self.spec_entries(),
    {
        &self.entries
    }

    /// The recorded paths of skipped entries.
    pub fn skipped(&self) -> (r: &Vec<String>)
        ensures
            r.deep_view() == self.spec_skipped(),
    {
        &self.skipped
    }

    /// Whether the top-level close has happened.
    pub fn is_committed(&self) -> (r: bool)
        ensures
            r == self.spec_committed(),
    {
        self.committed
    }

    /// The name the directory was created under.
    pub fn name(&self) -> (r: &String)
        ensures
            r@ == self.spec_name(),
    {
        &self.name
    }
}

} // verus!
