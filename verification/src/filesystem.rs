//! The virtual filesystem: an arena of nodes addressed by integer
//! identity, a path resolver that walks `/`-delimited segments (following
//! symlink chains and honouring per-node accessibility), and the facade
//! operations `cwd`, `cd` and `ls`.
//!
//! Every reference between nodes — a directory's children, a link's
//! target, the current working node — is an identity, never a structural
//! pointer, so back references and arbitrary symlinks cannot form
//! ownership cycles.

use vstd::prelude::*;
use vstd::string::*;

use crate::text::{after_last_slash, lemma_after_last_slash_cut};

verus! {

/// What a node is: a directory holding the identities of its children in
/// declaration order, a file holding its payload, or a symbolic link
/// holding the identity of its target (which may dangle).
#[derive(Debug, Clone)]
pub enum FsEntryType {
    Directory(Vec<u64>),
    File(Vec<u8>),
    Link(u64),
}

/// One node of the filesystem tree.
///
/// `id` is the node's process-unique identity (its index in the arena),
/// `full_path` is the display path cached at construction time, and
/// `accessible == false` blocks entering the node while leaving its name
/// visible in listings.
#[derive(Debug, Clone)]
pub struct FsEntry {
    pub id: u64,
    pub name: String,
    pub full_path: String,
    pub accessible: bool,
    pub ty: FsEntryType,
}

/// Why a path failed to resolve.
#[derive(Clone, Copy, PartialEq, Eq, Structural, Debug)]
pub enum FsError {
    /// A segment names no child of the current directory, or `..` was
    /// taken at the root.
    NoSuchDirectory,
    /// A segment names a file (directly or through a link).
    NotADirectory,
    /// A segment names an inaccessible directory or link, or a link
    /// resolving to an inaccessible directory.
    ForbiddenAccess,
    /// A link chain dangles or revisits itself.
    BrokenLink,
}

impl FsEntry {
    pub open spec fn is_dir(self) -> bool {
        self.ty is Directory
    }

    pub open spec fn is_file(self) -> bool {
        self.ty is File
    }

    pub open spec fn is_link(self) -> bool {
        self.ty is Link
    }

    /// The identities of a directory's children, in declaration order
    /// (empty for files and links).
    pub open spec fn children(self) -> Seq<u64> {
        match self.ty {
            FsEntryType::Directory(kids) => kids@,
            _ => Seq::empty(),
        }
    }

    /// The target identity of a link (meaningful only for links).
    pub open spec fn link_target(self) -> u64 {
        match self.ty {
            FsEntryType::Link(t) => t,
            _ => 0,
        }
    }

    /// A node built from its parts; the caller owns the identity scheme.
    pub fn new(id: u64, name: String, full_path: String, accessible: bool, ty: FsEntryType) -> (e:
        FsEntry)
        ensures
            e.id == id,
            e.name == name,
            e.full_path == full_path,
            e.accessible == accessible,
            e.ty == ty,
    {
        FsEntry { id, name, full_path, accessible, ty }
    }

    /// An accessible directory whose name is derived from its display
    /// path: the segment after the last slash.
    pub fn new_dir(id: u64, full_path: String, children: Vec<u64>) -> (e: FsEntry)
        ensures
            e.id == id,
            e.name@ == after_last_slash(full_path@),
            e.full_path == full_path,
            e.accessible == true,
            e.ty == FsEntryType::Directory(children),
    {
        let len = full_path.as_str().unicode_len();
        let mut j: usize = len;
        while j > 0 && full_path.as_str().get_char(j - 1) != '/'
            invariant
                0 <= j <= len,
                len == full_path@.len(),
                forall|k: int| j <= k < len ==> full_path@[k] != '/',
            decreases j,
        {
            j = j - 1;
        }
        proof {
            lemma_after_last_slash_cut(full_path@, j as int);
        }
        let name = full_path.as_str().substring_char(j, len).to_owned();
        proof {
            assert(full_path@.subrange(j as int, len as int) =~= full_path@.skip(j as int));
        }
        FsEntry { id, name, full_path, accessible: true, ty: FsEntryType::Directory(children) }
    }
}

/// The filesystem: the arena of all nodes plus the identity of the
/// current working node.  The node at index `i` has identity `i`.
#[derive(Debug, Clone)]
pub struct Filesystem {
    pub nodes: Vec<FsEntry>,
    pub cwd: u64,
}

impl Filesystem {
    /// An identity that names a node of the arena.
    pub open spec fn valid_id(self, id: int) -> bool {
        0 <= id < self.nodes@.len()
    }

    /// The node with the given identity.
    pub open spec fn entry(self, id: int) -> FsEntry {
        self.nodes@[id]
    }

    /// `c` is listed among the children of the directory `p`.
    pub open spec fn is_child_of(self, c: int, p: int) -> bool {
        &&& self.valid_id(c)
        &&& self.valid_id(p)
        &&& self.entry(p).is_dir()
        &&& self.entry(p).children().contains(c as u64)
    }

    /// Some directory lists `c` among its children.
    pub open spec fn has_parent(self, c: int) -> bool {
        exists|p: int| self.is_child_of(c, p)
    }

    /// The directory listing `c`; under `wf` it is unique.
    pub open spec fn parent_of(self, c: int) -> int {
        choose|p: int| self.is_child_of(c, p)
    }

    /// Well-formedness of the arena:
    /// - the node at index `i` carries identity `i`;
    /// - children identities are valid and never name the root;
    /// - no node is listed by two directories (one parent at most);
    /// - every node but the root is listed by some directory;
    /// - the root is a directory, and the current working node is a
    ///   valid directory.
    pub open spec fn wf(self) -> bool {
        &&& 1 <= self.nodes@.len()
        &&& forall|i: int|
            0 <= i < self.nodes@.len() ==> (#[trigger] self.nodes@[i]).id == i as u64
        &&& forall|i: int, j: int|
            self.valid_id(i) && 0 <= j < self.entry(i).children().len() ==> 1 <= (
            #[trigger] self.entry(i).children()[j]) < self.nodes@.len()
        &&& forall|p1: int, p2: int, c: int|
            self.is_child_of(c, p1) && self.is_child_of(c, p2) ==> p1 == p2
        &&& forall|c: int| 1 <= c < self.nodes@.len() ==> #[trigger] self.has_parent(c)
        &&& self.entry(0).is_dir()
        &&& self.valid_id(self.cwd as int)
        &&& self.entry(self.cwd as int).is_dir()
    }

    /// The node with a known-valid identity.
    fn node_at(&self, id: u64) -> (r: &FsEntry)
        requires
            self.valid_id(id as int),
        ensures
            *r == self.entry(id as int),
    {
        let n = self.nodes.len();
        proof {
            assert((id as int) < (n as int));
            assert(id as usize as int == id as int);
        }
        &self.nodes[id as usize]
    }

    /// Identity-based lookup: the node with identity `id`, if the arena
    /// holds one.
    pub fn find(&self, id: u64) -> (r: Option<&FsEntry>)
        requires
            self.wf(),
        ensures
            match r {
                Option::Some(e) => self.valid_id(id as int) && *e == self.entry(id as int),
                Option::None => !self.valid_id(id as int),
            },
    {
        if id < self.nodes.len() as u64 {
            Option::Some(self.node_at(id))
        } else {
            Option::None
        }
    }

    /// The display path of the current working node.
    pub open spec fn spec_cwd_path(self) -> Seq<char> {
        self.entry(self.cwd as int).full_path@
    }

    /// The full path of the current working node, as cached at
    /// construction time.
    pub fn cwd(&self) -> (r: String)
        requires
            self.wf(),
        ensures
            r@ == self.spec_cwd_path(),
    {
        self.node_at(self.cwd).full_path.clone()
    }

    /// The current working node itself.
    pub fn get_cwd(&self) -> (r: &FsEntry)
        requires
            self.wf(),
        ensures
            *r == self.entry(self.cwd as int),
            r.is_dir(),
    {
        self.node_at(self.cwd)
    }

    /// The directory listing `node` among its children; the root (and
    /// only the root, under `wf`) has none.
    pub fn get_parent(&self, node: &FsEntry) -> (r: Option<&FsEntry>)
        requires
            self.wf(),
            self.valid_id(node.id as int),
        ensures
            match r {
                Option::Some(p) => self.is_child_of(node.id as int, p.id as int) && *p
                    == self.entry(p.id as int) && self.parent_of(node.id as int) == p.id as int,
                Option::None => !self.has_parent(node.id as int),
            },
    {
        let n = self.nodes.len();
        let mut i: usize = 0;
        while i < n
            invariant
                self.wf(),
                0 <= i <= n,
                n == self.nodes@.len(),
                self.valid_id(node.id as int),
                forall|p: int| 0 <= p < i ==> !self.is_child_of(node.id as int, p),
            decreases n - i,
        {
            match &self.nodes[i].ty {
                FsEntryType::Directory(kids) => {
                    if contains_id(kids, node.id) {
                        proof {
                            assert(self.is_child_of(node.id as int, i as int));
                            assert(self.parent_of(node.id as int) == i as int);
                        }
                        return Option::Some(&self.nodes[i]);
                    }
                },
                _ => {},
            }
            i = i + 1;
        }
        Option::None
    }

    /// Where a link chain starting at `id` leads within the given number
    /// of steps: the first non-link node reached, or nothing when the
    /// chain dangles, cycles, or outruns the budget.
    pub open spec fn link_dest_fueled(self, id: int, fuel: nat) -> Option<int>
        decreases fuel,
    {
        if fuel == 0 {
            Option::None
        } else if !self.valid_id(id) {
            Option::None
        } else if self.entry(id).is_link() {
            self.link_dest_fueled(self.entry(id).link_target() as int, (fuel - 1) as nat)
        } else {
            Option::Some(id)
        }
    }

    /// Where the link chain starting at `id` leads.  The budget of one
    /// step per node suffices for every chain that does not revisit a
    /// node, so a chain that exhausts it must contain a cycle and is
    /// reported broken, exactly like a dangling target.
    pub open spec fn spec_follow(self, id: int) -> Option<int> {
        self.link_dest_fueled(id, self.nodes@.len() as nat)
    }

    fn follow_from(&self, id: u64, fuel: usize) -> (r: Option<u64>)
        requires
            self.wf(),
        ensures
            match r {
                Option::Some(d) => self.link_dest_fueled(id as int, fuel as nat)
                    == Option::Some(d as int) && self.valid_id(d as int) && !self.entry(
                    d as int,
                ).is_link(),
                Option::None => self.link_dest_fueled(id as int, fuel as nat) is None,
            },
        decreases fuel,
    {
        if fuel == 0 {
            Option::None
        } else if id >= self.nodes.len() as u64 {
            Option::None
        } else {
            match &self.node_at(id).ty {
                FsEntryType::Link(t) => self.follow_from(*t, fuel - 1),
                _ => Option::Some(id),
            }
        }
    }

    /// Fully dereference a link chain: from a link node, the non-link
    /// node its chain leads to (`None` when the chain dangles or
    /// cycles); from a non-link node, the node itself.
    pub fn follow_link<'a>(&'a self, link: &'a FsEntry) -> (r: Option<&'a FsEntry>)
        requires
            self.wf(),
            self.valid_id(link.id as int),
            *link == self.entry(link.id as int),
        ensures
            match r {
                Option::Some(e) => self.spec_follow(link.id as int) == Option::Some(e.id as int)
                    && self.valid_id(e.id as int) && *e == self.entry(e.id as int)
                    && !e.is_link(),
                Option::None => self.spec_follow(link.id as int) is None,
            },
    {
        match self.follow_from(link.id, self.nodes.len()) {
            Option::Some(d) => {
                let e = self.node_at(d);
                proof {
                    assert(e.id == d);
                }
                Option::Some(e)
            },
            Option::None => Option::None,
        }
    }
}

impl Filesystem {
    /// The first child in the list (declaration order) whose name is
    /// `name`, scanning only children that exist in the arena.
    pub open spec fn first_named_in(self, kids: Seq<u64>, name: Seq<char>) -> Option<u64>
        decreases kids.len(),
    {
        if kids.len() == 0 {
            Option::None
        } else if self.valid_id(kids[0] as int) && self.entry(kids[0] as int).name@ == name {
            Option::Some(kids[0])
        } else {
            self.first_named_in(kids.skip(1), name)
        }
    }

    /// The first child of directory `cur` named `name`, if any.
    pub open spec fn spec_lookup_child(self, cur: int, name: Seq<char>) -> Option<u64> {
        self.first_named_in(self.entry(cur).children(), name)
    }

    /// What entering the child node `c` yields: a file cannot be entered;
    /// a directory is entered if accessible; a link is followed to its
    /// final target first (dangling or cyclic chains are broken), and the
    /// target is then entered under the same rules.
    pub open spec fn spec_enter(self, c: int) -> Result<int, FsError> {
        let e = self.entry(c);
        if e.is_file() {
            Result::Err(FsError::NotADirectory)
        } else if e.is_dir() {
            if !e.accessible {
                Result::Err(FsError::ForbiddenAccess)
            } else {
                Result::Ok(c)
            }
        } else if !e.accessible {
            Result::Err(FsError::ForbiddenAccess)
        } else {
            match self.spec_follow(c) {
                Option::None => Result::Err(FsError::BrokenLink),
                Option::Some(d) => {
                    let de = self.entry(d);
                    if de.is_file() {
                        Result::Err(FsError::NotADirectory)
                    } else if !de.accessible {
                        Result::Err(FsError::ForbiddenAccess)
                    } else {
                        Result::Ok(d)
                    }
                },
            }
        }
    }

    /// What one path segment does from directory `cur`: `.` stays, `..`
    /// moves to the parent (failing at the root, which has none), and any
    /// other segment enters the first child of that name.
    pub open spec fn spec_step(self, cur: int, seg: Seq<char>) -> Result<int, FsError> {
        if seg == seq!['.'] {
            Result::Ok(cur)
        } else if seg == seq!['.', '.'] {
            if self.has_parent(cur) {
                Result::Ok(self.parent_of(cur))
            } else {
                Result::Err(FsError::NoSuchDirectory)
            }
        } else {
            match self.spec_lookup_child(cur, seg) {
                Option::None => Result::Err(FsError::NoSuchDirectory),
                Option::Some(c) => self.spec_enter(c as int),
            }
        }
    }

    /// Resolution of a segment sequence from directory `cur`, left to
    /// right; empty segments (from consecutive slashes) are skipped.  No
    /// intermediate result is observable: resolution either reaches the
    /// end or reports the first failure.
    pub open spec fn spec_resolve(self, cur: int, segs: Seq<Seq<char>>) -> Result<int, FsError>
        decreases segs.len(),
    {
        if segs.len() == 0 {
            Result::Ok(cur)
        } else if segs[0].len() == 0 {
            self.spec_resolve(cur, segs.skip(1))
        } else {
            match self.spec_step(cur, segs[0]) {
                Result::Ok(n) => self.spec_resolve(n, segs.skip(1)),
                Result::Err(e) => Result::Err(e),
            }
        }
    }

    /// What `cd` does with a raw path: resolve its `/`-delimited segments
    /// against the current working node.  A path with no segments (empty,
    /// or slashes only) names the current node itself.
    pub open spec fn spec_cd(self, path: Seq<char>) -> Result<int, FsError> {
        self.spec_resolve(self.cwd as int, spec_segments(path))
    }

    /// One resolution step from the directory `cur`, with the result
    /// pinned to `spec_step`; a successful step always lands in a
    /// directory.
    fn step_segment(&self, cur: u64, seg: &String) -> (r: Result<u64, FsError>)
        requires
            self.wf(),
            self.valid_id(cur as int),
            self.entry(cur as int).is_dir(),
        ensures
            match r {
                Result::Ok(n) => self.spec_step(cur as int, seg@) == Result::<int, FsError>::Ok(
                    n as int,
                ) && self.valid_id(n as int) && self.entry(n as int).is_dir(),
                Result::Err(e) => self.spec_step(cur as int, seg@) == Result::<int, FsError>::Err(
                    e,
                ),
            },
    {
        let seg_len = seg.as_str().unicode_len();
        if seg_len == 1 && seg.as_str().get_char(0) == '.' {
            proof {
                assert(seg@ =~= seq!['.']);
            }
            return Result::Ok(cur);
        }
        if seg_len == 2 && seg.as_str().get_char(0) == '.' && seg.as_str().get_char(1) == '.' {
            proof {
                assert(seg@ =~= seq!['.', '.']);
            }
            match self.get_parent(self.node_at(cur)) {
                Option::Some(p) => {
                    return Result::Ok(p.id);
                },
                Option::None => {
                    return Result::Err(FsError::NoSuchDirectory);
                },
            }
        }
        proof {
            assert(seg@ != seq!['.']) by {
                if seg@ == seq!['.'] {
                    assert(seg@.len() == 1);
                    assert(seg@[0] == '.');
                }
            }
            assert(seg@ != seq!['.', '.']) by {
                if seg@ == seq!['.', '.'] {
                    assert(seg@.len() == 2);
                    assert(seg@[0] == '.');
                    assert(seg@[1] == '.');
                }
            }
        }
        match &self.node_at(cur).ty {
            FsEntryType::Directory(kids) => {
                proof {
                    assert(kids@ == self.entry(cur as int).children());
                    assert(kids@.skip(0) =~= kids@);
                }
                let mut j: usize = 0;
                while j < kids.len()
                    invariant
                        self.wf(),
                        self.valid_id(cur as int),
                        self.entry(cur as int).is_dir(),
                        seg@ != seq!['.'],
                        seg@ != seq!['.', '.'],
                        kids@ == self.entry(cur as int).children(),
                        0 <= j <= kids@.len(),
                        self.first_named_in(kids@.skip(j as int), seg@) == self.spec_lookup_child(
                            cur as int,
                            seg@,
                        ),
                    decreases kids@.len() - j,
                {
                    let child_id = kids[j];
                    proof {
                        assert(self.entry(cur as int).children()[j as int] == child_id);
                        assert(1 <= child_id < self.nodes@.len());
                        assert(kids@.skip(j as int)[0] == child_id);
                        assert(kids@.skip(j as int).skip(1) =~= kids@.skip(j as int + 1));
                    }
                    let child = self.node_at(child_id);
                    if child.name.eq(seg) {
                        proof {
                            assert(child.name@ == seg@);
                            assert(self.first_named_in(kids@.skip(j as int), seg@)
                                == Option::Some(child_id));
                            assert(self.spec_lookup_child(cur as int, seg@) == Option::Some(
                                child_id,
                            ));
                            assert(self.spec_step(cur as int, seg@) == self.spec_enter(
                                child_id as int,
                            ));
                        }
                        match &child.ty {
                            FsEntryType::File(_) => {
                                return Result::Err(FsError::NotADirectory);
                            },
                            FsEntryType::Directory(_) => {
                                if !child.accessible {
                                    return Result::Err(FsError::ForbiddenAccess);
                                }
                                return Result::Ok(child_id);
                            },
                            FsEntryType::Link(_) => {
                                if !child.accessible {
                                    return Result::Err(FsError::ForbiddenAccess);
                                }
                                match self.follow_link(child) {
                                    Option::None => {
                                        return Result::Err(FsError::BrokenLink);
                                    },
                                    Option::Some(dest) => {
                                        match &dest.ty {
                                            FsEntryType::File(_) => {
                                                return Result::Err(FsError::NotADirectory);
                                            },
                                            FsEntryType::Directory(_) => {
                                                if !dest.accessible {
                                                    return Result::Err(FsError::ForbiddenAccess);
                                                }
                                                proof {
                                                    assert(child.id == child_id);
                                                    assert(self.spec_follow(child_id as int)
                                                        == Option::Some(dest.id as int));
                                                    assert(self.spec_enter(child_id as int)
                                                        == Result::<int, FsError>::Ok(
                                                        dest.id as int,
                                                    ));
                                                }
                                                return Result::Ok(dest.id);
                                            },
                                            FsEntryType::Link(_) => {
                                                proof {
                                                    assert(false);
                                                }
                                                return Result::Err(FsError::BrokenLink);
                                            },
                                        }
                                    },
                                }
                            },
                        }
                    }
                    j = j + 1;
                }
                proof {
                    assert(kids@.skip(kids@.len() as int) =~= Seq::<u64>::empty());
                }
                Result::Err(FsError::NoSuchDirectory)
            },
            _ => {
                proof {
                    assert(false);
                }
                Result::Err(FsError::NoSuchDirectory)
            },
        }
    }

    /// Change the current working node by resolving a `/`-delimited path
    /// against it.  On success the resolved directory becomes current; on
    /// any failure the current working node is left untouched and the
    /// specific error is returned — no partial progress is ever
    /// committed, even when a later segment of the path fails.
    pub fn cd(&mut self, dir: String) -> (r: Result<(), FsError>)
        requires
            old(self).wf(),
        ensures
            final(self).nodes == old(self).nodes,
            final(self).wf(),
            match old(self).spec_cd(dir@) {
                Result::Ok(n) => r == Result::<(), FsError>::Ok(()) && final(self).cwd as int == n,
                Result::Err(e) => r == Result::<(), FsError>::Err(e) && final(self).cwd == old(
                    self,
                ).cwd,
            },
    {
        let segs = crate::text::tokenize(dir.as_str(), '/');
        let ghost segs_v = crate::text::strings_view(segs@);
        proof {
            crate::text::lemma_tokens_nonempty(dir@, '/', Seq::<char>::empty());
            assert(segs_v.skip(0) =~= segs_v);
        }
        let mut cur: u64 = self.cwd;
        let mut k: usize = 0;
        while k < segs.len()
            invariant
                *self == *old(self),
                self.wf(),
                0 <= k <= segs@.len(),
                segs_v == crate::text::strings_view(segs@),
                segs_v == spec_segments(dir@),
                forall|t: int| 0 <= t < segs_v.len() ==> (#[trigger] segs_v[t]).len() > 0,
                self.valid_id(cur as int),
                self.entry(cur as int).is_dir(),
                self.spec_cd(dir@) == self.spec_resolve(cur as int, segs_v.skip(k as int)),
            decreases segs@.len() - k,
        {
            let seg = &segs[k];
            proof {
                assert(segs_v[k as int] == seg@);
                assert(segs_v.skip(k as int)[0] == seg@);
                assert(seg@.len() > 0);
                assert(segs_v.skip(k as int).skip(1) =~= segs_v.skip(k as int + 1));
            }
            match self.step_segment(cur, seg) {
                Result::Ok(n) => {
                    cur = n;
                },
                Result::Err(e) => {
                    return Result::Err(e);
                },
            }
            k = k + 1;
        }
        proof {
            assert(segs_v.skip(segs_v.len() as int) =~= Seq::<Seq<char>>::empty());
        }
        let ghost before = *self;
        self.cwd = cur;
        proof {
            lemma_wf_cwd_change(before, *self);
        }
        Result::Ok(())
    }
}

/// Well-formedness depends only on the arena and on the current working
/// node being a valid directory, so moving `cwd` to such a node keeps it.
proof fn lemma_wf_cwd_change(a: Filesystem, b: Filesystem)
    requires
        a.wf(),
        b.nodes == a.nodes,
        b.valid_id(b.cwd as int),
        b.entry(b.cwd as int).is_dir(),
    ensures
        b.wf(),
{
    assert(b.entry(0) == a.entry(0));
    assert forall|i: int, j: int|
        b.valid_id(i) && 0 <= j < b.entry(i).children().len() implies 1 <= (#[trigger] b.entry(
        i,
    ).children()[j]) < b.nodes@.len() by {
        assert(b.entry(i) == a.entry(i));
        assert(a.entry(i).children()[j] == b.entry(i).children()[j]);
    }
    assert forall|p1: int, p2: int, c: int|
        b.is_child_of(c, p1) && b.is_child_of(c, p2) implies p1 == p2 by {
        assert(b.entry(p1) == a.entry(p1));
        assert(b.entry(p2) == a.entry(p2));
        assert(a.is_child_of(c, p1));
        assert(a.is_child_of(c, p2));
    }
    assert forall|c: int| 1 <= c < b.nodes@.len() implies #[trigger] b.has_parent(c) by {
        assert(a.has_parent(c));
        let p = choose|p: int| a.is_child_of(c, p);
        assert(b.entry(p) == a.entry(p));
        assert(b.is_child_of(c, p));
    }
}

/// The display path of a child of the directory at `parent_path`: a
/// slash-joined concatenation, with the root spelled as a bare slash.
pub open spec fn spec_child_path(parent_path: Seq<char>, name: Seq<char>) -> Seq<char> {
    if parent_path == seq!['/'] {
        seq!['/'] + name
    } else {
        parent_path + seq!['/'] + name
    }
}

impl Filesystem {
    /// The identity the next added node will receive.  Identities are
    /// assigned monotonically from zero and never reused, so this is the
    /// number of nodes allocated so far.
    pub fn next_node_id(&self) -> (id: u64)
        ensures
            id == self.nodes@.len() as u64,
    {
        self.nodes.len() as u64
    }

    /// What every builder guarantees about the arena it grew: one node
    /// appended, the parent's child list extended by its identity, and
    /// everything else untouched.
    pub open spec fn spec_added(self, new: Filesystem, parent: int, id: u64) -> bool {
        &&& id == self.nodes@.len() as u64
        &&& new.nodes@.len() == self.nodes@.len() + 1
        &&& new.cwd == self.cwd
        &&& new.entry(id as int).id == id
        &&& new.entry(id as int).full_path@ == spec_child_path(
            self.entry(parent).full_path@,
            new.entry(id as int).name@,
        )
        &&& new.entry(parent).id == self.entry(parent).id
        &&& new.entry(parent).name == self.entry(parent).name
        &&& new.entry(parent).full_path == self.entry(parent).full_path
        &&& new.entry(parent).accessible == self.entry(parent).accessible
        &&& new.entry(parent).is_dir()
        &&& new.entry(parent).children() == self.entry(parent).children().push(id)
        &&& forall|k: int|
            0 <= k < self.nodes@.len() && k != parent ==> new.entry(k) == #[trigger] self.entry(k)
    }

    /// Append one node under `parent`.  The new node's display path is
    /// its parent's path joined with its name.
    fn add_node(&mut self, parent: u64, name: String, accessible: bool, ty: FsEntryType) -> (id:
        u64)
        requires
            old(self).wf(),
            old(self).valid_id(parent as int),
            old(self).entry(parent as int).is_dir(),
            match ty {
                FsEntryType::Directory(kids) => kids@.len() == 0,
                _ => true,
            },
        ensures
            final(self).wf(),
            old(self).spec_added(*final(self), parent as int, id),
            final(self).entry(id as int).name == name,
            final(self).entry(id as int).accessible == accessible,
            final(self).entry(id as int).ty == ty,
    {
        let ghost a = *self;
        let parent_path = self.node_at(parent).full_path.clone();
        let plen = parent_path.as_str().unicode_len();
        let is_root_path = plen == 1 && parent_path.as_str().get_char(0) == '/';
        proof {
            if is_root_path {
                assert(parent_path@ =~= seq!['/']);
            } else {
                assert(parent_path@ != seq!['/']) by {
                    if parent_path@ == seq!['/'] {
                        assert(parent_path@.len() == 1);
                        assert(parent_path@[0] == '/');
                    }
                }
            }
        }
        let mut full_path: String = if is_root_path {
            String::new()
        } else {
            parent_path
        };
        full_path.append("/");
        proof {
            reveal_strlit("/");
            assert("/"@ =~= seq!['/']);
        }
        full_path.append(name.as_str());
        let id_usize = self.nodes.len();
        let id = id_usize as u64;
        let node = FsEntry { id, name, full_path, accessible, ty };
        self.nodes.push(node);
        proof {
            assert((parent as usize) as int == parent as int);
        }
        match &mut self.nodes[parent as usize].ty {
            FsEntryType::Directory(kids) => {
                kids.push(id);
            },
            _ => {},
        }
        proof {
            let b = *self;
            let p = parent as int;
            let n = a.nodes@.len() as int;
            assert(a.nodes@.len() == id_usize as nat);
            assert(b.entry(p).children() =~= a.entry(p).children().push(id));
            assert forall|k: int| 0 <= k < n && k != p implies b.entry(k) == #[trigger] a.entry(
                k,
            ) by {
                assert(b.nodes@[k] == a.nodes@.push(node).update(p, b.nodes@[p])[k]);
            }
            assert(b.entry(n) == node);
            lemma_wf_after_add(a, b, p, id);
            assert(a.spec_added(b, p, id));
        }
        id
    }

    /// Add an empty directory under `parent` and return its identity.
    pub fn add_dir(&mut self, parent: u64, name: String, accessible: bool) -> (id: u64)
        requires
            old(self).wf(),
            old(self).valid_id(parent as int),
            old(self).entry(parent as int).is_dir(),
        ensures
            final(self).wf(),
            old(self).spec_added(*final(self), parent as int, id),
            final(self).entry(id as int).name == name,
            final(self).entry(id as int).accessible == accessible,
            final(self).entry(id as int).is_dir(),
            final(self).entry(id as int).children() == Seq::<u64>::empty(),
    {
        let kids: Vec<u64> = Vec::new();
        let id = self.add_node(parent, name, accessible, FsEntryType::Directory(kids));
        proof {
            assert(self.entry(id as int).children() =~= Seq::<u64>::empty());
        }
        id
    }

    /// Add a file with the given payload under `parent` and return its
    /// identity.
    pub fn add_file(&mut self, parent: u64, name: String, content: Vec<u8>, accessible: bool) -> (
        id: u64)
        requires
            old(self).wf(),
            old(self).valid_id(parent as int),
            old(self).entry(parent as int).is_dir(),
        ensures
            final(self).wf(),
            old(self).spec_added(*final(self), parent as int, id),
            final(self).entry(id as int).name == name,
            final(self).entry(id as int).accessible == accessible,
            final(self).entry(id as int).ty == FsEntryType::File(content),
    {
        self.add_node(parent, name, accessible, FsEntryType::File(content))
    }

    /// Add a link pointing at `target` under `parent` and return its
    /// identity.  The target need not exist: a dangling link is legal and
    /// resolves as broken.
    pub fn add_link(&mut self, parent: u64, name: String, target: u64, accessible: bool) -> (id:
        u64)
        requires
            old(self).wf(),
            old(self).valid_id(parent as int),
            old(self).entry(parent as int).is_dir(),
        ensures
            final(self).wf(),
            old(self).spec_added(*final(self), parent as int, id),
            final(self).entry(id as int).name == name,
            final(self).entry(id as int).accessible == accessible,
            final(self).entry(id as int).ty == FsEntryType::Link(target),
    {
        self.add_node(parent, name, accessible, FsEntryType::Link(target))
    }
}

/// Growing the arena by one node under a well-formed parent keeps it
/// well-formed: the new identity is fresh, so it can be listed only by
/// its parent, and every old node keeps its unique parent.
proof fn lemma_wf_after_add(a: Filesystem, b: Filesystem, p: int, id: u64)
    requires
        a.wf(),
        a.nodes@.len() <= usize::MAX,
        a.valid_id(p),
        a.entry(p).is_dir(),
        id == a.nodes@.len() as u64,
        b.nodes@.len() == a.nodes@.len() + 1,
        b.cwd == a.cwd,
        b.entry(id as int).id == id,
        match b.entry(id as int).ty {
            FsEntryType::Directory(kids) => kids@.len() == 0,
            _ => true,
        },
        b.entry(p).id == a.entry(p).id,
        b.entry(p).is_dir(),
        b.entry(p).children() == a.entry(p).children().push(id),
        forall|k: int| 0 <= k < a.nodes@.len() && k != p ==> b.entry(k) == #[trigger] a.entry(k),
    ensures
        b.wf(),
{
    let n = a.nodes@.len() as int;
    assert forall|i: int| 0 <= i < b.nodes@.len() implies (#[trigger] b.nodes@[i]).id
        == i as u64 by {
        if i == n {
        } else if i == p {
        } else {
            assert(b.entry(i) == a.entry(i));
        }
    }
    assert forall|i: int, j: int|
        b.valid_id(i) && 0 <= j < b.entry(i).children().len() implies 1 <= (#[trigger] b.entry(
        i,
    ).children()[j]) < b.nodes@.len() by {
        if i == n {
            assert(b.entry(i).children().len() == 0);
        } else if i == p {
            if j < a.entry(p).children().len() {
                assert(b.entry(p).children()[j] == a.entry(p).children()[j]);
            } else {
                assert(b.entry(p).children()[j] == id);
            }
        } else {
            assert(b.entry(i) == a.entry(i));
            assert(a.entry(i).children()[j] == b.entry(i).children()[j]);
        }
    }
    assert forall|pi: int, c: int| b.is_child_of(c, pi) implies (c < n && a.is_child_of(c, pi)) || (
    c == n && pi == p) by {
        assert(b.valid_id(pi) && b.entry(pi).is_dir());
        let kids = b.entry(pi).children();
        let j = choose|j: int| 0 <= j < kids.len() && kids[j] == c as u64;
        assert(kids[j] == c as u64);
        if pi == n {
            assert(kids.len() == 0);
        } else if pi == p {
            if j < a.entry(p).children().len() {
                assert(a.entry(p).children()[j] == c as u64);
                assert(1 <= c as u64 && (c as u64) < (n as u64));
                assert(a.entry(p).children().contains(c as u64));
                assert(a.is_child_of(c, pi));
            } else {
                assert(kids[j] == id);
                assert(c == n);
            }
        } else {
            assert(b.entry(pi) == a.entry(pi));
            assert(a.entry(pi).children()[j] == c as u64);
            assert(1 <= c as u64 && (c as u64) < (n as u64));
            assert(a.entry(pi).children().contains(c as u64));
            assert(a.is_child_of(c, pi));
        }
    }
    assert forall|p1: int, p2: int, c: int|
        b.is_child_of(c, p1) && b.is_child_of(c, p2) implies p1 == p2 by {}
    assert forall|c: int| 1 <= c < b.nodes@.len() implies #[trigger] b.has_parent(c) by {
        if c < n {
            assert(a.has_parent(c));
            let w = choose|w: int| a.is_child_of(c, w);
            if w == p {
                assert(a.entry(p).children().contains(c as u64));
                let j = choose|j: int|
                    0 <= j < a.entry(p).children().len() && a.entry(p).children()[j] == c as u64;
                assert(b.entry(p).children()[j] == c as u64);
                assert(b.entry(p).children().contains(c as u64));
                assert(b.is_child_of(c, p));
            } else {
                assert(b.entry(w) == a.entry(w));
                assert(b.is_child_of(c, w));
            }
        } else {
            let j = a.entry(p).children().len() as int;
            assert(b.entry(p).children()[j] == id);
            assert(b.entry(p).children().contains(c as u64));
            assert(b.is_child_of(c, p));
        }
    }
    assert(b.entry(0).is_dir()) by {
        if p != 0 {
            assert(b.entry(0) == a.entry(0));
        }
    }
    assert(b.entry(b.cwd as int).is_dir()) by {
        if b.cwd as int == p {
        } else {
            assert(b.entry(b.cwd as int) == a.entry(a.cwd as int));
        }
    }
}

impl Filesystem {
    /// The tree a session starts with: `/`, `/home`, `/home/user` and
    /// `/home/user/projects`, all accessible, with `/home/user` current.
    pub open spec fn is_seed_tree(self) -> bool {
        &&& self.nodes@.len() == 4
        &&& self.cwd == 2
        &&& self.entry(0).name@ == "/"@
        &&& self.entry(0).full_path@ == "/"@
        &&& self.entry(0).accessible
        &&& self.entry(0).is_dir()
        &&& self.entry(0).children() == seq![1u64]
        &&& self.entry(1).name@ == "home"@
        &&& self.entry(1).full_path@ == "/home"@
        &&& self.entry(1).accessible
        &&& self.entry(1).is_dir()
        &&& self.entry(1).children() == seq![2u64]
        &&& self.entry(2).name@ == "user"@
        &&& self.entry(2).full_path@ == "/home/user"@
        &&& self.entry(2).accessible
        &&& self.entry(2).is_dir()
        &&& self.entry(2).children() == seq![3u64]
        &&& self.entry(3).name@ == "projects"@
        &&& self.entry(3).full_path@ == "/home/user/projects"@
        &&& self.entry(3).accessible
        &&& self.entry(3).is_dir()
        &&& self.entry(3).children() == Seq::<u64>::empty()
    }

    /// A fresh session filesystem holding the seed tree, with
    /// `/home/user` as the current working node.
    pub fn new() -> (fs: Filesystem)
        ensures
            fs.wf(),
            fs.is_seed_tree(),
    {
        let root_kids: Vec<u64> = Vec::new();
        let root = FsEntry::new(
            0,
            String::from_str("/"),
            String::from_str("/"),
            true,
            FsEntryType::Directory(root_kids),
        );
        let mut nodes: Vec<FsEntry> = Vec::new();
        nodes.push(root);
        let mut fs = Filesystem { nodes, cwd: 0 };
        proof {
            assert(fs.entry(0).children() =~= Seq::<u64>::empty());
            assert forall|p1: int, p2: int, c: int|
                fs.is_child_of(c, p1) && fs.is_child_of(c, p2) implies p1 == p2 by {
                assert(fs.entry(p1).children().len() == 0);
            }
            assert forall|c: int| 1 <= c < fs.nodes@.len() implies #[trigger] fs.has_parent(
                c,
            ) by {}
            assert(fs.wf());
        }
        let home = fs.add_dir(0, String::from_str("home"), true);
        let ghost fs1 = fs;
        let user = fs.add_dir(home, String::from_str("user"), true);
        let ghost fs2 = fs;
        let projects = crate::projects::gen_project_directory(&mut fs, user);
        let ghost fs3 = fs;
        proof {
            reveal_strlit("/");
            reveal_strlit("home");
            reveal_strlit("user");
            reveal_strlit("projects");
            reveal_strlit("/home");
            reveal_strlit("/home/user");
            reveal_strlit("/home/user/projects");
            assert("/"@ =~= seq!['/']);
            assert(home == 1 && user == 2 && projects == 3);
            assert(fs1.entry(0).children() =~= seq![1u64]);
            assert(fs1.entry(1).full_path@ =~= "/home"@);
            assert(fs2.entry(1).children() =~= seq![2u64]);
            assert(fs2.entry(2).full_path@ =~= "/home/user"@);
            assert(fs3.entry(2).children() =~= seq![3u64]);
            assert(fs3.entry(3).full_path@ =~= "/home/user/projects"@);
            assert(fs3.entry(0) == fs2.entry(0));
            assert(fs3.entry(1) == fs2.entry(1));
            assert(fs2.entry(0) == fs1.entry(0));
        }
        let ghost before = fs;
        fs.cwd = user;
        proof {
            lemma_wf_cwd_change(before, fs);
        }
        fs
    }
}

/// The kind tag of one listing row.
#[derive(Clone, Copy, PartialEq, Eq, Structural, Debug)]
pub enum LsResultType {
    File,
    Directory,
    Link,
}

/// One row of a directory listing: a permission-like string (type flag
/// plus accessibility flags), the display name, the payload size (files
/// only), the kind tag, and — for links only — the display path of the
/// fully resolved target (a question mark when the chain is broken).
#[derive(Debug, Clone)]
pub struct LsResult {
    pub permissions: String,
    pub name: String,
    pub size: Option<u64>,
    pub ty: LsResultType,
    pub target: Option<String>,
}

impl LsResult {
    /// The payload size in bytes: files only.
    pub fn size(&self) -> (r: Option<u64>)
        ensures
            r == self.size,
    {
        self.size
    }

    /// The display name of the listed child.
    pub fn name(&self) -> (r: &String)
        ensures
            r == &self.name,
    {
        &self.name
    }

    /// The kind tag of the listed child.
    pub fn ty(&self) -> (r: &LsResultType)
        ensures
            *r == self.ty,
    {
        &self.ty
    }

    /// The permission-like string: type flag plus accessibility flags.
    pub fn permissions(&self) -> (r: &str)
        ensures
            r@ == self.permissions@,
    {
        self.permissions.as_str()
    }

    /// The resolved display target of a link row.
    pub fn target(&self) -> (r: &Option<String>)
        ensures
            r == &self.target,
    {
        &self.target
    }
}

/// The kind tag a node is listed under.
pub open spec fn spec_ls_type(ty: FsEntryType) -> LsResultType {
    match ty {
        FsEntryType::Directory(_) => LsResultType::Directory,
        FsEntryType::File(_) => LsResultType::File,
        FsEntryType::Link(_) => LsResultType::Link,
    }
}

/// The single-character type flag of a listing row.
pub open spec fn spec_type_flag(ty: FsEntryType) -> char {
    match ty {
        FsEntryType::File(_) => '.',
        FsEntryType::Directory(_) => 'd',
        FsEntryType::Link(_) => 'l',
    }
}

/// The accessibility flags of a listing row.
pub open spec fn spec_accessible_flags(accessible: bool) -> Seq<char> {
    if accessible {
        seq!['r', 'w', 'x']
    } else {
        seq!['-', '-', '-']
    }
}

/// The permission-like string of a listing row.
pub open spec fn spec_perms(e: FsEntry) -> Seq<char> {
    seq![spec_type_flag(e.ty)] + spec_accessible_flags(e.accessible)
}

/// The size a node reports in a listing: the payload length for files,
/// nothing for directories and links.
pub open spec fn spec_size(ty: FsEntryType) -> Option<u64> {
    match ty {
        FsEntryType::File(content) => Option::Some(content@.len() as u64),
        _ => Option::None,
    }
}

/// The accessibility flags as a string.
pub fn map_accessible(is_accessible: bool) -> (r: String)
    ensures
        r@ == spec_accessible_flags(is_accessible),
{
    if is_accessible {
        let r = String::from_str("rwx");
        proof {
            reveal_strlit("rwx");
            assert("rwx"@ =~= seq!['r', 'w', 'x']);
        }
        r
    } else {
        let r = String::from_str("---");
        proof {
            reveal_strlit("---");
            assert("---"@ =~= seq!['-', '-', '-']);
        }
        r
    }
}

/// The type flag as a string.
pub fn type_flag(ty: &FsEntryType) -> (r: &'static str)
    ensures
        r@ == seq![spec_type_flag(*ty)],
{
    match ty {
        FsEntryType::File(_) => {
            proof {
                reveal_strlit(".");
                assert("."@ =~= seq!['.']);
            }
            "."
        },
        FsEntryType::Directory(_) => {
            proof {
                reveal_strlit("d");
                assert("d"@ =~= seq!['d']);
            }
            "d"
        },
        FsEntryType::Link(_) => {
            proof {
                reveal_strlit("l");
                assert("l"@ =~= seq!['l']);
            }
            "l"
        },
    }
}

impl Filesystem {
    /// What one listing row must say about the node it lists.
    pub open spec fn spec_ls_row_ok(self, e: FsEntry, r: LsResult) -> bool {
        &&& r.name@ == e.name@
        &&& r.permissions@ == spec_perms(e)
        &&& r.ty == spec_ls_type(e.ty)
        &&& r.size == spec_size(e.ty)
        &&& match e.ty {
            FsEntryType::Link(_) => match self.spec_follow(e.id as int) {
                Option::Some(d) => r.target matches Some(t) && t@ == self.entry(d).full_path@,
                Option::None => r.target matches Some(t) && t@ == seq!['?'],
            },
            _ => r.target is None,
        }
    }

    /// The listing row for one child node.
    fn ls_row(&self, child: &FsEntry) -> (r: LsResult)
        requires
            self.wf(),
            self.valid_id(child.id as int),
            *child == self.entry(child.id as int),
        ensures
            self.spec_ls_row_ok(*child, r),
    {
        let mut permissions = String::from_str(type_flag(&child.ty));
        let flags = map_accessible(child.accessible);
        permissions.append(flags.as_str());
        let name = child.name.clone();
        let size: Option<u64> = match &child.ty {
            FsEntryType::File(content) => Option::Some(content.len() as u64),
            _ => Option::None,
        };
        let ty: LsResultType = match &child.ty {
            FsEntryType::File(_) => LsResultType::File,
            FsEntryType::Directory(_) => LsResultType::Directory,
            FsEntryType::Link(_) => LsResultType::Link,
        };
        let target: Option<String> = match &child.ty {
            FsEntryType::Link(_) => match self.follow_link(child) {
                Option::Some(dest) => Option::Some(dest.full_path.clone()),
                Option::None => {
                    let q = String::from_str("?");
                    proof {
                        reveal_strlit("?");
                        assert("?"@ =~= seq!['?']);
                    }
                    Option::Some(q)
                },
            },
            _ => Option::None,
        };
        LsResult { permissions, name, size, ty, target }
    }

    /// List the immediate children of the current working node, one row
    /// per child, in declaration order (no sorting, non-recursive).
    /// Under well-formedness the current node is always a directory, so
    /// listing always succeeds.
    pub fn ls(&self) -> (r: Result<Vec<LsResult>, FsError>)
        requires
            self.wf(),
        ensures
            match r {
                Result::Ok(rows) => {
                    let kids = self.entry(self.cwd as int).children();
                    &&& rows@.len() == kids.len()
                    &&& forall|k: int|
                        0 <= k < kids.len() ==> self.spec_ls_row_ok(
                            self.entry(kids[k] as int),
                            #[trigger] rows@[k],
                        )
                },
                Result::Err(_) => false,
            },
    {
        let mut rows: Vec<LsResult> = Vec::new();
        match &self.node_at(self.cwd).ty {
            FsEntryType::Directory(kids) => {
                proof {
                    assert(kids@ == self.entry(self.cwd as int).children());
                }
                let mut j: usize = 0;
                while j < kids.len()
                    invariant
                        self.wf(),
                        kids@ == self.entry(self.cwd as int).children(),
                        0 <= j <= kids@.len(),
                        rows@.len() == j,
                        forall|k: int|
                            0 <= k < j ==> self.spec_ls_row_ok(
                                self.entry(kids@[k] as int),
                                #[trigger] rows@[k],
                            ),
                    decreases kids@.len() - j,
                {
                    let child_id = kids[j];
                    proof {
                        assert(self.entry(self.cwd as int).children()[j as int] == child_id);
                        assert(1 <= child_id < self.nodes@.len());
                    }
                    let child = self.node_at(child_id);
                    proof {
                        assert(child.id == child_id);
                    }
                    let row = self.ls_row(child);
                    rows.push(row);
                    j = j + 1;
                }
                Result::Ok(rows)
            },
            _ => {
                proof {
                    assert(false);
                }
                Result::Err(FsError::NoSuchDirectory)
            },
        }
    }
}

/// The `/`-delimited segments of a raw path, empty segments dropped:
/// consecutive, leading and trailing slashes are skipped rather than
/// resolved.
pub open spec fn spec_segments(path: Seq<char>) -> Seq<Seq<char>> {
    crate::text::spec_tokens(path, '/')
}

/// Entering a child directory and then taking `..` returns exactly to the
/// directory it was entered from: under well-formedness a node has one
/// parent, so the step back is unambiguous.
pub proof fn lemma_child_then_parent_inverse(fs: Filesystem, c: int, p: int)
    requires
        fs.wf(),
        fs.is_child_of(c, p),
        fs.entry(c).is_dir(),
    ensures
        fs.spec_step(c, seq!['.', '.']) == Result::<int, FsError>::Ok(p),
{
    assert(fs.has_parent(c));
    let w = fs.parent_of(c);
    assert(fs.is_child_of(c, w));
    assert(seq!['.', '.'] != seq!['.']) by {
        assert(seq!['.', '.'].len() == 2);
        assert(seq!['.'].len() == 1);
    }
}

/// A segment that names an accessible directory child steps exactly into
/// that child: together with the `..` inverse above, walking down by
/// names and back up by `..` returns to the starting directory.
pub proof fn lemma_step_named_child(fs: Filesystem, cur: int, name: Seq<char>, c: u64)
    requires
        fs.wf(),
        fs.valid_id(cur),
        fs.entry(cur).is_dir(),
        name != seq!['.'],
        name != seq!['.', '.'],
        fs.spec_lookup_child(cur, name) == Option::Some(c),
        fs.entry(c as int).is_dir(),
        fs.entry(c as int).accessible,
    ensures
        fs.spec_step(cur, name) == Result::<int, FsError>::Ok(c as int),
{
}

/// A link whose target identity names no node of the arena resolves as
/// broken, whatever the budget: entering it reports `BrokenLink`.
pub proof fn lemma_dangling_link_broken(fs: Filesystem, a: int)
    requires
        fs.wf(),
        fs.valid_id(a),
        fs.entry(a).is_link(),
        fs.entry(a).accessible,
        !fs.valid_id(fs.entry(a).link_target() as int),
    ensures
        fs.spec_follow(a) is None,
        fs.spec_enter(a) == Result::<int, FsError>::Err(FsError::BrokenLink),
{
    let n = fs.nodes@.len() as nat;
    assert(fs.link_dest_fueled(a, n) == fs.link_dest_fueled(
        fs.entry(a).link_target() as int,
        (n - 1) as nat,
    ));
}

/// A link → link → directory chain resolves transparently to the final
/// directory, with no intermediate node observable.
pub proof fn lemma_link_chain_resolves(fs: Filesystem, a: int, b: int, c: int)
    requires
        fs.wf(),
        fs.nodes@.len() <= usize::MAX,
        fs.valid_id(a),
        fs.valid_id(b),
        fs.valid_id(c),
        a != b,
        fs.entry(a).is_link(),
        fs.entry(a).link_target() == b as u64,
        fs.entry(b).is_link(),
        fs.entry(b).link_target() == c as u64,
        !fs.entry(c).is_link(),
    ensures
        fs.spec_follow(a) == Option::Some(c),
{
    assert(c != a && c != b);
    assert(fs.nodes@.len() >= 3);
    let n = fs.nodes@.len() as nat;
    assert((b as u64) as int == b);
    assert((c as u64) as int == c);
    assert(fs.link_dest_fueled(a, n) == fs.link_dest_fueled(b, (n - 1) as nat));
    assert(fs.link_dest_fueled(b, (n - 1) as nat) == fs.link_dest_fueled(c, (n - 2) as nat));
    assert(fs.link_dest_fueled(c, (n - 2) as nat) == Option::Some(c));
}

/// Whether a child list holds the given identity.
fn contains_id(kids: &Vec<u64>, id: u64) -> (b: bool)
    ensures
        b == kids@.contains(id),
{
    let mut j: usize = 0;
    while j < kids.len()
        invariant
            0 <= j <= kids@.len(),
            forall|k: int| 0 <= k < j ==> kids@[k] != id,
        decreases kids@.len() - j,
    {
        if kids[j] == id {
            return true;
        }
        j = j + 1;
    }
    false
}

} // verus!
