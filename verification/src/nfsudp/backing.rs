//! The backing store: one exported directory, plus a stable `fileid` to
//! relative-path map so the guest's opaque file handles resolve back to host
//! paths, and the synthetic ("faked") unix attributes.
//!
//! Host file I/O is not done here. Each operation that touches the host takes
//! the host's answer (did the object exist, did the create/remove/rename
//! succeed) as an argument and applies the map update that follows from it;
//! [`NfsBacking::child_path`] names the host path the caller must act on.

use std::collections::HashMap;
use vstd::prelude::*;

use super::paths::{
    abs_bytes, all_valid, is_valid_component, join, law_abs_within_root, normals,
    path_components, path_starts_with, rel_path, seqs_view, valid_component, Component,
};
use super::table::{path_clone, PathTable};

verus! {

broadcast use vstd::std_specs::hash::group_hash_axioms;

/// The reserved NFS `fileid` of the export root.
pub const ROOT_ID: u64 = 1;

/// POSIX `S_IF*` type bits, for the `mode` field.
pub const S_IFDIR: u32 = 0o040000;

pub const S_IFREG: u32 = 0o100000;

pub const S_IFLNK: u32 = 0o120000;

/// File kind, mapped to NFS `ftype3` (and the v2 equivalent) by the wire layer.
#[derive(Debug, Clone, Copy, PartialEq, Eq)]
pub enum FileKind {
    Reg,
    Dir,
    Lnk,
    Other,
}

/// Synthetic POSIX attributes for one object. "Faked" deliberately: uid/gid are
/// fixed and the mode is a heuristic, so the export behaves identically on
/// Linux, macOS, and Windows (which has no unix uid/gid/mode at all).
#[derive(Debug, Clone, Copy, PartialEq, Eq)]
pub struct Attr {
    pub kind: FileKind,
    /// Full mode incl. type bits (e.g. `0o040755` for a dir); the type bits
    /// come from `kind`.
    pub mode: u32,
    pub nlink: u32,
    pub uid: u32,
    pub gid: u32,
    pub size: u64,
    pub fileid: u64,
    /// (seconds, nanoseconds) since the unix epoch.
    pub atime: (u32, u32),
    pub mtime: (u32, u32),
    pub ctime: (u32, u32),
}

/// What the host reports about one object (without following symlinks).
#[derive(Debug, Clone, Copy, PartialEq, Eq)]
pub struct HostMeta {
    pub is_dir: bool,
    pub is_symlink: bool,
    pub is_file: bool,
    /// The unix permission word, where the host has one.
    pub unix_mode: Option<u32>,
    pub len: u64,
    /// Access time as (seconds, nanoseconds) since the epoch; `None` if
    /// unavailable or before the epoch.
    pub accessed: Option<(u64, u32)>,
    /// Modification time, likewise.
    pub modified: Option<(u64, u32)>,
}

/// Permission bits for a regular file: 0644, plus the execute bits if the host
/// marks it executable (hosts without unix modes always give 0644).
pub open spec fn spec_file_perm(md: HostMeta) -> u32 {
    match md.unix_mode {
        Some(m) => if m & 0o111u32 != 0 {
            0o755u32
        } else {
            0o644u32
        },
        None => 0o644u32,
    }
}

pub fn file_perm(md: &HostMeta) -> (r: u32)
    ensures
        r == spec_file_perm(*md),
{
    match md.unix_mode {
        Some(m) => if m & 0o111u32 != 0 {
            0o755
        } else {
            0o644
        },
        None => 0o644,
    }
}

/// (secs, nsecs) since the unix epoch, the seconds cut to 32 bits; (0, 0) when
/// the time is unavailable or before the epoch.
pub open spec fn spec_systime(t: Option<(u64, u32)>) -> (u32, u32) {
    match t {
        Some((s, n)) => (s as u32, n),
        None => (0, 0),
    }
}

pub fn systime(t: Option<(u64, u32)>) -> (r: (u32, u32))
    ensures
        r == spec_systime(t),
{
    match t {
        Some((s, n)) => (s as u32, n),
        None => (0, 0),
    }
}

/// The synthetic attributes of object `id` with host metadata `md`.
pub open spec fn spec_attr(id: u64, uid: u32, gid: u32, md: HostMeta) -> Attr {
    let (kind, type_bits, base) = if md.is_dir {
        (FileKind::Dir, S_IFDIR, 0o755u32)
    } else if md.is_symlink {
        (FileKind::Lnk, S_IFLNK, 0o777u32)
    } else if md.is_file {
        (FileKind::Reg, S_IFREG, spec_file_perm(md))
    } else {
        (FileKind::Other, S_IFREG, 0o644u32)
    };
    Attr {
        kind,
        mode: type_bits | base,
        nlink: if md.is_dir {
            2
        } else {
            1
        },
        uid,
        gid,
        size: md.len,
        fileid: id,
        atime: spec_systime(md.accessed),
        mtime: spec_systime(md.modified),
        ctime: spec_systime(md.modified),
    }
}

/// Whether a read of `got` bytes at `offset` reached the end of a file of
/// `len` bytes.
pub fn read_reached_eof(offset: u64, got: u64, len: u64) -> (eof: bool)
    ensures
        eof == (if offset + got > u64::MAX {
            u64::MAX as int
        } else {
            offset + got
        } >= len),
{
    offset.saturating_add(got) >= len
}

/// The abstract state of the backing store.
pub struct BackingView {
    pub root: Seq<u8>,
    pub next_id: u64,
    /// fileid → path relative to `root` (the root itself is the empty path).
    pub paths: Map<u64, Seq<Seq<u8>>>,
    /// path → fileid, so re-looking-up a path returns its existing id.
    pub ids: Map<Seq<Seq<u8>>, u64>,
    pub uid: u32,
    pub gid: u32,
}

impl BackingView {
    /// The store's invariant: the root is id 1 at the empty path, every path
    /// entry points at an id that maps back to it, ids are below `next_id`,
    /// and every known path is made of valid components.
    pub open spec fn inv(self) -> bool {
        &&& self.paths.contains_key(ROOT_ID)
        &&& self.paths[ROOT_ID] == Seq::<Seq<u8>>::empty()
        &&& self.ids.contains_key(Seq::<Seq<u8>>::empty())
        &&& self.ids[Seq::<Seq<u8>>::empty()] == ROOT_ID
        &&& forall|p: Seq<Seq<u8>>| #[trigger]
            self.ids.contains_key(p) ==> self.paths.contains_key(self.ids[p]) && self.paths[self.ids[p]]
                == p
        &&& forall|id: u64| #[trigger]
            self.paths.contains_key(id) ==> ROOT_ID <= id < self.next_id && all_valid(
                self.paths[id],
            )
    }
}

/// The root-relative path of entry `name` in directory `dirid`, if `name` is a
/// valid component and `dirid` is known.
pub open spec fn child(v: BackingView, dirid: u64, name: Seq<u8>) -> Option<Seq<Seq<u8>>> {
    if is_valid_component(name) && v.paths.contains_key(dirid) {
        Some(v.paths[dirid].push(name))
    } else {
        None
    }
}

/// Interning `rel`: its existing id, or the next fresh one.
pub open spec fn interned(v: BackingView, rel: Seq<Seq<u8>>) -> (BackingView, u64) {
    if v.ids.contains_key(rel) {
        (v, v.ids[rel])
    } else {
        (
            BackingView {
                next_id: (v.next_id + 1) as u64,
                paths: v.paths.insert(v.next_id, rel),
                ids: v.ids.insert(rel, v.next_id),
                ..v
            },
            v.next_id,
        )
    }
}

/// The outcome of adding (looking up, creating) entry `name` in `dirid`, given
/// whether the host object is there.
pub open spec fn added_child(v: BackingView, dirid: u64, name: Seq<u8>, ok: bool) -> (
    BackingView,
    Option<u64>,
) {
    match child(v, dirid, name) {
        Some(rel) => if ok {
            (interned(v, rel).0, Some(interned(v, rel).1))
        } else {
            (v, None)
        },
        None => (v, None),
    }
}

/// Whether adding entry `name` to `dirid`, with host answer `ok`, hands out a
/// new fileid: the host has the object and its path has no id yet.
pub open spec fn needs_fresh_id(v: BackingView, dirid: u64, name: Seq<u8>, ok: bool) -> bool {
    ok && match child(v, dirid, name) {
        Some(rel) => !v.ids.contains_key(rel),
        None => false,
    }
}

/// The outcome of removing entry `name` from `dirid`, given whether the host
/// removal succeeded: the entry's id, if it had one, is forgotten.
pub open spec fn removed_child(v: BackingView, dirid: u64, name: Seq<u8>, ok: bool) -> (
    BackingView,
    bool,
) {
    match child(v, dirid, name) {
        Some(rel) => if !ok {
            (v, false)
        } else if v.ids.contains_key(rel) {
            (BackingView { ids: v.ids.remove(rel), paths: v.paths.remove(v.ids[rel]), ..v }, true)
        } else {
            (v, true)
        },
        None => (v, false),
    }
}

/// The outcome of renaming `from_name` in `from_dir` to `to_name` in `to_dir`,
/// given whether the host rename succeeded: the moved id is re-pointed at its
/// new path so its handle stays valid.
pub open spec fn renamed_child(
    v: BackingView,
    from_dir: u64,
    from_name: Seq<u8>,
    to_dir: u64,
    to_name: Seq<u8>,
    ok: bool,
) -> (BackingView, bool) {
    match (child(v, from_dir, from_name), child(v, to_dir, to_name)) {
        (Some(f), Some(t)) => if !ok {
            (v, false)
        } else if v.ids.contains_key(f) {
            (
                BackingView {
                    ids: v.ids.remove(f).insert(t, v.ids[f]),
                    paths: v.paths.insert(v.ids[f], t),
                    ..v
                },
                true,
            )
        } else {
            (v, true)
        },
        _ => (v, false),
    }
}

/// Listing `names` (the host's entries of directory path `dir`, in order):
/// entries that are valid components are interned and reported with their id.
pub open spec fn listed(v: BackingView, dir: Seq<Seq<u8>>, names: Seq<Seq<u8>>) -> (
    BackingView,
    Seq<(Seq<u8>, u64)>,
)
    decreases names.len(),
{
    if names.len() == 0 {
        (v, Seq::empty())
    } else {
        let (v1, out1) = listed(v, dir, names.drop_last());
        let n = names.last();
        if is_valid_component(n) {
            (interned(v1, dir.push(n)).0, out1.push((n, interned(v1, dir.push(n)).1)))
        } else {
            (v1, out1)
        }
    }
}

/// The backing store: one exported directory, plus a stable `fileid` to path
/// map. Used only from the NAT thread, so plain `&mut self` (no locking).
pub struct NfsBacking {
    /// The exported folder (host path bytes). All access is contained within it.
    root: Vec<u8>,
    next_id: u64,
    id_to_path: HashMap<u64, Vec<Vec<u8>>>,
    path_to_id: PathTable,
    /// Default owner for faked attributes.
    uid: u32,
    gid: u32,
}

impl View for NfsBacking {
    type V = BackingView;

    closed spec fn view(&self) -> BackingView {
        BackingView {
            root: self.root@,
            next_id: self.next_id,
            paths: self.id_to_path@.map_values(|v: Vec<Vec<u8>>| seqs_view(v@)),
            ids: self.path_to_id@,
            uid: self.uid,
            gid: self.gid,
        }
    }
}

impl NfsBacking {
    pub closed spec fn wf(&self) -> bool {
        &&& self.path_to_id.wf()
        &&& self@.inv()
    }

    /// A well-formed store's view satisfies the store invariant, so the laws
    /// stated over [`BackingView`] apply to it.
    pub proof fn lemma_wf_inv(&self)
        requires
            self.wf(),
        ensures
            self@.inv(),
    {
    }

    /// Create a backing store over `root` (host path bytes). `root` should be
    /// an existing, absolute directory; access is confined to it.
    pub fn new(root: Vec<u8>) -> (b: Self)
        ensures
            b.wf(),
            b@ == (BackingView {
                root: root@,
                next_id: 2,
                paths: map![ROOT_ID => Seq::<Seq<u8>>::empty()],
                ids: map![Seq::<Seq<u8>>::empty() => ROOT_ID],
                uid: 0,
                gid: 0,
            }),
    {
        let mut id_to_path: HashMap<u64, Vec<Vec<u8>>> = HashMap::new();
        let mut path_to_id = PathTable::new();
        id_to_path.insert(ROOT_ID, Vec::new());
        path_to_id.insert(Vec::new(), ROOT_ID);
        let b = NfsBacking { root, next_id: ROOT_ID + 1, id_to_path, path_to_id, uid: 0, gid: 0 };
        assert(seqs_view(Seq::<Vec<u8>>::empty()) =~= Seq::<Seq<u8>>::empty());
        assert(b@.paths =~= map![ROOT_ID => Seq::<Seq<u8>>::empty()]);
        assert(b@.ids =~= map![Seq::<Seq<u8>>::empty() => ROOT_ID]);
        b
    }

    /// The fileid the next new path will get. An operation that hands out a
    /// new id needs it below `u64::MAX`.
    pub fn next_id(&self) -> (n: u64)
        ensures
            n == self@.next_id,
    {
        self.next_id
    }

    /// Intern a root-relative path, returning a stable fileid for it.
    pub fn intern(&mut self, rel: Vec<Vec<u8>>) -> (id: u64)
        requires
            old(self).wf(),
            all_valid(seqs_view(rel@)),
            old(self)@.next_id < u64::MAX || old(self)@.ids.contains_key(seqs_view(rel@)),
        ensures
            final(self).wf(),
            (final(self)@, id) == interned(old(self)@, seqs_view(rel@)),
            old(self)@.ids.contains_key(seqs_view(rel@)) ==> id == old(self)@.ids[seqs_view(rel@)]
                && final(self)@ == old(self)@,
            !old(self)@.ids.contains_key(seqs_view(rel@)) ==> {
                &&& id == old(self)@.next_id
                &&& forall|k: u64| #[trigger] old(self)@.paths.contains_key(k) ==> k < id
                &&& final(self)@.next_id == id + 1
                &&& final(self)@.paths[id] == seqs_view(rel@)
                &&& final(self)@.ids[seqs_view(rel@)] == id
            },
    {
        let ghost v = self@;
        let ghost r = seqs_view(rel@);
        match self.path_to_id.get(&rel) {
            Some(id) => {
                return id;
            },
            None => {},
        }
        let id = self.next_id;
        self.next_id = self.next_id + 1;
        let copy = path_clone(&rel);
        self.id_to_path.insert(id, copy);
        self.path_to_id.insert(rel, id);
        assert(self@.paths =~= v.paths.insert(id, r));
        assert(self@.ids =~= v.ids.insert(r, id));
        proof {
            assert(!v.paths.contains_key(id));
            let w = self@;
            assert forall|p: Seq<Seq<u8>>| #[trigger]
                w.ids.contains_key(p) implies w.paths.contains_key(w.ids[p]) && w.paths[w.ids[p]]
                == p by {
                if p != r {
                    assert(v.ids.contains_key(p));
                    assert(v.paths.contains_key(v.ids[p]));
                }
            }
            assert forall|i: u64| #[trigger]
                w.paths.contains_key(i) implies ROOT_ID <= i < w.next_id && all_valid(
                w.paths[i],
            ) by {
                if i != id {
                    assert(v.paths.contains_key(i));
                }
            }
        }
        id
    }

    /// The root-relative path for a fileid, if known.
    pub fn rel_of(&self, id: u64) -> (r: Option<&Vec<Vec<u8>>>)
        requires
            self.wf(),
        ensures
            match r {
                Some(p) => self@.paths.contains_key(id) && seqs_view(p@) == self@.paths[id],
                None => !self@.paths.contains_key(id),
            },
    {
        self.id_to_path.get(&id)
    }

    /// The absolute host path for a fileid. Always within the root, because
    /// the relative paths only ever contain validated, normal components.
    pub fn abs_of(&self, id: u64) -> (r: Option<Vec<u8>>)
        requires
            self.wf(),
        ensures
            r is Some <==> self@.paths.contains_key(id),
            r matches Some(p) ==> p@ == abs_bytes(self@.root, self@.paths[id]) && path_starts_with(
                self@.root,
                p@,
            ),
    {
        match self.rel_of(id) {
            Some(rel) => {
                let r = rel_path(rel);
                let p = join(self.root.as_slice(), r.as_slice());
                proof {
                    law_abs_within_root(self@.root, self@.paths[id]);
                }
                Some(p)
            },
            None => None,
        }
    }

    /// The root-relative path of entry `name` in directory `dirid`.
    fn child_rel(&self, dirid: u64, name: &[u8]) -> (r: Option<Vec<Vec<u8>>>)
        requires
            self.wf(),
        ensures
            match r {
                Some(p) => child(self@, dirid, name@) == Some(seqs_view(p@)),
                None => child(self@, dirid, name@) is None,
            },
    {
        let comp = match valid_component(name) {
            Some(c) => c,
            None => return None,
        };
        let parent = match self.rel_of(dirid) {
            Some(p) => p,
            None => return None,
        };
        let mut rel = path_clone(parent);
        let ghost before = rel@;
        rel.push(comp);
        assert(seqs_view(rel@) =~= seqs_view(before).push(name@));
        Some(rel)
    }

    /// The host path of entry `name` in directory `dirid`: where the host
    /// operation for a lookup, create, mkdir, remove or rename must act.
    pub fn child_path(&self, dirid: u64, name: &[u8]) -> (r: Option<Vec<u8>>)
        requires
            self.wf(),
        ensures
            match child(self@, dirid, name@) {
                Some(rel) => r matches Some(p) && p@ == abs_bytes(self@.root, rel)
                    && path_starts_with(self@.root, p@),
                None => r is None,
            },
    {
        match self.child_rel(dirid, name) {
            Some(rel) => {
                let r = rel_path(&rel);
                let p = join(self.root.as_slice(), r.as_slice());
                proof {
                    let cr = seqs_view(rel@);
                    assert(all_valid(cr)) by {
                        let parent = self@.paths[dirid];
                        assert(all_valid(parent));
                        assert forall|i: int| 0 <= i < cr.len() implies is_valid_component(
                            #[trigger] cr[i],
                        ) by {
                            if i < parent.len() {
                                assert(cr[i] == parent[i]);
                            }
                        }
                    }
                    law_abs_within_root(self@.root, cr);
                }
                Some(p)
            },
            None => None,
        }
    }

    fn add_child(&mut self, dirid: u64, name: &[u8], ok: bool) -> (r: Option<u64>)
        requires
            old(self).wf(),
            old(self)@.next_id < u64::MAX || !needs_fresh_id(old(self)@, dirid, name@, ok),
        ensures
            final(self).wf(),
            (final(self)@, r) == added_child(old(self)@, dirid, name@, ok),
    {
        let rel = match self.child_rel(dirid, name) {
            Some(rel) => rel,
            None => return None,
        };
        if !ok {
            return None;
        }
        proof {
            let cr = seqs_view(rel@);
            let parent = self@.paths[dirid];
            assert(all_valid(parent));
            assert forall|i: int| 0 <= i < cr.len() implies is_valid_component(#[trigger] cr[i]) by {
                if i < parent.len() {
                    assert(cr[i] == parent[i]);
                }
            }
        }
        Some(self.intern(rel))
    }

    /// Resolve `name` within directory `dirid`, interning the child and
    /// returning its fileid. `exists` is whether the host has an object at
    /// [`child_path`](Self::child_path). Rejects names that could escape the
    /// export.
    pub fn lookup(&mut self, dirid: u64, name: &[u8], exists: bool) -> (r: Option<u64>)
        requires
            old(self).wf(),
            old(self)@.next_id < u64::MAX || !needs_fresh_id(old(self)@, dirid, name@, exists),
        ensures
            final(self).wf(),
            (final(self)@, r) == added_child(old(self)@, dirid, name@, exists),
    {
        self.add_child(dirid, name, exists)
    }

    /// After creating an empty regular file `name` in `dirid` (`created` is
    /// whether the host create succeeded), its fileid.
    pub fn create(&mut self, dirid: u64, name: &[u8], created: bool) -> (r: Option<u64>)
        requires
            old(self).wf(),
            old(self)@.next_id < u64::MAX || !needs_fresh_id(old(self)@, dirid, name@, created),
        ensures
            final(self).wf(),
            (final(self)@, r) == added_child(old(self)@, dirid, name@, created),
    {
        self.add_child(dirid, name, created)
    }

    /// After creating directory `name` in `dirid` (`created` is whether the
    /// host mkdir succeeded), its fileid.
    pub fn mkdir(&mut self, dirid: u64, name: &[u8], created: bool) -> (r: Option<u64>)
        requires
            old(self).wf(),
            old(self)@.next_id < u64::MAX || !needs_fresh_id(old(self)@, dirid, name@, created),
        ensures
            final(self).wf(),
            (final(self)@, r) == added_child(old(self)@, dirid, name@, created),
    {
        self.add_child(dirid, name, created)
    }

    fn remove_with(&mut self, dirid: u64, name: &[u8], removed: bool) -> (r: bool)
        requires
            old(self).wf(),
        ensures
            final(self).wf(),
            (final(self)@, r) == removed_child(old(self)@, dirid, name@, removed),
    {
        let ghost v = self@;
        let rel = match self.child_rel(dirid, name) {
            Some(rel) => rel,
            None => return false,
        };
        if !removed {
            return false;
        }
        let ghost cr = seqs_view(rel@);
        match self.path_to_id.remove(&rel) {
            Some(id) => {
                self.id_to_path.remove(&id);
                proof {
                    let w = self@;
                    assert(w.paths =~= v.paths.remove(id));
                    assert(w.ids =~= v.ids.remove(cr));
                    assert(cr.len() > 0);
                    assert(cr != Seq::<Seq<u8>>::empty());
                    assert(id != ROOT_ID);
                    assert forall|p: Seq<Seq<u8>>| #[trigger]
                        w.ids.contains_key(p) implies w.paths.contains_key(w.ids[p])
                        && w.paths[w.ids[p]] == p by {
                        assert(v.ids.contains_key(p));
                        assert(v.paths[v.ids[p]] == p);
                        assert(v.ids[p] != id);
                    }
                    assert forall|i: u64| #[trigger]
                        w.paths.contains_key(i) implies ROOT_ID <= i < w.next_id && all_valid(
                        w.paths[i],
                    ) by {
                        assert(v.paths.contains_key(i));
                    }
                }
            },
            None => {
                assert(self@.ids =~= v.ids);
                assert(self@.paths =~= v.paths);
            },
        }
        true
    }

    /// After removing file `name` from `dirid` (`removed` is whether the host
    /// removal succeeded): the result, with the entry's id forgotten.
    pub fn remove(&mut self, dirid: u64, name: &[u8], removed: bool) -> (r: bool)
        requires
            old(self).wf(),
        ensures
            final(self).wf(),
            (final(self)@, r) == removed_child(old(self)@, dirid, name@, removed),
    {
        self.remove_with(dirid, name, removed)
    }

    /// After removing directory `name` from `dirid`, likewise.
    pub fn rmdir(&mut self, dirid: u64, name: &[u8], removed: bool) -> (r: bool)
        requires
            old(self).wf(),
        ensures
            final(self).wf(),
            (final(self)@, r) == removed_child(old(self)@, dirid, name@, removed),
    {
        self.remove_with(dirid, name, removed)
    }

    /// After renaming `from_name` in `from_dir` to `to_name` in `to_dir`
    /// (`renamed` is whether the host rename succeeded): the result, with the
    /// moved id re-pointed at its new path.
    pub fn rename(
        &mut self,
        from_dir: u64,
        from_name: &[u8],
        to_dir: u64,
        to_name: &[u8],
        renamed: bool,
    ) -> (r: bool)
        requires
            old(self).wf(),
        ensures
            final(self).wf(),
            (final(self)@, r) == renamed_child(
                old(self)@,
                from_dir,
                from_name@,
                to_dir,
                to_name@,
                renamed,
            ),
    {
        let ghost v = self@;
        let from_rel = match self.child_rel(from_dir, from_name) {
            Some(p) => p,
            None => return false,
        };
        let to_rel = match self.child_rel(to_dir, to_name) {
            Some(p) => p,
            None => return false,
        };
        if !renamed {
            return false;
        }
        let ghost f = seqs_view(from_rel@);
        let ghost t = seqs_view(to_rel@);
        proof {
            let parent = v.paths[to_dir];
            assert(all_valid(parent));
            assert forall|i: int| 0 <= i < t.len() implies is_valid_component(#[trigger] t[i]) by {
                if i < parent.len() {
                    assert(t[i] == parent[i]);
                }
            }
        }
        match self.path_to_id.remove(&from_rel) {
            Some(id) => {
                let copy = path_clone(&to_rel);
                self.id_to_path.insert(id, copy);
                self.path_to_id.insert(to_rel, id);
                proof {
                    let w = self@;
                    assert(w.paths =~= v.paths.insert(id, t));
                    assert(w.ids =~= v.ids.remove(f).insert(t, id));
                    assert(f.len() > 0 && t.len() > 0);
                    assert(f != Seq::<Seq<u8>>::empty());
                    assert(t != Seq::<Seq<u8>>::empty());
                    assert(id != ROOT_ID);
                    assert forall|p: Seq<Seq<u8>>| #[trigger]
                        w.ids.contains_key(p) implies w.paths.contains_key(w.ids[p])
                        && w.paths[w.ids[p]] == p by {
                        if p != t {
                            assert(v.ids.contains_key(p));
                            assert(p != f);
                            assert(v.paths[v.ids[p]] == p);
                            assert(v.ids[p] != id);
                        }
                    }
                    assert forall|i: u64| #[trigger]
                        w.paths.contains_key(i) implies ROOT_ID <= i < w.next_id && all_valid(
                        w.paths[i],
                    ) by {
                        assert(v.paths.contains_key(i));
                    }
                }
            },
            None => {
                assert(self@.ids =~= v.ids);
                assert(self@.paths =~= v.paths);
            },
        }
        true
    }

    /// After listing directory `dirid` on the host (`names` are its entries,
    /// in the order the host gave them): `(name, fileid)` for each entry that
    /// is a valid component, each interned. `None` if `dirid` is unknown.
    /// `.` / `..` are not included (the wire layer synthesizes them if a
    /// client needs them).
    pub fn readdir(&mut self, dirid: u64, names: &Vec<Vec<u8>>) -> (r: Option<
        Vec<(Vec<u8>, u64)>,
    >)
        requires
            old(self).wf(),
            old(self)@.next_id + names@.len() < u64::MAX,
        ensures
            final(self).wf(),
            match r {
                Some(out) => old(self)@.paths.contains_key(dirid) && ({
                    let (v2, entries) = listed(
                        old(self)@,
                        old(self)@.paths[dirid],
                        seqs_view(names@),
                    );
                    final(self)@ == v2 && entries_of(out@) == entries
                }),
                None => !old(self)@.paths.contains_key(dirid) && final(self)@ == old(self)@,
            },
    {
        let dir_rel = match self.rel_of(dirid) {
            Some(p) => path_clone(p),
            None => return None,
        };
        let ghost v0 = self@;
        let ghost d = seqs_view(dir_rel@);
        let ghost ns = seqs_view(names@);
        let mut out: Vec<(Vec<u8>, u64)> = Vec::new();
        let mut i: usize = 0;
        proof {
            assert(ns.subrange(0, 0) =~= Seq::<Seq<u8>>::empty());
            assert(entries_of(out@) =~= Seq::<(Seq<u8>, u64)>::empty());
        }
        while i < names.len()
            invariant
                i <= names@.len(),
                self.wf(),
                ns == seqs_view(names@),
                d == v0.paths[dirid],
                v0.inv(),
                v0.paths.contains_key(dirid),
                seqs_view(dir_rel@) == d,
                (self@, entries_of(out@)) == listed(v0, d, ns.subrange(0, i as int)),
                self@.next_id <= v0.next_id + i,
                v0.next_id + names@.len() < u64::MAX,
            decreases names@.len() - i,
        {
            let ghost before = self@;
            let ghost out_before = entries_of(out@);
            proof {
                assert(ns.subrange(0, i + 1).drop_last() =~= ns.subrange(0, i as int));
                assert(ns.subrange(0, i + 1).last() == names@[i as int]@);
                lemma_listed_next_id(v0, d, ns.subrange(0, i as int));
            }
            let name = &names[i];
            match valid_component(name.as_slice()) {
                Some(comp) => {
                    let mut rel = path_clone(&dir_rel);
                    let ghost rb = rel@;
                    rel.push(comp);
                    proof {
                        assert(seqs_view(rel@) =~= d.push(names@[i as int]@));
                        assert(all_valid(d));
                        let cr = seqs_view(rel@);
                        assert forall|k: int| 0 <= k < cr.len() implies is_valid_component(
                            #[trigger] cr[k],
                        ) by {
                            if k < d.len() {
                                assert(cr[k] == d[k]);
                            }
                        }
                    }
                    let id = self.intern(rel);
                    let mut nm: Vec<u8> = Vec::new();
                    let mut j: usize = 0;
                    while j < name.len()
                        invariant
                            j <= name@.len(),
                            nm@ =~= name@.subrange(0, j as int),
                        decreases name@.len() - j,
                    {
                        nm.push(name[j]);
                        j = j + 1;
                    }
                    assert(nm@ =~= name@);
                    out.push((nm, id));
                    assert(entries_of(out@) =~= out_before.push((names@[i as int]@, id)));
                },
                None => {},
            }
            i = i + 1;
        }
        assert(ns.subrange(0, names@.len() as int) =~= ns);
        Some(out)
    }

    /// Synthetic attributes for `id` built from the host's metadata `md`.
    pub fn attr_from(&self, id: u64, md: &HostMeta) -> (a: Attr)
        ensures
            a == spec_attr(id, self@.uid, self@.gid, *md),
    {
        let (kind, type_bits, base) = if md.is_dir {
            (FileKind::Dir, S_IFDIR, 0o755u32)
        } else if md.is_symlink {
            (FileKind::Lnk, S_IFLNK, 0o777u32)
        } else if md.is_file {
            (FileKind::Reg, S_IFREG, file_perm(md))
        } else {
            (FileKind::Other, S_IFREG, 0o644u32)
        };
        Attr {
            kind,
            mode: type_bits | base,
            nlink: if md.is_dir {
                2
            } else {
                1
            },
            uid: self.uid,
            gid: self.gid,
            size: md.len,
            fileid: id,
            atime: systime(md.accessed),
            mtime: systime(md.modified),
            ctime: systime(md.modified),  // no portable ctime; reuse mtime
        }
    }

    /// Whether `id` is a directory the guest can list: the id is known and the
    /// host reports a directory at its [`abs_of`](Self::abs_of) path
    /// (`host_is_dir`).
    pub fn is_dir(&self, id: u64, host_is_dir: bool) -> (r: bool)
        requires
            self.wf(),
        ensures
            r == (self@.paths.contains_key(id) && host_is_dir),
    {
        match self.rel_of(id) {
            Some(_) => host_is_dir,
            None => false,
        }
    }

    /// Synthetic attributes for `id`, given the host's metadata for its
    /// [`abs_of`](Self::abs_of) path (`None` when nothing is there any more).
    pub fn attr(&self, id: u64, md: Option<HostMeta>) -> (a: Option<Attr>)
        requires
            self.wf(),
        ensures
            a == (if self@.paths.contains_key(id) && md is Some {
                Some(spec_attr(id, self@.uid, self@.gid, md->0))
            } else {
                None
            }),
    {
        match self.rel_of(id) {
            Some(_) => match md {
                Some(m) => Some(self.attr_from(id, &m)),
                None => None,
            },
            None => None,
        }
    }
}

/// The (name, fileid) pairs of a directory listing.
pub open spec fn entries_of(out: Seq<(Vec<u8>, u64)>) -> Seq<(Seq<u8>, u64)> {
    out.map_values(|e: (Vec<u8>, u64)| (e.0@, e.1))
}

// ── laws ────────────────────────────────────────────────────────────────────

/// Interning keeps every existing entry, so a known directory stays known
/// with the same path.
pub proof fn lemma_interned_extends(v: BackingView, rel: Seq<Seq<u8>>)
    requires
        v.inv(),
    ensures
        forall|id: u64| #[trigger]
            v.paths.contains_key(id) ==> interned(v, rel).0.paths.contains_key(id)
                && interned(v, rel).0.paths[id] == v.paths[id],
        interned(v, rel).0.root == v.root,
{
}

/// Looking up the same name twice gives the same fileid, and the second
/// lookup changes nothing: handles are stable. The first lookup keeps every
/// existing handle's path, so no other handle resolves elsewhere.
pub proof fn law_lookup_stable(v: BackingView, dirid: u64, name: Seq<u8>)
    requires
        v.inv(),
    ensures
        ({
            let (v1, r1) = added_child(v, dirid, name, true);
            let (v2, r2) = added_child(v1, dirid, name, true);
            &&& r2 == r1
            &&& v2 == v1
            &&& v1.root == v.root
            &&& forall|k: u64| #[trigger]
                v.paths.contains_key(k) ==> v1.paths.contains_key(k) && v1.paths[k] == v.paths[k]
        }),
{
    let (v1, r1) = added_child(v, dirid, name, true);
    if let Some(rel) = child(v, dirid, name) {
        lemma_interned_extends(v, rel);
        assert(v1.paths.contains_key(dirid));
        assert(child(v1, dirid, name) == Some(rel));
        assert(v1.ids.contains_key(rel));
    }
}

/// Interning a path that has an id gives that id and changes nothing; a new
/// path gets `next_id`, which is above every id in use, and is mapped both
/// ways.
pub proof fn law_intern_fresh_or_existing(v: BackingView, rel: Seq<Seq<u8>>)
    requires
        v.inv(),
        v.next_id < u64::MAX || v.ids.contains_key(rel),
    ensures
        v.ids.contains_key(rel) ==> interned(v, rel) == (v, v.ids[rel]),
        !v.ids.contains_key(rel) ==> {
            let (v1, id) = interned(v, rel);
            &&& id == v.next_id
            &&& forall|k: u64| #[trigger] v.paths.contains_key(k) ==> k < id
            &&& v1.paths[id] == rel
            &&& v1.ids[rel] == id
            &&& v1.next_id == id + 1
        },
{
}

/// The next fresh fileid never goes down, so an id that was handed out (and
/// later forgotten by a remove) is never handed out again.
pub proof fn law_next_id_never_decreases(
    v: BackingView,
    dirid: u64,
    name: Seq<u8>,
    to_dir: u64,
    to_name: Seq<u8>,
    ok: bool,
    names: Seq<Seq<u8>>,
)
    requires
        v.inv(),
        v.next_id + names.len() < u64::MAX,
    ensures
        added_child(v, dirid, name, ok).0.next_id >= v.next_id,
        removed_child(v, dirid, name, ok).0.next_id == v.next_id,
        renamed_child(v, dirid, name, to_dir, to_name, ok).0.next_id == v.next_id,
        v.paths.contains_key(dirid) ==> listed(v, v.paths[dirid], names).0.next_id >= v.next_id,
{
    if v.paths.contains_key(dirid) {
        lemma_listed_facts(v, v.paths[dirid], names);
        lemma_listed_grows(v, v.paths[dirid], names);
    }
}

proof fn lemma_listed_grows(v: BackingView, dir: Seq<Seq<u8>>, names: Seq<Seq<u8>>)
    requires
        v.next_id + names.len() < u64::MAX,
    ensures
        listed(v, dir, names).0.next_id >= v.next_id,
    decreases names.len(),
{
    if names.len() > 0 {
        lemma_listed_grows(v, dir, names.drop_last());
        lemma_listed_next_id(v, dir, names.drop_last());
    }
}

/// Every known fileid resolves to a host path under the export root.
pub proof fn law_ids_within_root(v: BackingView, id: u64)
    requires
        v.inv(),
        v.paths.contains_key(id),
    ensures
        path_starts_with(v.root, abs_bytes(v.root, v.paths[id])),
{
    law_abs_within_root(v.root, v.paths[id]);
}

/// The root handle resolves to the export root itself.
pub proof fn law_root_is_root(v: BackingView)
    requires
        v.inv(),
    ensures
        path_components(abs_bytes(v.root, v.paths[ROOT_ID])) == path_components(v.root),
{
    law_abs_within_root(v.root, v.paths[ROOT_ID]);
    assert(normals(v.paths[ROOT_ID]) =~= Seq::<Component>::empty());
    assert(path_components(v.root) + Seq::<Component>::empty() =~= path_components(v.root));
}

/// A renamed object keeps its handle: looking up the new name gives the id
/// that the old name had.
pub proof fn law_rename_keeps_handle(
    v: BackingView,
    from_dir: u64,
    from_name: Seq<u8>,
    to_dir: u64,
    to_name: Seq<u8>,
)
    requires
        v.inv(),
        child(v, from_dir, from_name) matches Some(f) && v.ids.contains_key(f),
        child(v, to_dir, to_name) is Some,
        to_dir != v.ids[child(v, from_dir, from_name)->0],
    ensures
        ({
            let id = v.ids[child(v, from_dir, from_name)->0];
            let (v1, ok) = renamed_child(v, from_dir, from_name, to_dir, to_name, true);
            ok && added_child(v1, to_dir, to_name, true).1 == Some(id)
        }),
{
    let f = child(v, from_dir, from_name)->0;
    let t = child(v, to_dir, to_name)->0;
    let id = v.ids[f];
    let (v1, ok) = renamed_child(v, from_dir, from_name, to_dir, to_name, true);
    assert(v1.paths.contains_key(to_dir));
    assert(v1.paths[to_dir] == v.paths[to_dir]);
    assert(child(v1, to_dir, to_name) == Some(t));
    assert(v1.ids.contains_key(t));
    assert(v1.ids[t] == id);
}

/// A removed object's handle is forgotten, and its name no longer has an id.
pub proof fn law_remove_forgets(v: BackingView, dirid: u64, name: Seq<u8>)
    requires
        v.inv(),
        child(v, dirid, name) matches Some(rel) && v.ids.contains_key(rel),
    ensures
        ({
            let rel = child(v, dirid, name)->0;
            let (v1, ok) = removed_child(v, dirid, name, true);
            ok && !v1.paths.contains_key(v.ids[rel]) && !v1.ids.contains_key(rel)
        }),
{
}

/// Interning a path of valid components keeps the store's invariant.
proof fn lemma_interned_inv(v: BackingView, rel: Seq<Seq<u8>>)
    requires
        v.inv(),
        all_valid(rel),
        v.next_id < u64::MAX,
    ensures
        interned(v, rel).0.inv(),
        interned(v, rel).0.next_id <= v.next_id + 1,
        interned(v, rel).0.ids.contains_key(rel),
        interned(v, rel).0.ids[rel] == interned(v, rel).1,
        forall|p: Seq<Seq<u8>>| #[trigger]
            v.ids.contains_key(p) ==> interned(v, rel).0.ids.contains_key(p) && interned(
                v,
                rel,
            ).0.ids[p] == v.ids[p],
{
    if !v.ids.contains_key(rel) {
        let w = interned(v, rel).0;
        let id = v.next_id;
        assert(!v.paths.contains_key(id));
        assert forall|p: Seq<Seq<u8>>| #[trigger]
            w.ids.contains_key(p) implies w.paths.contains_key(w.ids[p]) && w.paths[w.ids[p]]
            == p by {
            if p != rel {
                assert(v.ids.contains_key(p));
                assert(v.paths.contains_key(v.ids[p]));
            }
        }
        assert forall|i: u64| #[trigger]
            w.paths.contains_key(i) implies ROOT_ID <= i < w.next_id && all_valid(w.paths[i]) by {
            if i != id {
                assert(v.paths.contains_key(i));
            }
        }
    }
}

/// What listing a directory leaves behind: the invariant, every entry it had,
/// and for each listed `(name, id)` a valid name whose path maps to `id`.
proof fn lemma_listed_facts(v: BackingView, dir: Seq<Seq<u8>>, names: Seq<Seq<u8>>)
    requires
        v.inv(),
        all_valid(dir),
        v.next_id + names.len() < u64::MAX,
    ensures
        ({
            let (v2, es) = listed(v, dir, names);
            &&& v2.inv()
            &&& v2.next_id <= v.next_id + names.len()
            &&& forall|id: u64| #[trigger]
                v.paths.contains_key(id) ==> v2.paths.contains_key(id) && v2.paths[id]
                    == v.paths[id]
            &&& forall|k: int|
                0 <= k < es.len() ==> is_valid_component(#[trigger] es[k].0) && v2.ids.contains_key(
                    dir.push(es[k].0),
                ) && v2.ids[dir.push(es[k].0)] == es[k].1
        }),
    decreases names.len(),
{
    if names.len() > 0 {
        let (v1, out1) = listed(v, dir, names.drop_last());
        lemma_listed_facts(v, dir, names.drop_last());
        let n = names.last();
        if is_valid_component(n) {
            let rel = dir.push(n);
            assert(all_valid(rel)) by {
                assert forall|i: int| 0 <= i < rel.len() implies is_valid_component(
                    #[trigger] rel[i],
                ) by {
                    if i < dir.len() {
                        assert(rel[i] == dir[i]);
                    }
                }
            }
            lemma_interned_inv(v1, rel);
            lemma_interned_extends(v1, rel);
            let (v2, es) = listed(v, dir, names);
            assert forall|k: int| 0 <= k < es.len() implies is_valid_component(
                #[trigger] es[k].0,
            ) && v2.ids.contains_key(dir.push(es[k].0)) && v2.ids[dir.push(es[k].0)]
                == es[k].1 by {
                if k < out1.len() {
                    assert(es[k] == out1[k]);
                    assert(v1.ids.contains_key(dir.push(out1[k].0)));
                }
            }
        }
    }
}

/// The names of a listing's entries.
pub open spec fn entry_names(es: Seq<(Seq<u8>, u64)>) -> Seq<Seq<u8>> {
    es.map_values(|e: (Seq<u8>, u64)| e.0)
}

/// The test a listing applies to each host entry's name.
pub open spec fn is_listable() -> spec_fn(Seq<u8>) -> bool {
    |n: Seq<u8>| is_valid_component(n)
}

/// A listing reports every host entry whose name is a valid component, in
/// the host's order, and no other: only names that could escape the export
/// (`.`, `..`, empty, or holding a separator or NUL) are left out.
pub proof fn law_readdir_lists_valid_names(v: BackingView, dir: Seq<Seq<u8>>, names: Seq<Seq<u8>>)
    ensures
        entry_names(listed(v, dir, names).1) == names.filter(is_listable()),
    decreases names.len(),
{
    if names.len() == 0 {
        reveal(Seq::filter);
        assert(entry_names(listed(v, dir, names).1) =~= Seq::<Seq<u8>>::empty());
    } else {
        law_readdir_lists_valid_names(v, dir, names.drop_last());
        let (v1, out1) = listed(v, dir, names.drop_last());
        let n = names.last();
        if is_valid_component(n) {
            let out = listed(v, dir, names).1;
            assert(entry_names(out) =~= entry_names(out1).push(n));
        }
        reveal(Seq::filter);
        assert(names.filter(is_listable()) == if is_valid_component(n) {
            names.drop_last().filter(is_listable()).push(n)
        } else {
            names.drop_last().filter(is_listable())
        });
    }
}

/// A listed entry's handle is the one a lookup of its name gives: after
/// `readdir`, looking up a listed name returns the listed fileid and changes
/// nothing.
pub proof fn law_readdir_then_lookup(v: BackingView, dirid: u64, names: Seq<Seq<u8>>, k: int)
    requires
        v.inv(),
        v.paths.contains_key(dirid),
        v.next_id + names.len() < u64::MAX,
        0 <= k < listed(v, v.paths[dirid], names).1.len(),
    ensures
        ({
            let (v2, es) = listed(v, v.paths[dirid], names);
            added_child(v2, dirid, es[k].0, true) == (v2, Some(es[k].1))
        }),
{
    let dir = v.paths[dirid];
    lemma_listed_facts(v, dir, names);
    let (v2, es) = listed(v, dir, names);
    assert(v2.paths.contains_key(dirid));
    assert(child(v2, dirid, es[k].0) == Some(dir.push(es[k].0)));
}

proof fn lemma_listed_next_id(v: BackingView, dir: Seq<Seq<u8>>, names: Seq<Seq<u8>>)
    ensures
        listed(v, dir, names).0.next_id <= v.next_id + names.len(),
    decreases names.len(),
{
    if names.len() > 0 {
        lemma_listed_next_id(v, dir, names.drop_last());
    }
}

} // verus!
