//! Host paths as raw bytes (unix `OsStr` bytes): filename components coming
//! off the wire, joining them under the export root, and the component-wise
//! containment check.

use vstd::prelude::*;

verus! {

pub const SLASH: u8 = 0x2f;

pub const BACKSLASH: u8 = 0x5c;

pub const DOT: u8 = 0x2e;

/// A single path component that cannot escape the export: not empty, not `.`
/// or `..`, and free of separators (`/`, `\`) and NUL.
pub open spec fn is_valid_component(s: Seq<u8>) -> bool {
    &&& s.len() > 0
    &&& s != seq![DOT]
    &&& s != seq![DOT, DOT]
    &&& forall|i: int| 0 <= i < s.len() ==> s[i] != SLASH && s[i] != BACKSLASH && s[i] != 0u8
}

/// Which names are accepted: exactly the non-empty ones other than `.` and
/// `..` that hold no `/` (0x2f), `\` (0x5c) or NUL byte. Every other byte is
/// allowed: spaces, leading dots, control and non-ASCII bytes.
pub proof fn law_valid_component_accepts(s: Seq<u8>)
    ensures
        is_valid_component(s) <==> {
            &&& s.len() > 0
            &&& s != seq![0x2eu8]
            &&& s != seq![0x2eu8, 0x2eu8]
            &&& forall|i: int| 0 <= i < s.len() ==> s[i] != 0x2fu8 && s[i] != 0x5cu8 && s[i] != 0u8
        },
{
}

/// One component of a parsed path, as the host's path iterator yields it.
pub enum Component {
    RootDir,
    CurDir,
    ParentDir,
    Normal(Seq<u8>),
}

/// The pieces of `p` between separators (empty pieces included).
pub open spec fn pieces(p: Seq<u8>) -> Seq<Seq<u8>>
    decreases p.len(),
{
    if p.len() == 0 {
        seq![Seq::<u8>::empty()]
    } else if p.last() == SLASH {
        pieces(p.drop_last()).push(Seq::<u8>::empty())
    } else {
        let ps = pieces(p.drop_last());
        ps.update(ps.len() - 1, ps.last().push(p.last()))
    }
}

/// How one piece reads as a component: empty pieces and `.` vanish.
pub open spec fn piece_component(x: Seq<u8>) -> Seq<Component> {
    if x.len() == 0 || x == seq![DOT] {
        Seq::empty()
    } else if x == seq![DOT, DOT] {
        seq![Component::ParentDir]
    } else {
        seq![Component::Normal(x)]
    }
}

pub open spec fn piece_components(ps: Seq<Seq<u8>>) -> Seq<Component>
    decreases ps.len(),
{
    if ps.len() == 0 {
        Seq::empty()
    } else {
        piece_components(ps.drop_last()) + piece_component(ps.last())
    }
}

/// A path is absolute when it starts with a separator.
pub open spec fn is_absolute(p: Seq<u8>) -> bool {
    p.len() > 0 && p[0] == SLASH
}

/// The leading component: the root, or `.` when a relative path starts with it.
pub open spec fn head_component(p: Seq<u8>) -> Seq<Component> {
    if is_absolute(p) {
        seq![Component::RootDir]
    } else if pieces(p)[0] == seq![DOT] {
        seq![Component::CurDir]
    } else {
        Seq::empty()
    }
}

/// The components of a unix path: repeated separators, trailing separators
/// and interior `.` are not components.
pub open spec fn path_components(p: Seq<u8>) -> Seq<Component> {
    head_component(p) + piece_components(pieces(p))
}

pub open spec fn is_prefix(a: Seq<Component>, b: Seq<Component>) -> bool {
    a.len() <= b.len() && b.subrange(0, a.len() as int) == a
}

/// `candidate` lies under `root`, compared component-wise.
pub open spec fn path_starts_with(root: Seq<u8>, candidate: Seq<u8>) -> bool {
    is_prefix(path_components(root), path_components(candidate))
}

/// Joining a relative piece onto a path: a separator goes between them unless
/// the base is empty or already ends with one.
pub open spec fn join_bytes(base: Seq<u8>, piece: Seq<u8>) -> Seq<u8> {
    if base.len() > 0 && base.last() != SLASH {
        base + seq![SLASH] + piece
    } else {
        base + piece
    }
}

/// The relative path spelled by a list of components.
pub open spec fn rel_bytes(comps: Seq<Seq<u8>>) -> Seq<u8>
    decreases comps.len(),
{
    if comps.len() == 0 {
        Seq::empty()
    } else {
        join_bytes(rel_bytes(comps.drop_last()), comps.last())
    }
}

/// The host path of a root-relative component list under `root`.
pub open spec fn abs_bytes(root: Seq<u8>, comps: Seq<Seq<u8>>) -> Seq<u8> {
    join_bytes(root, rel_bytes(comps))
}

pub open spec fn all_valid(comps: Seq<Seq<u8>>) -> bool {
    forall|i: int| 0 <= i < comps.len() ==> is_valid_component(#[trigger] comps[i])
}

pub open spec fn normals(comps: Seq<Seq<u8>>) -> Seq<Component> {
    comps.map_values(|c: Seq<u8>| Component::Normal(c))
}

// ── exec components ─────────────────────────────────────────────────────────

/// One component of a parsed path.
pub enum PathComponent {
    RootDir,
    CurDir,
    ParentDir,
    Normal(Vec<u8>),
}

impl View for PathComponent {
    type V = Component;

    open spec fn view(&self) -> Component {
        match self {
            PathComponent::RootDir => Component::RootDir,
            PathComponent::CurDir => Component::CurDir,
            PathComponent::ParentDir => Component::ParentDir,
            PathComponent::Normal(v) => Component::Normal(v@),
        }
    }
}

/// The byte strings held by a list of byte vectors.
pub open spec fn seqs_view(v: Seq<Vec<u8>>) -> Seq<Seq<u8>> {
    v.map_values(|c: Vec<u8>| c@)
}

pub open spec fn comps_view(v: Seq<PathComponent>) -> Seq<Component> {
    v.map_values(|c: PathComponent| c@)
}

/// Byte-wise equality of two byte strings.
pub fn bytes_eq(a: &[u8], b: &[u8]) -> (r: bool)
    ensures
        r == (a@ == b@),
{
    if a.len() != b.len() {
        return false;
    }
    let mut i: usize = 0;
    while i < a.len()
        invariant
            a@.len() == b@.len(),
            i <= a@.len(),
            forall|j: int| 0 <= j < i ==> a@[j] == b@[j],
        decreases a@.len() - i,
    {
        if a[i] != b[i] {
            return false;
        }
        i = i + 1;
    }
    assert(a@ =~= b@);
    true
}

fn component_eq(a: &PathComponent, b: &PathComponent) -> (r: bool)
    ensures
        r == (a@ == b@),
{
    match (a, b) {
        (PathComponent::RootDir, PathComponent::RootDir) => true,
        (PathComponent::CurDir, PathComponent::CurDir) => true,
        (PathComponent::ParentDir, PathComponent::ParentDir) => true,
        (PathComponent::Normal(x), PathComponent::Normal(y)) => bytes_eq(x.as_slice(), y.as_slice()),
        _ => false,
    }
}

fn copy_bytes(a: &[u8]) -> (v: Vec<u8>)
    ensures
        v@ == a@,
{
    let mut v: Vec<u8> = Vec::new();
    let mut i: usize = 0;
    while i < a.len()
        invariant
            i <= a@.len(),
            v@ =~= a@.subrange(0, i as int),
        decreases a@.len() - i,
    {
        v.push(a[i]);
        i = i + 1;
    }
    v
}

/// Split `p` at separators.
fn split_pieces(p: &[u8]) -> (ps: Vec<Vec<u8>>)
    ensures
        seqs_view(ps@) == pieces(p@),
{
    let mut ps: Vec<Vec<u8>> = Vec::new();
    ps.push(Vec::new());
    assert(seqs_view(ps@) =~= pieces(p@.subrange(0, 0)));
    let mut i: usize = 0;
    while i < p.len()
        invariant
            i <= p@.len(),
            seqs_view(ps@) == pieces(p@.subrange(0, i as int)),
            ps@.len() >= 1,
        decreases p@.len() - i,
    {
        let ghost q = p@.subrange(0, i as int);
        let ghost old_ps = seqs_view(ps@);
        assert(p@.subrange(0, i + 1).drop_last() =~= q);
        assert(p@.subrange(0, i + 1).last() == p@[i as int]);
        if p[i] == SLASH {
            ps.push(Vec::new());
            assert(seqs_view(ps@) =~= old_ps.push(Seq::<u8>::empty()));
        } else {
            let mut last = ps.pop().unwrap();
            last.push(p[i]);
            ps.push(last);
            assert(seqs_view(ps@) =~= old_ps.update(
                old_ps.len() - 1,
                old_ps.last().push(p@[i as int]),
            ));
        }
        i = i + 1;
    }
    assert(p@.subrange(0, p@.len() as int) =~= p@);
    ps
}

/// The components of the path `p`.
pub fn components(p: &[u8]) -> (cs: Vec<PathComponent>)
    ensures
        comps_view(cs@) == path_components(p@),
{
    let ps = split_pieces(p);
    proof {
        lemma_pieces_nonempty(p@);
    }
    let mut cs: Vec<PathComponent> = Vec::new();
    if p.len() > 0 && p[0] == SLASH {
        cs.push(PathComponent::RootDir);
    } else if ps[0].len() == 1 && ps[0][0] == DOT {
        assert(seqs_view(ps@)[0] =~= seq![DOT]);
        cs.push(PathComponent::CurDir);
    } else {
        proof {
            assert(seqs_view(ps@)[0] == ps@[0]@);
            if ps@[0]@.len() == 1 {
                assert(ps@[0]@[0] != DOT);
                assert(seq![DOT][0] == DOT);
            }
            assert(seqs_view(ps@)[0] != seq![DOT]);
        }
    }
    assert(comps_view(cs@) =~= head_component(p@));
    let ghost head = comps_view(cs@);
    let mut j: usize = 0;
    while j < ps.len()
        invariant
            j <= ps@.len(),
            seqs_view(ps@) == pieces(p@),
            comps_view(cs@) =~= head + piece_components(seqs_view(ps@).subrange(0, j as int)),
        decreases ps@.len() - j,
    {
        let ghost before = comps_view(cs@);
        let x = &ps[j];
        let ghost xs = seqs_view(ps@)[j as int];
        assert(x@ == xs);
        assert(seqs_view(ps@).subrange(0, j + 1).drop_last() =~= seqs_view(ps@).subrange(
            0,
            j as int,
        ));
        if x.len() == 0 || (x.len() == 1 && x[0] == DOT) {
            assert(x.len() == 1 ==> xs =~= seq![DOT]);
        } else if x.len() == 2 && x[0] == DOT && x[1] == DOT {
            assert(xs =~= seq![DOT, DOT]);
            cs.push(PathComponent::ParentDir);
        } else {
            assert(xs != seq![DOT]);
            assert(xs != seq![DOT, DOT]);
            cs.push(PathComponent::Normal(copy_bytes(x.as_slice())));
        }
        assert(comps_view(cs@) =~= before + piece_component(xs));
        j = j + 1;
    }
    assert(seqs_view(ps@).subrange(0, ps@.len() as int) =~= seqs_view(ps@));
    cs
}

/// Path containment check: whether `candidate` lies under `root`, compared
/// component-wise.
pub fn within(root: &[u8], candidate: &[u8]) -> (r: bool)
    ensures
        r == path_starts_with(root@, candidate@),
{
    let a = components(root);
    let b = components(candidate);
    if a.len() > b.len() {
        return false;
    }
    let mut i: usize = 0;
    while i < a.len()
        invariant
            a@.len() <= b@.len(),
            i <= a@.len(),
            comps_view(a@) == path_components(root@),
            comps_view(b@) == path_components(candidate@),
            forall|k: int| 0 <= k < i ==> comps_view(a@)[k] == comps_view(b@)[k],
        decreases a@.len() - i,
    {
        assert(comps_view(a@)[i as int] == a@[i as int]@);
        assert(comps_view(b@)[i as int] == b@[i as int]@);
        if !component_eq(&a[i], &b[i]) {
            assert(comps_view(b@).subrange(0, a@.len() as int)[i as int] != comps_view(a@)[i as int]);
            return false;
        }
        i = i + 1;
    }
    assert(comps_view(b@).subrange(0, a@.len() as int) =~= comps_view(a@));
    true
}

/// Validate a single path component coming off the wire. Rejects anything that
/// could escape the export (`..`, `.`, empty, embedded separators or NUL).
/// Returns the component's bytes.
pub fn valid_component(name: &[u8]) -> (r: Option<Vec<u8>>)
    ensures
        r is Some <==> is_valid_component(name@),
        r matches Some(c) ==> c@ == name@,
{
    if name.len() == 0 {
        return None;
    }
    if name.len() == 1 && name[0] == DOT {
        assert(name@ =~= seq![DOT]);
        return None;
    }
    if name.len() == 2 && name[0] == DOT && name[1] == DOT {
        assert(name@ =~= seq![DOT, DOT]);
        return None;
    }
    let mut i: usize = 0;
    while i < name.len()
        invariant
            i <= name@.len(),
            forall|j: int|
                0 <= j < i ==> name@[j] != SLASH && name@[j] != BACKSLASH && name@[j] != 0u8,
        decreases name@.len() - i,
    {
        let b = name[i];
        if b == SLASH || b == BACKSLASH || b == 0u8 {
            return None;
        }
        i = i + 1;
    }
    Some(copy_bytes(name))
}

/// `base` joined with the relative piece `piece`.
pub fn join(base: &[u8], piece: &[u8]) -> (out: Vec<u8>)
    ensures
        out@ == join_bytes(base@, piece@),
{
    let mut out = copy_bytes(base);
    if base.len() > 0 && base[base.len() - 1] != SLASH {
        out.push(SLASH);
    }
    let mut i: usize = 0;
    let ghost start = out@;
    while i < piece.len()
        invariant
            i <= piece@.len(),
            out@ =~= start + piece@.subrange(0, i as int),
        decreases piece@.len() - i,
    {
        out.push(piece[i]);
        i = i + 1;
    }
    assert(piece@.subrange(0, piece@.len() as int) =~= piece@);
    out
}

/// The relative path spelled by `comps`.
pub fn rel_path(comps: &Vec<Vec<u8>>) -> (out: Vec<u8>)
    ensures
        out@ == rel_bytes(seqs_view(comps@)),
{
    let mut out: Vec<u8> = Vec::new();
    let mut i: usize = 0;
    while i < comps.len()
        invariant
            i <= comps@.len(),
            out@ == rel_bytes(seqs_view(comps@).subrange(0, i as int)),
        decreases comps@.len() - i,
    {
        assert(seqs_view(comps@).subrange(0, i + 1).drop_last() =~= seqs_view(comps@).subrange(
            0,
            i as int,
        ));
        out = join(out.as_slice(), comps[i].as_slice());
        i = i + 1;
    }
    assert(seqs_view(comps@).subrange(0, comps@.len() as int) =~= seqs_view(comps@));
    out
}

// ── lemmas about components ─────────────────────────────────────────────────

pub proof fn lemma_pieces_nonempty(p: Seq<u8>)
    ensures
        pieces(p).len() >= 1,
    decreases p.len(),
{
    if p.len() > 0 {
        lemma_pieces_nonempty(p.drop_last());
    }
}

pub open spec fn no_slash(c: Seq<u8>) -> bool {
    forall|i: int| 0 <= i < c.len() ==> c[i] != SLASH
}

/// Appending a separator and a slash-free piece adds exactly that piece.
pub proof fn lemma_pieces_append(a: Seq<u8>, c: Seq<u8>)
    requires
        no_slash(c),
    ensures
        pieces(a + seq![SLASH] + c) == pieces(a).push(c),
    decreases c.len(),
{
    lemma_pieces_nonempty(a);
    let p = a + seq![SLASH] + c;
    if c.len() == 0 {
        assert(p.drop_last() =~= a);
        assert(c =~= Seq::<u8>::empty());
    } else {
        let c0 = c.drop_last();
        assert(p.drop_last() =~= a + seq![SLASH] + c0);
        lemma_pieces_append(a, c0);
        assert(c0.push(c.last()) =~= c);
        assert(pieces(p) =~= pieces(a).push(c));
    }
}

/// A slash-free string is a single piece.
pub proof fn lemma_pieces_single(c: Seq<u8>)
    requires
        no_slash(c),
    ensures
        pieces(c) == seq![c],
    decreases c.len(),
{
    if c.len() == 0 {
        assert(c =~= Seq::<u8>::empty());
    } else {
        let c0 = c.drop_last();
        lemma_pieces_single(c0);
        assert(c0.push(c.last()) =~= c);
        assert(pieces(c) =~= seq![c]);
    }
}

pub proof fn lemma_piece_components_push(ps: Seq<Seq<u8>>, x: Seq<u8>)
    ensures
        piece_components(ps.push(x)) == piece_components(ps) + piece_component(x),
{
    assert(ps.push(x).drop_last() =~= ps);
}

pub proof fn lemma_valid_no_slash(c: Seq<u8>)
    requires
        is_valid_component(c),
    ensures
        no_slash(c),
        piece_component(c) == seq![Component::Normal(c)],
{
}

/// A valid component parses as exactly one normal component.
pub proof fn law_valid_component_is_single_normal(c: Seq<u8>)
    requires
        is_valid_component(c),
    ensures
        path_components(c) == seq![Component::Normal(c)],
{
    lemma_valid_no_slash(c);
    lemma_pieces_single(c);
    assert(seq![c].drop_last() =~= Seq::<Seq<u8>>::empty());
    assert(seq![c].last() == c);
    assert(piece_components(Seq::<Seq<u8>>::empty()) =~= Seq::<Component>::empty());
    assert(piece_components(seq![c]) =~= seq![Component::Normal(c)]);
    assert(path_components(c) =~= seq![Component::Normal(c)]);
}

/// Joining a valid component onto any path adds exactly one normal component.
pub proof fn law_join_components(base: Seq<u8>, c: Seq<u8>)
    requires
        is_valid_component(c),
    ensures
        path_components(join_bytes(base, c)) == path_components(base).push(
            Component::Normal(c),
        ),
{
    lemma_valid_no_slash(c);
    lemma_pieces_nonempty(base);
    if base.len() == 0 {
        assert(join_bytes(base, c) =~= c);
        law_valid_component_is_single_normal(c);
        lemma_pieces_single(Seq::<u8>::empty());
        assert(base =~= Seq::<u8>::empty());
        assert(seq![Seq::<u8>::empty()].drop_last() =~= Seq::<Seq<u8>>::empty());
        assert(seq![Seq::<u8>::empty()].last() == Seq::<u8>::empty());
        assert(piece_components(Seq::<Seq<u8>>::empty()) =~= Seq::<Component>::empty());
        assert(piece_component(Seq::<u8>::empty()) =~= Seq::<Component>::empty());
        assert(pieces(base) == seq![Seq::<u8>::empty()]);
        assert(Seq::<u8>::empty() != seq![DOT]);
        assert(head_component(base) =~= Seq::<Component>::empty());
        assert(path_components(base) =~= Seq::<Component>::empty());
        assert(path_components(join_bytes(base, c)) =~= path_components(base).push(
            Component::Normal(c),
        ));
    } else if base.last() != SLASH {
        let p = base + seq![SLASH] + c;
        lemma_pieces_append(base, c);
        lemma_piece_components_push(pieces(base), c);
        assert(p[0] == base[0]);
        assert(pieces(p)[0] == pieces(base)[0]);
        assert(head_component(p) == head_component(base));
        assert(path_components(p) =~= path_components(base).push(Component::Normal(c)));
    } else {
        let b0 = base.drop_last();
        let p = base + c;
        assert(base =~= b0 + seq![SLASH] + Seq::<u8>::empty());
        assert(p =~= b0 + seq![SLASH] + c);
        lemma_pieces_append(b0, c);
        lemma_pieces_append(b0, Seq::<u8>::empty());
        lemma_pieces_nonempty(b0);
        lemma_piece_components_push(pieces(b0), c);
        lemma_piece_components_push(pieces(b0), Seq::<u8>::empty());
        assert(piece_component(Seq::<u8>::empty()) =~= Seq::<Component>::empty());
        assert(p[0] == base[0]);
        assert(pieces(p)[0] == pieces(base)[0]);
        assert(head_component(p) == head_component(base));
        assert(path_components(p) =~= path_components(base).push(Component::Normal(c)));
    }
}

/// A trailing separator adds no component.
pub proof fn lemma_trailing_slash(base: Seq<u8>)
    ensures
        path_components(join_bytes(base, Seq::<u8>::empty())) == path_components(base),
{
    lemma_pieces_nonempty(base);
    if base.len() > 0 && base.last() != SLASH {
        let p = base + seq![SLASH] + Seq::<u8>::empty();
        assert(join_bytes(base, Seq::<u8>::empty()) =~= p);
        lemma_pieces_append(base, Seq::<u8>::empty());
        lemma_piece_components_push(pieces(base), Seq::<u8>::empty());
        assert(piece_component(Seq::<u8>::empty()) =~= Seq::<Component>::empty());
        assert(p[0] == base[0]);
        assert(pieces(p)[0] == pieces(base)[0]);
        assert(path_components(p) =~= path_components(base));
    } else {
        assert(join_bytes(base, Seq::<u8>::empty()) =~= base);
    }
}

/// Joining components one at a time onto `base`.
pub open spec fn join_all(base: Seq<u8>, comps: Seq<Seq<u8>>) -> Seq<u8>
    decreases comps.len(),
{
    if comps.len() == 0 {
        base
    } else {
        join_bytes(join_all(base, comps.drop_last()), comps.last())
    }
}

pub proof fn lemma_join_all_components(base: Seq<u8>, comps: Seq<Seq<u8>>)
    requires
        all_valid(comps),
    ensures
        path_components(join_all(base, comps)) == path_components(base) + normals(comps),
    decreases comps.len(),
{
    if comps.len() == 0 {
        assert(path_components(base) + normals(comps) =~= path_components(base));
    } else {
        let init = comps.drop_last();
        assert(all_valid(init)) by {
            assert forall|i: int| 0 <= i < init.len() implies is_valid_component(
                #[trigger] init[i],
            ) by {
                assert(init[i] == comps[i]);
            }
        }
        lemma_join_all_components(base, init);
        assert(is_valid_component(comps[comps.len() - 1]));
        law_join_components(join_all(base, init), comps.last());
        assert(normals(comps) =~= normals(init).push(Component::Normal(comps.last())));
        assert(path_components(join_all(base, comps)) =~= path_components(base) + normals(
            comps,
        ));
    }
}

/// A nonempty list of valid components spells a nonempty relative path that
/// does not end with a separator; joining it onto a base is the same as
/// joining its components one at a time.
pub proof fn lemma_rel_bytes_join(base: Seq<u8>, comps: Seq<Seq<u8>>)
    requires
        all_valid(comps),
        comps.len() > 0,
    ensures
        rel_bytes(comps).len() > 0,
        rel_bytes(comps).last() != SLASH,
        join_bytes(base, rel_bytes(comps)) == join_all(base, comps),
    decreases comps.len(),
{
    let init = comps.drop_last();
    let c = comps.last();
    assert(is_valid_component(comps[comps.len() - 1]));
    assert(all_valid(init)) by {
        assert forall|i: int| 0 <= i < init.len() implies is_valid_component(
            #[trigger] init[i],
        ) by {
            assert(init[i] == comps[i]);
        }
    }
    if init.len() == 0 {
        assert(rel_bytes(init) =~= Seq::<u8>::empty());
        assert(rel_bytes(comps) =~= c);
        assert(join_all(base, init) == base);
        assert(c.last() == c[c.len() - 1]);
    } else {
        lemma_rel_bytes_join(base, init);
        let r = rel_bytes(init);
        assert(rel_bytes(comps) == r + seq![SLASH] + c);
        assert(c.last() == c[c.len() - 1]);
        assert((r + seq![SLASH] + c).last() == c.last());
        let j = join_all(base, init);
        if base.len() > 0 && base.last() != SLASH {
            assert(join_bytes(base, r) == base + seq![SLASH] + r);
            assert(j.last() == r.last());
            assert(join_bytes(base, r + seq![SLASH] + c) =~= (base + seq![SLASH] + r) + seq![
                SLASH,
            ] + c);
        } else {
            assert(join_bytes(base, r) == base + r);
            assert(j.last() == r.last());
            assert(join_bytes(base, r + seq![SLASH] + c) =~= (base + r) + seq![SLASH] + c);
        }
    }
}

/// Containment: the host path of any list of valid components lies under the
/// root, one normal component per list entry.
pub proof fn law_abs_within_root(root: Seq<u8>, comps: Seq<Seq<u8>>)
    requires
        all_valid(comps),
    ensures
        path_components(abs_bytes(root, comps)) == path_components(root) + normals(comps),
        path_starts_with(root, abs_bytes(root, comps)),
{
    if comps.len() == 0 {
        assert(rel_bytes(comps) =~= Seq::<u8>::empty());
        lemma_trailing_slash(root);
        assert(path_components(root) + normals(comps) =~= path_components(root));
    } else {
        lemma_rel_bytes_join(root, comps);
        lemma_join_all_components(root, comps);
    }
    let a = path_components(root);
    assert((a + normals(comps)).subrange(0, a.len() as int) =~= a);
}

} // verus!
