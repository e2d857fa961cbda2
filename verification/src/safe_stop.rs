//! Whether force-stopping the emulator right now is safe, and the reasons
//! shown in the confirmation dialog when it is not.

use vstd::prelude::*;
use vstd::string::StringExecFns;

use crate::config::{unique_ids, MachineConfig, ScsiDeviceConfig};
use crate::text::{decimal, ends_with, push_decimal, str_ends_with};

verus! {

broadcast use vstd::seq_lib::group_to_multiset_ensures;

/// The machine state that decides whether a stop is safe.
#[derive(Debug, Clone, Copy, PartialEq, Eq)]
pub struct Status {
    /// The guest has asked for power-off.
    pub power_off_seen: bool,
    /// The guest is sitting at the PROM monitor.
    pub in_prom: bool,
    /// Copy-on-write overlay sectors not yet flushed to disk.
    pub dirty_cow: usize,
}

/// Reasons it is risky to force-stop right now.
#[derive(Debug, Clone)]
pub struct UnsafeReasons {
    pub irix_running: bool,
    pub dirty_cow: usize,
    /// SCSI IDs whose backing image is a .chd (writes lost unless overlay).
    pub chd_no_overlay: Vec<u8>,
}

impl Default for UnsafeReasons {
    fn default() -> (r: Self)
        ensures
            !r.irix_running,
            r.dirty_cow == 0,
            r.chd_no_overlay@ == Seq::<u8>::empty(),
    {
        UnsafeReasons { irix_running: false, dirty_cow: 0, chd_no_overlay: Vec::new() }
    }
}

impl UnsafeReasons {
    pub fn is_empty(&self) -> (e: bool)
        ensures
            e == (!self.irix_running && self.dirty_cow == 0 && self.chd_no_overlay@.len() == 0),
    {
        !self.irix_running && self.dirty_cow == 0 && self.chd_no_overlay.len() == 0
    }
}

/// Safe iff: PowerOff seen, OR sitting at PROM, OR no dirty COW sectors.
pub open spec fn is_safe(st: Status) -> bool {
    st.power_off_seen || st.in_prom || st.dirty_cow == 0
}

/// A CHD image attached without a copy-on-write overlay.
pub open spec fn chd_without_overlay(d: ScsiDeviceConfig) -> bool {
    ends_with(d.path@, ".chd"@) && !d.overlay
}

/// The ids of the CHD-without-overlay devices, in configuration order.
pub open spec fn chd_ids(scsi: Seq<(u8, ScsiDeviceConfig)>) -> Seq<u8>
    decreases scsi.len(),
{
    if scsi.len() == 0 {
        Seq::empty()
    } else if chd_without_overlay(scsi.last().1) {
        chd_ids(scsi.drop_last()).push(scsi.last().0)
    } else {
        chd_ids(scsi.drop_last())
    }
}

pub open spec fn sorted(s: Seq<u8>) -> bool {
    forall|i: int, j: int| 0 <= i <= j < s.len() ==> s[i] <= s[j]
}

/// Ascending with no id twice.
pub open spec fn strictly_sorted(s: Seq<u8>) -> bool {
    forall|i: int, j: int| 0 <= i < j < s.len() ==> s[i] < s[j]
}

/// Every id `chd_ids` reports is the id of some SCSI entry.
proof fn lemma_chd_ids_from(scsi: Seq<(u8, ScsiDeviceConfig)>, y: u8)
    requires
        chd_ids(scsi).contains(y),
    ensures
        exists|k: int| 0 <= k < scsi.len() && scsi[k].0 == y,
    decreases scsi.len(),
{
    let p = scsi.drop_last();
    if chd_without_overlay(scsi.last().1) && y == scsi.last().0 {
        assert(scsi[scsi.len() - 1].0 == y);
    } else {
        if chd_without_overlay(scsi.last().1) {
            let k = choose|k: int| 0 <= k < chd_ids(scsi).len() && chd_ids(scsi)[k] == y;
            assert(chd_ids(p)[k] == y);
        }
        lemma_chd_ids_from(p, y);
        let k = choose|k: int| 0 <= k < p.len() && p[k].0 == y;
        assert(scsi[k] == p[k]);
    }
}

/// Insert `x` into the sorted `v`, keeping it sorted.
fn insert_sorted(v: &mut Vec<u8>, x: u8)
    requires
        sorted(old(v)@),
    ensures
        sorted(final(v)@),
        final(v)@.to_multiset() == old(v)@.to_multiset().insert(x),
        strictly_sorted(old(v)@) && !old(v)@.contains(x) ==> strictly_sorted(final(v)@),
{
    let mut i: usize = 0;
    while i < v.len() && v[i] <= x
        invariant
            i <= v@.len(),
            forall|k: int| 0 <= k < i ==> v@[k] <= x,
        decreases v@.len() - i,
    {
        i = i + 1;
    }
    let ghost old_v = v@;
    v.insert(i, x);
    proof {
        let a = old_v.subrange(0, i as int);
        let b = old_v.subrange(i as int, old_v.len() as int);
        assert(old_v =~= a + b);
        assert(v@ =~= a.push(x) + b);
        vstd::seq_lib::lemma_multiset_commutative(a, b);
        vstd::seq_lib::lemma_multiset_commutative(a.push(x), b);
        assert(a.push(x).to_multiset() =~= a.to_multiset().insert(x));
        assert(v@.to_multiset() =~= old_v.to_multiset().insert(x));
        assert forall|p: int, q: int| 0 <= p <= q < v@.len() implies v@[p] <= v@[q] by {
            if q < i {
                assert(v@[p] == old_v[p] && v@[q] == old_v[q]);
            } else if q == i {
                assert(v@[q] == x);
                if p < i {
                    assert(v@[p] == old_v[p]);
                }
            } else {
                assert(v@[q] == old_v[q - 1]);
                if p < i {
                    assert(v@[p] == old_v[p]);
                } else if p == i {
                    assert(v@[p] == x);
                    if i < old_v.len() {
                        assert(old_v[i as int] > x);
                    }
                } else {
                    assert(v@[p] == old_v[p - 1]);
                }
            }
        }
        if strictly_sorted(old_v) && !old_v.contains(x) {
            assert forall|p: int, q: int| 0 <= p < q < v@.len() implies v@[p] < v@[q] by {
                if q < i {
                    assert(v@[p] == old_v[p] && v@[q] == old_v[q]);
                } else if q == i {
                    assert(v@[p] == old_v[p]);
                    assert(old_v[p] != x);
                } else {
                    assert(v@[q] == old_v[q - 1]);
                    if p < i {
                        assert(v@[p] == old_v[p]);
                    } else if p == i {
                        assert(old_v[q - 1] != x);
                    } else {
                        assert(v@[p] == old_v[p - 1]);
                    }
                }
            }
        }
    }
}

/// Evaluate whether stopping the emulator right now is safe: empty reasons if
/// so; otherwise the reasons, with the CHD-without-overlay ids sorted, each
/// once. The configuration has each SCSI target id at most once.
pub fn evaluate(status: &Status, cfg: &MachineConfig) -> (r: UnsafeReasons)
    requires
        unique_ids(cfg.scsi@),
    ensures
        // the reasons are empty exactly when stopping is safe
        (!r.irix_running && r.dirty_cow == 0 && r.chd_no_overlay@.len() == 0) == is_safe(*status),
        is_safe(*status) ==> !r.irix_running && r.dirty_cow == 0 && r.chd_no_overlay@
            == Seq::<u8>::empty(),
        !is_safe(*status) ==> {
            &&& r.irix_running == (!status.in_prom && !status.power_off_seen)
            &&& r.dirty_cow == status.dirty_cow
            &&& strictly_sorted(r.chd_no_overlay@)
            &&& r.chd_no_overlay@.to_multiset() == chd_ids(cfg.scsi@).to_multiset()
        },
{
    let mut r = UnsafeReasons::default();
    let safe = status.power_off_seen || status.in_prom || status.dirty_cow == 0;
    if safe {
        return r;
    }
    r.irix_running = !status.in_prom && !status.power_off_seen;
    r.dirty_cow = status.dirty_cow;
    let mut ids: Vec<u8> = Vec::new();
    let mut i: usize = 0;
    while i < cfg.scsi.len()
        invariant
            i <= cfg.scsi@.len(),
            sorted(ids@),
            strictly_sorted(ids@),
            unique_ids(cfg.scsi@),
            ids@.to_multiset() == chd_ids(cfg.scsi@.subrange(0, i as int)).to_multiset(),
        decreases cfg.scsi@.len() - i,
    {
        let ghost pre = cfg.scsi@.subrange(0, i as int);
        assert(cfg.scsi@.subrange(0, i + 1).drop_last() =~= pre);
        let (id, dev) = &cfg.scsi[i];
        proof {
            broadcast use vstd::seq_lib::group_to_multiset_ensures;
            if ids@.contains(*id) {
                assert(chd_ids(pre).to_multiset().count(*id) > 0);
                lemma_chd_ids_from(pre, *id);
                let k = choose|k: int| 0 <= k < pre.len() && pre[k].0 == *id;
                assert(pre[k] == cfg.scsi@[k]);
                assert(cfg.scsi@[i as int].0 == *id);
            }
        }
        if str_ends_with(dev.path.as_str(), ".chd") && !dev.overlay {
            insert_sorted(&mut ids, *id);
        }
        i = i + 1;
    }
    assert(cfg.scsi@.subrange(0, cfg.scsi@.len() as int) =~= cfg.scsi@);
    r.chd_no_overlay = ids;
    r
}

/// The text of each dialog line, in order.
pub open spec fn reason_text(irix_running: bool, dirty_cow: usize, chd: Seq<u8>) -> Seq<
    Seq<char>,
> {
    (if irix_running {
        seq!["IRIX is running — force-stop may corrupt the filesystem."@]
    } else {
        Seq::empty()
    }) + (if dirty_cow > 0 {
        seq![
            decimal(dirty_cow as nat)
                + " dirty COW overlay sector(s) have not been flushed to disk."@,
        ]
    } else {
        Seq::empty()
    }) + chd.map_values(|id: u8| chd_line(id))
}

/// The dialog line for one CHD-without-overlay device.
pub open spec fn chd_line(id: u8) -> Seq<char> {
    "scsi"@ + decimal(id as nat) + " is a CHD image without overlay=true — writes will be discarded."@
}

pub open spec fn strings_view(v: Seq<String>) -> Seq<Seq<char>> {
    v.map_values(|s: String| s@)
}

/// Human-readable lines for the confirmation dialog.
pub fn reason_lines(r: &UnsafeReasons) -> (out: Vec<String>)
    ensures
        strings_view(out@) == reason_text(r.irix_running, r.dirty_cow, r.chd_no_overlay@),
{
    let mut out: Vec<String> = Vec::new();
    if r.irix_running {
        out.push(String::from_str("IRIX is running — force-stop may corrupt the filesystem."));
    }
    if r.dirty_cow > 0 {
        let mut s = String::new();
        push_decimal(&mut s, r.dirty_cow as u64);
        s.append(" dirty COW overlay sector(s) have not been flushed to disk.");
        out.push(s);
    }
    let ghost head = strings_view(out@);
    assert(head =~= reason_text(r.irix_running, r.dirty_cow, Seq::<u8>::empty()));
    let mut k: usize = 0;
    while k < r.chd_no_overlay.len()
        invariant
            k <= r.chd_no_overlay@.len(),
            head == reason_text(r.irix_running, r.dirty_cow, Seq::<u8>::empty()),
            strings_view(out@) =~= head + r.chd_no_overlay@.subrange(0, k as int).map_values(
                |id: u8| chd_line(id),
            ),
        decreases r.chd_no_overlay@.len() - k,
    {
        let id = r.chd_no_overlay[k];
        let mut s = String::from_str("scsi");
        push_decimal(&mut s, id as u64);
        s.append(" is a CHD image without overlay=true — writes will be discarded.");
        let ghost before = strings_view(out@);
        assert(s@ == chd_line(id));
        out.push(s);
        assert(strings_view(out@) =~= before.push(chd_line(id)));
        assert(r.chd_no_overlay@.subrange(0, k + 1).map_values(|id: u8| chd_line(id))
            =~= r.chd_no_overlay@.subrange(0, k as int).map_values(|id: u8| chd_line(id)).push(
            chd_line(id),
        ));
        k = k + 1;
    }
    assert(r.chd_no_overlay@.subrange(0, r.chd_no_overlay@.len() as int) =~= r.chd_no_overlay@);
    out
}

} // verus!
