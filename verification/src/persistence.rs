//! The paired-device registry: the records a successful pairing creates and
//! the token checks the sync server makes against them.
//!
//! The registry itself is pure in-memory state; the host application wraps
//! it with the on-disk JSON document (atomic write-then-rename, read cache)
//! and feeds the loaded records back in.  Devices are never physically
//! deleted by the pairing flow: revocation is a soft delete.

use crate::encodings::{rfc3339_utc, rfc3339_utc_of};
use crate::seqs::{find_first, lemma_find_first};
use crate::text::str_eq;
use vstd::prelude::*;

verus! {

/// Whether a paired device may still sync.
#[derive(Clone, Copy, Debug, PartialEq, Eq, Structural)]
pub enum PairedDeviceStatus {
    Active,
    Revoked,
}

/// One paired device: identity, long-lived session token, and timestamps in
/// RFC 3339 form.
#[derive(Debug)]
pub struct PairedDevice {
    pub id: String,
    pub name: String,
    pub token: String,
    pub paired_at: String,
    pub last_sync_at: Option<String>,
    pub status: PairedDeviceStatus,
}

/// A field-for-field copy of a device record.
pub fn clone_device(d: &PairedDevice) -> (r: PairedDevice)
    ensures
        r == *d,
{
    PairedDevice {
        id: d.id.clone(),
        name: d.name.clone(),
        token: d.token.clone(),
        paired_at: d.paired_at.clone(),
        last_sync_at: match &d.last_sync_at {
            Some(t) => Some(t.clone()),
            None => None,
        },
        status: d.status,
    }
}

/// The predicate selecting the device with the given identifier.
pub open spec fn device_id_pred(id: Seq<char>) -> spec_fn(PairedDevice) -> bool {
    |d: PairedDevice| d.id@ == id
}

/// The predicate selecting a not-yet-revoked device with the given
/// identifier.
pub open spec fn revokable_pred(id: Seq<char>) -> spec_fn(PairedDevice) -> bool {
    |d: PairedDevice| d.id@ == id && d.status != PairedDeviceStatus::Revoked
}

/// The predicate keeping every device under another identifier.
pub open spec fn other_id_pred(id: Seq<char>) -> spec_fn(PairedDevice) -> bool {
    |d: PairedDevice| d.id@ != id
}

/// The predicate selecting active devices.
pub open spec fn active_pred() -> spec_fn(PairedDevice) -> bool {
    |d: PairedDevice| d.status == PairedDeviceStatus::Active
}

/// Index of the first device with this identifier, or `-1`.
pub open spec fn device_idx(ds: Seq<PairedDevice>, id: Seq<char>) -> int {
    find_first(ds, device_id_pred(id))
}

/// A token is valid exactly when the device record under this identifier is
/// active and stores this token.
pub open spec fn spec_validate(ds: Seq<PairedDevice>, id: Seq<char>, token: Seq<char>) -> bool {
    device_idx(ds, id) >= 0 && ds[device_idx(ds, id)].status == PairedDeviceStatus::Active
        && ds[device_idx(ds, id)].token@ == token
}

/// The device with its status replaced.
pub open spec fn device_with_status(d: PairedDevice, st: PairedDeviceStatus) -> PairedDevice {
    PairedDevice { status: st, ..d }
}

/// The in-memory registry of paired devices.
#[derive(Debug)]
pub struct DeviceRegistry {
    pub devices: Vec<PairedDevice>,
}

impl DeviceRegistry {
    /// An empty registry.
    pub fn new() -> (r: Self)
        ensures
            r.devices@.len() == 0,
    {
        DeviceRegistry { devices: Vec::new() }
    }

    /// A registry over records the host application loaded.
    pub fn from_devices(devices: Vec<PairedDevice>) -> (r: Self)
        ensures
            r.devices == devices,
    {
        DeviceRegistry { devices }
    }

    /// The records as stored, for the host application to persist.
    pub fn load(&self) -> (r: Vec<PairedDevice>)
        ensures
            r@ == self.devices@,
    {
        let mut out: Vec<PairedDevice> = Vec::new();
        let mut i: usize = 0;
        while i < self.devices.len()
            invariant
                i <= self.devices@.len(),
                out@ == self.devices@.take(i as int),
            decreases self.devices@.len() - i,
        {
            out.push(clone_device(&self.devices[i]));
            proof {
                assert(self.devices@.take(i + 1) =~= self.devices@.take(i as int).push(
                    self.devices@[i as int],
                ));
            }
            i = i + 1;
        }
        proof {
            assert(self.devices@.take(self.devices@.len() as int) =~= self.devices@);
        }
        out
    }

    /// Adds or updates a paired device: any existing record under the same
    /// identifier is dropped, then the new record is appended.
    pub fn add_device(&mut self, device: PairedDevice)
        ensures
            final(self).devices@ == old(self).devices@.filter(other_id_pred(device.id@)).push(
                device,
            ),
    {
        let ghost dev = device;
        let ghost orig = self.devices@;
        let ghost p = other_id_pred(device.id@);
        let mut kept: Vec<PairedDevice> = Vec::new();
        proof {
            reveal(Seq::filter);
            assert(orig.take(0).filter(p) =~= Seq::<PairedDevice>::empty());
            assert(orig.skip(0) =~= orig);
        }
        while self.devices.len() > 0
            invariant
                self.devices@.len() <= orig.len(),
                self.devices@ == orig.skip(orig.len() - self.devices@.len()),
                kept@ == orig.take(orig.len() - self.devices@.len()).filter(p),
                p == other_id_pred(dev.id@),
                device == dev,
            decreases self.devices@.len(),
        {
            let ghost i = orig.len() - self.devices@.len();
            let d = self.devices.remove(0);
            proof {
                assert(d == orig[i]);
                assert(self.devices@ =~= orig.skip(i + 1));
                reveal(Seq::filter);
                assert(orig.take(i + 1).drop_last() =~= orig.take(i));
                assert(orig.take(i + 1).last() == orig[i]);
            }
            if !str_eq(d.id.as_str(), device.id.as_str()) {
                kept.push(d);
                proof {
                    reveal(Seq::filter);
                    assert(p(orig[i]));
                    assert(orig.take(i + 1).filter(p) =~= orig.take(i).filter(p).push(orig[i]));
                }
            } else {
                proof {
                    reveal(Seq::filter);
                    assert(!p(orig[i]));
                    assert(orig.take(i + 1).filter(p) =~= orig.take(i).filter(p));
                }
            }
        }
        proof {
            assert(orig.take(orig.len() as int) =~= orig);
        }
        kept.push(device);
        self.devices = kept;
    }

    /// Revokes the first not-yet-revoked record under this identifier (a
    /// soft delete) and says whether one was found.
    pub fn revoke_device(&mut self, device_id: &str) -> (r: bool)
        ensures
            ({
                let i = find_first(old(self).devices@, revokable_pred(device_id@));
                if i < 0 {
                    r == false && final(self).devices@ == old(self).devices@
                } else {
                    r == true && final(self).devices@ == old(self).devices@.update(
                        i,
                        device_with_status(old(self).devices@[i], PairedDeviceStatus::Revoked),
                    )
                }
            }),
    {
        let ghost p = revokable_pred(device_id@);
        let ghost fi = find_first(self.devices@, p);
        proof {
            lemma_find_first(self.devices@, p);
        }
        let mut i: usize = 0;
        while i < self.devices.len()
            invariant
                i <= self.devices@.len(),
                forall|j: int| 0 <= j < i ==> !p(#[trigger] self.devices@[j]),
                p == revokable_pred(device_id@),
                fi == find_first(self.devices@, p),
                fi == -1 ==> (forall|j: int|
                    0 <= j < self.devices@.len() ==> !p(#[trigger] self.devices@[j])),
                fi >= 0 ==> fi < self.devices@.len() && p(self.devices@[fi]) && (forall|j: int|
                    0 <= j < fi ==> !p(#[trigger] self.devices@[j])),
                self.devices@ == old(self).devices@,
            decreases self.devices@.len() - i,
        {
            let is_revoked = match self.devices[i].status {
                PairedDeviceStatus::Revoked => true,
                _ => false,
            };
            if !is_revoked && str_eq(self.devices[i].id.as_str(), device_id) {
                proof {
                    assert(p(self.devices@[i as int]));
                    if fi == -1 {
                        assert(!p(self.devices@[i as int]));
                    } else if fi < i as int {
                        assert(!p(self.devices@[fi]));
                    } else if fi > i as int {
                        assert(!p(self.devices@[i as int]));
                    }
                    assert(fi == i as int);
                }
                let dref = &mut self.devices[i];
                dref.status = PairedDeviceStatus::Revoked;
                proof {
                    assert(self.devices@ =~= old(self).devices@.update(
                        i as int,
                        device_with_status(
                            old(self).devices@[i as int],
                            PairedDeviceStatus::Revoked,
                        ),
                    ));
                }
                return true;
            }
            proof {
                assert(!p(self.devices@[i as int]));
            }
            i = i + 1;
        }
        proof {
            if fi >= 0 {
                assert(!p(self.devices@[fi]));
            }
        }
        false
    }

    /// Removes every record under this identifier outright and says whether
    /// any was dropped.  Afterwards no record under the identifier remains.
    pub fn remove_device(&mut self, device_id: &str) -> (r: bool)
        ensures
            final(self).devices@ == old(self).devices@.filter(other_id_pred(device_id@)),
            r == (final(self).devices@.len() != old(self).devices@.len()),
            forall|k: int|
                0 <= k < final(self).devices@.len()
                    ==> (#[trigger] final(self).devices@[k]).id@ != device_id@,
    {
        let ghost orig = self.devices@;
        let ghost p = other_id_pred(device_id@);
        let original_len = self.devices.len();
        let mut kept: Vec<PairedDevice> = Vec::new();
        proof {
            reveal(Seq::filter);
            assert(orig.take(0).filter(p) =~= Seq::<PairedDevice>::empty());
            assert(orig.skip(0) =~= orig);
        }
        while self.devices.len() > 0
            invariant
                self.devices@.len() <= orig.len(),
                self.devices@ == orig.skip(orig.len() - self.devices@.len()),
                kept@ == orig.take(orig.len() - self.devices@.len()).filter(p),
                p == other_id_pred(device_id@),
                forall|k: int| 0 <= k < kept@.len() ==> (#[trigger] kept@[k]).id@ != device_id@,
            decreases self.devices@.len(),
        {
            let ghost i = orig.len() - self.devices@.len();
            let d = self.devices.remove(0);
            proof {
                assert(d == orig[i]);
                assert(self.devices@ =~= orig.skip(i + 1));
                reveal(Seq::filter);
                assert(orig.take(i + 1).drop_last() =~= orig.take(i));
                assert(orig.take(i + 1).last() == orig[i]);
            }
            if !str_eq(d.id.as_str(), device_id) {
                kept.push(d);
                proof {
                    reveal(Seq::filter);
                    assert(p(orig[i]));
                    assert(orig.take(i + 1).filter(p) =~= orig.take(i).filter(p).push(orig[i]));
                }
            } else {
                proof {
                    reveal(Seq::filter);
                    assert(!p(orig[i]));
                    assert(orig.take(i + 1).filter(p) =~= orig.take(i).filter(p));
                }
            }
        }
        proof {
            assert(orig.take(orig.len() as int) =~= orig);
            Seq::lemma_filter_len(orig, p);
        }
        self.devices = kept;
        self.devices.len() != original_len
    }

    /// The active (not revoked) devices, in stored order.
    pub fn get_active_devices(&self) -> (r: Vec<PairedDevice>)
        ensures
            r@ == self.devices@.filter(active_pred()),
    {
        let ghost p = active_pred();
        let mut out: Vec<PairedDevice> = Vec::new();
        let mut i: usize = 0;
        proof {
            reveal(Seq::filter);
            assert(self.devices@.take(0).filter(p) =~= Seq::<PairedDevice>::empty());
        }
        while i < self.devices.len()
            invariant
                i <= self.devices@.len(),
                out@ == self.devices@.take(i as int).filter(p),
                p == active_pred(),
            decreases self.devices@.len() - i,
        {
            proof {
                reveal(Seq::filter);
                assert(self.devices@.take(i + 1).drop_last() =~= self.devices@.take(i as int));
                assert(self.devices@.take(i + 1).last() == self.devices@[i as int]);
            }
            let is_active = match self.devices[i].status {
                PairedDeviceStatus::Active => true,
                _ => false,
            };
            if is_active {
                out.push(clone_device(&self.devices[i]));
                proof {
                    reveal(Seq::filter);
                    assert(p(self.devices@[i as int]));
                    assert(self.devices@.take(i + 1).filter(p) =~= self.devices@.take(
                        i as int,
                    ).filter(p).push(self.devices@[i as int]));
                }
            } else {
                proof {
                    reveal(Seq::filter);
                    assert(!p(self.devices@[i as int]));
                    assert(self.devices@.take(i + 1).filter(p) =~= self.devices@.take(
                        i as int,
                    ).filter(p));
                }
            }
            i = i + 1;
        }
        proof {
            assert(self.devices@.take(self.devices@.len() as int) =~= self.devices@);
        }
        out
    }

    /// The first record under this identifier, if any.
    pub fn get_device(&self, device_id: &str) -> (r: Option<PairedDevice>)
        ensures
            ({
                let i = device_idx(self.devices@, device_id@);
                match r {
                    Some(d) => i >= 0 && d == self.devices@[i],
                    None => i == -1,
                }
            }),
    {
        let ghost p = device_id_pred(device_id@);
        let ghost fi = find_first(self.devices@, p);
        proof {
            lemma_find_first(self.devices@, p);
        }
        let mut i: usize = 0;
        while i < self.devices.len()
            invariant
                i <= self.devices@.len(),
                forall|j: int| 0 <= j < i ==> !p(#[trigger] self.devices@[j]),
                p == device_id_pred(device_id@),
                fi == find_first(self.devices@, p),
                fi == -1 ==> (forall|j: int|
                    0 <= j < self.devices@.len() ==> !p(#[trigger] self.devices@[j])),
                fi >= 0 ==> fi < self.devices@.len() && p(self.devices@[fi]) && (forall|j: int|
                    0 <= j < fi ==> !p(#[trigger] self.devices@[j])),
            decreases self.devices@.len() - i,
        {
            if str_eq(self.devices[i].id.as_str(), device_id) {
                proof {
                    assert(p(self.devices@[i as int]));
                    if fi == -1 {
                        assert(!p(self.devices@[i as int]));
                    } else if fi < i as int {
                        assert(!p(self.devices@[fi]));
                    } else if fi > i as int {
                        assert(!p(self.devices@[i as int]));
                    }
                    assert(fi == i as int);
                }
                return Some(clone_device(&self.devices[i]));
            }
            proof {
                assert(!p(self.devices@[i as int]));
            }
            i = i + 1;
        }
        proof {
            if fi >= 0 {
                assert(!p(self.devices@[fi]));
            }
        }
        None
    }

    /// Whether this device may sync with this token: the record under the
    /// identifier must be active and store exactly this token.
    pub fn validate_token(&self, device_id: &str, token: &str) -> (r: bool)
        ensures
            r == spec_validate(self.devices@, device_id@, token@),
    {
        match self.get_device(device_id) {
            None => false,
            Some(d) => {
                let is_active = match d.status {
                    PairedDeviceStatus::Active => true,
                    _ => false,
                };
                is_active && str_eq(d.token.as_str(), token)
            },
        }
    }

    /// Stamps the first record under this identifier with the time of the
    /// sync that just happened, and says whether one was found.
    pub fn update_last_sync(&mut self, device_id: &str, now: u64) -> (r: bool)
        requires
            now < 253402300800,
        ensures
            ({
                let i = device_idx(old(self).devices@, device_id@);
                if i < 0 {
                    r == false && final(self).devices@ == old(self).devices@
                } else {
                    let before = old(self).devices@;
                    let after = final(self).devices@;
                    &&& r == true
                    &&& after.len() == before.len()
                    &&& (forall|k: int|
                        0 <= k < before.len() && k != i ==> #[trigger] after[k] == before[k])
                    &&& after[i].id == before[i].id
                    &&& after[i].token == before[i].token
                    &&& after[i].status == before[i].status
                    &&& (match after[i].last_sync_at {
                        Some(t) => t@ == rfc3339_utc_of(now),
                        None => false,
                    })
                }
            }),
    {
        let ghost p = device_id_pred(device_id@);
        let ghost fi = find_first(self.devices@, p);
        proof {
            lemma_find_first(self.devices@, p);
        }
        let mut i: usize = 0;
        while i < self.devices.len()
            invariant
                i <= self.devices@.len(),
                forall|j: int| 0 <= j < i ==> !p(#[trigger] self.devices@[j]),
                p == device_id_pred(device_id@),
                fi == find_first(self.devices@, p),
                fi == -1 ==> (forall|j: int|
                    0 <= j < self.devices@.len() ==> !p(#[trigger] self.devices@[j])),
                fi >= 0 ==> fi < self.devices@.len() && p(self.devices@[fi]) && (forall|j: int|
                    0 <= j < fi ==> !p(#[trigger] self.devices@[j])),
                self.devices@ == old(self).devices@,
                now < 253402300800,
            decreases self.devices@.len() - i,
        {
            if str_eq(self.devices[i].id.as_str(), device_id) {
                proof {
                    assert(p(self.devices@[i as int]));
                    if fi == -1 {
                        assert(!p(self.devices@[i as int]));
                    } else if fi < i as int {
                        assert(!p(self.devices@[fi]));
                    } else if fi > i as int {
                        assert(!p(self.devices@[i as int]));
                    }
                    assert(fi == i as int);
                }
                let stamp = rfc3339_utc(now);
                let dref = &mut self.devices[i];
                dref.last_sync_at = Some(stamp);
                return true;
            }
            proof {
                assert(!p(self.devices@[i as int]));
            }
            i = i + 1;
        }
        proof {
            if fi >= 0 {
                assert(!p(self.devices@[fi]));
            }
        }
        false
    }
}

/// Revoking a device invalidates its token: after `revoke_device` on an
/// identifier, `validate_token` is false for that identifier whatever token
/// is presented, because the first record under the identifier is no longer
/// active.
pub proof fn lemma_revoked_token_invalid(
    ds: Seq<PairedDevice>,
    id: Seq<char>,
    token: Seq<char>,
)
    ensures
        ({
            let j = find_first(ds, revokable_pred(id));
            let after = if j < 0 {
                ds
            } else {
                ds.update(j, device_with_status(ds[j], PairedDeviceStatus::Revoked))
            };
            j >= 0 ==> !spec_validate(after, id, token)
        }),
{
    let p = device_id_pred(id);
    let q = revokable_pred(id);
    let j = find_first(ds, q);
    lemma_find_first(ds, q);
    if j >= 0 {
        let after = ds.update(j, device_with_status(ds[j], PairedDeviceStatus::Revoked));
        let i = device_idx(after, id);
        lemma_find_first(after, p);
        lemma_find_first(ds, p);
        let i0 = device_idx(ds, id);
        // the identifier occurs at j, so a first occurrence exists in both
        assert(p(after[j]));
        assert(i >= 0);
        assert(p(ds[j]));
        assert(i0 >= 0);
        assert(i0 <= j);
        // positions below i0 match the identifier in neither sequence
        assert forall|k: int| 0 <= k < i0 implies !p(#[trigger] after[k]) by {
            assert(!p(ds[k]));
            if k != j {
                assert(after[k] == ds[k]);
            }
        }
        assert(p(after[i0]));
        assert(i == i0);
        if after[i].status == PairedDeviceStatus::Active {
            // the first record under the identifier is still active, so it
            // was not the one revoked and was already active before
            assert(i != j || after[j].status == PairedDeviceStatus::Revoked);
            assert(i < j);
            assert(!q(ds[i]));
            assert(ds[i].status == PairedDeviceStatus::Revoked);
            assert(after[i] == ds[i]);
        }
    }
}

} // verus!