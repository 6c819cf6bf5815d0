use vstd::prelude::*;

use crate::device::Device;
use crate::device::read_result;
use crate::device::written_contents;
use crate::errors::VdevError;

verus! {

/// The access intent a host declares when it opens a device node. Only a
/// write-only open discards the device's contents.
#[derive(Clone, Copy, Debug, PartialEq, Eq, Structural)]
pub enum AccessMode {
    ReadOnly,
    WriteOnly,
    ReadWrite,
}

/// The device count the module is loaded with: the configured parameter when
/// one is present, 1 otherwise.
pub fn resolve_device_count(configured: Option<u32>) -> (count: u32)
    ensures
        count == match configured {
            Some(c) => c,
            None => 1u32,
        },
{
    match configured {
        Some(c) => c,
        None => 1,
    }
}

/// Mask selecting the access-mode bits of a host open-flags word.
pub const O_ACCMODE: u32 = 3;

/// Access-mode bit patterns of a host open-flags word.
pub const O_RDONLY: u32 = 0;

pub const O_WRONLY: u32 = 1;

pub const O_RDWR: u32 = 2;

/// The access mode encoded in a host open-flags word: only the pattern
/// `O_WRONLY` in the access-mode bits counts as write-only; anything else
/// leaves contents untouched at open.
pub open spec fn spec_access_mode(flags: u32) -> AccessMode {
    if flags & O_ACCMODE == O_WRONLY {
        AccessMode::WriteOnly
    } else if flags & O_ACCMODE == O_RDWR {
        AccessMode::ReadWrite
    } else {
        AccessMode::ReadOnly
    }
}

/// Decodes the access mode a host passed in its open-flags word.
pub fn access_mode_from_flags(flags: u32) -> (mode: AccessMode)
    ensures
        mode == spec_access_mode(flags),
{
    let acc = flags & O_ACCMODE;
    if acc == O_WRONLY {
        AccessMode::WriteOnly
    } else if acc == O_RDWR {
        AccessMode::ReadWrite
    } else {
        AccessMode::ReadOnly
    }
}

/// The module's top-level object: a fixed collection of devices, one per
/// configured index, dispatching the host's open/read/write calls to the
/// addressed device. The view is the sequence of device contents, in index
/// order.
pub struct DeviceManager {
    devices: Vec<Device>,
}

impl View for DeviceManager {
    type V = Seq<Seq<u8>>;

    closed spec fn view(&self) -> Seq<Seq<u8>> {
        Seq::new(self.devices@.len(), |i: int| self.devices@[i]@)
    }
}

impl DeviceManager {
    /// Each device carries the index it was created at; the count never
    /// changes after construction.
    pub closed spec fn wf(&self) -> bool {
        forall|i: int|
            0 <= i < self.devices@.len() ==> (#[trigger] self.devices@[i]).spec_number() == i
    }

    /// Builds `count` devices, numbered `0..count`, all with empty contents.
    pub fn new(count: usize) -> (m: DeviceManager)
        ensures
            m.wf(),
            m@.len() == count,
            forall|i: int| 0 <= i < count ==> m@[i] == Seq::<u8>::empty(),
    {
        let mut devices: Vec<Device> = Vec::new();
        let mut i: usize = 0;
        while i < count
            invariant
                i <= count,
                devices@.len() == i,
                forall|j: int|
                    0 <= j < i ==> (#[trigger] devices@[j]).spec_number() == j && devices@[j]@
                        == Seq::<u8>::empty(),
            decreases count - i,
        {
            devices.push(Device::new(i));
            i += 1;
        }
        DeviceManager { devices }
    }

    pub fn device_count(&self) -> (n: usize)
        ensures
            n == self@.len(),
    {
        self.devices.len()
    }

    /// The open entry point for the node of device `index`: a write-only open
    /// discards that device's contents; any other mode leaves every device
    /// untouched. Returns the context for subsequent reads and writes on the
    /// opened file, which addresses the same device.
    pub fn open(&mut self, index: usize, mode: AccessMode) -> (ctx: usize)
        requires
            index < old(self)@.len(),
        ensures
            ctx == index,
            old(self).wf() ==> final(self).wf(),
            mode == AccessMode::WriteOnly ==> final(self)@ == old(self)@.update(
                index as int,
                Seq::<u8>::empty(),
            ),
            mode != AccessMode::WriteOnly ==> final(self)@ == old(self)@,
    {
        if mode == AccessMode::WriteOnly {
            let d = &mut self.devices[index];
            d.truncate();
            proof {
                assert(self@ =~~= old(self)@.update(index as int, Seq::<u8>::empty()));
                if old(self).wf() {
                    assert forall|i: int| 0 <= i < self.devices@.len() implies (
                    #[trigger] self.devices@[i]).spec_number() == i by {
                        if i != index {
                            assert(self.devices@[i] == old(self).devices@[i]);
                        }
                    }
                }
            }
        } else {
            proof {
                assert(self@ =~~= old(self)@);
            }
        }
        index
    }

    /// The read entry point: delegates to the addressed device's clamped
    /// read. Fails only when the offset cannot be represented in the native
    /// size type; the manager is never changed.
    pub fn read(&self, index: usize, offset: u64, max_len: usize) -> (r: Result<
        Vec<u8>,
        VdevError,
    >)
        requires
            index < self@.len(),
        ensures
            offset <= usize::MAX as u64 ==> (r matches Ok(v) && v@ == read_result(
                self@[index as int],
                offset as int,
                max_len as int,
            )),
            offset > usize::MAX as u64 ==> r == Err::<Vec<u8>, VdevError>(VdevError::InvalidOffset),
    {
        if offset > usize::MAX as u64 {
            return Err(VdevError::InvalidOffset);
        }
        let d = &self.devices[index];
        Ok(d.read_at(offset as usize, max_len))
    }

    /// The write entry point: delegates to the addressed device's growing
    /// write. Fails when the offset cannot be represented, or when
    /// `offset + data.len()` overflows; a failed write changes nothing, a
    /// successful one changes exactly the addressed device and reports the
    /// full count written. Devices other than `index` are never affected.
    pub fn write(&mut self, index: usize, offset: u64, data: &[u8]) -> (r: Result<
        usize,
        VdevError,
    >)
        requires
            index < old(self)@.len(),
        ensures
            old(self).wf() ==> final(self).wf(),
            final(self)@.len() == old(self)@.len(),
            forall|j: int|
                0 <= j < old(self)@.len() && j != index ==> final(self)@[j] == old(self)@[j],
            offset > usize::MAX as u64 ==> {
                &&& r == Err::<usize, VdevError>(VdevError::InvalidOffset)
                &&& final(self)@ == old(self)@
            },
            offset <= usize::MAX as u64 && offset + data@.len() > usize::MAX ==> {
                &&& r == Err::<usize, VdevError>(VdevError::OffsetOverflow)
                &&& final(self)@ == old(self)@
            },
            offset <= usize::MAX as u64 && offset + data@.len() <= usize::MAX ==> {
                &&& r == Ok::<usize, VdevError>(data@.len() as usize)
                &&& final(self)@ == old(self)@.update(
                    index as int,
                    written_contents(old(self)@[index as int], offset as int, data@),
                )
            },
    {
        if offset > usize::MAX as u64 {
            proof {
                assert(self@ =~~= old(self)@);
            }
            return Err(VdevError::InvalidOffset);
        }
        let off = offset as usize;
        let d = &mut self.devices[index];
        let r = d.write_at(off, data);
        proof {
            if off + data@.len() <= usize::MAX {
                assert(self@ =~~= old(self)@.update(
                    index as int,
                    written_contents(old(self)@[index as int], off as int, data@),
                ));
            } else {
                assert(self@ =~~= old(self)@);
            }
            if old(self).wf() {
                assert forall|i: int| 0 <= i < self.devices@.len() implies (
                #[trigger] self.devices@[i]).spec_number() == i by {
                    if i != index {
                        assert(self.devices@[i] == old(self).devices@[i]);
                    }
                }
            }
        }
        r
    }
}

} // verus!
