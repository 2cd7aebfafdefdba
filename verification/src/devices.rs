//! Numbering of the input devices that the window system reports.

use crate::game::DeviceNumber;
use vstd::prelude::*;

verus! {

/// The window system's own identity of a device, [`winit::event::DeviceId`]: a value that can be
/// copied and compared, and nothing else.
#[verifier::external_type_specification]
#[verifier::external_body]
pub struct ExWinitDeviceId(winit::event::DeviceId);

/// Compares two [`winit::event::DeviceId`] with `==`, which the type derives: they are equal
/// exactly when they are the same value.
#[verifier::external_body]
fn same_device(a: &winit::event::DeviceId, b: &winit::event::DeviceId) -> (r: bool)
    ensures
        r == (*a == *b),
{
    a == b
}

/// The devices met so far, in order of appearance.
pub struct DeviceTable {
    seen: Vec<winit::event::DeviceId>,
}

impl View for DeviceTable {
    type V = Seq<winit::event::DeviceId>;

    closed spec fn view(&self) -> Seq<winit::event::DeviceId> {
        self.seen@
    }
}

impl DeviceTable {
    /// No device is listed twice.
    pub open spec fn wf(&self) -> bool {
        self@.no_duplicates()
    }

    /// A table without devices.
    pub fn new() -> (t: DeviceTable)
        ensures
            t.wf(),
            t@ == Seq::<winit::event::DeviceId>::empty(),
    {
        DeviceTable { seen: Vec::new() }
    }

    /// The number of `device`: its place in the table, which it gets when it first appears.
    pub fn number(&mut self, device: winit::event::DeviceId) -> (r: DeviceNumber)
        requires
            old(self).wf(),
        ensures
            final(self).wf(),
            r.id < final(self)@.len(),
            final(self)@[r.id as int] == device,
            old(self)@.contains(device) ==> final(self)@ == old(self)@,
            !old(self)@.contains(device) ==> final(self)@ == old(self)@.push(device),
    {
        let mut i: usize = 0;
        while i < self.seen.len()
            invariant
                i <= self.seen@.len(),
                self.seen@ == old(self)@,
                self.wf(),
                forall|j: int| 0 <= j < i ==> #[trigger] self.seen@[j] != device,
            decreases self.seen@.len() - i,
        {
            if same_device(&self.seen[i], &device) {
                return DeviceNumber { id: i as u64 };
            }
            i += 1;
        }
        self.seen.push(device);
        DeviceNumber { id: i as u64 }
    }
}

/// Numbers stand for devices: two places of a table hold the same device only if they are the same
/// place.
pub proof fn law_numbers_identify_devices(table: DeviceTable, a: DeviceNumber, b: DeviceNumber)
    requires
        table.wf(),
        a.id < table@.len(),
        b.id < table@.len(),
    ensures
        a == b <==> table@[a.id as int] == table@[b.id as int],
{
}

/// Devices are numbered in order of appearance, and numbers last: the table only ever grows at its
/// end, a new device gets the next number, and nobody's number changes.
pub proof fn law_numbers_last(
    table: &mut DeviceTable,
    device: winit::event::DeviceId,
    r: DeviceNumber,
    known: int,
)
    requires
        call_ensures(DeviceTable::number, (table, device), r),
    ensures
        0 <= known < old(table)@.len() ==> final(table)@[known] == old(table)@[known],
        0 <= known < old(table)@.len() && device == old(table)@[known] ==> r.id == known
            && final(table)@.len() == old(table)@.len(),
        (forall|k: int| 0 <= k < old(table)@.len() ==> #[trigger] old(table)@[k] != device)
            ==> r.id == old(table)@.len() && final(table)@.len() == old(table)@.len() + 1,
{
}

/// Two devices that are numbered one after the other get one number exactly if they are the same
/// device.
pub proof fn law_same_number_for_the_same_device(
    first: &mut DeviceTable,
    second: &mut DeviceTable,
    devices: (winit::event::DeviceId, winit::event::DeviceId),
    numbers: (DeviceNumber, DeviceNumber),
)
    requires
        call_ensures(DeviceTable::number, (first, devices.0), numbers.0),
        call_ensures(DeviceTable::number, (second, devices.1), numbers.1),
        old(second)@ == final(first)@,
    ensures
        numbers.0 == numbers.1 <==> devices.0 == devices.1,
{
    let (a, b) = (numbers.0.id as int, numbers.1.id as int);
    assert(final(second)@[a] == devices.0);
    assert(final(second)@[b] == devices.1);
}

/// A new table knows no device.
pub proof fn law_new_table_is_empty(table: DeviceTable)
    requires
        call_ensures(DeviceTable::new, (), table),
    ensures
        table@.len() == 0,
{
}

} // verus!
