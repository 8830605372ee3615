//! Tty devices and the process-wide registry.
//!
//! A [`TtyStruct`] binds a line discipline instance to its driver and owns an
//! index and a name.  The [`TtyRegistry`] is the single registry object that
//! replaces ambient global tables: it owns every driver and every device,
//! append-only, and is passed by reference to every entry point.  Devices
//! refer to their shared driver by its index in the table.

use vstd::prelude::*;
use vstd::string::StringExecFns;

use crate::driver::TtyDriver;
use crate::ldisc::{new_ldisc, LdiscIndex, LdiscState, TtyLdisc};

verus! {

/// Size of the console window, read by the terminal-control shim; all zeros
/// by default.
#[derive(Clone, Copy, PartialEq, Eq, Structural, Debug)]
pub struct ConsoleWinSize {
    pub ws_row: u16,
    pub ws_col: u16,
    pub ws_xpixel: u16,
    pub ws_ypixel: u16,
}

impl Default for ConsoleWinSize {
    fn default() -> (r: ConsoleWinSize)
        ensures
            r == (ConsoleWinSize { ws_row: 0, ws_col: 0, ws_xpixel: 0, ws_ypixel: 0 }),
    {
        ConsoleWinSize { ws_row: 0, ws_col: 0, ws_xpixel: 0, ws_ypixel: 0 }
    }
}

/// A tty device: its driver (as an index into the registry's driver table),
/// its line discipline, its per-driver index, its name, and the plain fields
/// the terminal-control shim reads and toggles.
pub struct TtyStruct {
    /// Position of the owning driver in the registry's driver table.
    pub driver: usize,
    /// The device's line discipline.
    pub ldisc: TtyLdisc,
    /// Index of the device among its driver's devices, granted at
    /// registration.
    pub index: usize,
    /// Name of the device, granted at registration.
    pub name: String,
    /// Window size of the device, as the control shim reports it.
    pub winsize: ConsoleWinSize,
    /// Whether reads on the device were switched to non-blocking.
    pub nonblock: bool,
}

/// The two devices agree on everything but their line-discipline state:
/// entry points that only run bytes through the discipline leave the rest of
/// the device record alone.
pub open spec fn same_device_except_ldisc(a: TtyStruct, b: TtyStruct) -> bool {
    &&& a.driver == b.driver
    &&& a.index == b.index
    &&& a.name == b.name
    &&& a.winsize == b.winsize
    &&& a.nonblock == b.nonblock
}

impl TtyStruct {
    pub fn new(driver: usize) -> (r: TtyStruct)
        ensures
            r.driver == driver,
            r.index == 0,
            r.name@ == Seq::<char>::empty(),
            r.winsize == (ConsoleWinSize { ws_row: 0, ws_col: 0, ws_xpixel: 0, ws_ypixel: 0 }),
            r.nonblock == false,
            r.ldisc.wf(),
            r.ldisc@ == (LdiscState {
                read: Seq::<u8>::empty(),
                line: Seq::<u8>::empty(),
                col: 0,
                rec: Seq::<u8>::empty(),
            }),
    {
        TtyStruct {
            driver,
            ldisc: new_ldisc(LdiscIndex::NTty),
            index: 0,
            name: String::new(),
            winsize: ConsoleWinSize::default(),
            nonblock: false,
        }
    }

    /// The device's line discipline.
    pub fn ldisc(&self) -> (r: &TtyLdisc)
        ensures
            r == &self.ldisc,
    {
        &self.ldisc
    }

    /// Set the device index, once, at registration.
    pub fn set_index(&mut self, index: usize)
        ensures
            *final(self) == (TtyStruct { index, ..*old(self) }),
    {
        self.index = index;
    }

    /// Set the device name, once, at registration.
    pub fn set_name(&mut self, name: &str)
        ensures
            final(self).name@ == name@,
            final(self).driver == old(self).driver,
            final(self).ldisc == old(self).ldisc,
            final(self).index == old(self).index,
    {
        self.name = name.to_owned();
    }

    pub fn name(&self) -> (r: String)
        ensures
            r == self.name,
    {
        self.name.clone()
    }

    /// Switch the device's reads between blocking and non-blocking; the
    /// terminal-control shim toggles this flag.
    pub fn set_nonblocking(&mut self, nonblock: bool)
        ensures
            *final(self) == (TtyStruct { nonblock, ..*old(self) }),
    {
        self.nonblock = nonblock;
    }

    /// Window size of the device, as the control shim reports it.
    pub fn winsize(&self) -> (r: ConsoleWinSize)
        ensures
            r == self.winsize,
    {
        self.winsize
    }

    /// Position of the device's driver in the registry's driver table.
    pub fn driver(&self) -> (r: usize)
        ensures
            r == self.driver,
    {
        self.driver
    }
}

/// Position of the first device called `name`, if any: `register_device` may
/// grant two devices of different drivers the same name, and lookups return
/// the earliest registered.
pub open spec fn first_device_with_name(devs: Seq<TtyStruct>, name: Seq<char>) -> Option<int>
    decreases devs.len(),
{
    if devs.len() == 0 {
        None
    } else if devs[0].name@ == name {
        Some(0int)
    } else {
        match first_device_with_name(devs.skip(1), name) {
            None => None,
            Some(i) => Some(i + 1),
        }
    }
}

/// Position of the first device whose per-driver index is `index`, if any.
pub open spec fn first_device_with_index(devs: Seq<TtyStruct>, index: usize) -> Option<int>
    decreases devs.len(),
{
    if devs.len() == 0 {
        None
    } else if devs[0].index == index {
        Some(0int)
    } else {
        match first_device_with_index(devs.skip(1), index) {
            None => None,
            Some(i) => Some(i + 1),
        }
    }
}

/// The process-wide registry: every registered driver and device, in
/// registration order, both tables append-only.  Built once by
/// [`init`](crate::init) and passed to every entry point.
pub struct TtyRegistry<F> where F: Fn(u8) {
    /// All drivers; a driver's index is its position.
    pub drivers: Vec<TtyDriver<F>>,
    /// All devices, in registration order across all drivers.
    pub devices: Vec<TtyStruct>,
}

impl<F> TtyRegistry<F> where F: Fn(u8) {
    /// Registry invariant: driver indices match their positions, every
    /// device list entry points into the device table, every device names an
    /// existing driver and has a well-formed line discipline, and every
    /// driver's `putchar` accepts every byte.
    pub open spec fn wf(&self) -> bool {
        &&& (forall|i: int|
            0 <= i < self.drivers@.len() ==> (#[trigger] self.drivers@[i].index) == i)
        &&& (forall|i: int, j: int|
            0 <= i < self.drivers@.len() && 0 <= j < self.drivers@[i].ttys@.len()
                ==> (#[trigger] self.drivers@[i].ttys@[j]) < self.devices@.len())
        &&& (forall|d: int|
            0 <= d < self.devices@.len() ==> (#[trigger] self.devices@[d]).ldisc.wf())
        &&& (forall|d: int|
            0 <= d < self.devices@.len() ==> (#[trigger] self.devices@[d]).driver
                < self.drivers@.len())
        &&& (forall|i: int|
            0 <= i < self.drivers@.len() ==> (#[trigger] self.drivers@[i]).callable())
    }

    pub fn new() -> (r: TtyRegistry<F>)
        ensures
            r.wf(),
            r.drivers@ == Seq::<TtyDriver<F>>::empty(),
            r.devices@ == Seq::<TtyStruct>::empty(),
    {
        TtyRegistry { drivers: Vec::new(), devices: Vec::new() }
    }
}

/// Position in the device table of the first device called `name`, by linear
/// scan.
pub(crate) fn position_by_name(devices: &Vec<TtyStruct>, name: &String) -> (r: Option<usize>)
    ensures
        first_device_with_name(devices@, name@) == match r {
            Some(i) => Some(i as int),
            None => None::<int>,
        },
        r is Some ==> r->0 < devices@.len() && devices@[r->0 as int].name@ == name@,
    {
    let n = devices.len();
    let mut d: usize = 0;
    proof {
        assert(devices@.skip(0) =~= devices@);
    }
    while d < n
        invariant
            n == devices@.len(),
            d <= n,
            first_device_with_name(devices@, name@) == match first_device_with_name(
                devices@.skip(d as int),
                name@,
            ) {
                Some(i) => Some(i + d),
                None => None::<int>,
            },
            forall|j: int| 0 <= j < d ==> (#[trigger] devices@[j].name@) != name@,
        decreases n - d,
    {
        proof {
            assert(devices@.skip(d as int).len() == n - d);
            assert(devices@.skip(d as int)[0] == devices@[d as int]);
            assert(devices@.skip(d as int).skip(1) =~= devices@.skip(d + 1));
        }
        if devices[d].name.eq(name) {
            proof {
                assert(first_device_with_name(devices@.skip(d as int), name@) == Some(0int));
            }
            return Some(d);
        }
        proof {
            assert(first_device_with_name(devices@.skip(d as int), name@)
                == match first_device_with_name(devices@.skip(d + 1), name@) {
                None => None::<int>,
                Some(i) => Some(i + 1),
            });
        }
        d = d + 1;
    }
    proof {
        assert(devices@.skip(n as int).len() == 0);
    }
    None
}

/// Called by the kernel to get the first device named `name`.
pub fn get_device_by_name<'a, F: Fn(u8)>(reg: &'a TtyRegistry<F>, name: &str) -> (r: Option<
    &'a TtyStruct,
>)
    ensures
        match first_device_with_name(reg.devices@, name@) {
            Some(i) => r == Some(&reg.devices@[i]),
            None => r is None,
        },
    {
    let owned = name.to_owned();
    match position_by_name(&reg.devices, &owned) {
        Some(d) => Some(&reg.devices[d]),
        None => None,
    }
}

/// Called by the kernel to get the first device whose per-driver index is
/// `index`; with several drivers, indices repeat and the earliest registered
/// device wins.
pub fn get_device_by_index<'a, F: Fn(u8)>(reg: &'a TtyRegistry<F>, index: usize) -> (r: Option<
    &'a TtyStruct,
>)
    ensures
        match first_device_with_index(reg.devices@, index) {
            Some(i) => r == Some(&reg.devices@[i]),
            None => r is None,
        },
    {
    let n = reg.devices.len();
    let mut d: usize = 0;
    proof {
        assert(reg.devices@.skip(0) =~= reg.devices@);
    }
    while d < n
        invariant
            n == reg.devices@.len(),
            d <= n,
            first_device_with_index(reg.devices@, index) == match first_device_with_index(
                reg.devices@.skip(d as int),
                index,
            ) {
                Some(i) => Some(i + d),
                None => None::<int>,
            },
        decreases n - d,
    {
        proof {
            assert(reg.devices@.skip(d as int).len() == n - d);
            assert(reg.devices@.skip(d as int)[0] == reg.devices@[d as int]);
            assert(reg.devices@.skip(d as int).skip(1) =~= reg.devices@.skip(d + 1));
        }
        if reg.devices[d].index == index {
            proof {
                assert(first_device_with_index(reg.devices@.skip(d as int), index) == Some(0int));
            }
            return Some(&reg.devices[d]);
        }
        proof {
            assert(first_device_with_index(reg.devices@.skip(d as int), index)
                == match first_device_with_index(reg.devices@.skip(d + 1), index) {
                None => None::<int>,
                Some(i) => Some(i + 1),
            });
        }
        d = d + 1;
    }
    proof {
        assert(reg.devices@.skip(n as int).len() == 0);
    }
    None
}

/// Toggle the non-blocking flag of the first device named `name`, leaving
/// everything else alone; returns whether such a device exists.  The
/// terminal-control shim calls this for its non-blocking request.
pub fn set_device_nonblocking<F: Fn(u8)>(
    reg: &mut TtyRegistry<F>,
    name: &str,
    nonblock: bool,
) -> (found: bool)
    requires
        old(reg).wf(),
    ensures
        final(reg).wf(),
        found == (first_device_with_name(old(reg).devices@, name@) is Some),
        !found ==> *final(reg) == *old(reg),
        found ==> ({
            let d = first_device_with_name(old(reg).devices@, name@)->0;
            &&& final(reg).drivers@ == old(reg).drivers@
            &&& final(reg).devices@.len() == old(reg).devices@.len()
            &&& (forall|i: int|
                0 <= i < old(reg).devices@.len() && i != d ==> final(reg).devices@[i] == old(
                    reg,
                ).devices@[i])
            &&& final(reg).devices@[d] == (TtyStruct { nonblock, ..old(reg).devices@[d] })
        }),
{
    let owned = name.to_owned();
    match position_by_name(&reg.devices, &owned) {
        Some(d) => {
            let ghost devices0 = reg.devices@;
            let mut dev = reg.devices.remove(d);
            dev.set_nonblocking(nonblock);
            reg.devices.insert(d, dev);
            proof {
                assert(reg.devices@ =~= devices0.update(d as int, reg.devices@[d as int]));
            }
            true
        },
        None => false,
    }
}

/// Called by the kernel to list every device's name, in registration order.
pub fn get_all_device_names<F: Fn(u8)>(reg: &TtyRegistry<F>) -> (r: Vec<String>)
    ensures
        r@.len() == reg.devices@.len(),
        forall|i: int| 0 <= i < r@.len() ==> (#[trigger] r@[i]) == reg.devices@[i].name,
    {
    let n = reg.devices.len();
    let mut names: Vec<String> = Vec::new();
    let mut d: usize = 0;
    while d < n
        invariant
            n == reg.devices@.len(),
            d <= n,
            names@.len() == d,
            forall|i: int| 0 <= i < d ==> (#[trigger] names@[i]) == reg.devices@[i].name,
        decreases n - d,
    {
        names.push(reg.devices[d].name.clone());
        d = d + 1;
    }
    names
}

} // verus!
