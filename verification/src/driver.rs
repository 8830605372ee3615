//! Tty drivers and registration.
//!
//! A driver registers itself first and is granted an index; it then registers
//! every device it found, each of which is granted a per-driver index and a
//! name made of the driver name and one hex digit.  Both tables live in a
//! [`TtyRegistry`](crate::tty::TtyRegistry) that the caller owns and passes
//! to every entry point.
//!
//! A driver's sole operation is `putchar`, the callback the line discipline
//! echoes and writes through; it is any `Fn(u8)` the driver supplies.

use vstd::prelude::*;

use vstd::string::StringExecFns;

use crate::ldisc::LdiscState;
use crate::tty::{ConsoleWinSize, TtyRegistry, TtyStruct};

verus! {

/// The operations a tty driver must implement, passed by the driver when
/// registering itself.
pub struct TtyDriverOps<F> where F: Fn(u8) {
    /// Push one byte out to the device.
    pub putchar: F,
}

/// A registered tty driver: its output callback, the devices it controls
/// (as positions in the registry's device table), its index and its name.
pub struct TtyDriver<F> where F: Fn(u8) {
    /// Driver operations.
    pub ops: TtyDriverOps<F>,
    /// The driver's devices, each a position in the registry's device table,
    /// in registration order.
    pub ttys: Vec<usize>,
    /// Index of the driver, equal to its position in the driver table.
    pub index: usize,
    /// Name of the driver.
    pub name: String,
}

impl<F> TtyDriver<F> where F: Fn(u8) {
    /// Every byte can be handed to this driver's `putchar`.
    pub open spec fn callable(&self) -> bool {
        forall|b: u8| #[trigger] call_requires(self.ops.putchar, (b,))
    }

    pub fn new(ops: TtyDriverOps<F>, name: &str) -> (r: TtyDriver<F>)
        ensures
            r.ops == ops,
            r.ttys@ == Seq::<usize>::empty(),
            r.index == 0,
            r.name@ == name@,
    {
        TtyDriver { ops, ttys: Vec::new(), index: 0, name: name.to_owned() }
    }

    pub fn name(&self) -> (r: String)
        ensures
            r == self.name,
    {
        self.name.clone()
    }

    pub fn index(&self) -> (r: usize)
        ensures
            r == self.index,
    {
        self.index
    }
}

/// Hand every byte of `bytes`, in order, to the driver's `putchar`.
pub(crate) fn emit_bytes<F: Fn(u8)>(driver: &TtyDriver<F>, bytes: &[u8])
    requires
        driver.callable(),
{
    let mut i: usize = 0;
    while i < bytes.len()
        invariant
            driver.callable(),
            i <= bytes@.len(),
        decreases bytes@.len() - i,
    {
        (driver.ops.putchar)(bytes[i]);
        i = i + 1;
    }
}

/// The driver at position `index` in the driver table, or `None` when no
/// driver has that index.
pub fn get_driver_by_index<'a, F: Fn(u8)>(reg: &'a TtyRegistry<F>, index: usize) -> (r: Option<
    &'a TtyDriver<F>,
>)
    requires
        reg.wf(),
    ensures
        index < reg.drivers@.len() ==> r == Some(&reg.drivers@[index as int]),
        index >= reg.drivers@.len() ==> r is None,
{
    if index < reg.drivers.len() {
        Some(&reg.drivers[index])
    } else {
        None
    }
}

/// Hex digit that names device `i` of a driver.
pub open spec fn hex_digit(i: int) -> char {
    if i == 0 {
        '0'
    } else if i == 1 {
        '1'
    } else if i == 2 {
        '2'
    } else if i == 3 {
        '3'
    } else if i == 4 {
        '4'
    } else if i == 5 {
        '5'
    } else if i == 6 {
        '6'
    } else if i == 7 {
        '7'
    } else if i == 8 {
        '8'
    } else if i == 9 {
        '9'
    } else if i == 10 {
        'a'
    } else if i == 11 {
        'b'
    } else if i == 12 {
        'c'
    } else if i == 13 {
        'd'
    } else if i == 14 {
        'e'
    } else {
        'f'
    }
}

fn hex_digit_str(i: usize) -> (s: &'static str)
    requires
        i < 16,
    ensures
        s@ == seq![hex_digit(i as int)],
{
    if i == 0 {
        proof {
            reveal_strlit("0");
        }
        "0"
    } else if i == 1 {
        proof {
            reveal_strlit("1");
        }
        "1"
    } else if i == 2 {
        proof {
            reveal_strlit("2");
        }
        "2"
    } else if i == 3 {
        proof {
            reveal_strlit("3");
        }
        "3"
    } else if i == 4 {
        proof {
            reveal_strlit("4");
        }
        "4"
    } else if i == 5 {
        proof {
            reveal_strlit("5");
        }
        "5"
    } else if i == 6 {
        proof {
            reveal_strlit("6");
        }
        "6"
    } else if i == 7 {
        proof {
            reveal_strlit("7");
        }
        "7"
    } else if i == 8 {
        proof {
            reveal_strlit("8");
        }
        "8"
    } else if i == 9 {
        proof {
            reveal_strlit("9");
        }
        "9"
    } else if i == 10 {
        proof {
            reveal_strlit("a");
        }
        "a"
    } else if i == 11 {
        proof {
            reveal_strlit("b");
        }
        "b"
    } else if i == 12 {
        proof {
            reveal_strlit("c");
        }
        "c"
    } else if i == 13 {
        proof {
            reveal_strlit("d");
        }
        "d"
    } else if i == 14 {
        proof {
            reveal_strlit("e");
        }
        "e"
    } else {
        proof {
            reveal_strlit("f");
        }
        "f"
    }
}

/// Called by a driver to register itself; grants and returns the driver's
/// index.  Never fails.  The driver's `putchar` must accept every byte.
pub fn register_driver<F: Fn(u8)>(reg: &mut TtyRegistry<F>, ops: TtyDriverOps<F>, name: &str) -> (r:
    usize)
    requires
        old(reg).wf(),
        forall|b: u8| #[trigger] call_requires(ops.putchar, (b,)),
    ensures
        final(reg).wf(),
        r == old(reg).drivers@.len(),
        final(reg).drivers@.len() == old(reg).drivers@.len() + 1,
        forall|i: int|
            0 <= i < old(reg).drivers@.len() ==> final(reg).drivers@[i] == old(reg).drivers@[i],
        final(reg).drivers@[r as int].ops == ops,
        final(reg).drivers@[r as int].index == r,
        final(reg).drivers@[r as int].name@ == name@,
        final(reg).drivers@[r as int].ttys@ == Seq::<usize>::empty(),
        final(reg).devices@ == old(reg).devices@,
    {
    let mut driver = TtyDriver::new(ops, name);
    let index = reg.drivers.len();
    driver.index = index;
    reg.drivers.push(driver);
    index
}

/// Called by a driver to register one device; grants and returns the
/// device's per-driver index, or -1 when no driver has `driver_index`.
///
/// The new device gets a fresh line discipline and the name made of the
/// driver's name and the hex digit of its index; it is appended both to the
/// driver's device list and to the registry's device table.  A driver's
/// sixteenth device would have no hex digit, so the caller keeps each driver
/// below sixteen devices.
pub fn register_device<F: Fn(u8)>(reg: &mut TtyRegistry<F>, driver_index: usize) -> (r: isize)
    requires
        old(reg).wf(),
        driver_index < old(reg).drivers@.len() ==> old(
            reg,
        ).drivers@[driver_index as int].ttys@.len() < 16,
    ensures
        final(reg).wf(),
        driver_index >= old(reg).drivers@.len() ==> r == -1 && *final(reg) == *old(reg),
        driver_index < old(reg).drivers@.len() ==> {
            let d = driver_index as int;
            let k = old(reg).drivers@[d].ttys@.len() as int;
            let g = old(reg).devices@.len() as int;
            &&& r == k
            &&& final(reg).devices@.len() == g + 1
            &&& (forall|i: int| 0 <= i < g ==> final(reg).devices@[i] == old(reg).devices@[i])
            &&& final(reg).devices@[g].driver == d
            &&& final(reg).devices@[g].index == k
            &&& final(reg).devices@[g].name@ == old(reg).drivers@[d].name@ + seq![hex_digit(k)]
            &&& final(reg).devices@[g].ldisc.wf()
            &&& final(reg).devices@[g].winsize == (ConsoleWinSize {
                ws_row: 0,
                ws_col: 0,
                ws_xpixel: 0,
                ws_ypixel: 0,
            })
            &&& final(reg).devices@[g].nonblock == false
            &&& final(reg).devices@[g].ldisc@ == (LdiscState {
                read: Seq::<u8>::empty(),
                line: Seq::<u8>::empty(),
                col: 0,
                rec: Seq::<u8>::empty(),
            })
            &&& final(reg).drivers@.len() == old(reg).drivers@.len()
            &&& (forall|i: int|
                0 <= i < old(reg).drivers@.len() && i != d ==> final(reg).drivers@[i] == old(
                    reg,
                ).drivers@[i])
            &&& final(reg).drivers@[d].ttys@ == old(reg).drivers@[d].ttys@.push(g as usize)
            &&& final(reg).drivers@[d].ops == old(reg).drivers@[d].ops
            &&& final(reg).drivers@[d].index == old(reg).drivers@[d].index
            &&& final(reg).drivers@[d].name == old(reg).drivers@[d].name
        },
{
    if driver_index >= reg.drivers.len() {
        return -1;
    }
    let k = reg.drivers[driver_index].ttys.len();
    let g = reg.devices.len();
    let mut tty = TtyStruct::new(driver_index);
    tty.set_index(k);
    let mut name = reg.drivers[driver_index].name.clone();
    name.append(hex_digit_str(k));
    tty.name = name;
    reg.devices.push(tty);
    let drv = &mut reg.drivers[driver_index];
    drv.ttys.push(g);
    k as isize
}

} // verus!
