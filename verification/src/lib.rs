//! A tty line-discipline layer.
//!
//! A driver registers itself and then its devices, obtaining indices for
//! both.  The driver feeds raw input with [`tty_receive_buf`]; the kernel
//! drains cooked lines with [`tty_read`] and writes output with
//! [`tty_write`], naming the device.  All state lives in a [`TtyRegistry`]
//! built once by [`init`] and passed by the caller to every entry point;
//! within one device, deliveries and reads are serialized by the caller
//! holding the registry mutably.

use vstd::prelude::*;

pub mod buffer;
pub mod driver;
pub mod ldisc;
pub mod tty;

pub use driver::{get_driver_by_index, register_device, register_driver, TtyDriver, TtyDriverOps};
pub use tty::{
    get_all_device_names, get_device_by_index, get_device_by_name, set_device_nonblocking,
    ConsoleWinSize, TtyRegistry, TtyStruct,
};

use crate::buffer::fill_lossy;
use crate::driver::emit_bytes;
use crate::ldisc::{run, LdiscState};
use crate::tty::{first_device_with_name, position_by_name, same_device_except_ldisc};
use vstd::string::StringExecFns;

verus! {

/// Build the registry every other entry point works on; it starts with no
/// drivers and no devices.
pub fn init<F: Fn(u8)>() -> (r: TtyRegistry<F>)
    ensures
        r.wf(),
        r.drivers@ == Seq::<TtyDriver<F>>::empty(),
        r.devices@ == Seq::<TtyStruct>::empty(),
{
    TtyRegistry::new()
}

/// Called by a driver on interrupt to deliver raw bytes from device
/// `device_index` of driver `driver_index`; a no-op when either index does
/// not resolve.
///
/// The bytes run through the device's line discipline exactly as [`run`]
/// describes, and every byte the discipline echoes is handed back, in order,
/// to the driver's `putchar`.
pub fn tty_receive_buf<F: Fn(u8)>(
    reg: &mut TtyRegistry<F>,
    driver_index: usize,
    device_index: usize,
    buf: &[u8],
)
    requires
        old(reg).wf(),
    ensures
        final(reg).wf(),
        !(driver_index < old(reg).drivers@.len() && device_index < old(
            reg,
        ).drivers@[driver_index as int].ttys@.len()) ==> *final(reg) == *old(reg),
        (driver_index < old(reg).drivers@.len() && device_index < old(
            reg,
        ).drivers@[driver_index as int].ttys@.len()) ==> ({
            let g = old(reg).drivers@[driver_index as int].ttys@[device_index as int] as int;
            let l0 = old(reg).devices@[g].ldisc@;
            &&& final(reg).drivers@ == old(reg).drivers@
            &&& final(reg).devices@.len() == old(reg).devices@.len()
            &&& (forall|i: int|
                0 <= i < old(reg).devices@.len() && i != g ==> final(reg).devices@[i] == old(
                    reg,
                ).devices@[i])
            &&& final(reg).devices@[g].ldisc@ == run(
                (LdiscState { rec: fill_lossy(l0.rec, buf@), ..l0 }),
            ).0
            &&& final(reg).devices@[g].ldisc.wf()
            &&& same_device_except_ldisc(final(reg).devices@[g], old(reg).devices@[g])
        }),
{
    if driver_index < reg.drivers.len() {
        if device_index < reg.drivers[driver_index].ttys.len() {
            let g = reg.drivers[driver_index].ttys[device_index];
            let ghost devices0 = reg.devices@;
            let mut dev = reg.devices.remove(g);
            let echo = dev.ldisc.receive_buf(buf);
            reg.devices.insert(g, dev);
            proof {
                assert(reg.devices@ =~= devices0.update(g as int, reg.devices@[g as int]));
            }
            emit_bytes(&reg.drivers[driver_index], echo.as_slice());
        }
    }
}

/// Called by the kernel to read cooked input from the device named
/// `dev_name`: fills `buf` from the device's completed lines and flushes
/// what remains; returns 0 without touching `buf` when no device has that
/// name.
pub fn tty_read<F: Fn(u8)>(reg: &mut TtyRegistry<F>, buf: &mut Vec<u8>, dev_name: &str) -> (n:
    usize)
    requires
        old(reg).wf(),
    ensures
        final(reg).wf(),
        final(buf)@.len() == old(buf)@.len(),
        first_device_with_name(old(reg).devices@, dev_name@) is None ==> n == 0 && *final(reg)
            == *old(reg) && final(buf)@ == old(buf)@,
        first_device_with_name(old(reg).devices@, dev_name@) is Some ==> ({
            let d = first_device_with_name(old(reg).devices@, dev_name@)->0;
            let l0 = old(reg).devices@[d].ldisc@;
            &&& n == (if old(buf)@.len() <= l0.read.len() {
                old(buf)@.len() as int
            } else {
                l0.read.len() as int
            })
            &&& (forall|i: int| 0 <= i < n ==> final(buf)@[i] == l0.read[i])
            &&& (forall|i: int| n <= i < old(buf)@.len() ==> final(buf)@[i] == old(buf)@[i])
            &&& final(reg).drivers@ == old(reg).drivers@
            &&& final(reg).devices@.len() == old(reg).devices@.len()
            &&& (forall|i: int|
                0 <= i < old(reg).devices@.len() && i != d ==> final(reg).devices@[i] == old(
                    reg,
                ).devices@[i])
            &&& final(reg).devices@[d].ldisc@ == (if n > 0 {
                (LdiscState { read: Seq::<u8>::empty(), ..l0 })
            } else {
                l0
            })
            &&& final(reg).devices@[d].ldisc.wf()
            &&& same_device_except_ldisc(final(reg).devices@[d], old(reg).devices@[d])
        }),
{
    let owned = dev_name.to_owned();
    match position_by_name(&reg.devices, &owned) {
        Some(d) => {
            let ghost devices0 = reg.devices@;
            let mut dev = reg.devices.remove(d);
            let n = dev.ldisc.read(buf);
            reg.devices.insert(d, dev);
            proof {
                assert(reg.devices@ =~= devices0.update(d as int, reg.devices@[d as int]));
            }
            n
        },
        None => 0,
    }
}

/// Called by the kernel to write `buf` to the device named `dev_name`: each
/// byte is handed, in order, to the device's driver `putchar`, and the count
/// written is returned; 0 when no device has that name.
pub fn tty_write<F: Fn(u8)>(reg: &TtyRegistry<F>, buf: &[u8], dev_name: &str) -> (n: usize)
    requires
        reg.wf(),
    ensures
        first_device_with_name(reg.devices@, dev_name@) is Some ==> n == buf@.len(),
        first_device_with_name(reg.devices@, dev_name@) is None ==> n == 0,
{
    let owned = dev_name.to_owned();
    match position_by_name(&reg.devices, &owned) {
        Some(d) => {
            let di = reg.devices[d].driver;
            emit_bytes(&reg.drivers[di], buf);
            buf.len()
        },
        None => 0,
    }
}

} // verus!
