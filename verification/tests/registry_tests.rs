use std::sync::{Arc, Mutex};

use line_discipline::{
    get_all_device_names, get_device_by_index, get_device_by_name, get_driver_by_index, init,
    register_device, register_driver, tty_read, tty_receive_buf, tty_write, TtyDriverOps,
    TtyRegistry,
};

fn discard(_b: u8) {}

#[test]
fn device_naming() {
    let mut reg: TtyRegistry<fn(u8)> = init();
    let di = register_driver(&mut reg, TtyDriverOps { putchar: discard }, "tty");
    assert_eq!(di, 0);
    assert_eq!(register_device(&mut reg, di), 0);
    assert_eq!(register_device(&mut reg, di), 1);
    let names = get_all_device_names(&reg);
    assert_eq!(names, vec!["tty0".to_string(), "tty1".to_string()]);
}

#[test]
fn unknown_lookups_return_zero() {
    let mut reg: TtyRegistry<fn(u8)> = init();
    let di = register_driver(&mut reg, TtyDriverOps { putchar: discard }, "tty");
    register_device(&mut reg, di);
    let mut buf = vec![7u8; 4];
    assert_eq!(tty_read(&mut reg, &mut buf, "nonexistent"), 0);
    // The destination was not touched.
    assert_eq!(buf, vec![7u8; 4]);
    assert_eq!(tty_write(&reg, b"data", "nonexistent"), 0);
    assert!(get_device_by_name(&reg, "nonexistent").is_none());
}

#[test]
fn register_device_unknown_driver_fails() {
    let mut reg: TtyRegistry<fn(u8)> = init();
    assert_eq!(register_device(&mut reg, 0), -1);
    register_driver(&mut reg, TtyDriverOps { putchar: discard }, "tty");
    assert_eq!(register_device(&mut reg, 3), -1);
    assert_eq!(register_device(&mut reg, 0), 0);
}

#[test]
fn write_goes_through_driver_putchar() {
    let sink: Arc<Mutex<Vec<u8>>> = Arc::new(Mutex::new(Vec::new()));
    let tap = sink.clone();
    let putchar = move |b: u8| tap.lock().unwrap().push(b);
    let mut reg = init();
    let di = register_driver(&mut reg, TtyDriverOps { putchar }, "tty");
    register_device(&mut reg, di);
    assert_eq!(tty_write(&reg, b"hi there", "tty0"), 8);
    assert_eq!(sink.lock().unwrap().clone(), b"hi there".to_vec());
    // An unknown device writes nothing.
    assert_eq!(tty_write(&reg, b"xx", "tty9"), 0);
    assert_eq!(sink.lock().unwrap().len(), 8);
}

#[test]
fn receive_echoes_through_driver_and_feeds_read() {
    let sink: Arc<Mutex<Vec<u8>>> = Arc::new(Mutex::new(Vec::new()));
    let tap = sink.clone();
    let putchar = move |b: u8| tap.lock().unwrap().push(b);
    let mut reg = init();
    let di = register_driver(&mut reg, TtyDriverOps { putchar }, "tty");
    register_device(&mut reg, di);
    tty_receive_buf(&mut reg, 0, 0, b"ab\n");
    // Every input byte was echoed back through the driver.
    assert_eq!(sink.lock().unwrap().clone(), b"ab\n".to_vec());
    let mut buf = vec![0u8; 8];
    let n = tty_read(&mut reg, &mut buf, "tty0");
    assert_eq!(n, 3);
    assert_eq!(&buf[..3], b"ab\n");
    // The committed line was drained.
    assert_eq!(tty_read(&mut reg, &mut buf, "tty0"), 0);
}

#[test]
fn receive_with_bad_indices_is_noop() {
    let sink: Arc<Mutex<Vec<u8>>> = Arc::new(Mutex::new(Vec::new()));
    let tap = sink.clone();
    let putchar = move |b: u8| tap.lock().unwrap().push(b);
    let mut reg = init();
    let di = register_driver(&mut reg, TtyDriverOps { putchar }, "tty");
    register_device(&mut reg, di);
    tty_receive_buf(&mut reg, 1, 0, b"a\n");
    tty_receive_buf(&mut reg, 0, 1, b"a\n");
    assert_eq!(sink.lock().unwrap().len(), 0);
    let mut buf = vec![0u8; 8];
    assert_eq!(tty_read(&mut reg, &mut buf, "tty0"), 0);
}

#[test]
fn lookups_by_name_and_index() {
    let mut reg: TtyRegistry<fn(u8)> = init();
    let a = register_driver(&mut reg, TtyDriverOps { putchar: discard }, "tty");
    let b = register_driver(&mut reg, TtyDriverOps { putchar: discard }, "ttyS");
    register_device(&mut reg, a);
    register_device(&mut reg, b);
    register_device(&mut reg, b);
    let names = get_all_device_names(&reg);
    assert_eq!(
        names,
        vec!["tty0".to_string(), "ttyS0".to_string(), "ttyS1".to_string()]
    );
    let dev = get_device_by_name(&reg, "ttyS1").expect("device");
    assert_eq!(dev.name(), "ttyS1");
    assert_eq!(dev.driver(), b);
    // Per-driver indices repeat across drivers: the earliest registered wins.
    let first = get_device_by_index(&reg, 0).expect("device");
    assert_eq!(first.name(), "tty0");
    let second = get_device_by_index(&reg, 1).expect("device");
    assert_eq!(second.name(), "ttyS1");
    assert!(get_device_by_index(&reg, 9).is_none());
    let drv = get_driver_by_index(&reg, 1).expect("driver");
    assert_eq!(drv.name(), "ttyS");
    assert_eq!(drv.index(), 1);
    assert!(get_driver_by_index(&reg, 2).is_none());
}

#[test]
fn sixteen_device_names_use_hex_digits() {
    let mut reg: TtyRegistry<fn(u8)> = init();
    let di = register_driver(&mut reg, TtyDriverOps { putchar: discard }, "hvc");
    for i in 0..16 {
        assert_eq!(register_device(&mut reg, di), i);
    }
    let names = get_all_device_names(&reg);
    assert_eq!(names[9], "hvc9");
    assert_eq!(names[10], "hvca");
    assert_eq!(names[15], "hvcf");
}

#[test]
fn device_control_fields() {
    let mut reg: TtyRegistry<fn(u8)> = init();
    let di = register_driver(&mut reg, TtyDriverOps { putchar: discard }, "tty");
    register_device(&mut reg, di);
    let dev = get_device_by_name(&reg, "tty0").expect("device");
    let ws = dev.winsize();
    assert_eq!(ws.ws_row, 0);
    assert_eq!(ws.ws_col, 0);
    assert!(!dev.nonblock);
    assert_eq!(dev.ldisc().num(), 1);
}
