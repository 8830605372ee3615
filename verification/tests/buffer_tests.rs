use line_discipline::buffer::{EchoBuffer, TtyBuffer, TtyBufferInner, TTY_BUF_SIZE};

#[test]
fn ring_fifo_order() {
    let mut buf = TtyBuffer::new();
    let bytes = b"hello";
    for b in bytes {
        buf.push(*b);
    }
    assert_eq!(buf.len(), bytes.len());
    for (i, b) in bytes.iter().enumerate() {
        assert_eq!(buf.see(i), *b);
    }
}

#[test]
fn overflow_lossy_keeps_capacity() {
    let mut buf = TtyBuffer::new();
    for i in 0..TTY_BUF_SIZE + 5 {
        buf.push((i % 251) as u8);
    }
    assert_eq!(buf.len(), TTY_BUF_SIZE);
    assert!(buf.full());
    // The first capacity-many bytes survive, the overflow was dropped.
    assert_eq!(buf.see(0), 0);
    assert_eq!(buf.see(TTY_BUF_SIZE - 1), ((TTY_BUF_SIZE - 1) % 251) as u8);
}

#[test]
fn insert_delete_round_trip() {
    let mut buf = TtyBuffer::new();
    for b in b"abcd" {
        buf.push(*b);
    }
    buf.insert(b'X', 2);
    assert_eq!(buf.len(), 5);
    assert_eq!(
        (0..5).map(|i| buf.see(i)).collect::<Vec<u8>>(),
        b"abXcd".to_vec()
    );
    let removed = buf.delete(2);
    assert_eq!(removed, b'X');
    assert_eq!(buf.len(), 4);
    assert_eq!(
        (0..4).map(|i| buf.see(i)).collect::<Vec<u8>>(),
        b"abcd".to_vec()
    );
}

#[test]
fn see_out_of_range_returns_zero() {
    let mut buf = TtyBuffer::new();
    buf.push(b'x');
    assert_eq!(buf.see(1), 0);
    assert_eq!(buf.see(12345), 0);
}

#[test]
fn delete_out_of_range_is_noop() {
    let mut buf = TtyBuffer::new();
    assert_eq!(buf.delete(0), 0);
    buf.push(b'a');
    assert_eq!(buf.delete(7), 0);
    assert_eq!(buf.len(), 1);
    assert_eq!(buf.see(0), b'a');
}

#[test]
fn insert_past_len_is_noop() {
    let mut buf = TtyBuffer::new();
    buf.push(b'a');
    buf.insert(b'b', 2);
    assert_eq!(buf.len(), 1);
    // Insert at the length appends.
    buf.insert(b'b', 1);
    assert_eq!(buf.len(), 2);
    assert_eq!(buf.see(1), b'b');
}

#[test]
fn insert_into_full_buffer_is_noop() {
    let mut buf = TtyBuffer::new();
    for _ in 0..TTY_BUF_SIZE {
        buf.push(b'z');
    }
    buf.insert(b'a', 0);
    assert_eq!(buf.len(), TTY_BUF_SIZE);
    assert_eq!(buf.see(0), b'z');
}

#[test]
fn flush_discards_everything() {
    let mut buf = TtyBuffer::new();
    for b in b"data" {
        buf.push(*b);
    }
    buf.flush();
    assert_eq!(buf.len(), 0);
    assert!(buf.empty());
    assert_eq!(buf.see(0), 0);
}

#[test]
fn push_many_is_all_or_nothing() {
    let mut buf = TtyBuffer::new();
    buf.push_many(b"abc");
    assert_eq!(buf.len(), 3);
    let big = vec![b'x'; TTY_BUF_SIZE];
    // Three bytes are already there, so capacity-many more do not fit.
    buf.push_many(&big);
    assert_eq!(buf.len(), 3);
    assert_eq!(buf.see(0), b'a');
    let rest = vec![b'y'; TTY_BUF_SIZE - 3];
    buf.push_many(&rest);
    assert_eq!(buf.len(), TTY_BUF_SIZE);
    assert_eq!(buf.see(3), b'y');
}

#[test]
fn wrapper_pop_removes_first() {
    let mut buf = TtyBuffer::new();
    for b in b"abc" {
        buf.push(*b);
    }
    assert_eq!(buf.pop(), b'a');
    assert_eq!(buf.len(), 2);
    assert_eq!(buf.see(0), b'b');
    buf.flush();
    assert_eq!(buf.pop(), 0);
}

#[test]
fn inner_pop_removes_last() {
    let mut inner = TtyBufferInner::new();
    for b in b"abc" {
        inner.push(*b);
    }
    inner.pop();
    assert_eq!(inner.len(), 2);
    assert_eq!(inner.see(0), b'a');
    assert_eq!(inner.see(1), b'b');
    // Popping an empty buffer changes nothing.
    inner.pop();
    inner.pop();
    inner.pop();
    assert_eq!(inner.len(), 0);
}

#[test]
fn inner_queries() {
    let mut inner = TtyBufferInner::new();
    assert!(inner.empty());
    assert!(!inner.full());
    inner.push(b'q');
    assert!(!inner.empty());
    assert_eq!(inner.len(), 1);
    inner.insert(b'p', 0);
    assert_eq!(inner.see(0), b'p');
    assert_eq!(inner.delete(0), b'p');
    inner.push_many(b"rs");
    assert_eq!(inner.len(), 3);
    inner.flush();
    assert!(inner.empty());
}

#[test]
fn echo_buffer_cursor_column() {
    let mut echo = EchoBuffer::new();
    assert_eq!(echo.col(), 0);
    assert_eq!(echo.len(), 0);
    echo.buffer.push(b'a');
    echo.buffer.push(b'b');
    echo.col_add_one();
    echo.col_add_one();
    assert_eq!(echo.col(), 2);
    assert_eq!(echo.len(), 2);
    echo.col_sub_one();
    assert_eq!(echo.col(), 1);
    echo.col_clear();
    assert_eq!(echo.col(), 0);
}
