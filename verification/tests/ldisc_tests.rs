use line_discipline::buffer::TTY_BUF_SIZE;
use line_discipline::ldisc::{new_ldisc, LdiscIndex, TtyLdisc, BS, CR, DEL, ESC, LEFT, LEFT_BRACKET, LF, RIGHT, SPACE};

fn feed(ld: &mut TtyLdisc, bytes: &[u8]) -> Vec<u8> {
    ld.receive_buf(bytes)
}

#[test]
fn line_commit() {
    let mut ld = TtyLdisc::new();
    let mut echo = feed(&mut ld, b"ab");
    let echo2 = feed(&mut ld, &[LF]);
    echo.extend_from_slice(&echo2);
    assert_eq!(echo, b"ab\n".to_vec());
    let mut buf = vec![0u8; 16];
    let n = ld.read(&mut buf);
    assert_eq!(n, 3);
    assert_eq!(&buf[..3], b"ab\n");
    assert_eq!(ld.echo_buf.col(), 0);
    assert_eq!(ld.echo_buf.len(), 0);
}

#[test]
fn backspace_redraw() {
    let mut ld = TtyLdisc::new();
    feed(&mut ld, b"abc");
    assert_eq!(ld.echo_buf.col(), 3);
    feed(&mut ld, &[ESC, LEFT_BRACKET, LEFT]);
    feed(&mut ld, &[ESC, LEFT_BRACKET, LEFT]);
    assert_eq!(ld.echo_buf.col(), 1);
    let echo = feed(&mut ld, &[BS]);
    // Erase 'a', redraw "bc", blank the trailing glyph, walk back 3 columns.
    assert_eq!(
        echo,
        vec![
            BS, SPACE, BS, b'b', b'c', SPACE, ESC, LEFT_BRACKET, LEFT, ESC, LEFT_BRACKET, LEFT,
            ESC, LEFT_BRACKET, LEFT,
        ]
    );
    assert_eq!(ld.echo_buf.len(), 2);
    assert_eq!(ld.echo_buf.buffer.see(0), b'b');
    assert_eq!(ld.echo_buf.buffer.see(1), b'c');
    assert_eq!(ld.echo_buf.col(), 0);
}

#[test]
fn delete_key_acts_like_backspace() {
    let mut ld = TtyLdisc::new();
    feed(&mut ld, b"xy");
    let echo = feed(&mut ld, &[DEL]);
    assert_eq!(echo, vec![BS, SPACE, BS]);
    assert_eq!(ld.echo_buf.len(), 1);
    assert_eq!(ld.echo_buf.buffer.see(0), b'x');
}

#[test]
fn partial_read_flushes_the_rest() {
    let mut ld = TtyLdisc::new();
    for b in b"abcdef" {
        ld.read_buf.push(*b);
    }
    let mut buf = vec![0u8; 3];
    let n = ld.read(&mut buf);
    assert_eq!(n, 3);
    assert_eq!(buf, b"abc".to_vec());
    // The remaining "def" was discarded by the unconditional flush.
    assert_eq!(ld.read_buf.len(), 0);
}

#[test]
fn read_nothing_changes_nothing() {
    let mut ld = TtyLdisc::new();
    for b in b"xyz" {
        ld.read_buf.push(*b);
    }
    let mut empty: Vec<u8> = Vec::new();
    assert_eq!(ld.read(&mut empty), 0);
    // A zero-length read does not flush.
    assert_eq!(ld.read_buf.len(), 3);
    let mut buf = vec![9u8; 4];
    let mut fresh = TtyLdisc::new();
    assert_eq!(fresh.read(&mut buf), 0);
    assert_eq!(buf, vec![9u8; 4]);
}

#[test]
fn carriage_return_becomes_line_feed() {
    let mut ld = TtyLdisc::new();
    let mut echo = feed(&mut ld, b"a");
    echo.extend_from_slice(&feed(&mut ld, &[CR]));
    assert_eq!(echo, vec![b'a', LF]);
    let mut buf = vec![0u8; 8];
    let n = ld.read(&mut buf);
    assert_eq!(n, 2);
    assert_eq!(&buf[..2], b"a\n");
}

#[test]
fn escape_split_across_deliveries() {
    let mut ld = TtyLdisc::new();
    feed(&mut ld, b"ab");
    assert_eq!(ld.echo_buf.col(), 2);
    let echo = feed(&mut ld, &[ESC]);
    // The lone escape waits in the raw queue.
    assert_eq!(echo, Vec::<u8>::new());
    assert_eq!(ld.rec_buf.len(), 1);
    assert_eq!(ld.echo_buf.col(), 2);
    let echo = feed(&mut ld, &[LEFT_BRACKET, LEFT]);
    assert_eq!(echo, vec![ESC, LEFT_BRACKET, LEFT]);
    assert_eq!(ld.echo_buf.col(), 1);
    assert_eq!(ld.rec_buf.len(), 0);
}

#[test]
fn escape_without_bracket_consumed_and_ignored() {
    let mut ld = TtyLdisc::new();
    let echo = feed(&mut ld, &[ESC, b'A', b'q']);
    // ESC and 'A' are consumed and ignored, nothing is echoed for them, and
    // the drain goes on: 'q' is handled within the same delivery.
    assert_eq!(echo, vec![b'q']);
    assert_eq!(ld.echo_buf.len(), 1);
    assert_eq!(ld.echo_buf.buffer.see(0), b'q');
    assert_eq!(ld.echo_buf.col(), 1);
    assert_eq!(ld.rec_buf.len(), 0);
}

#[test]
fn escape_without_bracket_waits_for_a_third_byte() {
    let mut ld = TtyLdisc::new();
    // Two pending bytes are not enough to decode an escape: both wait.
    let echo = feed(&mut ld, &[ESC, b'A']);
    assert_eq!(echo, Vec::<u8>::new());
    assert_eq!(ld.rec_buf.len(), 2);
    assert_eq!(ld.echo_buf.len(), 0);
    // The third byte settles it: the pair is dropped, 'q' goes through.
    let echo = feed(&mut ld, &[b'q']);
    assert_eq!(echo, vec![b'q']);
    assert_eq!(ld.echo_buf.len(), 1);
    assert_eq!(ld.rec_buf.len(), 0);
}

#[test]
fn up_and_down_arrows_are_ignored() {
    let mut ld = TtyLdisc::new();
    feed(&mut ld, b"ab");
    let echo = feed(&mut ld, &[ESC, LEFT_BRACKET, 65]);
    assert_eq!(echo, Vec::<u8>::new());
    let echo = feed(&mut ld, &[ESC, LEFT_BRACKET, 66]);
    assert_eq!(echo, Vec::<u8>::new());
    assert_eq!(ld.echo_buf.col(), 2);
    assert_eq!(ld.echo_buf.len(), 2);
}

#[test]
fn arrows_stop_at_the_edges() {
    let mut ld = TtyLdisc::new();
    // Cursor-left at column 0 does not move and is not echoed.
    let echo = feed(&mut ld, &[ESC, LEFT_BRACKET, LEFT]);
    assert_eq!(echo, Vec::<u8>::new());
    assert_eq!(ld.echo_buf.col(), 0);
    feed(&mut ld, b"a");
    // Cursor-right at end of line does not move and is not echoed.
    let echo = feed(&mut ld, &[ESC, LEFT_BRACKET, RIGHT]);
    assert_eq!(echo, Vec::<u8>::new());
    assert_eq!(ld.echo_buf.col(), 1);
    // After moving left, cursor-right moves and is echoed.
    feed(&mut ld, &[ESC, LEFT_BRACKET, LEFT]);
    let echo = feed(&mut ld, &[ESC, LEFT_BRACKET, RIGHT]);
    assert_eq!(echo, vec![ESC, LEFT_BRACKET, RIGHT]);
    assert_eq!(ld.echo_buf.col(), 1);
}

#[test]
fn backspace_at_column_zero_is_noop() {
    let mut ld = TtyLdisc::new();
    let echo = feed(&mut ld, &[BS]);
    assert_eq!(echo, Vec::<u8>::new());
    assert_eq!(ld.echo_buf.len(), 0);
    assert_eq!(ld.echo_buf.col(), 0);
}

#[test]
fn mid_line_insert_redraws_tail() {
    let mut ld = TtyLdisc::new();
    feed(&mut ld, b"ac");
    feed(&mut ld, &[ESC, LEFT_BRACKET, LEFT]);
    assert_eq!(ld.echo_buf.col(), 1);
    let echo = feed(&mut ld, b"b");
    // Echo 'b', redraw the old tail "c", walk the cursor back one column.
    assert_eq!(echo, vec![b'b', b'c', ESC, LEFT_BRACKET, LEFT]);
    assert_eq!(ld.echo_buf.col(), 2);
    assert_eq!(
        (0..3).map(|i| ld.echo_buf.buffer.see(i)).collect::<Vec<u8>>(),
        b"abc".to_vec()
    );
}

#[test]
fn full_line_drops_bytes_but_keeps_column_in_range() {
    let mut ld = TtyLdisc::new();
    let long = vec![b'a'; TTY_BUF_SIZE + 1];
    feed(&mut ld, &long);
    assert_eq!(ld.echo_buf.len(), TTY_BUF_SIZE);
    assert_eq!(ld.echo_buf.col(), TTY_BUF_SIZE);
    // Committing a full line cannot append the LF: the line goes over as is.
    feed(&mut ld, &[LF]);
    let mut buf = vec![0u8; TTY_BUF_SIZE + 8];
    let n = ld.read(&mut buf);
    assert_eq!(n, TTY_BUF_SIZE);
    assert_eq!(buf[0], b'a');
    assert_eq!(buf[TTY_BUF_SIZE - 1], b'a');
    assert_eq!(ld.echo_buf.col(), 0);
}

#[test]
fn discipline_name_and_number() {
    let ld = TtyLdisc::new();
    assert_eq!(ld.name(), "N_TTY");
    assert_eq!(ld.num(), 1);
    let ld2 = new_ldisc(LdiscIndex::RAW);
    assert_eq!(ld2.name(), "N_TTY");
    let ld3 = new_ldisc(LdiscIndex::NTty);
    assert_eq!(ld3.num(), 1);
}
