//! The N_TTY line discipline: turns the raw byte stream a driver delivers
//! into newline-terminated lines with echo and in-place line editing, and
//! hands completed lines to the read path.
//!
//! Raw bytes are first queued in `rec_buf`, then decoded one unit at a time
//! until no further progress is possible (an incomplete escape sequence at
//! the head waits for the next delivery).  The whole receive step is
//! specified by the recursive [`run`] function over the abstract state
//! [`LdiscState`]; `receive_buf` returns the bytes to echo back to the
//! driver instead of emitting them while buffers are borrowed.

use vstd::prelude::*;

use crate::buffer::{fill_lossy, push_lossy, EchoBuffer, TtyBuffer, TTY_BUF_SIZE};

verus! {

/// Line feed: the normal form of every line terminator.
pub const LF: u8 = 10;

/// Carriage return, normalized to `LF`.
pub const CR: u8 = 13;

/// Delete, treated like backspace.
pub const DEL: u8 = 127;

/// Backspace.
pub const BS: u8 = 8;

/// Space, used to blank a deleted glyph.
pub const SPACE: u8 = 32;

/// Escape: first byte of an arrow sequence.
pub const ESC: u8 = 27;

/// `[`: second byte of an arrow sequence.
pub const LEFT_BRACKET: u8 = 91;

/// Third byte of the cursor-right sequence.
pub const RIGHT: u8 = 67;

/// Third byte of the cursor-left sequence.
pub const LEFT: u8 = 68;

/// Abstract state of a line discipline: completed input (`read`), the line
/// being composed with its cursor column (`line`, `col`), and the raw bytes
/// not yet decoded (`rec`).
pub ghost struct LdiscState {
    pub read: Seq<u8>,
    pub line: Seq<u8>,
    pub col: nat,
    pub rec: Seq<u8>,
}

/// `n` copies of the cursor-left escape sequence.
pub open spec fn left_arrows(n: nat) -> Seq<u8>
    decreases n,
{
    if n == 0 {
        Seq::empty()
    } else {
        left_arrows((n - 1) as nat) + seq![ESC, LEFT_BRACKET, LEFT]
    }
}

/// Echo produced by a backspace when the column is positive: erase the glyph,
/// and if the cursor was mid-line redraw the tail, blank the last glyph and
/// walk the cursor back.
pub open spec fn bs_echo(line: Seq<u8>, col: nat) -> Seq<u8> {
    if col == line.len() {
        seq![BS, SPACE, BS]
    } else {
        seq![BS, SPACE, BS] + line.subrange(col as int, line.len() as int) + seq![SPACE]
            + left_arrows((line.len() - col + 1) as nat)
    }
}

/// Echo produced by an ordinary byte: the byte itself, and if the cursor was
/// mid-line the redrawn tail followed by cursor-left escapes.
pub open spec fn plain_echo(line: Seq<u8>, col: nat, ch: u8) -> Seq<u8> {
    if col == line.len() {
        seq![ch]
    } else {
        seq![ch] + line.subrange(col as int, line.len() as int) + left_arrows(
            (line.len() - col) as nat,
        )
    }
}

/// One full drain of the pending raw bytes: decodes units from the head of
/// `rec` until it is empty or an incomplete escape sequence remains, and
/// returns the final state together with every byte echoed, in order.
///
/// Per leading byte: an arrow sequence moves the column (echoed only when it
/// can move); `ESC` followed by a byte other than `[` consumes both, echoes
/// nothing, and the drain goes on behind them;
/// `CR`/`LF` echoes `LF` and commits the line to `read`; backspace/delete
/// edits at the cursor; anything else is inserted at the cursor.  Pushes into
/// full buffers drop the byte, and an insert into a full line leaves the
/// column where it was, keeping it within the line.
pub open spec fn run(s: LdiscState) -> (LdiscState, Seq<u8>)
    decreases s.rec.len(),
{
    if s.rec.len() == 0 {
        (s, Seq::empty())
    } else if s.rec[0] == ESC {
        if s.rec.len() < 3 {
            (s, Seq::empty())
        } else if s.rec[1] != LEFT_BRACKET {
            run(LdiscState { rec: s.rec.skip(2), ..s })
        } else {
            let ch = s.rec[2];
            let s1 = LdiscState { rec: s.rec.skip(3), ..s };
            if ch == LEFT && s.col > 0 {
                let next = run(LdiscState { col: (s.col - 1) as nat, ..s1 });
                (next.0, seq![ESC, LEFT_BRACKET, LEFT] + next.1)
            } else if ch == RIGHT && s.col < s.line.len() {
                let next = run(LdiscState { col: s.col + 1, ..s1 });
                (next.0, seq![ESC, LEFT_BRACKET, RIGHT] + next.1)
            } else {
                run(s1)
            }
        }
    } else {
        let ch = s.rec[0];
        let s1 = LdiscState { rec: s.rec.skip(1), ..s };
        if ch == CR || ch == LF {
            let next = run(
                LdiscState {
                    read: fill_lossy(s.read, push_lossy(s.line, LF)),
                    line: Seq::empty(),
                    col: 0,
                    ..s1
                },
            );
            (next.0, seq![LF] + next.1)
        } else if ch == BS || ch == DEL {
            if s.col > 0 {
                let next = run(
                    LdiscState {
                        line: s.line.remove(s.col - 1),
                        col: (s.col - 1) as nat,
                        ..s1
                    },
                );
                (next.0, bs_echo(s.line, s.col) + next.1)
            } else {
                run(s1)
            }
        } else {
            let next = run(
                if s.line.len() < TTY_BUF_SIZE {
                    LdiscState { line: s.line.insert(s.col as int, ch), col: s.col + 1, ..s1 }
                } else {
                    s1
                },
            );
            (next.0, plain_echo(s.line, s.col, ch) + next.1)
        }
    }
}

/// Line-discipline numbers; `NTty` is the one this module implements.
pub enum LdiscIndex {
    RAW,
    NTty,
}

/// Build the line discipline selected by `index`; every index currently
/// yields the N_TTY discipline.
pub fn new_ldisc(index: LdiscIndex) -> (r: TtyLdisc)
    ensures
        r.wf(),
        r@ == (LdiscState {
            read: Seq::<u8>::empty(),
            line: Seq::<u8>::empty(),
            col: 0,
            rec: Seq::<u8>::empty(),
        }),
{
    match index {
        _ => TtyLdisc::new(),
    }
}

/// The N_TTY line discipline state: completed lines for `read`, the echo
/// line being composed, and raw bytes awaiting a complete escape sequence.
pub struct TtyLdisc {
    /// Completed, newline-terminated input ready for consumption.
    pub read_buf: TtyBuffer,
    /// The in-progress line and its cursor column.
    pub echo_buf: EchoBuffer,
    /// Raw undecoded bytes.
    pub rec_buf: TtyBuffer,
}

impl View for TtyLdisc {
    type V = LdiscState;

    open spec fn view(&self) -> LdiscState {
        LdiscState {
            read: self.read_buf@,
            line: self.echo_buf.buffer@,
            col: self.echo_buf.col as nat,
            rec: self.rec_buf@,
        }
    }
}

impl TtyLdisc {
    pub open spec fn wf(&self) -> bool {
        &&& self.read_buf.wf()
        &&& self.echo_buf.wf()
        &&& self.rec_buf.wf()
    }

    pub fn new() -> (r: TtyLdisc)
        ensures
            r.wf(),
            r@ == (LdiscState {
                read: Seq::<u8>::empty(),
                line: Seq::<u8>::empty(),
                col: 0,
                rec: Seq::<u8>::empty(),
            }),
    {
        TtyLdisc {
            read_buf: TtyBuffer::new(),
            echo_buf: EchoBuffer::new(),
            rec_buf: TtyBuffer::new(),
        }
    }

    pub fn name(&self) -> (r: &'static str)
        ensures
            r@ == "N_TTY"@,
    {
        "N_TTY"
    }

    /// Number of the discipline: `NTty` is discipline 1.
    pub fn num(&self) -> (r: isize)
        ensures
            r == 1,
    {
        1
    }

    /// Drain completed input: copy the first `n = min(buf.len(), read.len())`
    /// buffered bytes into `buf`, and if anything was copied flush the read
    /// buffer whole — bytes beyond the first `n` are discarded.
    pub fn read(&mut self, buf: &mut Vec<u8>) -> (n: usize)
        requires
            old(self).wf(),
        ensures
            final(self).wf(),
            n == if old(buf)@.len() <= old(self)@.read.len() {
                old(buf)@.len() as int
            } else {
                old(self)@.read.len() as int
            },
            final(buf)@.len() == old(buf)@.len(),
            forall|i: int| 0 <= i < n ==> final(buf)@[i] == old(self)@.read[i],
            forall|i: int| n <= i < old(buf)@.len() ==> final(buf)@[i] == old(buf)@[i],
            n > 0 ==> final(self)@ == (LdiscState { read: Seq::<u8>::empty(), ..old(self)@ }),
            n == 0 ==> final(self)@ == old(self)@,
    {
        let len = if buf.len() <= self.read_buf.len() {
            buf.len()
        } else {
            self.read_buf.len()
        };
        if len == 0 {
            return 0;
        }
        let mut i: usize = 0;
        while i < len
            invariant
                self.wf(),
                self == old(self),
                i <= len,
                len <= buf@.len(),
                len <= self@.read.len(),
                buf@.len() == old(buf)@.len(),
                forall|j: int| 0 <= j < i ==> buf@[j] == self@.read[j],
                forall|j: int| i <= j < buf@.len() ==> buf@[j] == old(buf)@[j],
            decreases len - i,
        {
            let ch = self.read_buf.see(i);
            buf[i] = ch;
            i = i + 1;
        }
        self.read_buf.flush();
        len
    }

    /// Commit the echo line: echo `LF`, append `LF` to the line, move the
    /// whole line byte-by-byte into the read buffer and reset the column.
    fn handle_newline(&mut self, echo: &mut Vec<u8>)
        requires
            old(self).wf(),
        ensures
            final(self).wf(),
            final(self)@ == (LdiscState {
                read: fill_lossy(old(self)@.read, push_lossy(old(self)@.line, LF)),
                line: Seq::<u8>::empty(),
                col: 0,
                rec: old(self)@.rec,
            }),
            final(echo)@ == old(echo)@ + seq![LF],
    {
        echo.push(LF);
        proof {
            assert(echo@ =~= old(echo)@ + seq![LF]);
        }
        self.echo_buf.buffer.push(LF);
        let ghost read0 = self.read_buf@;
        let ghost line1 = self.echo_buf.buffer@;
        let n = self.echo_buf.buffer.len();
        let mut j: usize = 0;
        while j < n
            invariant
                self.read_buf.wf(),
                self.echo_buf.buffer.wf(),
                self.rec_buf.wf(),
                j <= n,
                n == line1.len(),
                self.echo_buf.col == old(self).echo_buf.col,
                self.rec_buf@ == old(self).rec_buf@,
                self.echo_buf.buffer@ == line1.skip(j as int),
                fill_lossy(read0, line1) == fill_lossy(self.read_buf@, self.echo_buf.buffer@),
            decreases n - j,
        {
            let ghost readc = self.read_buf@;
            let ghost linec = self.echo_buf.buffer@;
            let ch = self.echo_buf.buffer.delete(0);
            self.read_buf.push(ch);
            proof {
                assert(linec.remove(0) =~= line1.skip(j + 1));
                assert(linec.skip(1) =~= linec.remove(0));
                assert(fill_lossy(readc, linec) == fill_lossy(
                    push_lossy(readc, linec[0]),
                    linec.skip(1),
                ));
            }
            j = j + 1;
        }
        proof {
            assert(self.echo_buf.buffer@ =~= Seq::<u8>::empty());
            assert(fill_lossy(self.read_buf@, self.echo_buf.buffer@) == self.read_buf@);
        }
        self.echo_buf.col_clear();
    }

    /// Handle backspace or delete: a no-op at column 0; otherwise erase the
    /// glyph left of the cursor, redrawing the rest of the line when the
    /// cursor was not at the end.
    fn handle_backspace(&mut self, echo: &mut Vec<u8>)
        requires
            old(self).wf(),
        ensures
            final(self).wf(),
            old(self)@.col == 0 ==> final(self)@ == old(self)@ && final(echo)@ == old(echo)@,
            old(self)@.col > 0 ==> final(self)@ == (LdiscState {
                line: old(self)@.line.remove(old(self)@.col - 1),
                col: (old(self)@.col - 1) as nat,
                ..old(self)@
            }) && final(echo)@ == old(echo)@ + bs_echo(old(self)@.line, old(self)@.col),
    {
        let col = self.echo_buf.col();
        let len = self.echo_buf.buffer.len();
        proof {
            self.echo_buf.buffer.lemma_view_len();
        }
        if col > 0 {
            echo.push(BS);
            echo.push(SPACE);
            echo.push(BS);
            proof {
                assert(echo@ =~= old(echo)@ + seq![BS, SPACE, BS]);
            }
            if col != len {
                let ghost line0 = self.echo_buf.buffer@;
                let ghost echo1 = echo@;
                let mut j: usize = col;
                while j < len
                    invariant
                        self == old(self),
                        self.wf(),
                        col <= j <= len,
                        len == line0.len(),
                        self.echo_buf.buffer@ == line0,
                        echo@ == echo1 + line0.subrange(col as int, j as int),
                    decreases len - j,
                {
                    let ch = self.echo_buf.buffer.see(j);
                    echo.push(ch);
                    proof {
                        assert(echo@ =~= echo1 + line0.subrange(col as int, j + 1));
                    }
                    j = j + 1;
                }
                echo.push(SPACE);
                let ghost echo2 = echo@;
                let mut k: usize = 0;
                while k < len - col + 1
                    invariant
                        self == old(self),
                        self.wf(),
                        k <= len - col + 1,
                        len <= TTY_BUF_SIZE,
                        col <= len == self.echo_buf.buffer@.len(),
                        echo@ == echo2 + left_arrows(k as nat),
                    decreases len - col + 1 - k,
                {
                    echo.push(ESC);
                    echo.push(LEFT_BRACKET);
                    echo.push(LEFT);
                    proof {
                        assert(echo@ =~= echo2 + left_arrows((k + 1) as nat));
                    }
                    k = k + 1;
                }
                proof {
                    assert(echo@ =~= old(echo)@ + bs_echo(old(self)@.line, old(self)@.col));
                }
            }
            self.echo_buf.buffer.delete(col - 1);
            self.echo_buf.col_sub_one();
        }
    }

    /// Handle an ordinary byte: echo it, redraw the tail of the line when the
    /// cursor is mid-line, then insert it at the cursor and advance the
    /// column; a byte arriving at a full line is echoed but not stored, and
    /// the column stays within the line.
    fn handle_plain(&mut self, ch: u8, echo: &mut Vec<u8>)
        requires
            old(self).wf(),
        ensures
            final(self).wf(),
            final(echo)@ == old(echo)@ + plain_echo(old(self)@.line, old(self)@.col, ch),
            old(self)@.line.len() < TTY_BUF_SIZE ==> final(self)@ == (LdiscState {
                line: old(self)@.line.insert(old(self)@.col as int, ch),
                col: old(self)@.col + 1,
                ..old(self)@
            }),
            old(self)@.line.len() == TTY_BUF_SIZE ==> final(self)@ == old(self)@,
    {
        let col = self.echo_buf.col();
        let len = self.echo_buf.buffer.len();
        proof {
            self.echo_buf.buffer.lemma_view_len();
        }
        echo.push(ch);
        proof {
            assert(echo@ =~= old(echo)@ + seq![ch]);
        }
        if col != len {
            let ghost line0 = self.echo_buf.buffer@;
            let ghost echo1 = echo@;
            let mut j: usize = col;
            while j < len
                invariant
                    self == old(self),
                    self.wf(),
                    col <= j <= len,
                    len == line0.len(),
                    self.echo_buf.buffer@ == line0,
                    echo@ == echo1 + line0.subrange(col as int, j as int),
                decreases len - j,
            {
                let c = self.echo_buf.buffer.see(j);
                echo.push(c);
                proof {
                    assert(echo@ =~= echo1 + line0.subrange(col as int, j + 1));
                }
                j = j + 1;
            }
            let ghost echo2 = echo@;
            let mut k: usize = 0;
            while k < len - col
                invariant
                    self == old(self),
                    self.wf(),
                    k <= len - col,
                    col <= len == self.echo_buf.buffer@.len(),
                    echo@ == echo2 + left_arrows(k as nat),
                decreases len - col - k,
            {
                echo.push(ESC);
                echo.push(LEFT_BRACKET);
                echo.push(LEFT);
                proof {
                    assert(echo@ =~= echo2 + left_arrows((k + 1) as nat));
                }
                k = k + 1;
            }
            proof {
                assert(echo@ =~= old(echo)@ + plain_echo(old(self)@.line, old(self)@.col, ch));
            }
        }
        if !self.echo_buf.buffer.full() {
            self.echo_buf.buffer.insert(ch, col);
            self.echo_buf.col_add_one();
        }
    }

    /// Accept a delivery of raw bytes from the driver: queue them (lossily)
    /// behind any bytes still awaiting decode, then decode as far as
    /// possible, returning every byte to echo back through the driver, in
    /// order.  The state change and the echo are exactly those of [`run`] on
    /// the queued-up state.
    pub fn receive_buf(&mut self, buf: &[u8]) -> (echo: Vec<u8>)
        requires
            old(self).wf(),
        ensures
            final(self).wf(),
            final(self)@ == run(
                (LdiscState { rec: fill_lossy(old(self)@.rec, buf@), ..old(self)@ }),
            ).0,
            echo@ == run((LdiscState { rec: fill_lossy(old(self)@.rec, buf@), ..old(self)@ })).1,
    {
        let ghost s0 = self@;
        let mut i: usize = 0;
        while i < buf.len()
            invariant
                self.wf(),
                i <= buf@.len(),
                self@ == (LdiscState { rec: fill_lossy(s0.rec, buf@.subrange(0, i as int)), ..s0 }),
            decreases buf@.len() - i,
        {
            proof {
                crate::buffer::lemma_fill_lossy_snoc(
                    s0.rec,
                    buf@.subrange(0, i as int),
                    buf@[i as int],
                );
                assert(buf@.subrange(0, i + 1) =~= buf@.subrange(0, i as int).push(buf@[i as int]));
            }
            self.rec_buf.push(buf[i]);
            i = i + 1;
        }
        proof {
            assert(buf@.subrange(0, buf@.len() as int) =~= buf@);
        }
        let ghost fed = self@;
        let mut echo: Vec<u8> = Vec::new();
        proof {
            assert(echo@ + run(fed).1 =~= run(fed).1);
        }
        loop
            invariant_except_break
                self.wf(),
                run(self@).0 == run(fed).0,
                echo@ + run(self@).1 == run(fed).1,
            ensures
                self.wf(),
                self@ == run(fed).0,
                echo@ == run(fed).1,
            decreases self@.rec.len(),
        {
            let ghost pre = self@;
            let ghost echo_pre = echo@;
            proof {
                self.echo_buf.buffer.lemma_view_len();
            }
            if self.rec_buf.len() == 0 {
                proof {
                    assert(run(pre).0 == pre);
                    assert(echo@ + run(pre).1 =~= echo@);
                }
                break;
            }
            let ch = self.rec_buf.see(0);
            if ch == ESC {
                if self.rec_buf.len() < 3 {
                    proof {
                        assert(run(pre).0 == pre);
                        assert(echo@ + run(pre).1 =~= echo@);
                    }
                    break;
                }
                let second = self.rec_buf.see(1);
                if second != LEFT_BRACKET {
                    self.rec_buf.delete(0);
                    self.rec_buf.delete(0);
                    proof {
                        assert(pre.rec.remove(0).remove(0) =~= pre.rec.skip(2));
                        assert(self@ == (LdiscState { rec: pre.rec.skip(2), ..pre }));
                        assert(run(pre) == run(self@));
                    }
                    continue;
                }
                self.rec_buf.delete(0);
                self.rec_buf.delete(0);
                let third = self.rec_buf.delete(0);
                proof {
                    assert(pre.rec.remove(0).remove(0).remove(0) =~= pre.rec.skip(3));
                    assert(pre.rec.remove(0).remove(0)[0] == pre.rec[2]);
                    assert(self@ == (LdiscState { rec: pre.rec.skip(3), ..pre }));
                    assert(third == pre.rec[2]);
                }
                let ghost s1 = self@;
                if third == LEFT {
                    if self.echo_buf.col() > 0 {
                        echo.push(ESC);
                        echo.push(LEFT_BRACKET);
                        echo.push(LEFT);
                        self.echo_buf.col_sub_one();
                        proof {
                            assert(self@ == (LdiscState {
                                col: (pre.col - 1) as nat,
                                ..s1
                            }));
                            assert(echo@ =~= echo_pre + seq![ESC, LEFT_BRACKET, LEFT]);
                            assert(run(pre).0 == run(self@).0);
                            assert(run(pre).1 == seq![ESC, LEFT_BRACKET, LEFT] + run(self@).1);
                            assert(echo@ + run(self@).1 =~= echo_pre + run(pre).1);
                        }
                    } else {
                        proof {
                            assert(run(pre) == run(s1));
                        }
                    }
                } else if third == RIGHT {
                    let len = self.echo_buf.buffer.len();
                    if self.echo_buf.col() < len {
                        echo.push(ESC);
                        echo.push(LEFT_BRACKET);
                        echo.push(RIGHT);
                        self.echo_buf.col_add_one();
                        proof {
                            assert(self@ == (LdiscState { col: pre.col + 1, ..s1 }));
                            assert(echo@ =~= echo_pre + seq![ESC, LEFT_BRACKET, RIGHT]);
                            assert(run(pre).0 == run(self@).0);
                            assert(run(pre).1 == seq![ESC, LEFT_BRACKET, RIGHT] + run(self@).1);
                            assert(echo@ + run(self@).1 =~= echo_pre + run(pre).1);
                        }
                    } else {
                        proof {
                            assert(run(pre) == run(s1));
                        }
                    }
                } else {
                    proof {
                        assert(run(pre) == run(s1));
                    }
                }
            } else {
                let ch = self.rec_buf.delete(0);
                proof {
                    assert(pre.rec.remove(0) =~= pre.rec.skip(1));
                    assert(ch == pre.rec[0]);
                    assert(self@ == (LdiscState { rec: pre.rec.skip(1), ..pre }));
                }
                let ghost s1 = self@;
                if ch == CR || ch == LF {
                    self.handle_newline(&mut echo);
                    proof {
                        assert(self@ == (LdiscState {
                            read: fill_lossy(pre.read, push_lossy(pre.line, LF)),
                            line: Seq::<u8>::empty(),
                            col: 0,
                            rec: pre.rec.skip(1),
                        }));
                        assert(echo@ == echo_pre + seq![LF]);
                        assert(run(pre).0 == run(self@).0);
                        assert(run(pre).1 == seq![LF] + run(self@).1);
                        assert(echo@ + run(self@).1 =~= echo_pre + run(pre).1);
                    }
                } else if ch == BS || ch == DEL {
                    self.handle_backspace(&mut echo);
                    proof {
                        if pre.col > 0 {
                            assert(self@ == (LdiscState {
                                line: pre.line.remove(pre.col - 1),
                                col: (pre.col - 1) as nat,
                                rec: pre.rec.skip(1),
                                ..pre
                            }));
                            assert(echo@ == echo_pre + bs_echo(pre.line, pre.col));
                            assert(run(pre).0 == run(self@).0);
                            assert(run(pre).1 == bs_echo(pre.line, pre.col) + run(self@).1);
                            assert(echo@ + run(self@).1 =~= echo_pre + run(pre).1);
                        } else {
                            assert(self@ == s1);
                            assert(run(pre) == run(s1));
                        }
                    }
                } else {
                    self.handle_plain(ch, &mut echo);
                    proof {
                        assert(echo@ == echo_pre + plain_echo(pre.line, pre.col, ch));
                        if pre.line.len() < TTY_BUF_SIZE {
                            assert(self@ == (LdiscState {
                                line: pre.line.insert(pre.col as int, ch),
                                col: pre.col + 1,
                                rec: pre.rec.skip(1),
                                ..pre
                            }));
                        } else {
                            assert(self@ == s1);
                        }
                        assert(run(pre).0 == run(self@).0);
                        assert(run(pre).1 == plain_echo(pre.line, pre.col, ch) + run(self@).1);
                        assert(echo@ + run(self@).1 =~= echo_pre + run(pre).1);
                    }
                }
            }
        }
        echo
    }
}

} // verus!
