//! The serial console, a PL011.
//!
//! The driver touches no register. To send or to receive a byte it hands
//! out the stores and loads to make, in order, as a list of [`UartOp`]; each
//! list but the last ends in a load, whose value goes to [`UART::advance`].

use vstd::prelude::*;

verus! {

/// The interrupt of the console where the device tree names none.
pub const IRQ: u32 = 0x21;

/// Where the registers of the console lie on the virt machine: the place
/// for the last words of a kernel that gives up.
pub const PANIC_BASE: usize = 0x0900_0000;

/// Offset of the data register.
pub const DATA: usize = 0x00;

/// Offset of the flag register.
pub const FLAGS: usize = 0x18;

/// Offset of the interrupt mask register.
pub const MASK: usize = 0x38;

/// The bit of the transmitter, in the flags and in the interrupt mask.
pub const TRANSMIT_BIT: u32 = 0x08;

/// The bit of the receiver, in the flags and in the interrupt mask.
pub const RECEIVE_BIT: u32 = 0x10;

/// Line feed.
pub const LF: u8 = 0x0a;

/// Carriage return.
pub const CR: u8 = 0x0d;

/// One thing for the owner of the hardware to do.
#[derive(Clone, Copy, Debug, PartialEq, Eq, Structural)]
pub enum UartOp {
    /// Store `value` into the register at `offset`.
    Store { offset: usize, value: u32 },
    /// Load the register at `offset` and hand the value to the next step.
    Load { offset: usize },
    /// Unmask the console's interrupt.
    EnableIrq,
    /// Mask the console's interrupt.
    DisableIrq,
    /// Acknowledge the interrupt that woke the processor.
    ClearIrq,
    /// Sleep until an interrupt comes.
    WaitForInterrupt,
}

/// Which way a byte goes.
#[derive(Clone, Copy, Debug, PartialEq, Eq, Structural)]
pub enum Direction {
    Transmit,
    Receive,
}

impl Direction {
    /// The bit of this direction, in the flags and in the interrupt mask.
    pub open spec fn spec_bit(self) -> u32 {
        match self {
            Direction::Transmit => TRANSMIT_BIT,
            Direction::Receive => RECEIVE_BIT,
        }
    }

    /// The bit of this direction, in the flags and in the interrupt mask.
    #[verifier::when_used_as_spec(spec_bit)]
    pub fn bit(self) -> (r: u32)
        ensures
            r == self.spec_bit(),
    {
        match self {
            Direction::Transmit => TRANSMIT_BIT,
            Direction::Receive => RECEIVE_BIT,
        }
    }
}

/// How far the transfer of a byte has come.
#[derive(Clone, Copy, Debug, PartialEq, Eq, Structural)]
pub enum Phase {
    /// No transfer is under way.
    Idle,
    /// The interrupt mask is being read, to set the bit of the direction.
    Masking { direction: Direction },
    /// The flags are being read, to see whether the device is done.
    Waiting { direction: Direction },
    /// The data register is being read.
    Fetching,
}

/// The driver of the console.
pub struct UART {
    phase: Phase,
    mask: u32,
    pending: Vec<u8>,
    sent: usize,
}

/// The driver of the console, as plain values.
pub struct UartView {
    /// How far the transfer under way has come.
    pub phase: Phase,
    /// The interrupt mask as it was before the transfer.
    pub mask: u32,
    /// The bytes still to send behind the one under way.
    pub queue: Seq<u8>,
}

impl View for UART {
    type V = UartView;

    closed spec fn view(&self) -> UartView {
        UartView {
            phase: self.phase,
            mask: self.mask,
            queue: if self.sent <= self.pending@.len() {
                self.pending@.skip(self.sent as int)
            } else {
                Seq::empty()
            },
        }
    }
}

/// One step of a transfer.
pub struct UartStep {
    /// What to do, in order.
    pub ops: Vec<UartOp>,
    /// The byte received, at the end of a reception.
    pub byte: Option<u8>,
    /// The transfer is over; else the last of `ops` is a load, whose value
    /// the next step wants.
    pub done: bool,
}

/// A step, as plain values.
pub struct UartStepView {
    pub ops: Seq<UartOp>,
    pub byte: Option<u8>,
    pub done: bool,
}

impl View for UartStep {
    type V = UartStepView;

    open spec fn view(&self) -> UartStepView {
        UartStepView { ops: self.ops@, byte: self.byte, done: self.done }
    }
}

/// The low byte of a register's value.
pub open spec fn low_byte(value: u32) -> u8 {
    (value & 0xff) as u8
}

/// The stores that start to send `byte`, and the load of the interrupt
/// mask.
pub open spec fn send_trace(byte: u8) -> Seq<UartOp> {
    seq![UartOp::Store { offset: DATA, value: byte as u32 }, UartOp::Load { offset: MASK }]
}

/// The stores that end a transfer: the interrupt is masked and the
/// interrupt mask put back.
pub open spec fn restore_trace(mask: u32) -> Seq<UartOp> {
    seq![UartOp::DisableIrq, UartOp::Store { offset: MASK, value: mask }]
}

/// The driver as it starts to send `bytes`, and the first step.
pub open spec fn sending(uart: UartView, bytes: Seq<u8>) -> (UartView, Seq<UartOp>) {
    if bytes.len() == 0 {
        (UartView { phase: Phase::Idle, mask: uart.mask, queue: Seq::empty() }, Seq::empty())
    } else {
        (
            UartView {
                phase: Phase::Masking { direction: Direction::Transmit },
                mask: uart.mask,
                queue: bytes.skip(1),
            },
            send_trace(bytes[0]),
        )
    }
}

/// What the value `value` of the last load does to the driver, and the next
/// step of the transfer.
pub open spec fn advanced(uart: UartView, value: u32) -> (UartView, UartStepView) {
    match uart.phase {
        Phase::Idle => (uart, UartStepView { ops: Seq::empty(), byte: None, done: true }),
        Phase::Masking { direction } => (
            UartView { phase: Phase::Waiting { direction }, mask: value, queue: uart.queue },
            UartStepView {
                ops: seq![
                    UartOp::Store { offset: MASK, value: value | direction.spec_bit() },
                    UartOp::EnableIrq,
                    UartOp::Load { offset: FLAGS },
                ],
                byte: None,
                done: false,
            },
        ),
        Phase::Waiting { direction } => if value & direction.spec_bit() != 0 {
            (
                uart,
                UartStepView {
                    ops: seq![
                        UartOp::WaitForInterrupt,
                        UartOp::ClearIrq,
                        UartOp::Load { offset: FLAGS },
                    ],
                    byte: None,
                    done: false,
                },
            )
        } else {
            match direction {
                Direction::Transmit => if uart.queue.len() > 0 {
                    (
                        UartView {
                            phase: Phase::Masking { direction },
                            mask: uart.mask,
                            queue: uart.queue.skip(1),
                        },
                        UartStepView {
                            ops: restore_trace(uart.mask) + send_trace(uart.queue[0]),
                            byte: None,
                            done: false,
                        },
                    )
                } else {
                    (
                        UartView { phase: Phase::Idle, mask: uart.mask, queue: uart.queue },
                        UartStepView { ops: restore_trace(uart.mask), byte: None, done: true },
                    )
                },
                Direction::Receive => (
                    UartView { phase: Phase::Fetching, mask: uart.mask, queue: uart.queue },
                    UartStepView {
                        ops: restore_trace(uart.mask) + seq![UartOp::Load { offset: DATA }],
                        byte: None,
                        done: false,
                    },
                ),
            }
        },
        Phase::Fetching => (
            UartView { phase: Phase::Idle, mask: uart.mask, queue: uart.queue },
            UartStepView { ops: Seq::empty(), byte: Some(low_byte(value)), done: true },
        ),
    }
}

impl UART {
    /// A driver with no transfer under way.
    pub fn new() -> (r: UART)
        ensures
            r@ == (UartView { phase: Phase::Idle, mask: 0, queue: Seq::empty() }),
    {
        let r = UART { phase: Phase::Idle, mask: 0, pending: Vec::new(), sent: 0 };
        assert(r@.queue =~= Seq::empty());
        r
    }

    /// How far the transfer under way has come.
    pub fn phase(&self) -> (r: Phase)
        ensures
            r == self@.phase,
    {
        self.phase
    }

    /// Starts to send `byte`: it goes into the data register, and the
    /// interrupt mask is read. The value read goes to [`UART::advance`].
    pub fn write_byte(&mut self, byte: u8) -> (ops: Vec<UartOp>)
        ensures
            (final(self)@, ops@) == sending(old(self)@, seq![byte]),
            ops@ == send_trace(byte),
    {
        self.phase = Phase::Masking { direction: Direction::Transmit };
        self.pending = Vec::new();
        self.sent = 0;
        let ops = vec![
            UartOp::Store { offset: DATA, value: byte as u32 },
            UartOp::Load { offset: MASK },
        ];
        assert(ops@ =~= send_trace(byte));
        assert(self@.queue =~= seq![byte].skip(1));
        ops
    }

    /// Starts to send the bytes `s`, one after the other, each as
    /// [`UART::write_byte`] sends it. The first goes into the data register,
    /// and the interrupt mask is read; the value read goes to
    /// [`UART::advance`], which goes on to the next byte when one is sent.
    /// Without bytes there is nothing to do.
    pub fn write_bytes(&mut self, s: &[u8]) -> (ops: Vec<UartOp>)
        ensures
            (final(self)@, ops@) == sending(old(self)@, s@),
    {
        if s.len() == 0 {
            self.phase = Phase::Idle;
            self.pending = Vec::new();
            self.sent = 0;
            let ops: Vec<UartOp> = Vec::new();
            assert(ops@ =~= Seq::empty());
            assert(self@.queue =~= Seq::empty());
            ops
        } else {
            self.phase = Phase::Masking { direction: Direction::Transmit };
            self.pending = vstd::slice::slice_to_vec(s);
            self.sent = 1;
            let ops = vec![
                UartOp::Store { offset: DATA, value: s[0] as u32 },
                UartOp::Load { offset: MASK },
            ];
            assert(ops@ =~= send_trace(s@[0]));
            ops
        }
    }

    /// Starts to receive a byte: the interrupt mask is read. The value read
    /// goes to [`UART::advance`].
    pub fn read_byte(&mut self) -> (ops: Vec<UartOp>)
        ensures
            final(self)@ == (UartView {
                phase: Phase::Masking { direction: Direction::Receive },
                ..old(self)@
            }),
            ops@ == seq![UartOp::Load { offset: MASK }],
    {
        self.phase = Phase::Masking { direction: Direction::Receive };
        let ops = vec![UartOp::Load { offset: MASK }];
        assert(ops@ =~= seq![UartOp::Load { offset: MASK }]);
        ops
    }

    /// Goes on with the transfer, given the value of the last load. The bit
    /// of the direction is set in the interrupt mask and the interrupt
    /// unmasked; while the device shows that bit in its flags the processor
    /// sleeps; then the interrupt is masked and the mask put back. A
    /// transmission goes on to the next byte, if more are to send; a
    /// reception ends with the low byte of the data register.
    pub fn advance(&mut self, value: u32) -> (r: UartStep)
        ensures
            (final(self)@, r@) == advanced(old(self)@, value),
    {
        match self.phase {
            Phase::Idle => {
                let r = UartStep { ops: Vec::new(), byte: None, done: true };
                assert(r@.ops =~= Seq::empty());
                r
            },
            Phase::Masking { direction } => {
                self.mask = value;
                self.phase = Phase::Waiting { direction };
                let ops = vec![
                    UartOp::Store { offset: MASK, value: value | direction.bit() },
                    UartOp::EnableIrq,
                    UartOp::Load { offset: FLAGS },
                ];
                assert(ops@ =~= advanced(old(self)@, value).1.ops);
                UartStep { ops, byte: None, done: false }
            },
            Phase::Waiting { direction } => {
                if value & direction.bit() != 0 {
                    let ops = vec![
                        UartOp::WaitForInterrupt,
                        UartOp::ClearIrq,
                        UartOp::Load { offset: FLAGS },
                    ];
                    assert(ops@ =~= advanced(old(self)@, value).1.ops);
                    UartStep { ops, byte: None, done: false }
                } else {
                    match direction {
                        Direction::Transmit => {
                            if self.sent < self.pending.len() {
                                let next = self.pending[self.sent];
                                self.sent = self.sent + 1;
                                self.phase = Phase::Masking { direction };
                                let ops = vec![
                                    UartOp::DisableIrq,
                                    UartOp::Store { offset: MASK, value: self.mask },
                                    UartOp::Store { offset: DATA, value: next as u32 },
                                    UartOp::Load { offset: MASK },
                                ];
                                assert(ops@ =~= advanced(old(self)@, value).1.ops);
                                assert(self@.queue =~= old(self)@.queue.skip(1));
                                UartStep { ops, byte: None, done: false }
                            } else {
                                self.phase = Phase::Idle;
                                let ops = vec![
                                    UartOp::DisableIrq,
                                    UartOp::Store { offset: MASK, value: self.mask },
                                ];
                                assert(ops@ =~= advanced(old(self)@, value).1.ops);
                                UartStep { ops, byte: None, done: true }
                            }
                        },
                        Direction::Receive => {
                            self.phase = Phase::Fetching;
                            let ops = vec![
                                UartOp::DisableIrq,
                                UartOp::Store { offset: MASK, value: self.mask },
                                UartOp::Load { offset: DATA },
                            ];
                            assert(ops@ =~= advanced(old(self)@, value).1.ops);
                            UartStep { ops, byte: None, done: false }
                        },
                    }
                }
            },
            Phase::Fetching => {
                self.phase = Phase::Idle;
                let r = UartStep { ops: Vec::new(), byte: Some((value & 0xff) as u8), done: true };
                assert(r@.ops =~= Seq::empty());
                r
            },
        }
    }
}

/// The byte ends a line.
pub open spec fn ends_line(b: u8) -> bool {
    b == CR || b == LF
}

/// Where the line that starts `rx` ends, looked for from `i` on: at the
/// first carriage return or line feed, at `max_len` bytes, or where `rx`
/// ends.
pub open spec fn line_end(rx: Seq<u8>, max_len: int, i: int) -> int
    decreases rx.len() - i,
{
    if i < 0 || i >= rx.len() || i >= max_len || ends_line(rx[i]) {
        i
    } else {
        line_end(rx, max_len, i + 1)
    }
}

/// A line under way.
pub struct LineReader {
    line: Vec<u8>,
    max_len: usize,
    echo: bool,
    complete: bool,
}

/// A line under way, as plain values.
pub struct LineView {
    /// The bytes of the line so far.
    pub line: Seq<u8>,
    /// The most bytes the line may have.
    pub max_len: usize,
    /// Whether each byte is sent back.
    pub echo: bool,
    /// The line is over: it was ended, or it is full.
    pub complete: bool,
}

impl View for LineReader {
    type V = LineView;

    closed spec fn view(&self) -> LineView {
        LineView {
            line: self.line@,
            max_len: self.max_len,
            echo: self.echo,
            complete: self.complete,
        }
    }
}

/// What a received byte does to a line under way.
pub open spec fn pushed(r: LineView, byte: u8) -> LineView {
    if r.complete {
        r
    } else if ends_line(byte) {
        LineView { complete: true, ..r }
    } else {
        LineView { line: r.line.push(byte), complete: r.line.len() + 1 >= r.max_len, ..r }
    }
}

/// A line that was read, and what reading it took.
pub struct Line {
    /// The line, without what ended it.
    pub line: Vec<u8>,
    /// What was sent back: each byte of the line and a line feed, or
    /// nothing.
    pub echoed: Vec<u8>,
    /// How many of the bytes received were taken.
    pub consumed: usize,
    /// The line is over; else the bytes received ran out first.
    pub complete: bool,
}

impl LineReader {
    /// The line holds no more than it may.
    pub closed spec fn wf(&self) -> bool {
        self.line@.len() <= self.max_len && (self.line@.len() == self.max_len ==> self.complete)
    }

    /// Starts a line of at most `max_len` bytes.
    pub fn new(max_len: usize, echo: bool) -> (r: LineReader)
        ensures
            r.wf(),
            r@ == (LineView { line: Seq::empty(), max_len, echo, complete: max_len == 0 }),
    {
        LineReader { line: Vec::new(), max_len, echo, complete: max_len == 0 }
    }

    /// Whether the line is over.
    pub fn complete(&self) -> (r: bool)
        ensures
            r == self@.complete,
    {
        self.complete
    }

    /// Takes the next byte received. A carriage return or a line feed ends
    /// the line; any other byte joins it, and ends it if the line is full
    /// then. Returns the byte to send back, if the line echoes and the byte
    /// joined it.
    pub fn push(&mut self, byte: u8) -> (r: Option<u8>)
        requires
            old(self).wf(),
        ensures
            final(self).wf(),
            final(self)@ == pushed(old(self)@, byte),
            r == if old(self)@.echo && !old(self)@.complete && !ends_line(byte) {
                Some(byte)
            } else {
                None
            },
    {
        if self.complete {
            None
        } else if byte == CR || byte == LF {
            self.complete = true;
            None
        } else {
            self.line.push(byte);
            self.complete = self.line.len() >= self.max_len;
            if self.echo {
                Some(byte)
            } else {
                None
            }
        }
    }

    /// Ends the line. Returns it, and the line feed to send back if the
    /// line echoes.
    pub fn finish(self) -> (r: (Vec<u8>, Option<u8>))
        ensures
            r.0@ == self@.line,
            r.1 == if self@.echo {
                Some(LF)
            } else {
                None
            },
    {
        let tail = if self.echo {
            Some(LF)
        } else {
            None
        };
        (self.line, tail)
    }
}

impl UART {
    /// Reads a line from the bytes `rx` that the console receives: the
    /// bytes up to the first carriage return or line feed, which is taken
    /// too, but `max_len` bytes at most. With `echo`, every byte of the line
    /// and a line feed behind the line are sent back.
    pub fn read_line(rx: &[u8], max_len: usize, echo: bool) -> (r: Line)
        ensures
            r.line@ == rx@.take(line_end(rx@, max_len as int, 0)),
            r.complete == (r.line@.len() == max_len || r.line@.len() < rx@.len()),
            r.consumed == r.line@.len() + if r.line@.len() < max_len && r.line@.len() < rx@.len() {
                1int
            } else {
                0int
            },
            r.echoed@ == if !echo {
                Seq::empty()
            } else if r.complete {
                r.line@.push(LF)
            } else {
                r.line@
            },
    {
        let mut reader = LineReader::new(max_len, echo);
        let mut echoed: Vec<u8> = Vec::new();
        let mut i: usize = 0;
        while i < rx.len() && !reader.complete()
            invariant
                reader.wf(),
                i <= rx@.len(),
                reader@.max_len == max_len,
                reader@.echo == echo,
                line_end(rx@, max_len as int, 0) == if reader@.complete {
                    reader@.line.len() as int
                } else {
                    line_end(rx@, max_len as int, i as int)
                },
                reader@.line.len() <= i,
                !reader@.complete ==> reader@.line.len() == i,
                reader@.complete ==> (reader@.line.len() == max_len && i == max_len) || (
                reader@.line.len() < max_len && i == reader@.line.len() + 1),
                reader@.line == rx@.take(reader@.line.len() as int),
                echoed@ == if echo {
                    reader@.line
                } else {
                    Seq::empty()
                },
            decreases rx@.len() - i,
        {
            let ghost before = reader@.line;
            match reader.push(rx[i]) {
                Some(b) => {
                    echoed.push(b);
                },
                None => {},
            }
            proof {
                if !ends_line(rx@[i as int]) {
                    assert(rx@.take(i + 1) == before.push(rx@[i as int]));
                    assert(line_end(rx@, max_len as int, i as int) == line_end(
                        rx@,
                        max_len as int,
                        i + 1,
                    ));
                    if i + 1 >= max_len {
                        assert(line_end(rx@, max_len as int, i + 1) == i + 1);
                    }
                } else {
                    assert(line_end(rx@, max_len as int, i as int) == i);
                }
            }
            i = i + 1;
        }
        let complete = reader.complete();
        let (line, tail) = reader.finish();
        if complete {
            match tail {
                Some(b) => {
                    echoed.push(b);
                },
                None => {},
            }
        }
        Line { line, echoed, consumed: i, complete }
    }
}

} // verus!
