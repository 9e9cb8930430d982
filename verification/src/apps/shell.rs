//! The shell: one line in, what to say and what to ask of the devices out.
//!
//! The shell touches no device. A command that needs one returns a
//! [`Request`]; the caller carries it out and hands what came of it to
//! [`Shell::resume`], until the shell says that the line is done.

use vstd::prelude::*;
use vstd::string::StringSliceAdditionalSpecFns;
use vstd::slice::slice_to_vec;
use crate::text::{
    bytes_eq, lemma_span_skip, parse_u64, parse_u64_spec, parse_usize, parse_usize_spec,
    scan_until, span, split,
};

verus! {

/// The byte that parts the words of a line.
pub const SPACE: u8 = 0x20;

/// Line feed.
pub const LF: u8 = 0x0a;

/// Carriage return.
pub const CR: u8 = 0x0d;

/// Bytes in a sector of the disk.
pub const SECTOR: usize = 512;

/// Random bytes that `rand` shows.
pub const RANDOM_LEN: usize = 16;

/// The most bytes that a line typed at the console may have.
pub const LINE_MAX: usize = 1024;

/// What a line asks for.
#[derive(Clone, Copy, Debug, PartialEq, Eq, Structural)]
pub enum Command {
    /// `rand`: show 16 random bytes.
    Rand,
    /// `writerand <sector> <len>`: write `len` random printable bytes to the
    /// disk, from sector `sector` on.
    WriteRand { sector: u64, len: usize },
    /// `read <sector> [len]`: show `len` bytes of the disk, from sector
    /// `sector` on.
    Read { sector: u64, len: usize },
    /// `netshell`: serve the shell over the network until that ends.
    NetShell,
    /// `exit`: end the shell.
    Exit,
    /// Anything else.
    Unknown,
}

/// What the shell is waiting for.
#[derive(Clone, Copy, Debug, PartialEq, Eq, Structural)]
pub enum Pending {
    /// Nothing: the next thing is a line.
    Nothing,
    /// `rand` waits for its random bytes.
    Random,
    /// `writerand` waits for the random bytes of sector `sector`; `left`
    /// bytes are still to write.
    WriteEntropy { sector: u64, left: usize },
    /// `writerand` waits for sector `sector` to be written; `left` bytes
    /// were to write before it.
    WriteSector { sector: u64, left: usize },
    /// `read` waits for sector `sector`; `left` bytes are still to show.
    ReadSector { sector: u64, left: usize },
    /// `netshell` waits for the network shell to end.
    NetShell,
}

/// The shell.
#[derive(Clone, Copy, Debug, PartialEq, Eq, Structural)]
pub struct Shell {
    /// What the shell is waiting for.
    pub pending: Pending,
    /// Whether the network device is still there to hand to `netshell`.
    pub net: bool,
}

/// What the shell asks of its caller.
pub enum Request {
    /// Nothing: the line is done. The shell loop ends if `exit` is set.
    Done { exit: bool },
    /// Read `len` bytes from the entropy device and resume with them.
    Entropy { len: usize },
    /// Read sector `sector` of the disk and resume with its 512 bytes.
    ReadSector { sector: u64 },
    /// Write the 512 bytes `data` to sector `sector` of the disk and resume.
    WriteSector { sector: u64, data: Vec<u8> },
    /// Serve the shell over the network until that ends, and resume.
    NetShell,
}

/// A request, as plain values.
pub enum RequestView {
    Done { exit: bool },
    Entropy { len: usize },
    ReadSector { sector: u64 },
    WriteSector { sector: u64, data: Seq<u8> },
    NetShell,
}

impl View for Request {
    type V = RequestView;

    open spec fn view(&self) -> RequestView {
        match *self {
            Request::Done { exit } => RequestView::Done { exit },
            Request::Entropy { len } => RequestView::Entropy { len },
            Request::ReadSector { sector } => RequestView::ReadSector { sector },
            Request::WriteSector { sector, data } => RequestView::WriteSector {
                sector,
                data: data@,
            },
            Request::NetShell => RequestView::NetShell,
        }
    }
}

/// One step of the shell: the pieces to write out, in order, and what to do
/// then.
pub struct Step {
    pub output: Vec<Vec<u8>>,
    pub request: Request,
}

/// A step, as plain values.
pub struct StepView {
    pub output: Seq<Seq<u8>>,
    pub request: RequestView,
}

impl View for Step {
    type V = StepView;

    open spec fn view(&self) -> StepView {
        StepView { output: self.output@.map_values(|c: Vec<u8>| c@), request: self.request@ }
    }
}

/// The line up to its first line feed or carriage return.
pub open spec fn first_line(s: Seq<u8>) -> Seq<u8> {
    let a = span(s, 0, LF);
    let b = span(s, 0, CR);
    s.take(
        if a <= b {
            a as int
        } else {
            b as int
        },
    )
}

/// Field `k` of `fields`, if there are that many.
pub open spec fn nth(fields: Seq<Seq<u8>>, k: int) -> Option<Seq<u8>> {
    if 0 <= k < fields.len() {
        Some(fields[k])
    } else {
        None
    }
}

/// The 64-bit number in word `k`; `default` where there is no such word or
/// it spells no such number.
pub open spec fn arg_u64(words: Seq<Seq<u8>>, k: int, default: u64) -> u64 {
    match nth(words, k) {
        Some(w) => match parse_u64_spec(w) {
            Some(v) => v,
            None => default,
        },
        None => default,
    }
}

/// The machine word in word `k`; `default` where there is no such word or
/// it spells no such number.
pub open spec fn arg_usize(words: Seq<Seq<u8>>, k: int, default: usize) -> usize {
    match nth(words, k) {
        Some(w) => match parse_usize_spec(w) {
            Some(v) => v,
            None => default,
        },
        None => default,
    }
}

/// What the line asks for: its first word is the command, the words after
/// it are the arguments. Single spaces part the words.
pub open spec fn command_of(line: Seq<u8>) -> Command {
    let words = split(first_line(line), SPACE);
    if words[0] == "rand".spec_bytes() {
        Command::Rand
    } else if words[0] == "writerand".spec_bytes() {
        Command::WriteRand { sector: arg_u64(words, 1, 0), len: arg_usize(words, 2, 0) }
    } else if words[0] == "read".spec_bytes() {
        Command::Read { sector: arg_u64(words, 1, 0), len: arg_usize(words, 2, SECTOR) }
    } else if words[0] == "netshell".spec_bytes() {
        Command::NetShell
    } else if words[0] == "exit".spec_bytes() {
        Command::Exit
    } else {
        Command::Unknown
    }
}

/// A random byte made printable: into the range from 32 to 125.
pub open spec fn bias(b: u8) -> u8 {
    (b as int * 100 / 272 + 32) as u8
}

/// The smaller of `len` and a sector.
pub open spec fn piece(len: usize) -> usize {
    if len < SECTOR {
        len
    } else {
        SECTOR
    }
}

/// The sector that `writerand` writes for the random bytes `data`, of which
/// it wanted `want`: each of them made printable, then zeroes.
pub open spec fn sector_image(data: Seq<u8>, want: usize) -> Seq<u8> {
    Seq::new(
        SECTOR as nat,
        |i: int|
            if i < want && i < data.len() {
                bias(data[i])
            } else {
                0
            },
    )
}

/// The sector after `sector`; after the last one comes sector 0.
pub open spec fn next_sector(sector: u64) -> u64 {
    if sector == u64::MAX {
        0
    } else {
        (sector + 1) as u64
    }
}

/// The shell with nothing pending.
pub open spec fn idle(shell: Shell) -> Shell {
    Shell { pending: Pending::Nothing, net: shell.net }
}

/// The step that ends a line, with `output` to write out.
pub open spec fn done(output: Seq<Seq<u8>>) -> StepView {
    StepView { output, request: RequestView::Done { exit: false } }
}

/// The step that asks for `request`, with nothing to write out.
pub open spec fn ask(request: RequestView) -> StepView {
    StepView { output: Seq::empty(), request }
}

/// What a line does to the shell, and the first step of carrying it out.
pub open spec fn started(shell: Shell, line: Seq<u8>) -> (Shell, StepView) {
    match command_of(line) {
        Command::Rand => (
            Shell { pending: Pending::Random, net: shell.net },
            ask(RequestView::Entropy { len: RANDOM_LEN }),
        ),
        Command::WriteRand { sector, len } => if len == 0 {
            (idle(shell), done(seq!["done".spec_bytes()]))
        } else {
            (
                Shell { pending: Pending::WriteEntropy { sector, left: len }, net: shell.net },
                ask(RequestView::Entropy { len: piece(len) }),
            )
        },
        Command::Read { sector, len } => (
            Shell { pending: Pending::ReadSector { sector, left: len }, net: shell.net },
            ask(RequestView::ReadSector { sector }),
        ),
        Command::NetShell => if shell.net {
            (Shell { pending: Pending::NetShell, net: false }, ask(RequestView::NetShell))
        } else {
            (idle(shell), done(Seq::empty()))
        },
        Command::Exit => (
            idle(shell),
            StepView { output: Seq::empty(), request: RequestView::Done { exit: true } },
        ),
        Command::Unknown => (
            idle(shell),
            done(
                seq![
                    "Unknown command \"".spec_bytes(),
                    first_line(line),
                    "\"".spec_bytes(),
                ],
            ),
        ),
    }
}

/// What the outcome `data` of the last request does to the shell, and the
/// next step.
pub open spec fn resumed(shell: Shell, data: Seq<u8>) -> (Shell, StepView) {
    match shell.pending {
        Pending::Nothing => (shell, done(Seq::empty())),
        Pending::Random => (idle(shell), done(seq!["Random: ".spec_bytes(), data])),
        Pending::WriteEntropy { sector, left } => (
            Shell { pending: Pending::WriteSector { sector, left }, net: shell.net },
            ask(RequestView::WriteSector { sector, data: sector_image(data, piece(left)) }),
        ),
        Pending::WriteSector { sector, left } => {
            let rest = (left - piece(left)) as usize;
            if rest > 0 {
                (
                    Shell {
                        pending: Pending::WriteEntropy { sector: next_sector(sector), left: rest },
                        net: shell.net,
                    },
                    ask(RequestView::Entropy { len: piece(rest) }),
                )
            } else {
                (idle(shell), done(seq!["done".spec_bytes()]))
            }
        },
        Pending::ReadSector { sector, left } => if left > SECTOR {
            (
                Shell {
                    pending: Pending::ReadSector {
                        sector: next_sector(sector),
                        left: (left - SECTOR) as usize,
                    },
                    net: shell.net,
                },
                StepView {
                    output: seq![data],
                    request: RequestView::ReadSector { sector: next_sector(sector) },
                },
            )
        } else {
            (
                idle(shell),
                done(
                    seq![
                        data.take(
                            if left < data.len() {
                                left as int
                            } else {
                                data.len() as int
                            },
                        ),
                    ],
                ),
            )
        },
        Pending::NetShell => (idle(shell), done(Seq::empty())),
    }
}

/// The line up to its first line feed or carriage return.
pub fn cut_line(line: &[u8]) -> (r: &[u8])
    ensures
        r@ == first_line(line@),
{
    let a = scan_until(line, 0, LF);
    let b = scan_until(line, 0, CR);
    let n = if a <= b {
        a
    } else {
        b
    };
    &line[0..n]
}

/// Field `k` of the fields that the bytes `sep` part `bytes` into.
pub fn field(bytes: &[u8], sep: u8, k: usize) -> (r: Option<&[u8]>)
    ensures
        match r {
            Some(f) => nth(split(bytes@, sep), k as int) == Some(f@),
            None => nth(split(bytes@, sep), k as int) is None,
        },
{
    let len = bytes.len();
    let mut from: usize = 0;
    let mut left = k;
    assert(bytes@.skip(0) == bytes@);
    loop
        invariant
            len == bytes@.len(),
            from <= len,
            nth(split(bytes@.skip(from as int), sep), left as int) == nth(
                split(bytes@, sep),
                k as int,
            ),
        decreases len - from,
    {
        let n = scan_until(bytes, from, sep);
        let ghost rest = bytes@.skip(from as int);
        proof {
            lemma_span_skip(bytes@, from as int, 0, sep);
            assert(rest.take(n as int) == bytes@.subrange(from as int, from + n));
        }
        if left == 0 {
            return Some(&bytes[from..from + n]);
        }
        if from + n >= len {
            return None;
        }
        proof {
            assert(rest.skip(n + 1) == bytes@.skip(from + n + 1));
            assert(split(rest, sep).drop_first() == split(rest.skip(n + 1), sep));
        }
        from = from + n + 1;
        left = left - 1;
    }
}

fn word_u64(words: &[u8], k: usize, default: u64) -> (r: u64)
    ensures
        r == arg_u64(split(words@, SPACE), k as int, default),
{
    match field(words, SPACE, k) {
        Some(w) => match parse_u64(w) {
            Some(v) => v,
            None => default,
        },
        None => default,
    }
}

fn word_usize(words: &[u8], k: usize, default: usize) -> (r: usize)
    ensures
        r == arg_usize(split(words@, SPACE), k as int, default),
{
    match field(words, SPACE, k) {
        Some(w) => match parse_usize(w) {
            Some(v) => v,
            None => default,
        },
        None => default,
    }
}

/// Makes a random byte printable.
pub fn bias_byte(b: u8) -> (r: u8)
    ensures
        r == bias(b),
        32 <= r <= 125,
{
    ((b as u32 * 100) / 272 + 32) as u8
}

fn text(s: &str) -> (r: Vec<u8>)
    ensures
        r@ == s.spec_bytes(),
{
    slice_to_vec(s.as_bytes())
}

impl Shell {
    /// A shell that waits for its first line. `net` says whether there is a
    /// network device for `netshell`.
    pub fn new(net: bool) -> (r: Shell)
        ensures
            r == (Shell { pending: Pending::Nothing, net }),
    {
        Shell { pending: Pending::Nothing, net }
    }

    /// What the shell writes before it reads a line: `$> `.
    pub fn prompt() -> (r: Vec<u8>)
        ensures
            r@ == "$> ".spec_bytes(),
    {
        text("$> ")
    }

    /// What the shell writes when a line typed at the console is done: a
    /// line feed, unless the line has ended the shell.
    pub fn line_end(exit: bool) -> (r: Option<u8>)
        ensures
            r == if exit {
                None
            } else {
                Some(LF)
            },
    {
        if exit {
            None
        } else {
            Some(LF)
        }
    }

    /// What the line asks for.
    pub fn parse(line: &[u8]) -> (r: Command)
        ensures
            r == command_of(line@),
    {
        let line = cut_line(line);
        let name = match field(line, SPACE, 0) {
            Some(w) => w,
            None => {
                return Command::Unknown;
            },
        };
        if bytes_eq(name, "rand".as_bytes()) {
            Command::Rand
        } else if bytes_eq(name, "writerand".as_bytes()) {
            Command::WriteRand { sector: word_u64(line, 1, 0), len: word_usize(line, 2, 0) }
        } else if bytes_eq(name, "read".as_bytes()) {
            Command::Read { sector: word_u64(line, 1, 0), len: word_usize(line, 2, SECTOR) }
        } else if bytes_eq(name, "netshell".as_bytes()) {
            Command::NetShell
        } else if bytes_eq(name, "exit".as_bytes()) {
            Command::Exit
        } else {
            Command::Unknown
        }
    }

    fn finish(&mut self, output: Vec<Vec<u8>>) -> (r: Step)
        ensures
            *final(self) == idle(*old(self)),
            r@ == done(output@.map_values(|c: Vec<u8>| c@)),
    {
        self.pending = Pending::Nothing;
        Step { output, request: Request::Done { exit: false } }
    }

    fn request(&mut self, pending: Pending, request: Request) -> (r: Step)
        ensures
            *final(self) == (Shell { pending, net: old(self).net }),
            r@ == ask(request@),
    {
        self.pending = pending;
        let r = Step { output: Vec::new(), request };
        assert(r@.output =~= Seq::empty());
        r
    }

    /// `rand`, once its random bytes are there: shows them.
    fn get_random(&mut self, data: &[u8]) -> (r: Step)
        requires
            old(self).pending == Pending::Random,
        ensures
            (*final(self), r@) == resumed(*old(self), data@),
    {
        let output = vec![text("Random: "), slice_to_vec(data)];
        assert(output@.map_values(|c: Vec<u8>| c@) =~= seq!["Random: ".spec_bytes(), data@]);
        self.finish(output)
    }

    /// `writerand`, once random bytes are there or a sector is written:
    /// writes the next sector, or says `done`.
    fn write_random(&mut self, data: &[u8]) -> (r: Step)
        requires
            old(self).pending is WriteEntropy || old(self).pending is WriteSector,
        ensures
            (*final(self), r@) == resumed(*old(self), data@),
    {
        match self.pending {
            Pending::WriteEntropy { sector, left } => {
                let want = if left < SECTOR {
                    left
                } else {
                    SECTOR
                };
                let mut image: Vec<u8> = Vec::new();
                let mut i: usize = 0;
                while i < SECTOR
                    invariant
                        i <= SECTOR,
                        image@.len() == i,
                        forall|k: int|
                            0 <= k < i ==> image@[k] == sector_image(data@, want)[k],
                    decreases SECTOR - i,
                {
                    if i < want && i < data.len() {
                        image.push(bias_byte(data[i]));
                    } else {
                        image.push(0);
                    }
                    i = i + 1;
                }
                assert(image@ =~= sector_image(data@, want));
                self.request(
                    Pending::WriteSector { sector, left },
                    Request::WriteSector { sector, data: image },
                )
            },
            Pending::WriteSector { sector, left } => {
                let rest = if left < SECTOR {
                    0
                } else {
                    left - SECTOR
                };
                if rest > 0 {
                    let len = if rest < SECTOR {
                        rest
                    } else {
                        SECTOR
                    };
                    self.request(
                        Pending::WriteEntropy { sector: sector.wrapping_add(1), left: rest },
                        Request::Entropy { len },
                    )
                } else {
                    let output = vec![text("done")];
                    assert(output@.map_values(|c: Vec<u8>| c@) =~= seq!["done".spec_bytes()]);
                    self.finish(output)
                }
            },
            _ => self.finish(Vec::new()),
        }
    }

    /// `read`, once a sector is there: shows it, or as much of it as was
    /// asked for, and reads on if more was.
    fn read(&mut self, data: &[u8]) -> (r: Step)
        requires
            old(self).pending is ReadSector,
        ensures
            (*final(self), r@) == resumed(*old(self), data@),
    {
        match self.pending {
            Pending::ReadSector { sector, left } => {
                if left > SECTOR {
                    let next = sector.wrapping_add(1);
                    self.pending = Pending::ReadSector { sector: next, left: left - SECTOR };
                    let r = Step {
                        output: vec![slice_to_vec(data)],
                        request: Request::ReadSector { sector: next },
                    };
                    assert(r@.output =~= seq![data@]);
                    r
                } else {
                    let n = if left < data.len() {
                        left
                    } else {
                        data.len()
                    };
                    let output = vec![slice_to_vec(&data[0..n])];
                    assert(output@.map_values(|c: Vec<u8>| c@) =~= seq![data@.take(n as int)]);
                    self.finish(output)
                }
            },
            _ => self.finish(Vec::new()),
        }
    }

    /// Takes a line and starts to carry it out. Returns what to write out
    /// and what to do next; where that is a request, its outcome goes to
    /// [`Shell::resume`].
    pub fn do_line(&mut self, line: &[u8]) -> (r: Step)
        ensures
            (*final(self), r@) == started(*old(self), line@),
    {
        match Shell::parse(line) {
            Command::Rand => self.request(Pending::Random, Request::Entropy { len: RANDOM_LEN }),
            Command::WriteRand { sector, len } => {
                if len == 0 {
                    let output = vec![text("done")];
                    assert(output@.map_values(|c: Vec<u8>| c@) =~= seq!["done".spec_bytes()]);
                    self.finish(output)
                } else {
                    let first = if len < SECTOR {
                        len
                    } else {
                        SECTOR
                    };
                    self.request(
                        Pending::WriteEntropy { sector, left: len },
                        Request::Entropy { len: first },
                    )
                }
            },
            Command::Read { sector, len } => self.request(
                Pending::ReadSector { sector, left: len },
                Request::ReadSector { sector },
            ),
            Command::NetShell => {
                if self.net {
                    self.net = false;
                    self.request(Pending::NetShell, Request::NetShell)
                } else {
                    let output: Vec<Vec<u8>> = Vec::new();
                    assert(output@.map_values(|c: Vec<u8>| c@) =~= Seq::empty());
                    self.finish(output)
                }
            },
            Command::Exit => {
                self.pending = Pending::Nothing;
                let r = Step { output: Vec::new(), request: Request::Done { exit: true } };
                assert(r@.output =~= Seq::empty());
                r
            },
            Command::Unknown => {
                let output = vec![
                    text("Unknown command \""),
                    slice_to_vec(cut_line(line)),
                    text("\""),
                ];
                assert(output@.map_values(|c: Vec<u8>| c@) =~= seq![
                    "Unknown command \"".spec_bytes(),
                    first_line(line@),
                    "\"".spec_bytes(),
                ]);
                self.finish(output)
            },
        }
    }

    /// Goes on with a command, given the outcome `data` of the request that
    /// the last step made: the bytes read, or nothing after a write or the
    /// network shell.
    pub fn resume(&mut self, data: &[u8]) -> (r: Step)
        ensures
            (*final(self), r@) == resumed(*old(self), data@),
    {
        match self.pending {
            Pending::Nothing => {
                let output: Vec<Vec<u8>> = Vec::new();
                assert(output@.map_values(|c: Vec<u8>| c@) =~= Seq::empty());
                self.finish(output)
            },
            Pending::Random => self.get_random(data),
            Pending::WriteEntropy { .. } => self.write_random(data),
            Pending::WriteSector { .. } => self.write_random(data),
            Pending::ReadSector { .. } => self.read(data),
            Pending::NetShell => {
                let output: Vec<Vec<u8>> = Vec::new();
                assert(output@.map_values(|c: Vec<u8>| c@) =~= Seq::empty());
                self.finish(output)
            },
        }
    }
}

} // verus!
