use vstd::prelude::*;
use crate::mpsse::{
    byte_header, chunk_len, framed, set_low_gpio_frame, duplex_opcode, send_opcode, bits_opcode,
    encode_set_low_gpio, encode_read_low_gpio, encode_read_high_gpio, encode_byte_transfer,
    encode_bit_transfer, encode_clock_only, encode_clock_bit, encode_enable_clk_div5,
    encode_clock_divisor, MAX_FRAME_BYTES, is_prefix, lemma_prefix_of_concat, DATA_IN, DATA_OUT, DATA_OCN, DATA_BITS,
};
use crate::status::Error;

verus! {

/// The command interpreter that the bridge firmware runs.
#[derive(Clone, Copy, Debug, PartialEq, Eq, Structural)]
pub enum BitMode {
    Reset,
    AsyncBitbang,
    MPSSE,
    SyncBitbang,
    MCUHost,
    FastSerial,
    CBUSBitbang,
    SyncFIFO,
    Unknown(u8),
}

/// The mode byte the driver uses for each bit mode.
pub open spec fn bit_mode_byte(m: BitMode) -> u8 {
    match m {
        BitMode::Reset => 0x00,
        BitMode::AsyncBitbang => 0x01,
        BitMode::MPSSE => 0x02,
        BitMode::SyncBitbang => 0x04,
        BitMode::MCUHost => 0x08,
        BitMode::FastSerial => 0x10,
        BitMode::CBUSBitbang => 0x20,
        BitMode::SyncFIFO => 0x40,
        BitMode::Unknown(x) => x,
    }
}

/// The bit mode a mode byte reports; bytes without a name are kept as `Unknown`.
pub open spec fn bit_mode_of(b: u8) -> BitMode {
    if b == 0x00 { BitMode::Reset }
    else if b == 0x01 { BitMode::AsyncBitbang }
    else if b == 0x02 { BitMode::MPSSE }
    else if b == 0x04 { BitMode::SyncBitbang }
    else if b == 0x08 { BitMode::MCUHost }
    else if b == 0x10 { BitMode::FastSerial }
    else if b == 0x20 { BitMode::CBUSBitbang }
    else if b == 0x40 { BitMode::SyncFIFO }
    else { BitMode::Unknown(b) }
}

impl BitMode {
    pub fn to_u8(&self) -> (r: u8)
        ensures
            r == bit_mode_byte(*self),
    {
        match *self {
            BitMode::Reset => 0x00,
            BitMode::AsyncBitbang => 0x01,
            BitMode::MPSSE => 0x02,
            BitMode::SyncBitbang => 0x04,
            BitMode::MCUHost => 0x08,
            BitMode::FastSerial => 0x10,
            BitMode::CBUSBitbang => 0x20,
            BitMode::SyncFIFO => 0x40,
            BitMode::Unknown(x) => x,
        }
    }

    pub fn from_u8(b: u8) -> (r: BitMode)
        ensures
            r == bit_mode_of(b),
    {
        match b {
            0x00 => BitMode::Reset,
            0x01 => BitMode::AsyncBitbang,
            0x02 => BitMode::MPSSE,
            0x04 => BitMode::SyncBitbang,
            0x08 => BitMode::MCUHost,
            0x10 => BitMode::FastSerial,
            0x20 => BitMode::CBUSBitbang,
            0x40 => BitMode::SyncFIFO,
            x => BitMode::Unknown(x),
        }
    }
}

impl From<u8> for BitMode {
    fn from(b: u8) -> (r: BitMode) {
        BitMode::from_u8(b)
    }
}

impl vstd::std_specs::convert::FromSpecImpl<u8> for BitMode {
    open spec fn obeys_from_spec() -> bool {
        true
    }

    open spec fn from_spec(b: u8) -> BitMode {
        bit_mode_of(b)
    }
}

/// Interfaces of a multi-channel bridge.
#[derive(Clone, Copy, Debug, PartialEq, Eq, Structural)]
pub enum Interface {
    A,
    B,
    C,
    D,
}

/// The low nibble of a device location that each interface has.
pub open spec fn interface_nibble(i: Interface) -> u32 {
    match i {
        Interface::A => 1,
        Interface::B => 2,
        Interface::C => 3,
        Interface::D => 4,
    }
}

impl Interface {
    /// The interface with the given zero-based index, if there is one.
    pub fn from_index(index: i32) -> (r: Option<Interface>)
        ensures
            index == 0 <==> r == Some(Interface::A),
            index == 1 <==> r == Some(Interface::B),
            index == 2 <==> r == Some(Interface::C),
            index == 3 <==> r == Some(Interface::D),
            r is None <==> !(0 <= index <= 3),
    {
        match index {
            0 => Some(Interface::A),
            1 => Some(Interface::B),
            2 => Some(Interface::C),
            3 => Some(Interface::D),
            _ => None,
        }
    }

    pub fn location_nibble(&self) -> (r: u32)
        ensures
            r == interface_nibble(*self),
    {
        match *self {
            Interface::A => 1,
            Interface::B => 2,
            Interface::C => 3,
            Interface::D => 4,
        }
    }
}

/// One entry of the driver's device list, as far as device selection reads it.
#[allow(non_camel_case_types)]
pub struct FT_DEVICE_LIST_INFO_NODE {
    pub flags: u32,
    pub device_type: u32,
    pub id: u32,
    pub loc_id: u32,
}

/// The device id that a vendor and product id make: vendor in the high half.
pub open spec fn device_id(vid: u16, pid: u16) -> u32 {
    (vid as u32 * 65536 + pid as u32) as u32
}

/// Whether a list entry is the device asked for, on the interface asked for (any
/// interface when none is given).
pub open spec fn entry_matches(id: u32, loc_id: u32, vid: u16, pid: u16, interface: Option<Interface>) -> bool {
    id == device_id(vid, pid) && match interface {
        Some(i) => loc_id % 16 == interface_nibble(i),
        None => true,
    }
}

/// The index of the first entry of `list` that is the device asked for.
pub fn find_device(
    list: &Vec<FT_DEVICE_LIST_INFO_NODE>,
    vid: u16,
    pid: u16,
    interface: Option<Interface>,
) -> (r: Option<usize>)
    ensures
        r matches Some(i) ==> i < list.len() && entry_matches(list[i as int].id, list[i as int].loc_id, vid, pid, interface)
            && forall|j: int| 0 <= j < i ==> !entry_matches(#[trigger] list[j].id, list[j].loc_id, vid, pid, interface),
        r is None ==> forall|j: int| 0 <= j < list.len() ==> !entry_matches(#[trigger] list[j].id, list[j].loc_id, vid, pid, interface),
{
    let target: u32 = (vid as u32) * 65536 + (pid as u32);
    let mut idx: usize = 0;
    while idx < list.len()
        invariant
            idx <= list.len(),
            target == device_id(vid, pid),
            forall|j: int| 0 <= j < idx ==> !entry_matches(#[trigger] list[j].id, list[j].loc_id, vid, pid, interface),
        decreases list.len() - idx,
    {
        let entry = &list[idx];
        let on_interface = match interface {
            Some(i) => entry.loc_id % 16 == i.location_nibble(),
            None => true,
        };
        if entry.id == target && on_interface {
            return Some(idx);
        }
        idx = idx + 1;
    }
    None
}

/// The COM port number the driver reports, when one is assigned (not negative).
pub fn com_port_from_raw(raw: i32) -> (r: Result<usize, Error>)
    ensures
        raw >= 0 ==> r == Ok::<usize, Error>(raw as usize),
        raw < 0 ==> r == Err::<usize, Error>(Error::NoComPortAssigned),
{
    if raw >= 0 {
        Ok(raw as usize)
    } else {
        Err(Error::NoComPortAssigned)
    }
}

/// The byte-stream side of an open bridge, as its driver offers it.
///
/// An implementation performs each call on the hardware; nothing is assumed of what
/// it returns: counts and lengths are checked where they are used.
pub trait ByteDevice {
    /// Hands `bytes` to the bridge; returns how many it took.
    fn write(&mut self, bytes: &[u8]) -> Result<usize, Error>;

    /// Reads up to `len` bytes from the bridge.
    fn read(&mut self, len: usize) -> Result<Vec<u8>, Error>;

    /// Makes the pins in `outputs` outputs and starts the interpreter `mode`.
    fn set_bit_mode(&mut self, outputs: u8, mode: u8) -> Result<(), Error>;

    fn reset(&mut self) -> Result<(), Error>;

    /// Drops what is pending in both directions.
    fn purge(&mut self) -> Result<(), Error>;

    fn latency_timer(&mut self) -> Result<u8, Error>;

    fn set_latency_timer(&mut self, latency: u8) -> Result<(), Error>;

    /// The COM port number, negative when none is assigned.
    fn com_port_number(&mut self) -> Result<i32, Error>;

    /// Waits for `micros` microseconds.
    fn delay_us(&mut self, micros: u64);
}

/// A call made to the bridge's driver, with the driver's answer, as the port's
/// log records it.
pub enum DriverCall {
    SetBitMode(u8, u8, Result<(), Error>),
    Reset(Result<(), Error>),
    Purge(Result<(), Error>),
    LatencyTimer(Result<u8, Error>),
    SetLatencyTimer(u8, Result<(), Error>),
    ComPortNumber(Result<i32, Error>),
    Delay(u64),
    /// Bytes offered on the stream, and the count the device took.
    Write(Seq<u8>, Result<usize, Error>),
    /// A count of bytes asked for, and how many the device gave.
    Read(nat, Result<nat, Error>),
}

/// Whether the device answered a call in full.
pub open spec fn good(c: DriverCall) -> bool {
    match c {
        DriverCall::SetBitMode(_, _, a) => a is Ok,
        DriverCall::Reset(a) => a is Ok,
        DriverCall::Purge(a) => a is Ok,
        DriverCall::LatencyTimer(a) => a is Ok,
        DriverCall::SetLatencyTimer(_, a) => a is Ok,
        DriverCall::ComPortNumber(a) => a is Ok,
        DriverCall::Delay(_) => true,
        DriverCall::Write(b, a) => a == Ok::<usize, Error>(b.len() as usize),
        DriverCall::Read(n, a) => a == Ok::<nat, Error>(n),
    }
}

/// Every call from index `from` on was answered in full.
pub open spec fn all_good(cs: Seq<DriverCall>, from: int) -> bool {
    forall|i: int| from <= i < cs.len() ==> good(#[trigger] cs[i])
}

/// The calls from index `from` on stop at the first answer that fell short: all
/// before the last were answered in full, the last was not.
pub open spec fn halted(cs: Seq<DriverCall>, from: int) -> bool {
    &&& from < cs.len()
    &&& forall|i: int| from <= i < cs.len() - 1 ==> good(#[trigger] cs[i])
    &&& !good(cs.last())
}

/// The calls an operation made after `before`, ending in `after`: they extend the
/// log; when the operation succeeded all were answered in full; when it failed on
/// the device they stop at the first answer that fell short, so nothing was
/// tried again or after it.
pub open spec fn ran(before: Seq<DriverCall>, after: Seq<DriverCall>, ok: bool) -> bool {
    &&& before.len() <= after.len()
    &&& after.take(before.len() as int) == before
    &&& ok ==> all_good(after, before.len() as int)
    &&& !ok ==> halted(after, before.len() as int)
}

/// A run that succeeded, followed by another run, is one run.
pub broadcast proof fn lemma_ran_chain(a: Seq<DriverCall>, b: Seq<DriverCall>, c: Seq<DriverCall>, first: bool, ok: bool)
    requires
        first,
        ran(a, b, first),
        ran(b, c, ok),
    ensures
        #![trigger ran(a, b, first), ran(b, c, ok)]
        ran(a, c, ok),
{
    lemma_ran_then(a, b, c, ok);
}

/// A run that succeeded, followed by another run, is one run.
pub proof fn lemma_ran_then(a: Seq<DriverCall>, b: Seq<DriverCall>, c: Seq<DriverCall>, ok: bool)
    requires
        ran(a, b, true),
        ran(b, c, ok),
    ensures
        ran(a, c, ok),
{
    assert forall|i: int| 0 <= i < b.len() implies c[i] == b[i] by {
        assert(c.take(b.len() as int)[i] == c[i]);
    }
    assert forall|i: int| 0 <= i < a.len() implies c[i] == a[i] by {
        assert(b.take(a.len() as int)[i] == b[i]);
    }
    assert(c.take(a.len() as int) =~= a);
    if ok {
        assert forall|i: int| a.len() <= i < c.len() implies good(#[trigger] c[i]) by {
            if i < b.len() {
                assert(good(b[i]));
            }
        }
    } else {
        assert forall|i: int| a.len() <= i < c.len() - 1 implies good(#[trigger] c[i]) by {
            if i < b.len() {
                assert(good(b[i]));
            }
        }
    }
}

/// Making no call is a successful run.
pub proof fn lemma_ran_none(a: Seq<DriverCall>)
    ensures
        ran(a, a, true),
{
    assert(a.take(a.len() as int) =~= a);
}

/// A write went through exactly when the device took every byte offered.
pub fn check_count(res: Result<usize, Error>, want: usize) -> (r: Result<(), Error>)
    ensures
        r is Ok <==> res == Ok::<usize, Error>(want),
        r matches Err(e) ==> e == Error::IoError,
{
    match res {
        Ok(n) => if n == want { Ok(()) } else { Err(Error::IoError) },
        Err(_) => Err(Error::IoError),
    }
}

/// A read went through exactly when the device gave as many bytes as asked.
pub fn check_read(res: Result<Vec<u8>, Error>, want: usize) -> (r: Result<Vec<u8>, Error>)
    ensures
        r is Ok <==> (res matches Ok(v) && v@.len() == want),
        r matches Ok(v) ==> res == Ok::<Vec<u8>, Error>(v),
        r matches Err(e) ==> e == Error::IoError,
{
    match res {
        Ok(v) => if v.len() == want { Ok(v) } else { Err(Error::IoError) },
        Err(_) => Err(Error::IoError),
    }
}

/// 1 for a failed answer, 0 for a good one.
pub open spec fn fault_of<T>(answer: Result<T, Error>) -> nat {
    if answer is Ok { 0 } else { 1 }
}

/// The calls that bring a bridge into MPSSE mode, in this order and each answered
/// in full: reset, purge, a 1 ms latency timer, all pins outputs in mode 0x02,
/// then the master clock divided by five and the SPI clock divisor.
pub open spec fn init_calls(cs: Seq<DriverCall>, divisor: u8) -> bool {
    &&& cs.len() == 6
    &&& cs[4] == DriverCall::Write(seq![0x8Bu8], Ok(1))
    &&& cs[5] == DriverCall::Write(seq![0x86u8, divisor, 0x00u8], Ok(3))
    &&& cs[0] matches DriverCall::Reset(a) && a is Ok
    &&& cs[1] matches DriverCall::Purge(b) && b is Ok
    &&& cs[2] matches DriverCall::SetLatencyTimer(l, c) && l == 1 && c is Ok
    &&& cs[3] matches DriverCall::SetBitMode(o, m, d) && o == 0xff && m == 0x02 && d is Ok
}

/// What `com_port` makes of the driver's answer.
pub open spec fn com_port_answer(answer: Result<i32, Error>) -> Result<usize, Error> {
    match answer {
        Ok(raw) => if raw >= 0 { Ok(raw as usize) } else { Err(Error::NoComPortAssigned) },
        Err(e) => Err(e),
    }
}

/// An open bridge and the records of what went over it.
pub struct VCP<D> {
    dev: D,
    bit_mode: BitMode,
    sent: Ghost<Seq<u8>>,
    received: Ghost<Seq<u8>>,
    pins: Ghost<Seq<u8>>,
    calls: Ghost<Seq<DriverCall>>,
    faults: Ghost<nat>,
}

impl<D: ByteDevice> VCP<D> {
    /// Every byte written to the bridge through this port, in order.
    pub closed spec fn sent(&self) -> Seq<u8> {
        self.sent@
    }

    /// Every byte read back from the bridge through this port, in order.
    pub closed spec fn received(&self) -> Seq<u8> {
        self.received@
    }

    /// Every value asked of the low GPIO byte, in order.
    pub closed spec fn pins(&self) -> Seq<u8> {
        self.pins@
    }

    pub closed spec fn mode(&self) -> BitMode {
        self.bit_mode
    }

    /// Every driver call made through this port other than the byte stream, in order.
    pub closed spec fn calls(&self) -> Seq<DriverCall> {
        self.calls@
    }

    /// How many device answers fell short so far: a failed driver call, a write
    /// that took fewer bytes than offered, a read that gave fewer than asked.
    pub closed spec fn faults(&self) -> nat {
        self.faults@
    }

    /// Takes over an open device whose firmware runs `bit_mode`.
    pub fn new(dev: D, bit_mode: BitMode) -> (r: VCP<D>)
        ensures
            r.mode() == bit_mode,
            r.sent() == Seq::<u8>::empty(),
            r.received() == Seq::<u8>::empty(),
            r.pins() == Seq::<u8>::empty(),
            r.calls() == Seq::<DriverCall>::empty(),
            r.faults() == 0,
    {
        VCP {
            dev,
            bit_mode,
            sent: Ghost(Seq::empty()),
            received: Ghost(Seq::empty()),
            pins: Ghost(Seq::empty()),
            calls: Ghost(Seq::empty()),
            faults: Ghost(0),
        }
    }

    pub fn bit_mode(&self) -> (r: BitMode)
        ensures
            r == self.mode(),
    {
        self.bit_mode
    }

    /// Gives the device back.
    pub fn into_device(self) -> D {
        self.dev
    }

    /// Writes all of `bytes` in one call; a short or failed write is an `IoError`.
    /// The call succeeds exactly when the device takes every byte.
    pub fn write_all(&mut self, bytes: &[u8]) -> (r: Result<(), Error>)
        ensures
            r matches Err(e) ==> e == Error::IoError,
            final(self).faults() == old(self).faults() + fault_of(r),
            r is Ok ==> final(self).sent() == old(self).sent() + bytes@,
            r is Err ==> final(self).sent() == old(self).sent(),
            final(self).received() == old(self).received(),
            final(self).pins() == old(self).pins(),
            final(self).mode() == old(self).mode(),
            final(self).calls().len() == old(self).calls().len() + 1,
            final(self).calls().drop_last() == old(self).calls(),
            final(self).calls().last() matches DriverCall::Write(b, a)
                && b == bytes@ && (r is Ok <==> a == Ok::<usize, Error>(bytes.len())),
            r is Ok <==> good(final(self).calls().last()),
            ran(old(self).calls(), final(self).calls(), r is Ok),
    {
        let res = self.dev.write(bytes);
        self.calls = Ghost(self.calls@.push(DriverCall::Write(bytes@, res)));
        proof {
            assert(self.calls@.take(old(self).calls().len() as int) =~= old(self).calls());
            assert(self.calls@[old(self).calls().len() as int] == self.calls@.last());
        }
        let r = check_count(res, bytes.len());
        if r.is_ok() {
            self.sent = Ghost(self.sent@ + bytes@);
        } else {
            self.faults = Ghost(self.faults@ + 1);
        }
        r
    }

    /// Reads exactly `len` bytes in one call; a short or failed read is an `IoError`.
    /// The call succeeds exactly when the device gives `len` bytes.
    pub fn read_exact(&mut self, len: usize) -> (r: Result<Vec<u8>, Error>)
        ensures
            r matches Err(e) ==> e == Error::IoError,
            final(self).faults() == old(self).faults() + fault_of(r),
            r matches Ok(v) ==> v@.len() == len && final(self).received() == old(self).received() + v@,
            final(self).sent() == old(self).sent(),
            final(self).pins() == old(self).pins(),
            final(self).mode() == old(self).mode(),
            final(self).calls().len() == old(self).calls().len() + 1,
            final(self).calls().drop_last() == old(self).calls(),
            final(self).calls().last() matches DriverCall::Read(n, a)
                && n == len && (r is Ok <==> a == Ok::<nat, Error>(len as nat)),
            r is Ok <==> good(final(self).calls().last()),
            ran(old(self).calls(), final(self).calls(), r is Ok),
    {
        let res = self.dev.read(len);
        let ghost a: Result<nat, Error> = if res is Ok { Ok(res->Ok_0@.len()) } else { Err(res->Err_0) };
        self.calls = Ghost(self.calls@.push(DriverCall::Read(len as nat, a)));
        proof {
            assert(self.calls@.take(old(self).calls().len() as int) =~= old(self).calls());
            assert(self.calls@[old(self).calls().len() as int] == self.calls@.last());
        }
        let r = check_read(res, len);
        match r {
            Ok(v) => {
                self.received = Ghost(self.received@ + v@);
                Ok(v)
            },
            Err(e) => {
                self.faults = Ghost(self.faults@ + 1);
                Err(e)
            },
        }
    }

    /// Full-duplex SPI transfer of `data`, in place: each piece of at most 65536
    /// bytes is written behind its header and as many bytes are read back into
    /// `data`. An empty `data` makes no I/O.
    pub fn xfer_spi(&mut self, data: &mut Vec<u8>) -> (r: Result<(), Error>)
        ensures
            final(data)@.len() == old(data)@.len(),
            old(data)@.len() == 0 ==> r is Ok && final(self).sent() == old(self).sent()
                && final(self).received() == old(self).received(),
            r is Ok ==> final(self).sent() == old(self).sent() + framed(duplex_opcode(), old(data)@)
                && final(self).received() == old(self).received() + final(data)@,
            r matches Err(e) ==> e == Error::IoError,
            final(self).pins() == old(self).pins(),
            final(self).mode() == old(self).mode(),
            final(self).faults() >= old(self).faults(),
            r is Ok <==> final(self).faults() == old(self).faults(),
            is_prefix(final(self).sent(), old(self).sent() + framed(duplex_opcode(), old(data)@)),
            ran(old(self).calls(), final(self).calls(), r is Ok),
    {
        let len = data.len();
        let ghost orig = data@;
        let ghost s0 = self.sent();
        let ghost r0 = self.received();
        let mut pos: usize = 0;
        assert(orig.skip(0) =~= orig);
        proof { lemma_ran_none(self.calls()); }
        while pos < len
            invariant
                data@.len() == len,
                orig.len() == len,
                len == old(data)@.len(),
                orig == old(data)@,
                s0 == old(self).sent(),
                ran(old(self).calls(), self.calls(), true),
                pos <= len,
                self.sent() + framed(duplex_opcode(), orig.skip(pos as int)) == s0 + framed(duplex_opcode(), orig),
                self.received() == r0 + data@.take(pos as int),
                data@.skip(pos as int) == orig.skip(pos as int),
                self.pins() == old(self).pins(),
                self.mode() == old(self).mode(),
                self.faults() == old(self).faults(),
            decreases len - pos,
        {
            let n: usize = if len - pos > MAX_FRAME_BYTES { MAX_FRAME_BYTES } else { len - pos };
            let f = frame(DATA_IN | DATA_OUT | DATA_OCN, data.as_slice(), pos, n);
            proof {
                assert(DATA_IN | DATA_OUT | DATA_OCN == duplex_opcode()) by (bit_vector);
                lemma_framed_step(duplex_opcode(), orig, pos as nat);
                assert(data@.subrange(pos as int, pos + n) =~= orig.skip(pos as int).take(n as int));
            }
            let ghost sent_before = self.sent();
            let ghost c0 = self.calls();
            match self.write_all(f.as_slice()) {
                Ok(()) => {},
                Err(e) => {
                    proof {
                        lemma_prefix_of_concat(self.sent(), framed(duplex_opcode(), orig.skip(pos as int)));
                        lemma_ran_then(old(self).calls(), c0, self.calls(), false);
                    }
                    return Err(e);
                },
            }
            proof { lemma_ran_then(old(self).calls(), c0, self.calls(), true); }
            let ghost c1 = self.calls();
            proof {
                assert(orig.skip(pos + n) =~= orig.skip(pos as int).skip(n as int));
                assert(self.sent() + framed(duplex_opcode(), orig.skip(pos + n))
                    =~= sent_before + framed(duplex_opcode(), orig.skip(pos as int)));
            }
            let got = match self.read_exact(n) {
                Ok(v) => v,
                Err(e) => {
                    proof {
                        lemma_prefix_of_concat(self.sent(), framed(duplex_opcode(), orig.skip(pos + n)));
                        lemma_ran_then(old(self).calls(), c1, self.calls(), false);
                    }
                    return Err(e);
                },
            };
            proof { lemma_ran_then(old(self).calls(), c1, self.calls(), true); }
            let ghost data_before = data@;
            copy_into(data, pos, &got);
            proof {
                assert(data@.take(pos + n) =~= data_before.take(pos as int) + got@);
                assert(data@.skip(pos + n) =~= data_before.skip(pos + n));
                assert(data_before.skip(pos + n) =~= data_before.skip(pos as int).skip(n as int));
                assert(orig.skip(pos + n) =~= orig.skip(pos as int).skip(n as int));
                assert(self.sent() + framed(duplex_opcode(), orig.skip(pos + n))
                    =~= sent_before + framed(duplex_opcode(), orig.skip(pos as int)));
            }
            pos = pos + n;
        }
        proof {
            assert(orig.skip(len as int) =~= Seq::<u8>::empty());
            assert(data@.take(len as int) =~= data@);
            assert(self.sent() =~= s0 + framed(duplex_opcode(), orig));
            lemma_prefix_of_concat(self.sent(), Seq::empty());
            assert(self.sent() + Seq::<u8>::empty() =~= self.sent());
        }
        Ok(())
    }

    /// Write-only SPI transfer of `data`: each piece of at most 65536 bytes is
    /// written behind its header; nothing is read. An empty `data` makes no I/O.
    pub fn send_spi(&mut self, data: &[u8]) -> (r: Result<(), Error>)
        ensures
            data@.len() == 0 ==> r is Ok && final(self).sent() == old(self).sent(),
            r is Ok ==> final(self).sent() == old(self).sent() + framed(send_opcode(), data@),
            r matches Err(e) ==> e == Error::IoError,
            final(self).received() == old(self).received(),
            final(self).pins() == old(self).pins(),
            final(self).mode() == old(self).mode(),
            final(self).faults() >= old(self).faults(),
            r is Ok <==> final(self).faults() == old(self).faults(),
            is_prefix(final(self).sent(), old(self).sent() + framed(send_opcode(), data@)),
            ran(old(self).calls(), final(self).calls(), r is Ok),
    {
        let len = data.len();
        let ghost s0 = self.sent();
        let mut pos: usize = 0;
        assert(data@.skip(0) =~= data@);
        proof { lemma_ran_none(self.calls()); }
        while pos < len
            invariant
                data@.len() == len,
                pos <= len,
                self.sent() + framed(send_opcode(), data@.skip(pos as int)) == s0 + framed(send_opcode(), data@),
                s0 == old(self).sent(),
                ran(old(self).calls(), self.calls(), true),
                self.received() == old(self).received(),
                self.pins() == old(self).pins(),
                self.mode() == old(self).mode(),
                self.faults() == old(self).faults(),
            decreases len - pos,
        {
            let n: usize = if len - pos > MAX_FRAME_BYTES { MAX_FRAME_BYTES } else { len - pos };
            let f = frame(DATA_OUT | DATA_OCN, data, pos, n);
            proof {
                assert(DATA_OUT | DATA_OCN == send_opcode()) by (bit_vector);
                lemma_framed_step(send_opcode(), data@, pos as nat);
                assert(data@.subrange(pos as int, pos + n) =~= data@.skip(pos as int).take(n as int));
            }
            let ghost sent_before = self.sent();
            let ghost c0 = self.calls();
            match self.write_all(f.as_slice()) {
                Ok(()) => {},
                Err(e) => {
                    proof {
                        lemma_prefix_of_concat(self.sent(), framed(send_opcode(), data@.skip(pos as int)));
                        lemma_ran_then(old(self).calls(), c0, self.calls(), false);
                    }
                    return Err(e);
                },
            }
            proof { lemma_ran_then(old(self).calls(), c0, self.calls(), true); }
            proof {
                assert(self.sent() + framed(send_opcode(), data@.skip(pos + n))
                    =~= sent_before + framed(send_opcode(), data@.skip(pos as int)));
            }
            pos = pos + n;
        }
        proof {
            assert(data@.skip(len as int) =~= Seq::<u8>::empty());
            assert(self.sent() =~= s0 + framed(send_opcode(), data@));
            lemma_prefix_of_concat(self.sent(), Seq::empty());
            assert(self.sent() + Seq::<u8>::empty() =~= self.sent());
        }
        Ok(())
    }

    /// Transfers the top `bits` bits of `data` and returns the byte read back.
    /// No bits means no I/O and a zero result; more than 8 is refused.
    pub fn xfer_spi_bits(&mut self, data: u8, bits: usize) -> (r: Result<u8, Error>)
        ensures
            bits == 0 ==> r == Ok::<u8, Error>(0) && final(self).sent() == old(self).sent()
                && final(self).received() == old(self).received(),
            bits > 8 ==> r == Err::<u8, Error>(Error::InvalidArgs) && final(self).sent() == old(self).sent()
                && final(self).received() == old(self).received(),
            1 <= bits <= 8 ==> (r matches Err(e) ==> e == Error::IoError),
            1 <= bits <= 8 ==> (r matches Ok(b) ==> final(self).sent() == old(self).sent()
                + seq![bits_opcode(), (bits - 1) as u8, data]
                && final(self).received() == old(self).received().push(b)),
            final(self).pins() == old(self).pins(),
            final(self).mode() == old(self).mode(),
            final(self).faults() >= old(self).faults(),
            1 <= bits <= 8 ==> (r is Ok <==> final(self).faults() == old(self).faults()),
            !(1 <= bits <= 8) ==> final(self).faults() == old(self).faults(),
            1 <= bits <= 8 ==> ran(old(self).calls(), final(self).calls(), r is Ok),
            !(1 <= bits <= 8) ==> final(self).calls() == old(self).calls(),
    {
        if bits < 1 {
            return Ok(0);
        }
        let cmd = match encode_bit_transfer(DATA_IN | DATA_OUT | DATA_OCN | DATA_BITS, bits, data) {
            Ok(c) => c,
            Err(e) => { return Err(e); },
        };
        proof {
            assert(DATA_IN | DATA_OUT | DATA_OCN | DATA_BITS == bits_opcode()) by (bit_vector);
        }
        let ghost c0 = self.calls();
        match self.write_all(cmd.as_slice()) {
            Ok(()) => {},
            Err(e) => { return Err(e); },
        }
        let ghost c1 = self.calls();
        let got = match self.read_exact(1) {
            Ok(v) => v,
            Err(e) => {
                proof { lemma_ran_then(c0, c1, self.calls(), false); }
                return Err(e);
            },
        };
        proof { lemma_ran_then(c0, c1, self.calls(), true); }
        assert(got@ =~= seq![got@[0]]);
        Ok(got[0])
    }

    /// Drives the low GPIO byte to `value`; `direction` marks the outputs. The
    /// value is recorded as asked before it is written. Outside MPSSE mode the
    /// bridge cannot take the command and nothing is done.
    pub fn set_gpio(&mut self, value: u8, direction: u8) -> (r: Result<(), Error>)
        ensures
            old(self).mode() != BitMode::MPSSE ==> r == Err::<(), Error>(Error::UnexpectedBitMode)
                && final(self).pins() == old(self).pins() && final(self).sent() == old(self).sent(),
            old(self).mode() == BitMode::MPSSE ==> final(self).pins() == old(self).pins().push(value),
            old(self).mode() == BitMode::MPSSE ==> (r matches Err(e) ==> e == Error::IoError),
            r is Ok ==> final(self).sent() == old(self).sent() + set_low_gpio_frame(value, direction),
            final(self).received() == old(self).received(),
            final(self).mode() == old(self).mode(),
            final(self).faults() >= old(self).faults(),
            old(self).mode() == BitMode::MPSSE ==> (r is Ok <==> final(self).faults() == old(self).faults()),
            old(self).mode() != BitMode::MPSSE ==> final(self).faults() == old(self).faults(),
            r is Err ==> final(self).sent() == old(self).sent(),
            old(self).mode() == BitMode::MPSSE ==> ran(old(self).calls(), final(self).calls(), r is Ok),
            old(self).mode() != BitMode::MPSSE ==> final(self).calls() == old(self).calls(),
    {
        if self.bit_mode != BitMode::MPSSE {
            return Err(Error::UnexpectedBitMode);
        }
        self.pins = Ghost(self.pins@.push(value));
        let cmd = encode_set_low_gpio(value, direction);
        self.write_all(cmd.as_slice())
    }

    /// Reads the pins of the low GPIO byte.
    pub fn readb_low(&mut self) -> (r: Result<u8, Error>)
        ensures
            r matches Err(e) ==> e == Error::IoError,
            r matches Ok(b) ==> final(self).sent() == old(self).sent() + seq![0x81u8]
                && final(self).received() == old(self).received().push(b),
            final(self).pins() == old(self).pins(),
            final(self).mode() == old(self).mode(),
            final(self).faults() >= old(self).faults(),
            r is Ok <==> final(self).faults() == old(self).faults(),
            ran(old(self).calls(), final(self).calls(), r is Ok),
    {
        let cmd = encode_read_low_gpio();
        self.read_one(&cmd)
    }

    /// Reads the pins of the high GPIO byte.
    pub fn readb_high(&mut self) -> (r: Result<u8, Error>)
        ensures
            r matches Err(e) ==> e == Error::IoError,
            r matches Ok(b) ==> final(self).sent() == old(self).sent() + seq![0x83u8]
                && final(self).received() == old(self).received().push(b),
            final(self).pins() == old(self).pins(),
            final(self).mode() == old(self).mode(),
            final(self).faults() >= old(self).faults(),
            r is Ok <==> final(self).faults() == old(self).faults(),
            ran(old(self).calls(), final(self).calls(), r is Ok),
    {
        let cmd = encode_read_high_gpio();
        self.read_one(&cmd)
    }

    /// Writes `cmd` and reads the one byte it answers with.
    fn read_one(&mut self, cmd: &Vec<u8>) -> (r: Result<u8, Error>)
        ensures
            r matches Err(e) ==> e == Error::IoError,
            r matches Ok(b) ==> final(self).sent() == old(self).sent() + cmd@
                && final(self).received() == old(self).received().push(b),
            final(self).pins() == old(self).pins(),
            final(self).mode() == old(self).mode(),
            final(self).faults() >= old(self).faults(),
            r is Ok <==> final(self).faults() == old(self).faults(),
            ran(old(self).calls(), final(self).calls(), r is Ok),
    {
        let ghost c0 = self.calls();
        match self.write_all(cmd.as_slice()) {
            Ok(()) => {},
            Err(e) => { return Err(e); },
        }
        let ghost c1 = self.calls();
        let got = match self.read_exact(1) {
            Ok(v) => v,
            Err(e) => {
                proof { lemma_ran_then(c0, c1, self.calls(), false); }
                return Err(e);
            },
        };
        proof { lemma_ran_then(c0, c1, self.calls(), true); }
        assert(got@ =~= seq![got@[0]]);
        Ok(got[0])
    }

    /// Clocks `n` bytes (8 * n clock cycles) with no data; `n` must not be zero.
    pub fn send_dummy_bytes(&mut self, n: u8) -> (r: Result<(), Error>)
        ensures
            n == 0 ==> r == Err::<(), Error>(Error::InvalidArgs) && final(self).sent() == old(self).sent(),
            n > 0 ==> (r matches Err(e) ==> e == Error::IoError),
            r is Ok ==> final(self).sent() == old(self).sent() + byte_header(0x8F, n as nat),
            final(self).received() == old(self).received(),
            final(self).pins() == old(self).pins(),
            final(self).mode() == old(self).mode(),
            final(self).faults() >= old(self).faults(),
            n > 0 ==> (r is Ok <==> final(self).faults() == old(self).faults()),
            n == 0 ==> final(self).faults() == old(self).faults(),
            n > 0 ==> ran(old(self).calls(), final(self).calls(), r is Ok),
            n == 0 ==> final(self).calls() == old(self).calls(),
    {
        let cmd = match encode_clock_only(n as usize) {
            Ok(c) => c,
            Err(e) => { return Err(e); },
        };
        self.write_all(cmd.as_slice())
    }

    /// Clocks a single cycle with no data.
    pub fn send_dummy_bit(&mut self) -> (r: Result<(), Error>)
        ensures
            r matches Err(e) ==> e == Error::IoError,
            r is Ok ==> final(self).sent() == old(self).sent() + seq![0x8Eu8, 0x00u8],
            final(self).received() == old(self).received(),
            final(self).pins() == old(self).pins(),
            final(self).mode() == old(self).mode(),
            final(self).faults() >= old(self).faults(),
            r is Ok <==> final(self).faults() == old(self).faults(),
            ran(old(self).calls(), final(self).calls(), r is Ok),
    {
        let cmd = encode_clock_bit();
        self.write_all(cmd.as_slice())
    }

    /// Makes the pins in `outputs` outputs and switches the firmware to `bitmode`;
    /// the mode is taken over only when the driver accepts it. The result is the
    /// driver's answer.
    pub fn set_bitmode(&mut self, outputs: u8, bitmode: BitMode) -> (r: Result<(), Error>)
        ensures
            r is Ok ==> final(self).mode() == bitmode,
            r is Err ==> final(self).mode() == old(self).mode(),
            final(self).calls() == old(self).calls().push(DriverCall::SetBitMode(outputs, bit_mode_byte(bitmode), r)),
            final(self).faults() == old(self).faults() + fault_of(r),
            final(self).sent() == old(self).sent(),
            final(self).received() == old(self).received(),
            final(self).pins() == old(self).pins(),
    {
        let r = self.dev.set_bit_mode(outputs, bitmode.to_u8());
        self.calls = Ghost(self.calls@.push(DriverCall::SetBitMode(outputs, bit_mode_byte(bitmode), r)));
        match r {
            Ok(()) => {
                self.bit_mode = bitmode;
            },
            Err(_) => {
                self.faults = Ghost(self.faults@ + 1);
            },
        }
        r
    }

    /// Resets the bridge; the result is the driver's answer.
    pub fn reset(&mut self) -> (r: Result<(), Error>)
        ensures
            final(self).calls() == old(self).calls().push(DriverCall::Reset(r)),
            final(self).faults() == old(self).faults() + fault_of(r),
            final(self).sent() == old(self).sent(),
            final(self).received() == old(self).received(),
            final(self).pins() == old(self).pins(),
            final(self).mode() == old(self).mode(),
    {
        let r = self.dev.reset();
        self.calls = Ghost(self.calls@.push(DriverCall::Reset(r)));
        if r.is_err() {
            self.faults = Ghost(self.faults@ + 1);
        }
        r
    }

    /// Drops what is pending on the bridge in both directions; the result is the
    /// driver's answer.
    pub fn purge(&mut self) -> (r: Result<(), Error>)
        ensures
            final(self).calls() == old(self).calls().push(DriverCall::Purge(r)),
            final(self).faults() == old(self).faults() + fault_of(r),
            final(self).sent() == old(self).sent(),
            final(self).received() == old(self).received(),
            final(self).pins() == old(self).pins(),
            final(self).mode() == old(self).mode(),
    {
        let r = self.dev.purge();
        self.calls = Ghost(self.calls@.push(DriverCall::Purge(r)));
        if r.is_err() {
            self.faults = Ghost(self.faults@ + 1);
        }
        r
    }

    /// The latency timer, as the driver answers.
    pub fn latency_timer(&mut self) -> (r: Result<u8, Error>)
        ensures
            final(self).calls() == old(self).calls().push(DriverCall::LatencyTimer(r)),
            final(self).faults() == old(self).faults() + fault_of(r),
            final(self).sent() == old(self).sent(),
            final(self).received() == old(self).received(),
            final(self).pins() == old(self).pins(),
            final(self).mode() == old(self).mode(),
    {
        let r = self.dev.latency_timer();
        self.calls = Ghost(self.calls@.push(DriverCall::LatencyTimer(r)));
        if r.is_err() {
            self.faults = Ghost(self.faults@ + 1);
        }
        r
    }

    /// Sets the latency timer; the result is the driver's answer.
    pub fn set_latency_timer(&mut self, latency: u8) -> (r: Result<(), Error>)
        ensures
            final(self).calls() == old(self).calls().push(DriverCall::SetLatencyTimer(latency, r)),
            final(self).faults() == old(self).faults() + fault_of(r),
            final(self).sent() == old(self).sent(),
            final(self).received() == old(self).received(),
            final(self).pins() == old(self).pins(),
            final(self).mode() == old(self).mode(),
    {
        let r = self.dev.set_latency_timer(latency);
        self.calls = Ghost(self.calls@.push(DriverCall::SetLatencyTimer(latency, r)));
        if r.is_err() {
            self.faults = Ghost(self.faults@ + 1);
        }
        r
    }

    /// The COM port the bridge is reached on: the driver's number when it is not
    /// negative, `NoComPortAssigned` when it is, the driver's error when it fails.
    pub fn com_port(&mut self) -> (r: Result<usize, Error>)
        ensures
            final(self).calls().len() == old(self).calls().len() + 1,
            final(self).calls().drop_last() == old(self).calls(),
            final(self).calls().last() matches DriverCall::ComPortNumber(a)
                && r == com_port_answer(a)
                && final(self).faults() == old(self).faults() + fault_of(a),
            final(self).sent() == old(self).sent(),
            final(self).received() == old(self).received(),
            final(self).pins() == old(self).pins(),
            final(self).mode() == old(self).mode(),
    {
        let a = self.dev.com_port_number();
        self.calls = Ghost(self.calls@.push(DriverCall::ComPortNumber(a)));
        match a {
            Ok(raw) => com_port_from_raw(raw),
            Err(e) => {
                self.faults = Ghost(self.faults@ + 1);
                Err(e)
            },
        }
    }

    /// Waits for `micros` microseconds.
    pub fn delay_us(&mut self, micros: u64)
        ensures
            final(self).sent() == old(self).sent(),
            final(self).received() == old(self).received(),
            final(self).pins() == old(self).pins(),
            final(self).mode() == old(self).mode(),
            final(self).calls() == old(self).calls().push(DriverCall::Delay(micros)),
            final(self).faults() == old(self).faults(),
            ran(old(self).calls(), final(self).calls(), true),
    {
        self.calls = Ghost(self.calls@.push(DriverCall::Delay(micros)));
        self.dev.delay_us(micros);
        proof {
            assert(self.calls@.take(old(self).calls().len() as int) =~= old(self).calls());
            assert(self.calls@[old(self).calls().len() as int] == DriverCall::Delay(micros));
        }
    }

    /// Brings a freshly opened bridge into MPSSE mode: reset, purge, a 1 ms latency
    /// timer, all pins outputs, the master clock divided by five, then the SPI
    /// clock divisor (50 kHz when `slow_clock`, else 6 MHz).
    pub fn init_mpsse(&mut self, slow_clock: bool) -> (r: Result<(), Error>)
        ensures
            r is Ok ==> final(self).mode() == BitMode::MPSSE,
            r is Ok ==> final(self).sent() == old(self).sent() + seq![0x8Bu8]
                + seq![0x86u8, if slow_clock { 119u8 } else { 0u8 }, 0u8],
            final(self).received() == old(self).received(),
            final(self).pins() == old(self).pins(),
            r is Ok <==> final(self).faults() == old(self).faults(),
            final(self).faults() >= old(self).faults(),
            r is Ok ==> final(self).calls().take(old(self).calls().len() as int) == old(self).calls()
                && init_calls(final(self).calls().skip(old(self).calls().len() as int), if slow_clock { 119u8 } else { 0u8 }),
    {
        let a = self.reset();
        match a {
            Ok(()) => {},
            Err(e) => { return Err(e); },
        }
        let b = self.purge();
        match b {
            Ok(()) => {},
            Err(e) => { return Err(e); },
        }
        let c = self.set_latency_timer(1);
        match c {
            Ok(()) => {},
            Err(e) => { return Err(e); },
        }
        let d = self.set_bitmode(0xff, BitMode::MPSSE);
        match d {
            Ok(()) => {},
            Err(e) => { return Err(e); },
        }
        let ghost added = seq![
            DriverCall::Reset(a),
            DriverCall::Purge(b),
            DriverCall::SetLatencyTimer(1, c),
            DriverCall::SetBitMode(0xff, 0x02, d),
        ];
        assert(self.calls() =~= old(self).calls() + added);
        let div5 = encode_enable_clk_div5();
        match self.write_all(div5.as_slice()) {
            Ok(()) => {},
            Err(e) => { return Err(e); },
        }
        assert(self.calls().last() == DriverCall::Write(seq![0x8Bu8], Ok::<usize, Error>(1)));
        assert(self.calls() =~= old(self).calls() + added + seq![DriverCall::Write(seq![0x8Bu8], Ok::<usize, Error>(1))]);
        let divisor: u8 = if slow_clock { 119 } else { 0 };
        let clock = encode_clock_divisor(divisor, 0x00);
        let ghost mid = self.calls();
        let r = self.write_all(clock.as_slice());
        proof {
            if r is Ok {
                assert(self.calls().last() == DriverCall::Write(seq![0x86u8, divisor, 0x00u8], Ok::<usize, Error>(3)));
                assert(self.calls() =~= mid.push(self.calls().last()));
                let all = added + seq![
                    DriverCall::Write(seq![0x8Bu8], Ok(1)),
                    DriverCall::Write(seq![0x86u8, divisor, 0x00u8], Ok(3)),
                ];
                assert(self.calls() =~= old(self).calls() + all);
                assert(self.calls().take(old(self).calls().len() as int) =~= old(self).calls());
                assert(self.calls().skip(old(self).calls().len() as int) =~= all);
            }
        }
        r
    }
} // impl VCP

/// One step of `framed`: the frames of what is left after `pos` bytes are the
/// next frame, then the frames of what is left after it.
proof fn lemma_framed_step(flags: u8, data: Seq<u8>, pos: nat)
    requires
        pos < data.len(),
    ensures
        ({
            let n = chunk_len((data.len() - pos) as nat);
            &&& 1 <= n <= MAX_FRAME_BYTES
            &&& pos + n <= data.len()
            &&& framed(flags, data.skip(pos as int)) == byte_header(flags, n) + data.skip(pos as int).take(n as int)
                + framed(flags, data.skip((pos + n) as int))
        }),
{
    let n = chunk_len((data.len() - pos) as nat);
    assert(data.skip(pos as int).skip(n as int) =~= data.skip((pos + n) as int));
}

/// A header for `n` bytes followed by `data[start .. start + n]`.
fn frame(flags: u8, data: &[u8], start: usize, n: usize) -> (r: Vec<u8>)
    requires
        1 <= n <= MAX_FRAME_BYTES,
        start + n <= data@.len(),
    ensures
        r@ == byte_header(flags, n as nat) + data@.subrange(start as int, start + n),
{
    let mut r = match encode_byte_transfer(flags, n) {
        Ok(h) => h,
        Err(_) => Vec::new(),
    };
    let ghost h = r@;
    let data_len = data.len();
    let mut i: usize = 0;
    while i < n
        invariant
            i <= n,
            start + n <= data@.len(),
            data_len == data@.len(),
            h == byte_header(flags, n as nat),
            r@ == h + data@.subrange(start as int, start + i),
        decreases n - i,
    {
        r.push(data[start + i]);
        proof {
            assert(data@.subrange(start as int, start + i + 1) =~= data@.subrange(start as int, start + i).push(data@[start + i]));
        }
        i = i + 1;
    }
    r
}

/// Writes `src` over `dst` from index `at` on.
fn copy_into(dst: &mut Vec<u8>, at: usize, src: &Vec<u8>)
    requires
        at + src@.len() <= old(dst)@.len(),
    ensures
        final(dst)@ == old(dst)@.take(at as int) + src@ + old(dst)@.skip(at + src@.len()),
{
    let ghost d0 = dst@;
    let dst_len = dst.len();
    let mut i: usize = 0;
    while i < src.len()
        invariant
            i <= src@.len(),
            at + src@.len() <= d0.len(),
            dst@.len() == d0.len(),
            dst_len == d0.len(),
            forall|k: int| 0 <= k < at ==> dst@[k] == d0[k],
            forall|k: int| 0 <= k < i ==> dst@[at + k] == src@[k],
            forall|k: int| at + i <= k < d0.len() ==> dst@[k] == d0[k],
        decreases src@.len() - i,
    {
        dst.set(at + i, src[i]);
        i = i + 1;
    }
    assert(dst@ =~= d0.take(at as int) + src@ + d0.skip(at + src@.len()));
}

} // verus!
