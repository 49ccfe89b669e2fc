use vstd::prelude::*;
use crate::mpsse::{framed, set_low_gpio_frame, duplex_opcode, send_opcode, bits_opcode, is_prefix, lemma_prefix_extend, lemma_prefix_of_concat};
use crate::status::Error;
use crate::vcp::{com_port_answer, fault_of, ran, lemma_ran_chain, lemma_ran_none, BitMode, ByteDevice, DriverCall, VCP};

verus! {

broadcast use lemma_ran_chain;

/// Erase granularities the engine can ask of the flash chip.
#[derive(Clone, Copy, Debug, PartialEq, Eq, Structural)]
pub enum EraseType {
    Kb64,
}

/// Size of a flash page, the most one page-program command may write.
pub const PAGE_SIZE: usize = 256;
/// First address past the 24-bit flash address space.
pub const ADDRESS_LIMIT: usize = 0x1000000;
/// Low GPIO directions: chip-select, reset and the SPI pins are outputs.
pub const GPIO_DIRECTION: u8 = 0x93;
/// Pause between two status reads, in microseconds.
pub const POLL_DELAY_US: u64 = 1000;

/// Chip-select (GPIO bit 4) is active low.
pub open spec fn cs_asserted(pins: u8) -> bool {
    (pins / 16) % 2 == 0
}

/// FPGA reset (GPIO bit 7) is active low.
pub open spec fn reset_asserted(pins: u8) -> bool {
    pins / 128 == 0
}

/// The pin discipline of the bus: the flash is selected only while the FPGA is
/// held in reset, so the two never drive the flash at once.
pub open spec fn pins_safe(pins: u8) -> bool {
    cs_asserted(pins) ==> reset_asserted(pins)
}

/// GPIO value that selects the flash: chip-select low, FPGA reset low.
pub open spec fn select_pins() -> u8 {
    0x00
}

/// GPIO value that deselects the flash: chip-select high, FPGA reset released.
pub open spec fn deselect_pins() -> u8 {
    0x90
}

pub open spec fn select_frame() -> Seq<u8> {
    set_low_gpio_frame(select_pins(), GPIO_DIRECTION)
}

pub open spec fn deselect_frame() -> Seq<u8> {
    set_low_gpio_frame(deselect_pins(), GPIO_DIRECTION)
}

/// The bytes of one bracketed flash transaction: select, `body`, deselect.
pub open spec fn txn(body: Seq<u8>) -> Seq<u8> {
    select_frame() + body + deselect_frame()
}

/// The pin values one bracketed transaction asks for.
pub open spec fn bracket_pins() -> Seq<u8> {
    seq![select_pins(), deselect_pins()]
}

/// `s` written `k` times over.
pub open spec fn repeat(s: Seq<u8>, k: nat) -> Seq<u8>
    decreases k,
{
    if k == 0 {
        Seq::empty()
    } else {
        repeat(s, (k - 1) as nat) + s
    }
}

/// A 24-bit flash address, big-endian in three bytes.
pub open spec fn addr_bytes(addr: nat) -> Seq<u8> {
    seq![((addr / 65536) % 256) as u8, ((addr / 256) % 256) as u8, (addr % 256) as u8]
}

/// The status register's busy bit (bit 0).
pub open spec fn busy(status: u8) -> bool {
    status % 2 == 1
}

/// The transaction that reads status register 1.
pub open spec fn status_poll() -> Seq<u8> {
    txn(framed(duplex_opcode(), seq![0x05u8, 0x00u8]))
}

/// Whether three consecutive reads from `i` on all show the chip idle.
pub open spec fn idle_run(s: Seq<u8>, i: int) -> bool {
    !busy(s[i]) && !busy(s[i + 1]) && !busy(s[i + 2])
}

/// The ready rule of the wait loop over the status values it read: the reads end
/// with the first run of three idle reads (one idle read confirmed twice), and no
/// such run came earlier.
pub open spec fn ready_after(s: Seq<u8>) -> bool {
    &&& s.len() >= 3
    &&& idle_run(s, s.len() - 3)
    &&& forall|i: int| 0 <= i < s.len() - 3 ==> !#[trigger] idle_run(s, i)
}

/// Status register 1, field by field.
#[derive(Clone, Copy, Debug, PartialEq, Eq, Structural)]
pub struct StatusRegister {
    /// Bit 0: an erase or program is in progress.
    pub busy: bool,
    /// Bit 1: write enable latch.
    pub write_enabled: bool,
    /// Bits 2-3: protection level.
    pub protection: u8,
    /// Bit 4: state of the write-protect pin.
    pub write_protect_pin: bool,
    /// Bit 5: the last erase or program failed.
    pub erase_program_error: bool,
    /// Bit 6: sequential program mode.
    pub program_mode: bool,
    /// Bit 7: the status register is locked.
    pub locked: bool,
}

/// Splits status register 1 into its fields.
pub fn decode_status(sr: u8) -> (r: StatusRegister)
    ensures
        r.busy == (sr % 2 == 1),
        r.write_enabled == ((sr / 2) % 2 == 1),
        r.protection == (sr / 4) % 4,
        r.write_protect_pin == ((sr / 16) % 2 == 1),
        r.erase_program_error == ((sr / 32) % 2 == 1),
        r.program_mode == ((sr / 64) % 2 == 1),
        r.locked == (sr / 128 == 1),
{
    StatusRegister {
        busy: sr % 2 == 1,
        write_enabled: (sr / 2) % 2 == 1,
        protection: (sr / 4) % 4,
        write_protect_pin: (sr / 16) % 2 == 1,
        erase_program_error: (sr / 32) % 2 == 1,
        program_mode: (sr / 64) % 2 == 1,
        locked: sr / 128 == 1,
    }
}

/// How many extended JEDEC ID bytes follow, given the length byte: 0xFF is a
/// misread and means none.
pub open spec fn ext_id_len(len_byte: u8) -> nat {
    if len_byte == 0xFF {
        0
    } else {
        len_byte as nat
    }
}

/// The ID reported for a JEDEC read: manufacturer and two device bytes, then
/// the extended bytes.
pub open spec fn jedec_id(head: Seq<u8>, ext: Seq<u8>) -> Seq<u8> {
    head.subrange(1, 4) + ext
}

/// The ID reported by a JEDEC read whose answer starts at index `at` of `recv`.
pub open spec fn id_at(recv: Seq<u8>, at: int) -> Seq<u8> {
    let head = recv.subrange(at, at + 5);
    jedec_id(head, recv.subrange(at + 5, at + 5 + ext_id_len(head[4])))
}

/// The configuration-done line (GPIO bit 6) in the GPIO byte at index `at` of `recv`.
pub open spec fn cdone_at(recv: Seq<u8>, at: int) -> bool {
    (recv[at] / 64) % 2 == 1
}

/// `n` bytes of 0xFF.
pub open spec fn filler(n: nat) -> Seq<u8> {
    Seq::new(n, |i: int| 0xFFu8)
}

/// The number of extended JEDEC ID bytes to read after the length byte.
pub fn extended_id_len(len_byte: u8) -> (r: usize)
    ensures
        r == ext_id_len(len_byte),
{
    if len_byte == 0xFF {
        0
    } else {
        len_byte as usize
    }
}

/// The reported ID of a JEDEC read: bytes 1..4 of the first five read, then the
/// extended bytes.
pub fn id_bytes(head: &Vec<u8>, ext: &Vec<u8>) -> (r: Vec<u8>)
    requires
        head@.len() >= 4,
    ensures
        r@ == jedec_id(head@, ext@),
{
    let mut r: Vec<u8> = Vec::new();
    r.push(head[1]);
    r.push(head[2]);
    r.push(head[3]);
    let mut i: usize = 0;
    while i < ext.len()
        invariant
            i <= ext@.len(),
            head@.len() >= 4,
            r@ == head@.subrange(1, 4) + ext@.take(i as int),
        decreases ext@.len() - i,
    {
        r.push(ext[i]);
        assert(ext@.take(i + 1) =~= ext@.take(i as int).push(ext@[i as int]));
        i = i + 1;
    }
    assert(ext@.take(ext@.len() as int) =~= ext@);
    assert(r@ =~= jedec_id(head@, ext@));
    r
}

/// One call of the engine, as its log records it.
pub enum FlashOp {
    Reset,
    PowerUp,
    PowerDown,
    ReadId,
    Cdone,
    ReadStatus,
    WriteEnable,
    WriteStatus(u8),
    BulkErase,
    SectorErase(nat),
    Program(nat, Seq<u8>),
    Read(nat, Seq<u8>),
    Wait,
    ReleaseReset,
    ChipSelect,
    ChipDeselect,
}

/// A point in a session as `Flash::checkpoint` records it: the faults and
/// timeouts so far and the bytes received so far.
pub struct Checkpoint {
    pub faults: nat,
    pub timeouts: nat,
    pub received: Seq<u8>,
}

/// The flash protocol engine: owns the bridge and speaks the SPI NOR command set.
pub struct Flash<D> {
    vcp: VCP<D>,
    verbose: bool,
    start: Ghost<nat>,
    polls: Ghost<Seq<u8>>,
    ops: Ghost<Seq<FlashOp>>,
    timeouts: Ghost<nat>,
    marks: Ghost<Seq<Checkpoint>>,
}

impl<D: ByteDevice> Flash<D> {
    /// Every pin value asked since the engine took the bridge obeys the discipline.
    pub closed spec fn wf(&self) -> bool {
        &&& self.start@ <= self.vcp.pins().len()
        &&& forall|i: int| self.start@ <= i < self.vcp.pins().len() ==> pins_safe(#[trigger] self.vcp.pins()[i])
    }

    pub closed spec fn sent(&self) -> Seq<u8> {
        self.vcp.sent()
    }

    pub closed spec fn received(&self) -> Seq<u8> {
        self.vcp.received()
    }

    pub closed spec fn pins(&self) -> Seq<u8> {
        self.vcp.pins()
    }

    /// The pin values asked since the engine took the bridge.
    pub closed spec fn engine_pins(&self) -> Seq<u8> {
        self.vcp.pins().skip(self.start@ as int)
    }

    pub closed spec fn mode(&self) -> BitMode {
        self.vcp.mode()
    }

    /// How many device answers fell short so far (see `VCP::faults`).
    pub closed spec fn faults(&self) -> nat {
        self.vcp.faults()
    }

    /// How many waits gave up after the largest count of polls.
    pub closed spec fn timeouts(&self) -> nat {
        self.timeouts@
    }

    /// The checkpoints taken so far, in order.
    pub closed spec fn marks(&self) -> Seq<Checkpoint> {
        self.marks@
    }

    /// A call that ends in `self` from `before` ran clean: the bridge was in MPSSE
    /// mode, every device answer was in full, and no wait ran out of polls.
    pub open spec fn clean(&self, before: &Flash<D>) -> bool {
        &&& before.mode() == BitMode::MPSSE
        &&& self.faults() == before.faults()
        &&& self.timeouts() == before.timeouts()
    }

    /// The driver calls made through the engine's bridge, byte stream aside.
    pub closed spec fn calls(&self) -> Seq<DriverCall> {
        self.vcp.calls()
    }

    /// Every status value the wait loop has read, in order.
    pub closed spec fn polls(&self) -> Seq<u8> {
        self.polls@
    }

    /// Every engine call made, in order.
    pub closed spec fn ops(&self) -> Seq<FlashOp> {
        self.ops@
    }

    pub closed spec fn is_verbose(&self) -> bool {
        self.verbose
    }

    pub fn new(vcp: VCP<D>) -> (r: Flash<D>)
        ensures
            r.wf(),
            r.engine_pins().len() == 0,
            r.sent() == vcp.sent(),
            r.received() == vcp.received(),
            r.pins() == vcp.pins(),
            r.mode() == vcp.mode(),
            r.polls().len() == 0,
            r.ops().len() == 0,
            r.faults() == vcp.faults(),
            r.timeouts() == 0,
            !r.is_verbose(),
    {
        let ghost start = vcp.pins().len();
        Flash {
            vcp,
            verbose: false,
            start: Ghost(start),
            polls: Ghost(Seq::empty()),
            ops: Ghost(Seq::empty()),
            timeouts: Ghost(0),
            marks: Ghost(Seq::empty()),
        }
    }

    /// Records whether the caller wants a verbose account of the session. The
    /// library itself prints nothing; the flag is there for the caller to read.
    pub fn set_verbose(&mut self, verbose: bool)
        requires
            old(self).wf(),
        ensures
            final(self).wf(),
            final(self).is_verbose() == verbose,
            final(self).sent() == old(self).sent(),
            final(self).received() == old(self).received(),
            final(self).pins() == old(self).pins(),
            final(self).engine_pins() == old(self).engine_pins(),
            final(self).mode() == old(self).mode(),
            final(self).polls() == old(self).polls(),
            final(self).ops() == old(self).ops(),
    {
        self.verbose = verbose;
    }

    pub fn verbose(&self) -> (r: bool)
        ensures
            r == self.is_verbose(),
    {
        self.verbose
    }

    pub fn vcp(&self) -> (r: &VCP<D>)
        ensures
            r.sent() == self.sent(),
            r.received() == self.received(),
            r.pins() == self.pins(),
            r.mode() == self.mode(),
    {
        &self.vcp
    }

    /// Gives the bridge back.
    pub fn into_vcp(self) -> VCP<D> {
        self.vcp
    }

    /// What every operation keeps: the discipline, the bit mode, the poll record,
    /// the verbosity, the count of waits that ran out and the checkpoints; faults
    /// only grow.
    pub open spec fn keeps(&self, before: &Flash<D>) -> bool {
        &&& self.wf()
        &&& self.mode() == before.mode()
        &&& self.polls() == before.polls()
        &&& self.is_verbose() == before.is_verbose()
        &&& self.faults() >= before.faults()
        &&& self.timeouts() == before.timeouts()
        &&& self.marks() == before.marks()
    }

    /// Drives chip-select and FPGA reset; `true` puts a line high.
    fn set_cs_creset(&mut self, cs_high: bool, reset_high: bool) -> (r: Result<(), Error>)
        requires
            old(self).wf(),
            cs_high || !reset_high,
        ensures
            final(self).keeps(old(self)),
            ({
                let v: u8 = ((if cs_high { 0x10int } else { 0int }) + (if reset_high { 0x80int } else { 0int })) as u8;
                &&& old(self).mode() == BitMode::MPSSE ==> final(self).pins() == old(self).pins().push(v)
                &&& old(self).mode() != BitMode::MPSSE ==> final(self).pins() == old(self).pins()
                    && r == Err::<(), Error>(Error::UnexpectedBitMode)
                &&& r is Ok ==> final(self).sent() == old(self).sent() + set_low_gpio_frame(v, GPIO_DIRECTION)
            }),
            r matches Err(e) ==> device_error(e),
            final(self).received() == old(self).received(),
            final(self).ops() == old(self).ops(),
            r is Ok <==> final(self).clean(old(self)),
            r matches Err(e) ==> (e == Error::UnexpectedBitMode <==> old(self).mode() != BitMode::MPSSE),
            r is Err ==> final(self).sent() == old(self).sent(),
            old(self).mode() == BitMode::MPSSE ==> ran(old(self).calls(), final(self).calls(), r is Ok),
    {
        let cs: u8 = if cs_high { 0x10 } else { 0 };
        let reset: u8 = if reset_high { 0x80 } else { 0 };
        let v: u8 = cs + reset;
        let ghost before = self.vcp.pins();
        let r = self.vcp.set_gpio(v, GPIO_DIRECTION);
        proof {
            assert(pins_safe(v));
            assert forall|i: int| self.start@ <= i < self.vcp.pins().len() implies pins_safe(#[trigger] self.vcp.pins()[i]) by {
                if i < before.len() {
                    assert(self.vcp.pins()[i] == before[i]);
                }
            }
        }
        r
    }

    /// Selects the flash; the FPGA is held in reset with it.
    fn select(&mut self) -> (r: Result<(), Error>)
        requires
            old(self).wf(),
        ensures
            final(self).keeps(old(self)),
            r matches Err(e) ==> device_error(e),
            old(self).mode() == BitMode::MPSSE ==> final(self).pins() == old(self).pins().push(select_pins()),
            old(self).mode() != BitMode::MPSSE ==> r == Err::<(), Error>(Error::UnexpectedBitMode)
                && final(self).pins() == old(self).pins(),
            r is Ok ==> final(self).sent() == old(self).sent() + select_frame(),
            final(self).received() == old(self).received(),
            final(self).ops() == old(self).ops(),
            r is Ok <==> final(self).clean(old(self)),
            r matches Err(e) ==> (e == Error::UnexpectedBitMode <==> old(self).mode() != BitMode::MPSSE),
            r is Err ==> final(self).sent() == old(self).sent(),
            old(self).mode() == BitMode::MPSSE ==> ran(old(self).calls(), final(self).calls(), r is Ok),
    {
        self.set_cs_creset(false, false)
    }

    /// Deselects the flash; chip-select and FPGA reset both go high.
    fn deselect(&mut self) -> (r: Result<(), Error>)
        requires
            old(self).wf(),
        ensures
            final(self).keeps(old(self)),
            r matches Err(e) ==> device_error(e),
            old(self).mode() == BitMode::MPSSE ==> final(self).pins() == old(self).pins().push(deselect_pins()),
            old(self).mode() != BitMode::MPSSE ==> r == Err::<(), Error>(Error::UnexpectedBitMode)
                && final(self).pins() == old(self).pins(),
            r is Ok ==> final(self).sent() == old(self).sent() + deselect_frame(),
            final(self).received() == old(self).received(),
            final(self).ops() == old(self).ops(),
            r is Ok <==> final(self).clean(old(self)),
            r matches Err(e) ==> (e == Error::UnexpectedBitMode <==> old(self).mode() != BitMode::MPSSE),
            r is Err ==> final(self).sent() == old(self).sent(),
            old(self).mode() == BitMode::MPSSE ==> ran(old(self).calls(), final(self).calls(), r is Ok),
    {
        self.set_cs_creset(true, true)
    }

    /// Selects the flash (chip-select low) with the FPGA held in reset, in one
    /// GPIO write.
    pub fn chip_select(&mut self) -> (r: Result<(), Error>)
        requires
            old(self).wf(),
        ensures
            final(self).keeps(old(self)),
            r matches Err(e) ==> device_error(e),
            old(self).mode() == BitMode::MPSSE ==> final(self).pins() == old(self).pins().push(select_pins()),
            old(self).mode() != BitMode::MPSSE ==> r == Err::<(), Error>(Error::UnexpectedBitMode)
                && final(self).pins() == old(self).pins(),
            r is Ok ==> final(self).sent() == old(self).sent() + select_frame(),
            final(self).received() == old(self).received(),
            r is Ok <==> final(self).clean(old(self)),
            r matches Err(e) ==> (e == Error::UnexpectedBitMode <==> old(self).mode() != BitMode::MPSSE),
            r is Err ==> final(self).sent() == old(self).sent(),
            final(self).ops() == old(self).ops().push(FlashOp::ChipSelect),
            old(self).mode() == BitMode::MPSSE ==> ran(old(self).calls(), final(self).calls(), r is Ok),
    {
        self.ops = Ghost(self.ops@.push(FlashOp::ChipSelect));
        self.select()
    }

    /// Deselects the flash: chip-select high, FPGA reset released.
    pub fn chip_deselect(&mut self) -> (r: Result<(), Error>)
        requires
            old(self).wf(),
        ensures
            final(self).keeps(old(self)),
            r matches Err(e) ==> device_error(e),
            old(self).mode() == BitMode::MPSSE ==> final(self).pins() == old(self).pins().push(deselect_pins()),
            old(self).mode() != BitMode::MPSSE ==> r == Err::<(), Error>(Error::UnexpectedBitMode)
                && final(self).pins() == old(self).pins(),
            r is Ok ==> final(self).sent() == old(self).sent() + deselect_frame(),
            final(self).received() == old(self).received(),
            r is Ok <==> final(self).clean(old(self)),
            r matches Err(e) ==> (e == Error::UnexpectedBitMode <==> old(self).mode() != BitMode::MPSSE),
            r is Err ==> final(self).sent() == old(self).sent(),
            final(self).ops() == old(self).ops().push(FlashOp::ChipDeselect),
            old(self).mode() == BitMode::MPSSE ==> ran(old(self).calls(), final(self).calls(), r is Ok),
    {
        self.ops = Ghost(self.ops@.push(FlashOp::ChipDeselect));
        self.deselect()
    }

    /// Lets the FPGA boot: FPGA reset released, flash deselected.
    pub fn release_reset(&mut self) -> (r: Result<(), Error>)
        requires
            old(self).wf(),
        ensures
            final(self).keeps(old(self)),
            r matches Err(e) ==> device_error(e),
            old(self).mode() == BitMode::MPSSE ==> final(self).pins() == old(self).pins().push(deselect_pins()),
            old(self).mode() != BitMode::MPSSE ==> r == Err::<(), Error>(Error::UnexpectedBitMode)
                && final(self).pins() == old(self).pins(),
            r is Ok ==> final(self).sent() == old(self).sent() + deselect_frame(),
            final(self).received() == old(self).received(),
            final(self).ops() == old(self).ops().push(FlashOp::ReleaseReset),
            r is Ok <==> final(self).clean(old(self)),
            r matches Err(e) ==> (e == Error::UnexpectedBitMode <==> old(self).mode() != BitMode::MPSSE),
            r is Err ==> final(self).sent() == old(self).sent(),
            old(self).mode() == BitMode::MPSSE ==> ran(old(self).calls(), final(self).calls(), r is Ok),
    {
        self.ops = Ghost(self.ops@.push(FlashOp::ReleaseReset));
        self.set_cs_creset(true, true)
    }

    /// One bracketed full-duplex transaction over `data`, in place.
    fn transfer(&mut self, data: &mut Vec<u8>) -> (r: Result<(), Error>)
        requires
            old(self).wf(),
        ensures
            final(self).keeps(old(self)),
            final(data)@.len() == old(data)@.len(),
            r matches Err(e) ==> device_error(e),
            r is Ok ==> final(self).sent() == old(self).sent() + txn(framed(duplex_opcode(), old(data)@))
                && final(self).received() == old(self).received() + final(data)@
                && final(self).pins() == old(self).pins() + bracket_pins(),
            final(self).ops() == old(self).ops(),
            old(self).mode() != BitMode::MPSSE ==> (r matches Err(e) && e == Error::UnexpectedBitMode),
            r is Ok <==> final(self).clean(old(self)),
            r matches Err(e) ==> (e == Error::UnexpectedBitMode <==> old(self).mode() != BitMode::MPSSE),
            is_prefix(final(self).sent(), old(self).sent() + txn(framed(duplex_opcode(), old(data)@))),
            old(self).mode() == BitMode::MPSSE ==> ran(old(self).calls(), final(self).calls(), r is Ok),
    {
        match self.select() {
            Ok(()) => {},
            Err(e) => {
                proof { lemma_bracket_prefix(old(self).sent(), self.sent(), framed(duplex_opcode(), old(data)@), Seq::empty()); }
                return Err(e);
            },
        }
        match self.vcp.xfer_spi(data) {
            Ok(()) => {},
            Err(e) => {
                proof {
                    assert(old(self).sent() + select_frame() + framed(duplex_opcode(), old(data)@) + Seq::<u8>::empty()
                        =~= old(self).sent() + select_frame() + framed(duplex_opcode(), old(data)@));
                    lemma_bracket_prefix(old(self).sent(), self.sent(), framed(duplex_opcode(), old(data)@), Seq::empty());
                    assert(framed(duplex_opcode(), old(data)@) + Seq::<u8>::empty() =~= framed(duplex_opcode(), old(data)@));
                }
                return Err(e);
            },
        }
        let r = self.deselect();
        proof {
            assert(old(self).sent() + select_frame() + framed(duplex_opcode(), old(data)@) + Seq::<u8>::empty()
                =~= old(self).sent() + select_frame() + framed(duplex_opcode(), old(data)@));
            assert(framed(duplex_opcode(), old(data)@) + Seq::<u8>::empty() =~= framed(duplex_opcode(), old(data)@));
            if r is Ok {
                assert(self.sent() =~= old(self).sent() + txn(framed(duplex_opcode(), old(data)@) + Seq::<u8>::empty()));
            }
            lemma_bracket_prefix(old(self).sent(), self.sent(), framed(duplex_opcode(), old(data)@), Seq::empty());
            if r is Ok {
                assert(self.sent() =~= old(self).sent() + txn(framed(duplex_opcode(), old(data)@)));
                assert(self.pins() =~= old(self).pins() + bracket_pins());
            }
        }
        r
    }

    /// One bracketed write-only transaction: `cmd`, then `payload`.
    fn send(&mut self, cmd: &[u8], payload: &[u8]) -> (r: Result<(), Error>)
        requires
            old(self).wf(),
        ensures
            final(self).keeps(old(self)),
            final(self).received() == old(self).received(),
            r matches Err(e) ==> device_error(e),
            r is Ok ==> final(self).sent() == old(self).sent()
                    + txn(framed(send_opcode(), cmd@) + framed(send_opcode(), payload@))
                && final(self).pins() == old(self).pins() + bracket_pins(),
            final(self).ops() == old(self).ops(),
            old(self).mode() != BitMode::MPSSE ==> (r matches Err(e) && e == Error::UnexpectedBitMode),
            r is Ok <==> final(self).clean(old(self)),
            r matches Err(e) ==> (e == Error::UnexpectedBitMode <==> old(self).mode() != BitMode::MPSSE),
            is_prefix(final(self).sent(), old(self).sent() + txn(framed(send_opcode(), cmd@) + framed(send_opcode(), payload@))),
            old(self).mode() == BitMode::MPSSE ==> ran(old(self).calls(), final(self).calls(), r is Ok),
    {
        let ghost a = framed(send_opcode(), cmd@);
        let ghost b = framed(send_opcode(), payload@);
        match self.select() {
            Ok(()) => {},
            Err(e) => {
                proof { lemma_bracket_prefix(old(self).sent(), self.sent(), a, b); }
                return Err(e);
            },
        }
        match self.vcp.send_spi(cmd) {
            Ok(()) => {},
            Err(e) => {
                proof { lemma_bracket_prefix(old(self).sent(), self.sent(), a, b); }
                return Err(e);
            },
        }
        match self.vcp.send_spi(payload) {
            Ok(()) => {},
            Err(e) => {
                proof { lemma_bracket_prefix(old(self).sent(), self.sent(), a, b); }
                return Err(e);
            },
        }
        let r = self.deselect();
        proof {
            if r is Ok {
                assert(self.sent() =~= old(self).sent() + txn(a + b));
            }
            lemma_bracket_prefix(old(self).sent(), self.sent(), a, b);
            if r is Ok {
                assert(self.sent() =~= old(self).sent()
                    + txn(framed(send_opcode(), cmd@) + framed(send_opcode(), payload@)));
                assert(self.pins() =~= old(self).pins() + bracket_pins());
            }
        }
        r
    }

    /// A one-byte command with no answer that matters.
    fn simple_command(&mut self, opcode: u8) -> (r: Result<(), Error>)
        requires
            old(self).wf(),
        ensures
            final(self).keeps(old(self)),
            r matches Err(e) ==> device_error(e),
            r is Ok ==> final(self).sent() == old(self).sent() + txn(framed(duplex_opcode(), seq![opcode]))
                && final(self).received().len() == old(self).received().len() + 1
                && final(self).received().take(old(self).received().len() as int) == old(self).received()
                && final(self).pins() == old(self).pins() + bracket_pins(),
            final(self).ops() == old(self).ops(),
            old(self).mode() != BitMode::MPSSE ==> (r matches Err(e) && e == Error::UnexpectedBitMode),
            r is Ok <==> final(self).clean(old(self)),
            r matches Err(e) ==> (e == Error::UnexpectedBitMode <==> old(self).mode() != BitMode::MPSSE),
            is_prefix(final(self).sent(), old(self).sent() + txn(framed(duplex_opcode(), seq![opcode]))),
            old(self).mode() == BitMode::MPSSE ==> ran(old(self).calls(), final(self).calls(), r is Ok),
    {
        let mut cmd = vec![opcode];
        assert(cmd@ =~= seq![opcode]);
        let r = self.transfer(&mut cmd);
        proof {
            if r is Ok {
                assert(self.received().take(old(self).received().len() as int) =~= old(self).received());
            }
        }
        r
    }

    /// Pulses chip-select around 8 and then 2 clocked bits of 0xFF, which ends
    /// any multi-byte command the flash may still be in.
    pub fn reset(&mut self) -> (r: Result<(), Error>)
        requires
            old(self).wf(),
        ensures
            final(self).keeps(old(self)),
            r matches Err(e) ==> device_error(e),
            r is Ok ==> final(self).sent() == old(self).sent()
                    + txn(seq![bits_opcode(), 7u8, 0xFFu8]) + txn(seq![bits_opcode(), 1u8, 0xFFu8])
                && final(self).received().len() == old(self).received().len() + 2
                && final(self).received().take(old(self).received().len() as int) == old(self).received()
                && final(self).pins() == old(self).pins() + bracket_pins() + bracket_pins(),
            final(self).ops() == old(self).ops().push(FlashOp::Reset),
            old(self).mode() != BitMode::MPSSE ==> (r matches Err(e) && e == Error::UnexpectedBitMode),
            r is Ok <==> final(self).clean(old(self)),
            r matches Err(e) ==> (e == Error::UnexpectedBitMode <==> old(self).mode() != BitMode::MPSSE),
            old(self).mode() == BitMode::MPSSE ==> ran(old(self).calls(), final(self).calls(), r is Ok),
    {
        self.ops = Ghost(self.ops@.push(FlashOp::Reset));
        match self.pulse(8) {
            Ok(()) => {},
            Err(e) => { return Err(e); },
        }
        let ghost mid = self.received();
        let r = self.pulse(2);
        proof {
            if r is Ok {
                assert(self.received().take(old(self).received().len() as int)
                    =~= self.received().take(mid.len() as int).take(old(self).received().len() as int));
                assert(self.sent() =~= old(self).sent()
                    + txn(seq![bits_opcode(), 7u8, 0xFFu8]) + txn(seq![bits_opcode(), 1u8, 0xFFu8]));
                assert(self.pins() =~= old(self).pins() + bracket_pins() + bracket_pins());
            }
        }
        r
    }

    /// Selects the flash, clocks `bits` bits of 0xFF, deselects.
    fn pulse(&mut self, bits: usize) -> (r: Result<(), Error>)
        requires
            old(self).wf(),
            1 <= bits <= 8,
        ensures
            final(self).keeps(old(self)),
            r matches Err(e) ==> device_error(e),
            r is Ok ==> final(self).sent() == old(self).sent() + txn(seq![bits_opcode(), (bits - 1) as u8, 0xFFu8])
                && final(self).received().len() == old(self).received().len() + 1
                && final(self).received().take(old(self).received().len() as int) == old(self).received()
                && final(self).pins() == old(self).pins() + bracket_pins(),
            final(self).ops() == old(self).ops(),
            old(self).mode() != BitMode::MPSSE ==> (r matches Err(e) && e == Error::UnexpectedBitMode),
            r is Ok <==> final(self).clean(old(self)),
            r matches Err(e) ==> (e == Error::UnexpectedBitMode <==> old(self).mode() != BitMode::MPSSE),
            old(self).mode() == BitMode::MPSSE ==> ran(old(self).calls(), final(self).calls(), r is Ok),
    {
        match self.select() {
            Ok(()) => {},
            Err(e) => { return Err(e); },
        }
        match self.vcp.xfer_spi_bits(0xFF, bits) {
            Ok(_) => {},
            Err(e) => { return Err(e); },
        }
        let r = self.deselect();
        proof {
            if r is Ok {
                assert(self.received().take(old(self).received().len() as int) =~= old(self).received());
                assert(self.sent() =~= old(self).sent() + txn(seq![bits_opcode(), (bits - 1) as u8, 0xFFu8]));
                assert(self.pins() =~= old(self).pins() + bracket_pins());
            }
        }
        r
    }

    /// Release from power-down (0xAB).
    pub fn power_up(&mut self) -> (r: Result<(), Error>)
        requires
            old(self).wf(),
        ensures
            final(self).keeps(old(self)),
            r matches Err(e) ==> device_error(e),
            r is Ok ==> final(self).sent() == old(self).sent() + txn(framed(duplex_opcode(), seq![0xABu8]))
                && final(self).received().len() == old(self).received().len() + 1
                && final(self).pins() == old(self).pins() + bracket_pins(),
            final(self).ops() == old(self).ops().push(FlashOp::PowerUp),
            old(self).mode() != BitMode::MPSSE ==> (r matches Err(e) && e == Error::UnexpectedBitMode),
            r is Ok <==> final(self).clean(old(self)),
            r matches Err(e) ==> (e == Error::UnexpectedBitMode <==> old(self).mode() != BitMode::MPSSE),
            is_prefix(final(self).sent(), old(self).sent() + txn(framed(duplex_opcode(), seq![0xABu8]))),
            old(self).mode() == BitMode::MPSSE ==> ran(old(self).calls(), final(self).calls(), r is Ok),
            r is Ok ==> final(self).received().take(old(self).received().len() as int) == old(self).received(),
    {
        self.ops = Ghost(self.ops@.push(FlashOp::PowerUp));
        self.simple_command(0xAB)
    }

    /// Power-down (0xB9).
    pub fn power_down(&mut self) -> (r: Result<(), Error>)
        requires
            old(self).wf(),
        ensures
            final(self).keeps(old(self)),
            r matches Err(e) ==> device_error(e),
            r is Ok ==> final(self).sent() == old(self).sent() + txn(framed(duplex_opcode(), seq![0xB9u8]))
                && final(self).received().len() == old(self).received().len() + 1
                && final(self).pins() == old(self).pins() + bracket_pins(),
            final(self).ops() == old(self).ops().push(FlashOp::PowerDown),
            old(self).mode() != BitMode::MPSSE ==> (r matches Err(e) && e == Error::UnexpectedBitMode),
            r is Ok <==> final(self).clean(old(self)),
            r matches Err(e) ==> (e == Error::UnexpectedBitMode <==> old(self).mode() != BitMode::MPSSE),
            is_prefix(final(self).sent(), old(self).sent() + txn(framed(duplex_opcode(), seq![0xB9u8]))),
            old(self).mode() == BitMode::MPSSE ==> ran(old(self).calls(), final(self).calls(), r is Ok),
            r is Ok ==> final(self).received().take(old(self).received().len() as int) == old(self).received(),
    {
        self.ops = Ghost(self.ops@.push(FlashOp::PowerDown));
        self.simple_command(0xB9)
    }

    /// Write enable (0x06); must come before every erase, program or status write.
    pub fn write_enable(&mut self) -> (r: Result<(), Error>)
        requires
            old(self).wf(),
        ensures
            final(self).keeps(old(self)),
            r matches Err(e) ==> device_error(e),
            r is Ok ==> final(self).sent() == old(self).sent() + txn(framed(duplex_opcode(), seq![0x06u8]))
                && final(self).received().len() == old(self).received().len() + 1
                && final(self).pins() == old(self).pins() + bracket_pins(),
            final(self).ops() == old(self).ops().push(FlashOp::WriteEnable),
            old(self).mode() != BitMode::MPSSE ==> (r matches Err(e) && e == Error::UnexpectedBitMode),
            r is Ok <==> final(self).clean(old(self)),
            r matches Err(e) ==> (e == Error::UnexpectedBitMode <==> old(self).mode() != BitMode::MPSSE),
            is_prefix(final(self).sent(), old(self).sent() + txn(framed(duplex_opcode(), seq![0x06u8]))),
            old(self).mode() == BitMode::MPSSE ==> ran(old(self).calls(), final(self).calls(), r is Ok),
            r is Ok ==> final(self).received().take(old(self).received().len() as int) == old(self).received(),
    {
        self.ops = Ghost(self.ops@.push(FlashOp::WriteEnable));
        self.simple_command(0x06)
    }

    /// Chip erase (0xC7): the whole device.
    pub fn bulk_erase(&mut self) -> (r: Result<(), Error>)
        requires
            old(self).wf(),
        ensures
            final(self).keeps(old(self)),
            r matches Err(e) ==> device_error(e),
            r is Ok ==> final(self).sent() == old(self).sent() + txn(framed(duplex_opcode(), seq![0xC7u8]))
                && final(self).received().len() == old(self).received().len() + 1
                && final(self).pins() == old(self).pins() + bracket_pins(),
            final(self).ops() == old(self).ops().push(FlashOp::BulkErase),
            old(self).mode() != BitMode::MPSSE ==> (r matches Err(e) && e == Error::UnexpectedBitMode),
            r is Ok <==> final(self).clean(old(self)),
            r matches Err(e) ==> (e == Error::UnexpectedBitMode <==> old(self).mode() != BitMode::MPSSE),
            is_prefix(final(self).sent(), old(self).sent() + txn(framed(duplex_opcode(), seq![0xC7u8]))),
            old(self).mode() == BitMode::MPSSE ==> ran(old(self).calls(), final(self).calls(), r is Ok),
            r is Ok ==> final(self).received().take(old(self).received().len() as int) == old(self).received(),
    {
        self.ops = Ghost(self.ops@.push(FlashOp::BulkErase));
        self.simple_command(0xC7)
    }

    /// Erases the 64 KiB unit that holds `addr` (0xD8 and the address).
    pub fn sector_erase(&mut self, erase_type: EraseType, addr: usize) -> (r: Result<(), Error>)
        requires
            old(self).wf(),
            addr < ADDRESS_LIMIT,
        ensures
            final(self).keeps(old(self)),
            final(self).received() == old(self).received(),
            r matches Err(e) ==> device_error(e),
            r is Ok ==> final(self).sent() == old(self).sent()
                    + txn(framed(send_opcode(), seq![0xD8u8] + addr_bytes(addr as nat)))
                && final(self).pins() == old(self).pins() + bracket_pins(),
            final(self).ops() == old(self).ops().push(FlashOp::SectorErase(addr as nat)),
            old(self).mode() != BitMode::MPSSE ==> (r matches Err(e) && e == Error::UnexpectedBitMode),
            r is Ok <==> final(self).clean(old(self)),
            r matches Err(e) ==> (e == Error::UnexpectedBitMode <==> old(self).mode() != BitMode::MPSSE),
            is_prefix(final(self).sent(), old(self).sent() + txn(framed(send_opcode(), seq![0xD8u8] + addr_bytes(addr as nat)))),
            old(self).mode() == BitMode::MPSSE ==> ran(old(self).calls(), final(self).calls(), r is Ok),
    {
        self.ops = Ghost(self.ops@.push(FlashOp::SectorErase(addr as nat)));
        let opcode: u8 = match erase_type {
            EraseType::Kb64 => 0xD8,
        };
        let cmd = address_command(opcode, addr);
        let none: Vec<u8> = Vec::new();
        let r = self.send(cmd.as_slice(), none.as_slice());
        proof {
            reveal_with_fuel(framed, 1);
            assert(framed(send_opcode(), none@) =~= Seq::<u8>::empty());
            assert(framed(send_opcode(), cmd@) + framed(send_opcode(), none@) =~= framed(send_opcode(), cmd@));
        }
        r
    }

    /// Page program (0x02): writes `data` from `addr` on, inside one page.
    pub fn prog(&mut self, addr: usize, data: &[u8]) -> (r: Result<(), Error>)
        requires
            old(self).wf(),
            addr < ADDRESS_LIMIT,
            addr % PAGE_SIZE + data@.len() <= PAGE_SIZE,
        ensures
            final(self).keeps(old(self)),
            final(self).received() == old(self).received(),
            r matches Err(e) ==> device_error(e),
            r is Ok ==> final(self).sent() == old(self).sent()
                    + txn(framed(send_opcode(), seq![0x02u8] + addr_bytes(addr as nat)) + framed(send_opcode(), data@))
                && final(self).pins() == old(self).pins() + bracket_pins(),
            final(self).ops() == old(self).ops().push(FlashOp::Program(addr as nat, data@)),
            old(self).mode() != BitMode::MPSSE ==> (r matches Err(e) && e == Error::UnexpectedBitMode),
            r is Ok <==> final(self).clean(old(self)),
            r matches Err(e) ==> (e == Error::UnexpectedBitMode <==> old(self).mode() != BitMode::MPSSE),
            is_prefix(final(self).sent(), old(self).sent() + txn(framed(send_opcode(), seq![0x02u8] + addr_bytes(addr as nat)) + framed(send_opcode(), data@))),
            old(self).mode() == BitMode::MPSSE ==> ran(old(self).calls(), final(self).calls(), r is Ok),
    {
        self.ops = Ghost(self.ops@.push(FlashOp::Program(addr as nat, data@)));
        let cmd = address_command(0x02, addr);
        self.send(cmd.as_slice(), data)
    }

    /// Read data (0x03): fills `data` with the flash contents from `addr` on. The
    /// log entry carries the bytes read.
    pub fn read(&mut self, addr: usize, data: &mut Vec<u8>) -> (r: Result<(), Error>)
        requires
            old(self).wf(),
            addr < ADDRESS_LIMIT,
        ensures
            final(self).keeps(old(self)),
            final(data)@.len() == old(data)@.len(),
            r matches Err(e) ==> device_error(e),
            r is Ok ==> final(self).sent() == old(self).sent()
                    + txn(framed(send_opcode(), seq![0x03u8] + addr_bytes(addr as nat)) + framed(duplex_opcode(), old(data)@))
                && final(self).received() == old(self).received() + final(data)@
                && final(self).pins() == old(self).pins() + bracket_pins(),
            final(self).ops() == old(self).ops().push(FlashOp::Read(addr as nat, final(data)@)),
            old(self).mode() != BitMode::MPSSE ==> (r matches Err(e) && e == Error::UnexpectedBitMode),
            r is Ok <==> final(self).clean(old(self)),
            r matches Err(e) ==> (e == Error::UnexpectedBitMode <==> old(self).mode() != BitMode::MPSSE),
            is_prefix(final(self).sent(), old(self).sent() + txn(framed(send_opcode(), seq![0x03u8] + addr_bytes(addr as nat)) + framed(duplex_opcode(), old(data)@))),
            old(self).mode() == BitMode::MPSSE ==> ran(old(self).calls(), final(self).calls(), r is Ok),
    {
        let r = self.read_raw(addr, data);
        self.ops = Ghost(self.ops@.push(FlashOp::Read(addr as nat, data@)));
        r
    }

    /// The read transaction itself, without the log entry.
    fn read_raw(&mut self, addr: usize, data: &mut Vec<u8>) -> (r: Result<(), Error>)
        requires
            old(self).wf(),
            addr < ADDRESS_LIMIT,
        ensures
            final(self).keeps(old(self)),
            final(data)@.len() == old(data)@.len(),
            r matches Err(e) ==> device_error(e),
            r is Ok ==> final(self).sent() == old(self).sent()
                    + txn(framed(send_opcode(), seq![0x03u8] + addr_bytes(addr as nat)) + framed(duplex_opcode(), old(data)@))
                && final(self).received() == old(self).received() + final(data)@
                && final(self).pins() == old(self).pins() + bracket_pins(),
            final(self).ops() == old(self).ops(),
            old(self).mode() != BitMode::MPSSE ==> (r matches Err(e) && e == Error::UnexpectedBitMode),
            r is Ok <==> final(self).clean(old(self)),
            r matches Err(e) ==> (e == Error::UnexpectedBitMode <==> old(self).mode() != BitMode::MPSSE),
            is_prefix(final(self).sent(), old(self).sent() + txn(framed(send_opcode(), seq![0x03u8] + addr_bytes(addr as nat)) + framed(duplex_opcode(), old(data)@))),
            old(self).mode() == BitMode::MPSSE ==> ran(old(self).calls(), final(self).calls(), r is Ok),
    {
        let cmd = address_command(0x03, addr);
        let ghost a = framed(send_opcode(), cmd@);
        let ghost b = framed(duplex_opcode(), old(data)@);
        match self.select() {
            Ok(()) => {},
            Err(e) => {
                proof { lemma_bracket_prefix(old(self).sent(), self.sent(), a, b); }
                return Err(e);
            },
        }
        match self.vcp.send_spi(cmd.as_slice()) {
            Ok(()) => {},
            Err(e) => {
                proof { lemma_bracket_prefix(old(self).sent(), self.sent(), a, b); }
                return Err(e);
            },
        }
        match self.vcp.xfer_spi(data) {
            Ok(()) => {},
            Err(e) => {
                proof { lemma_bracket_prefix(old(self).sent(), self.sent(), a, b); }
                return Err(e);
            },
        }
        let r = self.deselect();
        proof {
            if r is Ok {
                assert(self.sent() =~= old(self).sent() + txn(a + b));
            }
            lemma_bracket_prefix(old(self).sent(), self.sent(), a, b);
            if r is Ok {
                assert(self.sent() =~= old(self).sent()
                    + txn(framed(send_opcode(), cmd@) + framed(duplex_opcode(), old(data)@)));
                assert(self.pins() =~= old(self).pins() + bracket_pins());
            }
        }
        r
    }

    /// Reads the JEDEC ID (0x9F): manufacturer, two device bytes and the length
    /// of the extended ID, then that many extended bytes, all in one transaction.
    /// A length byte of 0xFF is taken for a misread and no extended bytes are read.
    /// The result is the three ID bytes followed by the extended bytes.
    pub fn read_id(&mut self) -> (r: Result<Vec<u8>, Error>)
        requires
            old(self).wf(),
        ensures
            final(self).keeps(old(self)),
            r matches Err(e) ==> device_error(e),
            r matches Ok(id) ==> ({
                let got = final(self).received().skip(old(self).received().len() as int);
                let head = got.take(5);
                let ext = got.skip(5);
                &&& final(self).received().len() == old(self).received().len() + got.len()
                &&& final(self).received().take(old(self).received().len() as int) == old(self).received()
                &&& got.len() == 5 + ext_id_len(head[4])
                &&& id@ == jedec_id(head, ext)
                &&& final(self).sent() == old(self).sent() + txn(
                    framed(duplex_opcode(), seq![0x9Fu8, 0xFFu8, 0xFFu8, 0xFFu8, 0xFFu8])
                        + framed(duplex_opcode(), filler(ext_id_len(head[4]))))
                &&& final(self).pins() == old(self).pins() + bracket_pins()
            }),
            final(self).ops() == old(self).ops().push(FlashOp::ReadId),
            old(self).mode() != BitMode::MPSSE ==> (r matches Err(e) && e == Error::UnexpectedBitMode),
            r is Ok <==> final(self).clean(old(self)),
            r matches Err(e) ==> (e == Error::UnexpectedBitMode <==> old(self).mode() != BitMode::MPSSE),
            old(self).mode() == BitMode::MPSSE ==> ran(old(self).calls(), final(self).calls(), r is Ok),
    {
        self.ops = Ghost(self.ops@.push(FlashOp::ReadId));
        match self.select() {
            Ok(()) => {},
            Err(e) => { return Err(e); },
        }
        let mut head = vec![0x9Fu8, 0xFFu8, 0xFFu8, 0xFFu8, 0xFFu8];
        match self.vcp.xfer_spi(&mut head) {
            Ok(()) => {},
            Err(e) => { return Err(e); },
        }
        let n = extended_id_len(head[4]);
        let mut ext: Vec<u8> = Vec::new();
        let mut i: usize = 0;
        while i < n
            invariant
                i <= n,
                ext@ == filler(i as nat),
            decreases n - i,
        {
            ext.push(0xFF);
            assert(ext@ =~= filler((i + 1) as nat));
            i = i + 1;
        }
        match self.vcp.xfer_spi(&mut ext) {
            Ok(()) => {},
            Err(e) => { return Err(e); },
        }
        match self.deselect() {
            Ok(()) => {},
            Err(e) => { return Err(e); },
        }
        let id = id_bytes(&head, &ext);
        proof {
            let got = self.received().skip(old(self).received().len() as int);
            assert(got =~= head@ + ext@);
            assert(got.take(5) =~= head@);
            assert(got.skip(5) =~= ext@);
            assert(self.received().take(old(self).received().len() as int) =~= old(self).received());
            assert(self.sent() =~= old(self).sent() + txn(
                framed(duplex_opcode(), seq![0x9Fu8, 0xFFu8, 0xFFu8, 0xFFu8, 0xFFu8])
                    + framed(duplex_opcode(), filler(ext_id_len(head@[4])))));
            assert(self.pins() =~= old(self).pins() + bracket_pins());
        }
        Ok(id)
    }

    /// Reads the FPGA's configuration-done line (GPIO bit 6).
    pub fn cdone(&mut self) -> (r: Result<bool, Error>)
        requires
            old(self).wf(),
        ensures
            final(self).keeps(old(self)),
            final(self).pins() == old(self).pins(),
            r matches Err(e) ==> device_error(e),
            r matches Ok(high) ==> final(self).sent() == old(self).sent() + seq![0x81u8]
                && final(self).received().len() == old(self).received().len() + 1
                && final(self).received().take(old(self).received().len() as int) == old(self).received()
                && high == ((final(self).received().last() / 64) % 2 == 1),
            final(self).ops() == old(self).ops().push(FlashOp::Cdone),
            r is Ok <==> final(self).faults() == old(self).faults(),
            r matches Err(e) ==> e == Error::IoError,
            ran(old(self).calls(), final(self).calls(), r is Ok),
    {
        self.ops = Ghost(self.ops@.push(FlashOp::Cdone));
        let b = match self.vcp.readb_low() {
            Ok(b) => b,
            Err(e) => { return Err(e); },
        };
        assert(self.received().take(old(self).received().len() as int) =~= old(self).received());
        Ok((b / 64) % 2 == 1)
    }

    /// The configuration-done line as text: "high" or "low".
    pub fn cdone_str(&mut self) -> (r: Result<&'static str, Error>)
        requires
            old(self).wf(),
        ensures
            final(self).keeps(old(self)),
            final(self).pins() == old(self).pins(),
            r matches Err(e) ==> device_error(e),
            r matches Ok(t) ==> final(self).sent() == old(self).sent() + seq![0x81u8]
                && final(self).received().len() == old(self).received().len() + 1
                && t@ == level_text((final(self).received().last() / 64) % 2 == 1),
            final(self).ops() == old(self).ops().push(FlashOp::Cdone),
            r is Ok <==> final(self).faults() == old(self).faults(),
            r matches Err(e) ==> e == Error::IoError,
    {
        match self.cdone() {
            Ok(high) => {
                if high {
                    proof { reveal_strlit("high"); }
                    Ok("high")
                } else {
                    proof { reveal_strlit("low"); }
                    Ok("low")
                }
            },
            Err(e) => Err(e),
        }
    }

    /// Reads status register 1 (0x05), then pauses one poll interval.
    pub fn read_status(&mut self) -> (r: Result<u8, Error>)
        requires
            old(self).wf(),
        ensures
            final(self).keeps(old(self)),
            r matches Err(e) ==> device_error(e),
            r matches Ok(status) ==> final(self).sent() == old(self).sent() + status_poll()
                && final(self).received().len() == old(self).received().len() + 2
                && final(self).received().take(old(self).received().len() as int) == old(self).received()
                && status == final(self).received().last()
                && final(self).pins() == old(self).pins() + bracket_pins(),
            final(self).ops() == old(self).ops().push(FlashOp::ReadStatus),
            old(self).mode() != BitMode::MPSSE ==> (r matches Err(e) && e == Error::UnexpectedBitMode),
            r is Ok <==> final(self).clean(old(self)),
            r matches Err(e) ==> (e == Error::UnexpectedBitMode <==> old(self).mode() != BitMode::MPSSE),
            is_prefix(final(self).sent(), old(self).sent() + status_poll()),
            old(self).mode() == BitMode::MPSSE ==> ran(old(self).calls(), final(self).calls(), r is Ok),
    {
        self.ops = Ghost(self.ops@.push(FlashOp::ReadStatus));
        let status = match self.status_once() {
            Ok(s) => s,
            Err(e) => { return Err(e); },
        };
        self.vcp.delay_us(POLL_DELAY_US);
        Ok(status)
    }

    /// One status register read, with no pause.
    fn status_once(&mut self) -> (r: Result<u8, Error>)
        requires
            old(self).wf(),
        ensures
            final(self).keeps(old(self)),
            r matches Err(e) ==> device_error(e),
            r matches Ok(status) ==> final(self).sent() == old(self).sent() + status_poll()
                && final(self).received().len() == old(self).received().len() + 2
                && final(self).received().take(old(self).received().len() as int) == old(self).received()
                && status == final(self).received().last()
                && final(self).pins() == old(self).pins() + bracket_pins(),
            final(self).ops() == old(self).ops(),
            old(self).mode() != BitMode::MPSSE ==> (r matches Err(e) && e == Error::UnexpectedBitMode),
            r is Ok <==> final(self).clean(old(self)),
            r matches Err(e) ==> (e == Error::UnexpectedBitMode <==> old(self).mode() != BitMode::MPSSE),
            is_prefix(final(self).sent(), old(self).sent() + status_poll()),
            old(self).mode() == BitMode::MPSSE ==> ran(old(self).calls(), final(self).calls(), r is Ok),
    {
        let mut data = vec![0x05u8, 0x00u8];
        assert(data@ =~= seq![0x05u8, 0x00u8]);
        match self.transfer(&mut data) {
            Ok(()) => {},
            Err(e) => { return Err(e); },
        }
        assert(self.received().take(old(self).received().len() as int) =~= old(self).received());
        Ok(data[1])
    }

    /// Waits until the flash is ready: reads status register 1 once per poll
    /// interval until an idle read is confirmed by two more idle reads in a row
    /// (see `poll_step`). There is no time limit; the count of reads is a `u64`,
    /// and only if it ran out would the wait give up with `IoError`.
    pub fn wait(&mut self) -> (r: Result<(), Error>)
        requires
            old(self).wf(),
        ensures
            final(self).wf(),
            final(self).mode() == old(self).mode(),
            final(self).is_verbose() == old(self).is_verbose(),
            final(self).ops() == old(self).ops().push(FlashOp::Wait),
            final(self).faults() >= old(self).faults(),
            final(self).timeouts() == old(self).timeouts() || final(self).timeouts() == old(self).timeouts() + 1,
            final(self).polls().len() >= old(self).polls().len(),
            final(self).polls().take(old(self).polls().len() as int) == old(self).polls(),
            r is Ok <==> final(self).clean(old(self)),
            r matches Err(e) ==> (e == Error::UnexpectedBitMode <==> old(self).mode() != BitMode::MPSSE),
            r matches Err(e) ==> device_error(e),
            final(self).timeouts() > old(self).timeouts() ==> ({
                let reads = final(self).polls().skip(old(self).polls().len() as int);
                &&& reads.len() == u64::MAX
                &&& final(self).faults() == old(self).faults()
                &&& forall|i: int| 0 <= i < reads.len() - 2 ==> !#[trigger] idle_run(reads, i)
                &&& final(self).sent() == old(self).sent() + repeat(status_poll(), reads.len())
                &&& final(self).pins() == old(self).pins() + repeat(bracket_pins(), reads.len())
                &&& final(self).received().take(old(self).received().len() as int) == old(self).received()
                &&& status_answers(final(self).received().skip(old(self).received().len() as int), reads)
            }),
            is_prefix(final(self).sent(), old(self).sent()
                + repeat(status_poll(), (final(self).polls().len() - old(self).polls().len() + 1) as nat)),
            r is Ok ==> ({
                let reads = final(self).polls().skip(old(self).polls().len() as int);
                &&& ready_after(reads)
                &&& final(self).sent() == old(self).sent() + repeat(status_poll(), reads.len())
                &&& final(self).pins() == old(self).pins() + repeat(bracket_pins(), reads.len())
                &&& final(self).received().take(old(self).received().len() as int) == old(self).received()
                &&& status_answers(final(self).received().skip(old(self).received().len() as int), reads)
            }),
            final(self).marks() == old(self).marks(),
            old(self).mode() == BitMode::MPSSE && final(self).timeouts() == old(self).timeouts() ==> ran(old(self).calls(), final(self).calls(), r is Ok),
    {
        self.ops = Ghost(self.ops@.push(FlashOp::Wait));
        let ghost polls_before = self.polls@;
        let ghost s0 = self.sent();
        let ghost pins0 = self.pins();
        let ghost r0 = self.received();
        let ghost mut reads: Seq<u8> = Seq::empty();
        let ghost mut got: Seq<u8> = Seq::empty();
        let mut idle: u8 = 0;
        let mut polls: u64 = 0;
        assert(polls_before + reads =~= polls_before);
        assert(r0 + got =~= r0);
        proof { lemma_ran_none(self.calls()); }
        while polls < u64::MAX
            invariant
                self.wf(),
                self.mode() == old(self).mode(),
                self.is_verbose() == old(self).is_verbose(),
                self.ops() == old(self).ops().push(FlashOp::Wait),
                self.faults() == old(self).faults(),
                self.timeouts() == old(self).timeouts(),
                self.marks() == old(self).marks(),
                ran(old(self).calls(), self.calls(), true),
                polls_before == old(self).polls(),
                s0 == old(self).sent(),
                pins0 == old(self).pins(),
                r0 == old(self).received(),
                self.polls@ == polls_before + reads,
                self.received() == r0 + got,
                status_answers(got, reads),
                reads.len() == polls,
                polls > 0 ==> self.mode() == BitMode::MPSSE,
                idle <= 2,
                idle <= polls,
                forall|k: int| 0 <= k < idle ==> !busy(#[trigger] reads[reads.len() - 1 - k]),
                idle < polls ==> busy(reads[reads.len() - 1 - idle]),
                forall|i: int| 0 <= i < reads.len() - 2 ==> !#[trigger] idle_run(reads, i),
                self.sent() == s0 + repeat(status_poll(), reads.len()),
                self.pins() == pins0 + repeat(bracket_pins(), reads.len()),
            decreases u64::MAX - polls,
        {
            let ghost recv_before = self.received();
            let ghost sent_before = self.sent();
            let status = match self.status_once() {
                Ok(s) => s,
                Err(e) => {
                    proof {
                        assert(self.polls@.take(polls_before.len() as int) =~= polls_before);
                        assert(self.polls@.len() - polls_before.len() == reads.len());
                        assert(repeat(status_poll(), reads.len() + 1) == repeat(status_poll(), reads.len()) + status_poll());
                        assert(s0 + repeat(status_poll(), reads.len() + 1) =~= sent_before + status_poll());
                    }
                    return Err(e);
                },
            };
            let ghost prev = reads;
            let ghost prev_got = got;
            proof {
                reads = reads.push(status);
                let pair = self.received().skip(recv_before.len() as int);
                assert(self.received() =~= recv_before + pair);
                got = got + pair;
                assert(self.received() =~= r0 + got);
                assert(pair.len() == 2 && pair[1] == status);
                assert forall|i: int| 0 <= i < reads.len() implies #[trigger] got[2 * i + 1] == reads[i] by {
                    if i < prev.len() {
                        assert(got[2 * i + 1] == prev_got[2 * i + 1]);
                    } else {
                        assert(got[2 * i + 1] == pair[1]);
                    }
                }
                assert(repeat(status_poll(), reads.len()) == repeat(status_poll(), prev.len()) + status_poll());
                assert(repeat(bracket_pins(), reads.len()) == repeat(bracket_pins(), prev.len()) + bracket_pins());
                assert(self.sent() =~= s0 + repeat(status_poll(), reads.len()));
                assert(self.pins() =~= pins0 + repeat(bracket_pins(), reads.len()));
            }
            self.polls = Ghost(self.polls@.push(status));
            assert(self.polls@ =~= polls_before + reads);
            polls = polls + 1;
            let (next, ready) = poll_step(idle, status);
            if ready {
                proof {
                    assert(self.polls@.skip(polls_before.len() as int) =~= reads);
                    assert(self.polls@.take(polls_before.len() as int) =~= polls_before);
                    assert(self.received().skip(r0.len() as int) =~= got);
                    assert(self.received().take(r0.len() as int) =~= r0);
                    assert(!busy(prev[prev.len() - 1 - 0]));
                    assert(!busy(prev[prev.len() - 1 - 1]));
                    assert(reads[reads.len() - 2] == prev[prev.len() - 1]);
                    assert(reads[reads.len() - 3] == prev[prev.len() - 2]);
                    assert(idle_run(reads, reads.len() - 3));
                    lemma_prefix_of_concat(self.sent(), status_poll());
                    assert(repeat(status_poll(), reads.len() + 1) == repeat(status_poll(), reads.len()) + status_poll());
                    assert(s0 + repeat(status_poll(), reads.len() + 1) =~= self.sent() + status_poll());
                    assert forall|i: int| 0 <= i < reads.len() - 3 implies !#[trigger] idle_run(reads, i) by {
                        assert(!idle_run(prev, i));
                        assert(reads[i] == prev[i] && reads[i + 1] == prev[i + 1] && reads[i + 2] == prev[i + 2]);
                    }
                }
                return Ok(());
            }
            proof {
                if busy(status) {
                    assert forall|i: int| 0 <= i < reads.len() - 2 implies !#[trigger] idle_run(reads, i) by {
                        if i < prev.len() - 2 {
                            assert(!idle_run(prev, i));
                            assert(reads[i] == prev[i] && reads[i + 1] == prev[i + 1] && reads[i + 2] == prev[i + 2]);
                        }
                    }
                } else {
                    assert forall|i: int| 0 <= i < reads.len() - 2 implies !#[trigger] idle_run(reads, i) by {
                        if i < prev.len() - 2 {
                            assert(!idle_run(prev, i));
                            assert(reads[i] == prev[i] && reads[i + 1] == prev[i + 1] && reads[i + 2] == prev[i + 2]);
                        } else {
                            assert(i == reads.len() - 3);
                            assert(busy(prev[prev.len() - 1 - idle]));
                        }
                    }
                    assert forall|k: int| 0 <= k < next implies !busy(#[trigger] reads[reads.len() - 1 - k]) by {
                        if k > 0 {
                            assert(reads[reads.len() - 1 - k] == prev[prev.len() - 1 - (k - 1)]);
                        }
                    }
                    if next < polls {
                        assert(reads[reads.len() - 1 - next] == prev[prev.len() - 1 - (next - 1)]);
                    }
                }
            }
            idle = next;
            self.vcp.delay_us(POLL_DELAY_US);
        }
        self.timeouts = Ghost(self.timeouts@ + 1);
        proof {
            assert(self.polls@.take(polls_before.len() as int) =~= polls_before);
            assert(self.polls@.skip(polls_before.len() as int) =~= reads);
            assert(self.received().skip(r0.len() as int) =~= got);
            assert(self.received().take(r0.len() as int) =~= r0);
            lemma_prefix_of_concat(self.sent(), status_poll());
            assert(repeat(status_poll(), reads.len() + 1) == repeat(status_poll(), reads.len()) + status_poll());
            assert(s0 + repeat(status_poll(), reads.len() + 1) =~= self.sent() + status_poll());
        }
        Err(Error::IoError)
    }

    /// Write status register 1 (0x01) with `value`.
    pub fn write_status(&mut self, value: u8) -> (r: Result<(), Error>)
        requires
            old(self).wf(),
        ensures
            final(self).keeps(old(self)),
            r matches Err(e) ==> device_error(e),
            r is Ok ==> final(self).sent() == old(self).sent() + txn(framed(duplex_opcode(), seq![0x01u8, value]))
                && final(self).received().len() == old(self).received().len() + 2
                && final(self).pins() == old(self).pins() + bracket_pins(),
            final(self).ops() == old(self).ops().push(FlashOp::WriteStatus(value)),
            old(self).mode() != BitMode::MPSSE ==> (r matches Err(e) && e == Error::UnexpectedBitMode),
            r is Ok <==> final(self).clean(old(self)),
            r matches Err(e) ==> (e == Error::UnexpectedBitMode <==> old(self).mode() != BitMode::MPSSE),
            is_prefix(final(self).sent(), old(self).sent() + txn(framed(duplex_opcode(), seq![0x01u8, value]))),
            old(self).mode() == BitMode::MPSSE ==> ran(old(self).calls(), final(self).calls(), r is Ok),
    {
        self.ops = Ghost(self.ops@.push(FlashOp::WriteStatus(value)));
        let mut data = vec![0x01u8, value];
        assert(data@ =~= seq![0x01u8, value]);
        self.transfer(&mut data)
    }

    /// Clears the protection bits: writes 0 to status register 1, waits until
    /// ready, and returns status register 1 as read afterwards (0 when the
    /// protection is off).
    pub fn disable_protection(&mut self) -> (r: Result<u8, Error>)
        requires
            old(self).wf(),
        ensures
            final(self).wf(),
            final(self).mode() == old(self).mode(),
            final(self).is_verbose() == old(self).is_verbose(),
            final(self).polls().take(old(self).polls().len() as int) == old(self).polls(),
            r matches Err(e) ==> device_error(e),
            r matches Ok(status) ==> ({
                let reads = final(self).polls().skip(old(self).polls().len() as int);
                &&& ready_after(reads)
                &&& final(self).sent() == old(self).sent() + txn(framed(duplex_opcode(), seq![0x01u8, 0x00u8]))
                    + repeat(status_poll(), reads.len()) + status_poll()
                &&& status == final(self).received().last()
            }),
            r is Ok ==> final(self).ops() == old(self).ops() + seq![FlashOp::WriteStatus(0), FlashOp::Wait, FlashOp::ReadStatus],
            old(self).mode() != BitMode::MPSSE ==> (r matches Err(e) && e == Error::UnexpectedBitMode),
            r is Ok <==> final(self).clean(old(self)),
            r matches Err(e) ==> (e == Error::UnexpectedBitMode <==> old(self).mode() != BitMode::MPSSE),
            final(self).faults() >= old(self).faults(),
            final(self).timeouts() >= old(self).timeouts(),
            final(self).marks() == old(self).marks(),
            old(self).mode() == BitMode::MPSSE && final(self).timeouts() == old(self).timeouts() ==> ran(old(self).calls(), final(self).calls(), r is Ok),
    {
        match self.write_status(0x00) {
            Ok(()) => {},
            Err(e) => { return Err(e); },
        }
        match self.wait() {
            Ok(()) => {},
            Err(e) => { return Err(e); },
        }
        let r = self.status_once();
        self.ops = Ghost(self.ops@.push(FlashOp::ReadStatus));
        proof {
            if r is Ok {
                assert(self.ops@ =~= old(self).ops() + seq![FlashOp::WriteStatus(0), FlashOp::Wait, FlashOp::ReadStatus]);
            }
        }
        r
    }

    /// Records where the session stands (faults, timeouts, bytes received), so
    /// that what happens before and after this point can be told apart. Nothing
    /// goes to the bridge.
    pub fn checkpoint(&mut self)
        requires
            old(self).wf(),
        ensures
            final(self).wf(),
            final(self).mode() == old(self).mode(),
            final(self).polls() == old(self).polls(),
            final(self).is_verbose() == old(self).is_verbose(),
            final(self).timeouts() == old(self).timeouts(),
            final(self).faults() == old(self).faults(),
            final(self).ops() == old(self).ops(),
            final(self).sent() == old(self).sent(),
            final(self).received() == old(self).received(),
            final(self).pins() == old(self).pins(),
            final(self).calls() == old(self).calls(),
            final(self).marks() == old(self).marks().push(Checkpoint {
                faults: old(self).faults(),
                timeouts: old(self).timeouts(),
                received: old(self).received(),
            }),
    {
        self.marks = Ghost(self.marks@.push(Checkpoint {
            faults: self.vcp.faults(),
            timeouts: self.timeouts@,
            received: self.vcp.received(),
        }));
    }

    /// Waits for `micros` microseconds.
    pub fn delay_us(&mut self, micros: u64)
        requires
            old(self).wf(),
        ensures
            final(self).keeps(old(self)),
            final(self).ops() == old(self).ops(),
            final(self).sent() == old(self).sent(),
            final(self).received() == old(self).received(),
            final(self).pins() == old(self).pins(),
            final(self).calls() == old(self).calls().push(DriverCall::Delay(micros)),
            ran(old(self).calls(), final(self).calls(), true),
            final(self).faults() == old(self).faults(),
    {
        self.vcp.delay_us(micros)
    }

    /// The COM port the bridge is reached on.
    pub fn com_port(&mut self) -> (r: Result<usize, Error>)
        requires
            old(self).wf(),
        ensures
            final(self).keeps(old(self)),
            final(self).ops() == old(self).ops(),
            final(self).sent() == old(self).sent(),
            final(self).received() == old(self).received(),
            final(self).pins() == old(self).pins(),
            final(self).calls().len() == old(self).calls().len() + 1,
            final(self).calls().drop_last() == old(self).calls(),
            final(self).calls().last() matches DriverCall::ComPortNumber(a)
                && r == com_port_answer(a)
                && final(self).faults() == old(self).faults() + fault_of(a),
    {
        self.vcp.com_port()
    }
} // impl Flash

/// Whatever sequence of engine calls was made, the flash was selected only while
/// the FPGA was held in reset.
pub proof fn lemma_select_only_in_reset<D: ByteDevice>(f: &Flash<D>)
    requires
        f.wf(),
    ensures
        forall|i: int| 0 <= i < f.engine_pins().len()
            ==> (cs_asserted(#[trigger] f.engine_pins()[i]) ==> reset_asserted(f.engine_pins()[i])),
{
    assert forall|i: int| 0 <= i < f.engine_pins().len() && cs_asserted(#[trigger] f.engine_pins()[i])
        implies reset_asserted(f.engine_pins()[i]) by {
        assert(f.engine_pins()[i] == f.vcp.pins()[f.start@ + i]);
    }
}

/// The wait loop's ready rule: when it returns, its last two reads showed the
/// chip idle (so it never returns on busy reads), and it returns at the first
/// idle read that two more idle reads confirm, never later.
pub proof fn lemma_ready_rule(reads: Seq<u8>)
    requires
        ready_after(reads),
    ensures
        !busy(reads.last()),
        !busy(reads[reads.len() - 2]),
        forall|j: int| 0 <= j < reads.len() ==> !ready_after(#[trigger] reads.take(j)),
{
    assert forall|j: int| 0 <= j < reads.len() implies !ready_after(#[trigger] reads.take(j)) by {
        if j >= 3 {
            let t = reads.take(j);
            assert(t[j - 3] == reads[j - 3] && t[j - 2] == reads[j - 2] && t[j - 1] == reads[j - 1]);
            assert(!idle_run(reads, j - 3));
        }
    }
}

/// Each status value read is the second byte its poll received: `got` holds the
/// two bytes received per poll, in order.
pub open spec fn status_answers(got: Seq<u8>, reads: Seq<u8>) -> bool {
    &&& got.len() == 2 * reads.len()
    &&& forall|i: int| 0 <= i < reads.len() ==> #[trigger] got[2 * i + 1] == reads[i]
}

/// One decision of the wait loop: `idle` idle reads seen in a row so far, then
/// `status`. A busy read starts the count again; an idle read adds one; an idle
/// read after two idle reads means ready.
pub fn poll_step(idle: u8, status: u8) -> (r: (u8, bool))
    requires
        idle <= 2,
    ensures
        r == (if status % 2 == 1 {
            (0u8, false)
        } else if idle < 2 {
            ((idle + 1) as u8, false)
        } else {
            (idle, true)
        }),
{
    if status % 2 == 1 {
        (0, false)
    } else if idle < 2 {
        (idle + 1, false)
    } else {
        (idle, true)
    }
}

/// "high" or "low".
pub open spec fn level_text(high: bool) -> Seq<char> {
    if high {
        "high"@
    } else {
        "low"@
    }
}

/// Whatever step of a bracketed transaction with body `a + b` stopped it (the
/// select, the part `a`, the part `b` or the deselect), the bytes sent are a
/// prefix of the whole transaction.
proof fn lemma_bracket_prefix(before: Seq<u8>, sent: Seq<u8>, a: Seq<u8>, b: Seq<u8>)
    requires
        sent == before
            || is_prefix(sent, before + select_frame() + a)
            || is_prefix(sent, before + select_frame() + a + b)
            || sent == before + select_frame() + a + b
            || sent == before + txn(a + b),
    ensures
        is_prefix(sent, before + txn(a + b)),
{
    let full = before + txn(a + b);
    assert(full =~= before + (select_frame() + a + b + deselect_frame()));
    assert(full =~= before + select_frame() + a + (b + deselect_frame()));
    assert(full =~= before + select_frame() + a + b + deselect_frame());
    if sent == before {
        lemma_prefix_of_concat(before, select_frame() + a + b + deselect_frame());
    } else if is_prefix(sent, before + select_frame() + a) {
        lemma_prefix_extend(sent, before + select_frame() + a, b + deselect_frame());
    } else if is_prefix(sent, before + select_frame() + a + b) {
        lemma_prefix_extend(sent, before + select_frame() + a + b, deselect_frame());
    } else if sent == before + select_frame() + a + b {
        lemma_prefix_of_concat(sent, deselect_frame());
    } else {
        lemma_prefix_of_concat(sent, Seq::empty());
        assert(sent + Seq::<u8>::empty() =~= sent);
    }
}

/// Whether an error is one the engine passes on from the bridge.
pub open spec fn device_error(e: Error) -> bool {
    e == Error::IoError || e == Error::UnexpectedBitMode
}

/// An opcode followed by a 24-bit address, big-endian.
fn address_command(opcode: u8, addr: usize) -> (r: Vec<u8>)
    requires
        addr < ADDRESS_LIMIT,
    ensures
        r@ == seq![opcode] + addr_bytes(addr as nat),
{
    let r = vec![opcode, (addr / 65536) as u8, ((addr / 256) % 256) as u8, (addr % 256) as u8];
    assert(r@ =~= seq![opcode] + addr_bytes(addr as nat));
    r
}

} // verus!
