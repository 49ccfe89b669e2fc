use vstd::prelude::*;
use crate::flash::{ext_id_len, cdone_at, id_at, Checkpoint, EraseType, Flash, FlashOp, ADDRESS_LIMIT, deselect_pins, device_error};
use crate::status::Error;
use crate::vcp::{BitMode, ByteDevice};

verus! {

/// First address of the erase units that cover `offset`: rounded down to 64 KiB.
pub open spec fn erase_begin(offset: nat) -> nat {
    (offset / 65536) * 65536
}

/// End of the erase units that cover `[offset, offset + len)`: rounded up to 64 KiB.
pub open spec fn erase_end(offset: nat, len: nat) -> nat {
    ((offset + len + 65535) / 65536) * 65536
}

/// How many 64 KiB units cover `[offset, offset + len)`.
pub open spec fn sector_count(offset: nat, len: nat) -> nat {
    ((erase_end(offset, len) - erase_begin(offset)) / 65536) as nat
}

/// How many 256-byte pages `len` bytes take.
pub open spec fn page_count(len: nat) -> nat {
    (len + 255) / 256
}

/// Length of page `i` of `len` bytes: 256, or what is left for the last one.
pub open spec fn page_len(len: nat, i: nat) -> nat {
    if (i + 1) * 256 <= len {
        256
    } else {
        (len - i * 256) as nat
    }
}

/// The engine calls that erase `k` units from `begin` on: each is write enable,
/// sector erase, wait.
pub open spec fn erase_ops(begin: nat, k: nat) -> Seq<FlashOp>
    decreases k,
{
    if k == 0 {
        Seq::empty()
    } else {
        erase_ops(begin, (k - 1) as nat) + seq![
            FlashOp::WriteEnable,
            FlashOp::SectorErase((begin + (k - 1) * 65536) as nat),
            FlashOp::Wait,
        ]
    }
}

/// Page `i` of `data`.
pub open spec fn page_of(data: Seq<u8>, i: nat) -> Seq<u8> {
    data.subrange((i * 256) as int, (i * 256 + page_len(data.len(), i)) as int)
}

/// The engine calls that program the first `k` pages of `data` from `addr` on:
/// each is write enable, page program, wait.
pub open spec fn program_ops(addr: nat, data: Seq<u8>, k: nat) -> Seq<FlashOp>
    decreases k,
{
    if k == 0 {
        Seq::empty()
    } else {
        program_ops(addr, data, (k - 1) as nat) + seq![
            FlashOp::WriteEnable,
            FlashOp::Program((addr + (k - 1) * 256) as nat, page_of(data, (k - 1) as nat)),
            FlashOp::Wait,
        ]
    }
}

/// The engine calls that read the first `k` pages of `len` bytes from `addr` on,
/// each carrying its page of `data`, the bytes read back.
pub open spec fn read_ops(addr: nat, data: Seq<u8>, len: nat, k: nat) -> Seq<FlashOp> {
    Seq::new(k, |i: int| FlashOp::Read(
        (addr + i * 256) as nat,
        data.subrange(i * 256, i * 256 + page_len(len, i as nat)),
    ))
}

/// The flash offsets (from `base`) at which `expected` and `actual` differ, in order.
pub open spec fn diff_offsets(expected: Seq<u8>, actual: Seq<u8>, base: nat) -> Seq<u32>
    decreases expected.len(),
{
    if expected.len() == 0 {
        Seq::empty()
    } else {
        let k = expected.len() - 1;
        diff_offsets(expected.drop_last(), actual, base) + if expected[k] != actual[k] {
            seq![(base + k) as u32]
        } else {
            Seq::empty()
        }
    }
}

/// The 64 KiB-aligned range `[begin, end)` that covers `[offset, offset + len)`.
pub fn erase_range(offset: u32, len: u32) -> (r: (u64, u64))
    ensures
        r.0 == erase_begin(offset as nat),
        r.1 == erase_end(offset as nat, len as nat),
{
    let begin = (offset as u64 / 65536) * 65536;
    let end = ((offset as u64 + len as u64 + 65535) / 65536) * 65536;
    (begin, end)
}

/// The address of every 64 KiB unit in the erase range of `[offset, offset + len)`.
pub fn sector_addresses(offset: u32, len: u32) -> (r: Vec<u64>)
    ensures
        r@.len() == sector_count(offset as nat, len as nat),
        forall|i: int| 0 <= i < r@.len() ==> #[trigger] r@[i] == erase_begin(offset as nat) + i * 65536,
{
    let (begin, end) = erase_range(offset, len);
    let mut r: Vec<u64> = Vec::new();
    let mut addr = begin;
    while addr < end
        invariant
            begin == erase_begin(offset as nat),
            end == erase_end(offset as nat, len as nat),
            begin <= addr <= end,
            (addr - begin) % 65536 == 0,
            r@.len() == (addr - begin) / 65536,
            forall|i: int| 0 <= i < r@.len() ==> #[trigger] r@[i] == begin + i * 65536,
        decreases end - addr,
    {
        r.push(addr);
        addr = addr + 65536;
    }
    r
}

/// Address and length of each 256-byte page of `len` bytes written from `offset`.
pub fn page_plan(offset: u32, len: u32) -> (r: Vec<(u64, u32)>)
    ensures
        r@.len() == page_count(len as nat),
        forall|i: int| 0 <= i < r@.len() ==> (#[trigger] r@[i]).0 == offset + i * 256
            && r@[i].1 == page_len(len as nat, i as nat),
{
    let mut r: Vec<(u64, u32)> = Vec::new();
    let mut pos: u64 = 0;
    while pos < len as u64
        invariant
            pos == r@.len() * 256,
            r@.len() == 0 || (r@.len() - 1) * 256 < len,
            pos <= len + 256,
            forall|i: int| 0 <= i < r@.len() ==> (#[trigger] r@[i]).0 == offset + i * 256
                && r@[i].1 == page_len(len as nat, i as nat),
        decreases len + 256 - pos,
    {
        let rest: u64 = len as u64 - pos;
        let n: u32 = if rest > 256 { 256 } else { rest as u32 };
        r.push((offset as u64 + pos, n));
        pos = pos + 256;
    }
    r
}

/// The flash offsets at which `actual` differs from `expected`, `expected[0]`
/// standing at `base`.
pub fn mismatch_offsets(expected: &[u8], actual: &[u8], base: u32) -> (r: Vec<u32>)
    requires
        expected@.len() == actual@.len(),
        base + expected@.len() <= u32::MAX + 1,
    ensures
        r@ == diff_offsets(expected@, actual@, base as nat),
{
    let mut r: Vec<u32> = Vec::new();
    let n = expected.len();
    let mut i: usize = 0;
    assert(expected@.take(0) =~= Seq::<u8>::empty());
    while i < n
        invariant
            n == expected@.len(),
            expected@.len() == actual@.len(),
            base + n <= u32::MAX + 1,
            i <= n,
            r@ == diff_offsets(expected@.take(i as int), actual@, base as nat),
        decreases n - i,
    {
        assert(expected@.take(i + 1).drop_last() =~= expected@.take(i as int));
        if expected[i] != actual[i] {
            r.push(base + i as u32);
            assert(r@ =~= diff_offsets(expected@.take(i + 1), actual@, base as nat));
        } else {
            assert(r@ =~= diff_offsets(expected@.take(i + 1), actual@, base as nat));
        }
        i = i + 1;
    }
    assert(expected@.take(n as int) =~= expected@);
    r
}

/// `data[start .. start + n]` as a vector of its own.
fn copy_range(data: &[u8], start: usize, n: usize) -> (r: Vec<u8>)
    requires
        start + n <= data@.len(),
    ensures
        r@ == data@.subrange(start as int, start + n),
{
    let mut r: Vec<u8> = Vec::new();
    let len = data.len();
    let mut i: usize = 0;
    while i < n
        invariant
            i <= n,
            start + n <= data@.len(),
            len == data@.len(),
            r@ == data@.subrange(start as int, start + i),
        decreases n - i,
    {
        r.push(data[start + i]);
        assert(data@.subrange(start as int, start + i + 1) =~= data@.subrange(start as int, start + i).push(data@[start + i]));
        i = i + 1;
    }
    r
}

/// Erases every 64 KiB unit that covers `[offset, offset + len)`: for each, write
/// enable, sector erase, wait until ready.
pub fn erase_sectors<D: ByteDevice>(flash: &mut Flash<D>, offset: u32, len: u32) -> (r: Result<(), Error>)
    requires
        old(flash).wf(),
        offset + len <= ADDRESS_LIMIT,
    ensures
        r matches Err(e) ==> device_error(e),
        final(flash).wf(),
        final(flash).mode() == old(flash).mode(),
        r is Ok ==> final(flash).ops() == old(flash).ops()
            + erase_ops(erase_begin(offset as nat), sector_count(offset as nat, len as nat)),
        final(flash).faults() >= old(flash).faults(),
        final(flash).timeouts() >= old(flash).timeouts(),
        old(flash).mode() == BitMode::MPSSE ==> (r is Ok <==> final(flash).clean(old(flash))),
        final(flash).marks() == old(flash).marks(),
{
    let addrs = sector_addresses(offset, len);
    let ghost begin = erase_begin(offset as nat);
    let mut i: usize = 0;
    while i < addrs.len()
        invariant
            flash.wf(),
            flash.mode() == old(flash).mode(),
            flash.faults() == old(flash).faults(),
            flash.timeouts() == old(flash).timeouts(),
            flash.marks() == old(flash).marks(),
            offset + len <= ADDRESS_LIMIT,
            i <= addrs@.len(),
            addrs@.len() == sector_count(offset as nat, len as nat),
            forall|j: int| 0 <= j < addrs@.len() ==> #[trigger] addrs@[j] == begin + j * 65536,
            begin == erase_begin(offset as nat),
            flash.ops() == old(flash).ops() + erase_ops(begin, i as nat),
        decreases addrs@.len() - i,
    {
        let addr = addrs[i];
        assert(addr < ADDRESS_LIMIT);
        match flash.write_enable() {
            Ok(()) => {},
            Err(e) => { return Err(e); },
        }
        match flash.sector_erase(EraseType::Kb64, addr as usize) {
            Ok(()) => {},
            Err(e) => { return Err(e); },
        }
        match flash.wait() {
            Ok(()) => {},
            Err(e) => { return Err(e); },
        }
        assert(flash.ops() =~= old(flash).ops() + erase_ops(begin, (i + 1) as nat));
        i = i + 1;
    }
    Ok(())
}


/// Programs `data` from `offset` on, page by page: for each 256-byte page, write
/// enable, page program, wait until ready. `offset` is page-aligned, so no page
/// program crosses a page boundary.
pub fn program_pages<D: ByteDevice>(flash: &mut Flash<D>, offset: u32, data: &[u8]) -> (r: Result<(), Error>)
    requires
        old(flash).wf(),
        offset % 256 == 0,
        offset + data@.len() <= ADDRESS_LIMIT,
    ensures
        r matches Err(e) ==> device_error(e),
        final(flash).wf(),
        final(flash).mode() == old(flash).mode(),
        r is Ok ==> final(flash).ops() == old(flash).ops()
            + program_ops(offset as nat, data@, page_count(data@.len())),
        final(flash).faults() >= old(flash).faults(),
        final(flash).timeouts() >= old(flash).timeouts(),
        old(flash).mode() == BitMode::MPSSE ==> (r is Ok <==> final(flash).clean(old(flash))),
        final(flash).marks() == old(flash).marks(),
{
    let len = data.len();
    let mut pos: usize = 0;
    let mut k: usize = 0;
    while pos < len
        invariant
            flash.wf(),
            flash.mode() == old(flash).mode(),
            flash.faults() == old(flash).faults(),
            flash.timeouts() == old(flash).timeouts(),
            flash.marks() == old(flash).marks(),
            len == data@.len(),
            offset % 256 == 0,
            offset + len <= ADDRESS_LIMIT,
            pos == k * 256,
            k == 0 || (k - 1) * 256 < len,
            pos <= len + 256,
            flash.ops() == old(flash).ops() + program_ops(offset as nat, data@, k as nat),
        decreases len + 256 - pos,
    {
        let n: usize = if len - pos > 256 { 256 } else { len - pos };
        let page = copy_range(data, pos, n);
        match flash.write_enable() {
            Ok(()) => {},
            Err(e) => { return Err(e); },
        }
        match flash.prog(offset as usize + pos, page.as_slice()) {
            Ok(()) => {},
            Err(e) => { return Err(e); },
        }
        match flash.wait() {
            Ok(()) => {},
            Err(e) => { return Err(e); },
        }
        assert(page@ == page_of(data@, k as nat));
        assert(flash.ops() =~= old(flash).ops() + program_ops(offset as nat, data@, (k + 1) as nat));
        pos = pos + 256;
        k = k + 1;
    }
    Ok(())
}

/// Reads `len` bytes from `offset` on, one 256-byte page per read command.
pub fn read_pages<D: ByteDevice>(flash: &mut Flash<D>, offset: u32, len: u32) -> (r: Result<Vec<u8>, Error>)
    requires
        old(flash).wf(),
        offset + len <= ADDRESS_LIMIT,
    ensures
        r matches Err(e) ==> device_error(e),
        final(flash).wf(),
        final(flash).mode() == old(flash).mode(),
        r matches Ok(v) ==> v@.len() == len
            && final(flash).received() == old(flash).received() + v@
            && final(flash).ops() == old(flash).ops() + read_ops(offset as nat, v@, len as nat, page_count(len as nat)),
        final(flash).faults() >= old(flash).faults(),
        final(flash).timeouts() >= old(flash).timeouts(),
        old(flash).mode() == BitMode::MPSSE ==> (r is Ok <==> final(flash).clean(old(flash))),
        final(flash).marks() == old(flash).marks(),
{
    let mut out: Vec<u8> = Vec::new();
    let mut pos: u32 = 0;
    let mut k: u32 = 0;
    assert(old(flash).ops() + read_ops(offset as nat, out@, len as nat, 0) =~= old(flash).ops());
    while pos < len
        invariant
            flash.wf(),
            flash.mode() == old(flash).mode(),
            flash.faults() == old(flash).faults(),
            flash.timeouts() == old(flash).timeouts(),
            flash.marks() == old(flash).marks(),
            offset + len <= ADDRESS_LIMIT,
            pos == k * 256,
            k == 0 || (k - 1) * 256 < len,
            pos <= len + 256,
            out@.len() == if pos <= len { pos as int } else { len as int },
            flash.received() == old(flash).received() + out@,
            flash.ops() == old(flash).ops() + read_ops(offset as nat, out@, len as nat, k as nat),
        decreases len + 256 - pos,
    {
        let n: u32 = if len - pos > 256 { 256 } else { len - pos };
        let mut buf: Vec<u8> = Vec::new();
        let mut j: u32 = 0;
        while j < n
            invariant
                j <= n,
                buf@.len() == j,
            decreases n - j,
        {
            buf.push(0);
            j = j + 1;
        }
        let ghost out_before = out@;
        match flash.read((offset + pos) as usize, &mut buf) {
            Ok(()) => {},
            Err(e) => { return Err(e); },
        }
        let mut i: usize = 0;
        while i < buf.len()
            invariant
                i <= buf@.len(),
                out@ == out_before + buf@.take(i as int),
            decreases buf@.len() - i,
        {
            out.push(buf[i]);
            assert(buf@.take(i + 1) =~= buf@.take(i as int).push(buf@[i as int]));
            i = i + 1;
        }
        assert(buf@.take(buf@.len() as int) =~= buf@);
        assert(flash.received() =~= old(flash).received() + out@);
        assert(out@.subrange(pos as int, pos + n) =~= buf@);
        assert forall|q: int| 0 <= q < k implies
            #[trigger] out@.subrange(q * 256, q * 256 + page_len(len as nat, q as nat))
                == out_before.subrange(q * 256, q * 256 + page_len(len as nat, q as nat)) by {
            assert(out@.subrange(q * 256, q * 256 + page_len(len as nat, q as nat))
                =~= out_before.subrange(q * 256, q * 256 + page_len(len as nat, q as nat)));
        }
        assert(read_ops(offset as nat, out@, len as nat, k as nat) =~= read_ops(offset as nat, out_before, len as nat, k as nat));
        assert(flash.ops() =~= old(flash).ops() + read_ops(offset as nat, out@, len as nat, (k + 1) as nat));
        pos = pos + 256;
        k = k + 1;
    }
    Ok(out)
}

/// Erases the whole chip: write enable, chip erase, wait until ready.
pub fn erase_chip<D: ByteDevice>(flash: &mut Flash<D>) -> (r: Result<(), Error>)
    requires
        old(flash).wf(),
    ensures
        r matches Err(e) ==> device_error(e),
        final(flash).wf(),
        final(flash).mode() == old(flash).mode(),
        r is Ok ==> final(flash).ops() == old(flash).ops()
            + seq![FlashOp::WriteEnable, FlashOp::BulkErase, FlashOp::Wait],
        final(flash).faults() >= old(flash).faults(),
        final(flash).timeouts() >= old(flash).timeouts(),
        old(flash).mode() == BitMode::MPSSE ==> (r is Ok <==> final(flash).clean(old(flash))),
        final(flash).marks() == old(flash).marks(),
{
    match flash.write_enable() {
        Ok(()) => {},
        Err(e) => { return Err(e); },
    }
    match flash.bulk_erase() {
        Ok(()) => {},
        Err(e) => { return Err(e); },
    }
    let r = flash.wait();
    assert(r is Ok ==> flash.ops() =~= old(flash).ops() + seq![FlashOp::WriteEnable, FlashOp::BulkErase, FlashOp::Wait]);
    r
}


/// What a programming session is asked to do.
#[derive(Clone, Copy, Debug)]
pub struct Options {
    /// Erase the whole chip instead of the units the image covers.
    pub bulk_erase: bool,
    pub skip_erase: bool,
    pub skip_verify: bool,
    /// Clear the status register's protection bits before erasing.
    pub disable_protection: bool,
    /// Only read this many bytes from the offset; nothing is written.
    pub read_only: Option<u32>,
}

/// What a session found.
#[derive(Debug)]
pub struct SessionReport {
    /// Manufacturer and device ID bytes, then any extended ID bytes.
    pub jedec_id: Vec<u8>,
    /// Status register 1 at the end of the session.
    pub status: u8,
    /// Offsets at which the flash differs from the image, all of them.
    pub mismatches: Vec<u32>,
    /// What was read back: the verified range, or the range asked for in read-only mode.
    pub read_back: Vec<u8>,
    /// The configuration-done line when the session began.
    pub cdone: bool,
    pub com_port: Option<usize>,
    /// The first failure of the closing power-down and release, if any. It does
    /// not fail the session: it is reported beside the outcome.
    pub cleanup_error: Option<Error>,
}

/// Why a session failed.
#[derive(Debug)]
pub enum ProgrammingError {
    /// The flash differs from the image; `offset` is the first difference and the
    /// report lists them all.
    VerificationMismatch { offset: u32, report: SessionReport },
    /// The bridge is not in MPSSE mode.
    UnexpectedBitMode,
    /// The image would start inside a page, so a page program would cross a boundary.
    PageBoundaryViolation,
    /// The range does not fit the 24-bit flash address space.
    ProtocolFraming,
    /// The bridge failed.
    Device(Error),
}

/// Whether the session writes an image (rather than only reading).
pub open spec fn writes(o: Options) -> bool {
    o.read_only is None
}

/// The length of flash the session touches from the offset.
pub open spec fn span(bitstream: Seq<u8>, o: Options) -> nat {
    match o.read_only {
        Some(n) => n as nat,
        None => bitstream.len(),
    }
}

/// The engine calls of the writing part of a session: optional unprotect, the
/// erase (none, whole chip, or the covering 64 KiB units), the page programs,
/// and the verifying read unless skipped.
pub open spec fn write_ops(bitstream: Seq<u8>, offset: nat, o: Options, read_back: Seq<u8>) -> Seq<FlashOp> {
    let len = bitstream.len();
    (if o.disable_protection {
        seq![FlashOp::WriteEnable, FlashOp::WriteStatus(0), FlashOp::Wait, FlashOp::ReadStatus]
    } else {
        Seq::empty()
    }) + (if o.skip_erase {
        Seq::empty()
    } else if o.bulk_erase {
        seq![FlashOp::WriteEnable, FlashOp::BulkErase, FlashOp::Wait]
    } else {
        erase_ops(erase_begin(offset), sector_count(offset, len))
    }) + program_ops(offset, bitstream, page_count(len)) + (if o.skip_verify {
        Seq::empty()
    } else {
        read_ops(offset, read_back, len, page_count(len))
    })
}

/// The engine calls of a session that did not fail, before the power-down and
/// the release of the FPGA: the reset phase, the ID read, then either the read
/// of the range asked for or the writing part, and last the status read.
pub open spec fn body_ops(bitstream: Seq<u8>, offset: nat, o: Options, read_back: Seq<u8>) -> Seq<FlashOp> {
    seq![FlashOp::ChipDeselect, FlashOp::Cdone, FlashOp::Reset, FlashOp::PowerUp, FlashOp::ReadId] + match o.read_only {
        Some(n) => read_ops(offset, read_back, n as nat, page_count(n as nat)),
        None => write_ops(bitstream, offset, o, read_back),
    } + seq![FlashOp::ReadStatus]
}

/// The reset phase and the ID read: deselect, let the board settle 250 ms, read
/// the configuration-done line, pulse the flash out of any pending command,
/// release it from power-down, read its JEDEC ID.
fn start_session<D: ByteDevice>(flash: &mut Flash<D>) -> (r: Result<(bool, Vec<u8>), Error>)
    requires
        old(flash).mode() == BitMode::MPSSE,
        old(flash).wf(),
    ensures
        r matches Err(e) ==> device_error(e),
        final(flash).wf(),
        final(flash).mode() == old(flash).mode(),
        r is Ok ==> final(flash).ops() == old(flash).ops()
            + seq![FlashOp::ChipDeselect, FlashOp::Cdone, FlashOp::Reset, FlashOp::PowerUp, FlashOp::ReadId],
        final(flash).faults() >= old(flash).faults(),
        final(flash).timeouts() >= old(flash).timeouts(),
        r is Ok <==> final(flash).clean(old(flash)),
        final(flash).marks() == old(flash).marks(),
        r matches Ok((c, id)) ==> ({
            let n = old(flash).received().len() as int;
            &&& final(flash).received().len() >= n + 9
            &&& c == cdone_at(final(flash).received(), n)
            &&& id@ == id_at(final(flash).received(), n + 4)
        }),
{
    let ghost n = old(flash).received().len() as int;
    match flash.chip_deselect() {
        Ok(()) => {},
        Err(e) => { return Err(e); },
    }
    flash.delay_us(250_000);
    let cdone = match flash.cdone() {
        Ok(c) => c,
        Err(e) => { return Err(e); },
    };
    let ghost r1 = flash.received();
    match flash.reset() {
        Ok(()) => {},
        Err(e) => { return Err(e); },
    }
    let ghost r2 = flash.received();
    match flash.power_up() {
        Ok(()) => {},
        Err(e) => { return Err(e); },
    }
    let ghost r3 = flash.received();
    let id = match flash.read_id() {
        Ok(id) => id,
        Err(e) => { return Err(e); },
    };
    proof {
        let fin = flash.received();
        assert(r1.len() == n + 1);
        assert(r2.len() == n + 3);
        assert(r3.len() == n + 4);
        assert(fin.take(r3.len() as int) == r3);
        assert(r3.take(r2.len() as int) == r2);
        assert(r2.take(r1.len() as int) == r1);
        assert(fin[n] == r3[n]);
        assert(r3[n] == r2[n]);
        assert(r2[n] == r1[n]);
        assert(r1[n] == r1.last());
        let got = fin.skip(n + 4);
        assert(got.take(5) =~= fin.subrange(n + 4, n + 9));
        assert(got.skip(5).len() == ext_id_len(got.take(5)[4]));
        assert(got.skip(5) =~= fin.subrange(n + 9, n + 9 + ext_id_len(fin.subrange(n + 4, n + 9)[4])));
    }
    assert(flash.ops() =~= old(flash).ops() + seq![FlashOp::ChipDeselect, FlashOp::Cdone, FlashOp::Reset, FlashOp::PowerUp, FlashOp::ReadId]);
    Ok((cdone, id))
}

/// The writing part of a session; returns what the verifying read gave and the
/// offsets at which it differs from the image (both empty when verification is
/// skipped).
fn write_image<D: ByteDevice>(flash: &mut Flash<D>, bitstream: &[u8], offset: u32, options: Options) -> (r: Result<(Vec<u8>, Vec<u32>), Error>)
    requires
        old(flash).mode() == BitMode::MPSSE,
        old(flash).wf(),
        offset + bitstream@.len() <= ADDRESS_LIMIT,
        offset % 256 == 0,
    ensures
        r matches Err(e) ==> device_error(e),
        final(flash).wf(),
        final(flash).mode() == old(flash).mode(),
        r matches Ok((read_back, mismatches)) ==> final(flash).ops() == old(flash).ops() + write_ops(bitstream@, offset as nat, options, read_back@)
            && (!options.skip_verify ==> read_back@.len() == bitstream@.len()
                && mismatches@ == diff_offsets(bitstream@, read_back@, offset as nat))
            && (options.skip_verify ==> read_back@.len() == 0 && mismatches@.len() == 0),
        final(flash).faults() >= old(flash).faults(),
        final(flash).timeouts() >= old(flash).timeouts(),
        r is Ok <==> final(flash).clean(old(flash)),
        final(flash).marks() == old(flash).marks(),
{
    let len = bitstream.len() as u32;
    let ghost ops0 = flash.ops();
    let ghost prot_ops: Seq<FlashOp> = if options.disable_protection {
        seq![FlashOp::WriteEnable, FlashOp::WriteStatus(0), FlashOp::Wait, FlashOp::ReadStatus]
    } else {
        Seq::empty()
    };
    let ghost erase_part: Seq<FlashOp> = if options.skip_erase {
        Seq::empty()
    } else if options.bulk_erase {
        seq![FlashOp::WriteEnable, FlashOp::BulkErase, FlashOp::Wait]
    } else {
        erase_ops(erase_begin(offset as nat), sector_count(offset as nat, len as nat))
    };
    if options.disable_protection {
        match flash.write_enable() {
            Ok(()) => {},
            Err(e) => { return Err(e); },
        }
        match flash.disable_protection() {
            Ok(_) => {},
            Err(e) => { return Err(e); },
        }
    }
    assert(flash.ops() =~= ops0 + prot_ops);
    if !options.skip_erase {
        if options.bulk_erase {
            match erase_chip(flash) {
                Ok(()) => {},
                Err(e) => { return Err(e); },
            }
        } else {
            match erase_sectors(flash, offset, len) {
                Ok(()) => {},
                Err(e) => { return Err(e); },
            }
        }
    }
    assert(flash.ops() =~= ops0 + prot_ops + erase_part);
    match program_pages(flash, offset, bitstream) {
        Ok(()) => {},
        Err(e) => { return Err(e); },
    }
    let ghost prog_part = program_ops(offset as nat, bitstream@, page_count(bitstream@.len()));
    assert(flash.ops() =~= ops0 + prot_ops + erase_part + prog_part);
    if options.skip_verify {
        assert(flash.ops() =~= ops0 + write_ops(bitstream@, offset as nat, options, Seq::<u8>::empty()));
        return Ok((Vec::new(), Vec::new()));
    }
    let read_back = match read_pages(flash, offset, len) {
        Ok(v) => v,
        Err(e) => { return Err(e); },
    };
    let mismatches = mismatch_offsets(bitstream, read_back.as_slice(), offset);
    assert(flash.ops() =~= ops0 + write_ops(bitstream@, offset as nat, options, read_back@));
    Ok((read_back, mismatches))
}

/// Everything a session does on the bridge once its checks pass, but the closing
/// power-down and release.
fn session_body<D: ByteDevice>(flash: &mut Flash<D>, bitstream: &[u8], offset: u32, options: Options) -> (r: Result<SessionReport, Error>)
    requires
        old(flash).mode() == BitMode::MPSSE,
        old(flash).wf(),
        offset + span(bitstream@, options) <= ADDRESS_LIMIT,
        writes(options) ==> offset % 256 == 0,
    ensures
        r matches Err(e) ==> device_error(e),
        final(flash).wf(),
        final(flash).mode() == old(flash).mode(),
        r matches Ok(rep) ==> final(flash).ops() == old(flash).ops() + body_ops(bitstream@, offset as nat, options, rep.read_back@)
            && rep.com_port is None
            && (options.read_only matches Some(n) ==> rep.read_back@.len() == n && rep.mismatches@.len() == 0)
            && (writes(options) && !options.skip_verify ==> rep.read_back@.len() == bitstream@.len()
                && rep.mismatches@ == diff_offsets(bitstream@, rep.read_back@, offset as nat))
            && (writes(options) && options.skip_verify ==> rep.read_back@.len() == 0 && rep.mismatches@.len() == 0),
        final(flash).faults() >= old(flash).faults(),
        final(flash).timeouts() >= old(flash).timeouts(),
        r is Ok <==> final(flash).clean(old(flash)),
        r matches Ok(rep) ==> rep.status == final(flash).received().last(),
        final(flash).marks().len() == old(flash).marks().len() + 1,
        final(flash).marks().drop_last() == old(flash).marks(),
        r matches Ok(rep) ==> rep.cdone == cdone_at(final(flash).marks().last().received, old(flash).received().len() as int)
            && rep.jedec_id@ == id_at(final(flash).marks().last().received, old(flash).received().len() + 4int)
{
    let ghost ops0 = flash.ops();
    let start = start_session(flash);
    flash.checkpoint();
    let (cdone, jedec_id) = match start {
        Ok(v) => v,
        Err(e) => { return Err(e); },
    };
    let (read_back, mismatches) = match options.read_only {
        Some(n) => {
            match read_pages(flash, offset, n) {
                Ok(v) => (v, Vec::new()),
                Err(e) => { return Err(e); },
            }
        },
        None => {
            match write_image(flash, bitstream, offset, options) {
                Ok(v) => v,
                Err(e) => { return Err(e); },
            }
        },
    };
    let status = match flash.read_status() {
        Ok(st) => st,
        Err(e) => { return Err(e); },
    };
    assert(flash.ops() =~= ops0 + body_ops(bitstream@, offset as nat, options, read_back@));
    Ok(SessionReport { jedec_id, status, mismatches, read_back, cdone, com_port: None, cleanup_error: None })
}

/// How a session's outcome follows from the checkpoints taken before its body
/// (`a`), after its reset and ID phase (`c`) and after its body (`b`): it fails
/// with a device error exactly when a device answer fell short or a wait ran out
/// between `a` and `b`; failures of the closing steps, after `b`, are only
/// reported in `cleanup_error`; the reported status is the last byte the body
/// received, and the ID and configuration-done line are the bytes the reset and
/// ID phase received.
pub open spec fn session_outcome(
    r: Result<SessionReport, ProgrammingError>,
    a: Checkpoint,
    c: Checkpoint,
    b: Checkpoint,
    faults_at_end: nat,
) -> bool {
    &&& (r matches Err(ProgrammingError::Device(_))) <==> !(b.faults == a.faults && b.timeouts == a.timeouts)
    &&& r matches Ok(rep) ==> (rep.cleanup_error is None <==> faults_at_end == b.faults)
        && rep.status == b.received.last()
        && rep.cdone == cdone_at(c.received, a.received.len() as int)
        && rep.jedec_id@ == id_at(c.received, a.received.len() + 4int)
    &&& r matches Err(ProgrammingError::VerificationMismatch { offset: _, report })
        ==> (report.cleanup_error is None <==> faults_at_end == b.faults)
        && report.status == b.received.last()
        && report.cdone == cdone_at(c.received, a.received.len() as int)
        && report.jedec_id@ == id_at(c.received, a.received.len() + 4int)
}

/// The closing steps every session that touched the flash ends with: power-down
/// and release of the FPGA, each tried whatever came before, then 250 ms for the
/// FPGA to boot. Returns the first failure, if any.
fn finish_session<D: ByteDevice>(flash: &mut Flash<D>) -> (r: Result<(), Error>)
    requires
        old(flash).wf(),
        old(flash).mode() == BitMode::MPSSE,
    ensures
        final(flash).wf(),
        final(flash).mode() == old(flash).mode(),
        final(flash).ops() == old(flash).ops() + seq![FlashOp::PowerDown, FlashOp::ReleaseReset],
        final(flash).pins().last() == deselect_pins(),
        final(flash).faults() >= old(flash).faults(),
        final(flash).timeouts() == old(flash).timeouts(),
        final(flash).marks() == old(flash).marks(),
        r is Ok <==> final(flash).faults() == old(flash).faults(),
{
    let down = flash.power_down();
    let release = flash.release_reset();
    flash.delay_us(250_000);
    assert(flash.ops() =~= old(flash).ops() + seq![FlashOp::PowerDown, FlashOp::ReleaseReset]);
    match down {
        Err(e) => Err(e),
        Ok(()) => release,
    }
}

/// A programming session from start to end: checks, reset phase, ID read, then
/// either a read of the range asked for or unprotect / erase / program / verify,
/// the final status read, and always power-down and release of the FPGA once
/// the flash was touched. Verification compares every byte and reports every
/// difference; any difference fails the session with `VerificationMismatch`.
pub fn run_programming_session<D: ByteDevice>(
    flash: &mut Flash<D>,
    bitstream: &[u8],
    offset: u32,
    options: Options,
) -> (r: Result<SessionReport, ProgrammingError>)
    requires
        old(flash).wf(),
    ensures
        final(flash).wf(),
        final(flash).mode() == old(flash).mode(),
        old(flash).mode() != BitMode::MPSSE ==> (r matches Err(ProgrammingError::UnexpectedBitMode))
            && final(flash).ops() == old(flash).ops() && final(flash).sent() == old(flash).sent(),
        old(flash).mode() == BitMode::MPSSE && offset + span(bitstream@, options) > ADDRESS_LIMIT
            ==> (r matches Err(ProgrammingError::ProtocolFraming))
            && final(flash).ops() == old(flash).ops() && final(flash).sent() == old(flash).sent(),
        old(flash).mode() == BitMode::MPSSE && offset + span(bitstream@, options) <= ADDRESS_LIMIT
            && writes(options) && offset % 256 != 0
            ==> (r matches Err(ProgrammingError::PageBoundaryViolation))
            && final(flash).ops() == old(flash).ops() && final(flash).sent() == old(flash).sent(),
        old(flash).mode() == BitMode::MPSSE && offset + span(bitstream@, options) <= ADDRESS_LIMIT
            && (writes(options) ==> offset % 256 == 0)
            ==> final(flash).ops().len() >= 2
            && final(flash).ops().last() == FlashOp::ReleaseReset
            && final(flash).ops()[final(flash).ops().len() - 2] == FlashOp::PowerDown
            && final(flash).pins().last() == deselect_pins(),
        r matches Ok(rep) ==> final(flash).ops() == old(flash).ops() + body_ops(bitstream@, offset as nat, options, rep.read_back@)
                + seq![FlashOp::PowerDown, FlashOp::ReleaseReset]
            && rep.mismatches@.len() == 0
            && (options.read_only matches Some(n) ==> rep.read_back@.len() == n)
            && (writes(options) && !options.skip_verify ==> rep.read_back@.len() == bitstream@.len()
                && diff_offsets(bitstream@, rep.read_back@, offset as nat).len() == 0),
        r matches Err(ProgrammingError::VerificationMismatch { offset: first, report })
            ==> writes(options) && !options.skip_verify
            && final(flash).ops() == old(flash).ops() + body_ops(bitstream@, offset as nat, options, report.read_back@)
                + seq![FlashOp::PowerDown, FlashOp::ReleaseReset]
            && report.read_back@.len() == bitstream@.len()
            && report.mismatches@ == diff_offsets(bitstream@, report.read_back@, offset as nat)
            && report.mismatches@.len() > 0
            && first == report.mismatches@[0],
        r matches Err(ProgrammingError::Device(e)) ==> e == Error::IoError || e == Error::UnexpectedBitMode,
        (r matches Err(ProgrammingError::UnexpectedBitMode)) <==> old(flash).mode() != BitMode::MPSSE,
        (r matches Err(ProgrammingError::ProtocolFraming)) <==> old(flash).mode() == BitMode::MPSSE
            && offset + span(bitstream@, options) > ADDRESS_LIMIT,
        (r matches Err(ProgrammingError::PageBoundaryViolation)) <==> old(flash).mode() == BitMode::MPSSE
            && offset + span(bitstream@, options) <= ADDRESS_LIMIT && writes(options) && offset % 256 != 0,
        r matches Err(ProgrammingError::Device(_)) ==> !final(flash).clean(old(flash)),
        final(flash).clean(old(flash)) && offset + span(bitstream@, options) <= ADDRESS_LIMIT
            && (writes(options) ==> offset % 256 == 0)
            ==> (r is Ok || r matches Err(ProgrammingError::VerificationMismatch { .. })),
        final(flash).faults() >= old(flash).faults(),
        final(flash).timeouts() >= old(flash).timeouts(),
        old(flash).mode() == BitMode::MPSSE && offset + span(bitstream@, options) <= ADDRESS_LIMIT
            && (writes(options) ==> offset % 256 == 0)
            ==> final(flash).marks().len() == old(flash).marks().len() + 3
            && session_outcome(r, final(flash).marks()[old(flash).marks().len() as int],
                final(flash).marks()[old(flash).marks().len() + 1int],
                final(flash).marks()[old(flash).marks().len() + 2int], final(flash).faults()),
{
    if flash.vcp().bit_mode() != BitMode::MPSSE {
        return Err(ProgrammingError::UnexpectedBitMode);
    }
    let span: u64 = match options.read_only {
        Some(n) => n as u64,
        None => bitstream.len() as u64,
    };
    if span > ADDRESS_LIMIT as u64 || offset as u64 + span > ADDRESS_LIMIT as u64 {
        return Err(ProgrammingError::ProtocolFraming);
    }
    if options.read_only.is_none() && offset % 256 != 0 {
        return Err(ProgrammingError::PageBoundaryViolation);
    }
    let com_port = match flash.com_port() {
        Ok(p) => Some(p),
        Err(_) => None,
    };
    let ghost m0 = flash.marks();
    flash.checkpoint();
    let ghost m1 = flash.marks();
    let body = session_body(flash, bitstream, offset, options);
    let ghost m2 = flash.marks();
    flash.checkpoint();
    let ghost m3 = flash.marks();
    let cleanup = finish_session(flash);
    proof {
        assert(m1[m0.len() as int] == m1.last());
        assert(m2.drop_last() == m1);
        assert(m2[m0.len() as int] == m1[m0.len() as int]);
        assert(m2[m0.len() + 1int] == m2.last());
        assert(m3[m0.len() as int] == m2[m0.len() as int]);
        assert(m3[m0.len() + 1int] == m2[m0.len() + 1int]);
        assert(m3[m0.len() + 2int] == m3.last());
    }
    let cleanup_error = match cleanup {
        Ok(()) => None,
        Err(e) => Some(e),
    };
    match body {
        Ok(report) => {
            let report = SessionReport { com_port, cleanup_error, ..report };
            if report.mismatches.len() > 0 {
                let first = report.mismatches[0];
                Err(ProgrammingError::VerificationMismatch { offset: first, report })
            } else {
                Ok(report)
            }
        },
        Err(e) => Err(ProgrammingError::Device(e)),
    }
}

} // verus!
