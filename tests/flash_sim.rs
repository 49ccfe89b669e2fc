use iceprog::flash::{EraseType, Flash};
use iceprog::session::{
    erase_chip, erase_range, erase_sectors, mismatch_offsets, page_plan, program_pages, read_pages,
    run_programming_session, sector_addresses, Options, ProgrammingError,
};
use iceprog::status::Error;
use iceprog::vcp::{BitMode, ByteDevice, VCP};
use std::cell::RefCell;
use std::collections::{HashMap, VecDeque};
use std::rc::Rc;

/// One chip-select bracket as the simulated flash saw it.
#[derive(Clone, Debug, PartialEq)]
struct Txn {
    mosi: Vec<u8>,
}

impl Txn {
    fn opcode(&self) -> u8 {
        self.mosi[0]
    }
    fn addr(&self) -> u32 {
        ((self.mosi[1] as u32) << 16) | ((self.mosi[2] as u32) << 8) | self.mosi[3] as u32
    }
}

/// A bridge in MPSSE mode with an SPI NOR flash chip behind it.
struct Chip {
    mem: HashMap<u32, u8>,
    gpio: u8,
    gpio_in: u8,
    cur: Option<Vec<u8>>,
    txns: Vec<Txn>,
    pins: Vec<u8>,
    responses: VecDeque<u8>,
    wel: bool,
    busy_polls: u32,
    busy_after_write: u32,
    status_script: VecDeque<u8>,
    jedec: Vec<u8>,
    writes: usize,
    reads: usize,
    written: Vec<u8>,
    stuck_low: Option<(u32, u8)>,
    fail_reads: bool,
    short_writes: bool,
    fail_driver: bool,
}

impl Chip {
    fn new() -> Chip {
        Chip {
            mem: HashMap::new(),
            gpio: 0x90,
            gpio_in: 0x40,
            cur: None,
            txns: Vec::new(),
            pins: Vec::new(),
            responses: VecDeque::new(),
            wel: false,
            busy_polls: 0,
            busy_after_write: 2,
            status_script: VecDeque::new(),
            jedec: vec![0x00, 0xEF, 0x40, 0x18, 0x00],
            writes: 0,
            reads: 0,
            written: Vec::new(),
            stuck_low: None,
            fail_reads: false,
            short_writes: false,
            fail_driver: false,
        }
    }

    fn byte(&self, addr: u32) -> u8 {
        let b = *self.mem.get(&(addr & 0xFF_FFFF)).unwrap_or(&0xFF);
        match self.stuck_low {
            Some((a, mask)) if a == addr => b & !mask,
            _ => b,
        }
    }

    fn status(&mut self) -> u8 {
        if let Some(s) = self.status_script.pop_front() {
            return s;
        }
        let wel = if self.wel { 0x02 } else { 0 };
        if self.busy_polls > 0 {
            self.busy_polls -= 1;
            0x01 | wel
        } else {
            wel
        }
    }

    /// The byte the flash shifts out while byte `idx` of the transaction goes in.
    fn miso(&mut self, t: &[u8], idx: usize) -> u8 {
        match t[0] {
            0x9F => *self.jedec.get(idx).unwrap_or(&0xFF),
            0x05 if idx >= 1 => self.status(),
            0x03 if idx >= 4 => {
                let a = ((t[1] as u32) << 16) | ((t[2] as u32) << 8) | t[3] as u32;
                self.byte(a + (idx as u32 - 4))
            }
            _ => 0xFF,
        }
    }

    fn shift(&mut self, data: &[u8], respond: bool) {
        for &b in data {
            let mut t = self.cur.take().expect("SPI data with the flash deselected");
            t.push(b);
            let idx = t.len() - 1;
            let r = self.miso(&t, idx);
            self.cur = Some(t);
            if respond {
                self.responses.push_back(r);
            }
        }
    }

    fn end_txn(&mut self) {
        let t = match self.cur.take() {
            Some(t) => t,
            None => return,
        };
        if t.is_empty() {
            return;
        }
        let txn = Txn { mosi: t.clone() };
        match t[0] {
            0x06 => self.wel = true,
            0xD8 if self.wel => {
                let base = txn.addr() & !0xFFFF;
                self.mem.retain(|a, _| *a < base || *a >= base + 0x10000);
                self.wel = false;
                self.busy_polls = self.busy_after_write;
            }
            0xC7 if self.wel => {
                self.mem.clear();
                self.wel = false;
                self.busy_polls = self.busy_after_write;
            }
            0x02 if self.wel => {
                let a = txn.addr();
                for (i, &b) in t[4..].iter().enumerate() {
                    let page = a & !0xFF;
                    let at = page | ((a + i as u32) & 0xFF);
                    let old = self.byte(at);
                    self.mem.insert(at, old & b);
                }
                self.wel = false;
                self.busy_polls = self.busy_after_write;
            }
            0x01 if self.wel => {
                self.wel = false;
            }
            _ => {}
        }
        self.txns.push(txn);
    }

    fn set_gpio(&mut self, v: u8) {
        let was_selected = self.gpio & 0x10 == 0;
        let selected = v & 0x10 == 0;
        self.pins.push(v);
        self.gpio = v;
        if was_selected && !selected {
            self.end_txn();
        }
        if !was_selected && selected {
            self.cur = Some(Vec::new());
        }
    }

    fn feed(&mut self, bytes: &[u8]) {
        let mut i = 0;
        while i < bytes.len() {
            let op = bytes[i];
            match op {
                0x80 => {
                    self.set_gpio(bytes[i + 1]);
                    i += 3;
                }
                0x81 => {
                    let v = (self.gpio & 0x93) | (self.gpio_in & 0x40);
                    self.responses.push_back(v);
                    i += 1;
                }
                0x83 => {
                    self.responses.push_back(0);
                    i += 1;
                }
                0x31 | 0x11 => {
                    let n = bytes[i + 1] as usize + 256 * bytes[i + 2] as usize + 1;
                    let data = bytes[i + 3..i + 3 + n].to_vec();
                    self.shift(&data, op == 0x31);
                    i += 3 + n;
                }
                0x33 => {
                    self.responses.push_back(0xFF);
                    i += 3;
                }
                0x86 | 0x8F => i += 3,
                0x8A | 0x8B => i += 1,
                0x8E => i += 2,
                x => panic!("unknown bridge command {:#x}", x),
            }
        }
    }
}

#[derive(Clone)]
struct SimBridge(Rc<RefCell<Chip>>);

impl ByteDevice for SimBridge {
    fn write(&mut self, bytes: &[u8]) -> Result<usize, Error> {
        let mut c = self.0.borrow_mut();
        c.writes += 1;
        if c.short_writes {
            return Ok(bytes.len() - 1);
        }
        c.written.extend_from_slice(bytes);
        c.feed(bytes);
        Ok(bytes.len())
    }
    fn read(&mut self, len: usize) -> Result<Vec<u8>, Error> {
        let mut c = self.0.borrow_mut();
        c.reads += 1;
        if c.fail_reads {
            return Err(Error::IoError);
        }
        let n = len.min(c.responses.len());
        Ok(c.responses.drain(..n).collect())
    }
    fn set_bit_mode(&mut self, _outputs: u8, _mode: u8) -> Result<(), Error> {
        Ok(())
    }
    fn reset(&mut self) -> Result<(), Error> {
        Ok(())
    }
    fn purge(&mut self) -> Result<(), Error> {
        if self.0.borrow().fail_driver {
            return Err(Error::DeviceNotOpened);
        }
        self.0.borrow_mut().responses.clear();
        Ok(())
    }
    fn latency_timer(&mut self) -> Result<u8, Error> {
        Ok(16)
    }
    fn set_latency_timer(&mut self, _latency: u8) -> Result<(), Error> {
        Ok(())
    }
    fn com_port_number(&mut self) -> Result<i32, Error> {
        if self.0.borrow().fail_driver {
            return Ok(-1);
        }
        Ok(7)
    }
    fn delay_us(&mut self, _micros: u64) {}
}

fn rig() -> (Flash<SimBridge>, Rc<RefCell<Chip>>) {
    let chip = Rc::new(RefCell::new(Chip::new()));
    let vcp = VCP::new(SimBridge(chip.clone()), BitMode::MPSSE);
    (Flash::new(vcp), chip)
}

fn opcodes(chip: &Rc<RefCell<Chip>>) -> Vec<u8> {
    chip.borrow().txns.iter().map(|t| t.opcode()).collect()
}

fn options() -> Options {
    Options { bulk_erase: false, skip_erase: false, skip_verify: false, disable_protection: false, read_only: None }
}

#[test]
fn full_duplex_empty_buffer_makes_no_io() {
    let chip = Rc::new(RefCell::new(Chip::new()));
    let mut vcp = VCP::new(SimBridge(chip.clone()), BitMode::MPSSE);
    let mut data: Vec<u8> = Vec::new();
    assert_eq!(vcp.xfer_spi(&mut data), Ok(()));
    assert_eq!(chip.borrow().writes, 0);
    assert_eq!(chip.borrow().reads, 0);
}

#[test]
fn full_duplex_writes_then_reads_exactly_len_bytes() {
    let chip = Rc::new(RefCell::new(Chip::new()));
    let mut vcp = VCP::new(SimBridge(chip.clone()), BitMode::MPSSE);
    vcp.set_gpio(0x00, 0x93).unwrap();
    chip.borrow_mut().written.clear();
    let mut data = vec![0x05u8, 0x00, 0x00];
    assert_eq!(vcp.xfer_spi(&mut data), Ok(()));
    assert_eq!(chip.borrow().written, vec![0x31, 0x02, 0x00, 0x05, 0x00, 0x00]);
    assert_eq!(chip.borrow().reads, 1);
    assert_eq!(data.len(), 3);
}

#[test]
fn full_duplex_splits_at_the_length_field() {
    let chip = Rc::new(RefCell::new(Chip::new()));
    let mut vcp = VCP::new(SimBridge(chip.clone()), BitMode::MPSSE);
    vcp.set_gpio(0x00, 0x93).unwrap();
    chip.borrow_mut().written.clear();
    let mut data = vec![0x03u8; 65537];
    assert_eq!(vcp.xfer_spi(&mut data), Ok(()));
    let c = chip.borrow();
    assert_eq!(c.written.len(), 3 + 65536 + 3 + 1);
    assert_eq!(&c.written[0..3], &[0x31, 0xFF, 0xFF]);
    assert_eq!(&c.written[65539..65542], &[0x31, 0x00, 0x00]);
    assert_eq!(c.reads, 2);
}

#[test]
fn short_read_is_an_io_error() {
    let chip = Rc::new(RefCell::new(Chip::new()));
    let mut vcp = VCP::new(SimBridge(chip.clone()), BitMode::MPSSE);
    // Nothing selected the flash's answer path: a read of two bytes gets one.
    chip.borrow_mut().responses.push_back(0x42);
    assert_eq!(vcp.read_exact(2), Err(Error::IoError));
}

#[test]
fn spi_bits_edges() {
    let chip = Rc::new(RefCell::new(Chip::new()));
    let mut vcp = VCP::new(SimBridge(chip.clone()), BitMode::MPSSE);
    assert_eq!(vcp.xfer_spi_bits(0xFF, 0), Ok(0));
    assert_eq!(vcp.xfer_spi_bits(0xFF, 9), Err(Error::InvalidArgs));
    assert_eq!(chip.borrow().writes, 0);
    vcp.set_gpio(0x00, 0x93).unwrap();
    chip.borrow_mut().written.clear();
    assert_eq!(vcp.xfer_spi_bits(0xA5, 3), Ok(0xFF));
    assert_eq!(chip.borrow().written, vec![0x33, 0x02, 0xA5]);
}

#[test]
fn gpio_needs_mpsse_mode() {
    let chip = Rc::new(RefCell::new(Chip::new()));
    let mut vcp = VCP::new(SimBridge(chip.clone()), BitMode::SyncBitbang);
    assert_eq!(vcp.set_gpio(0x00, 0x93), Err(Error::UnexpectedBitMode));
    assert_eq!(chip.borrow().writes, 0);
}

#[test]
fn dummy_clocks() {
    let chip = Rc::new(RefCell::new(Chip::new()));
    let mut vcp = VCP::new(SimBridge(chip.clone()), BitMode::MPSSE);
    assert_eq!(vcp.send_dummy_bytes(0), Err(Error::InvalidArgs));
    assert_eq!(vcp.send_dummy_bytes(3), Ok(()));
    assert_eq!(vcp.send_dummy_bit(), Ok(()));
    assert_eq!(chip.borrow().written, vec![0x8F, 0x02, 0x00, 0x8E, 0x00]);
}

#[test]
fn init_sets_mode_and_clock() {
    let chip = Rc::new(RefCell::new(Chip::new()));
    let mut vcp = VCP::new(SimBridge(chip.clone()), BitMode::Reset);
    assert_eq!(vcp.init_mpsse(true), Ok(()));
    assert_eq!(vcp.bit_mode(), BitMode::MPSSE);
    assert_eq!(chip.borrow().written, vec![0x8B, 0x86, 119, 0x00]);
    let chip2 = Rc::new(RefCell::new(Chip::new()));
    let mut fast = VCP::new(SimBridge(chip2.clone()), BitMode::Reset);
    assert_eq!(fast.init_mpsse(false), Ok(()));
    assert_eq!(chip2.borrow().written, vec![0x8B, 0x86, 0x00, 0x00]);
}

#[test]
fn com_port_is_reported() {
    let chip = Rc::new(RefCell::new(Chip::new()));
    let mut vcp = VCP::new(SimBridge(chip), BitMode::MPSSE);
    assert_eq!(vcp.com_port(), Ok(7));
}

#[test]
fn sector_erase_then_read_gives_erased_bytes() {
    let (mut flash, chip) = rig();
    for a in 0x20000u32..0x20000 + 300 {
        chip.borrow_mut().mem.insert(a, 0x12);
    }
    for _ in 0..2 {
        flash.write_enable().unwrap();
        flash.sector_erase(EraseType::Kb64, 0x2ABCD).unwrap();
        flash.wait().unwrap();
        let mut data = vec![0u8; 0x10000];
        flash.read(0x20000, &mut data).unwrap();
        assert!(data.iter().all(|&b| b == 0xFF));
    }
    let erase = chip.borrow().txns.iter().find(|t| t.opcode() == 0xD8).unwrap().mosi.clone();
    assert_eq!(erase, vec![0xD8, 0x02, 0xAB, 0xCD]);
}

#[test]
fn program_then_read_round_trips() {
    let (mut flash, chip) = rig();
    let data: Vec<u8> = (0..200u32).map(|i| (i * 7 + 3) as u8).collect();
    flash.write_enable().unwrap();
    flash.prog(0x1_0020, &data).unwrap();
    flash.wait().unwrap();
    let mut back = vec![0u8; data.len()];
    flash.read(0x1_0020, &mut back).unwrap();
    assert_eq!(back, data);
    let t = chip.borrow().txns.iter().find(|t| t.opcode() == 0x02).unwrap().clone();
    assert_eq!(&t.mosi[0..4], &[0x02, 0x01, 0x00, 0x20]);
    assert_eq!(t.mosi.len(), 4 + 200);
}

#[test]
fn wait_returns_after_three_idle_reads() {
    let (mut flash, chip) = rig();
    chip.borrow_mut().busy_polls = 4;
    flash.wait().unwrap();
    // four busy reads, one idle read and its two confirmations
    assert_eq!(opcodes(&chip), vec![0x05; 7]);
}

#[test]
fn wait_restarts_its_count_on_a_busy_read() {
    let (mut flash, chip) = rig();
    chip.borrow_mut().status_script = VecDeque::from(vec![0x00, 0x00, 0x01, 0x00, 0x01, 0x00, 0x00, 0x00, 0x00]);
    flash.wait().unwrap();
    assert_eq!(opcodes(&chip).len(), 8);
    assert_eq!(chip.borrow().status_script, VecDeque::from(vec![0x00]));
}

#[test]
fn chip_select_only_while_fpga_in_reset() {
    let (mut flash, chip) = rig();
    let image: Vec<u8> = (0..700u32).map(|i| i as u8).collect();
    let mut o = options();
    o.disable_protection = true;
    run_programming_session(&mut flash, &image, 0x30000, o).unwrap();
    let pins = chip.borrow().pins.clone();
    assert!(!pins.is_empty());
    for p in pins {
        if p & 0x10 == 0 {
            assert_eq!(p & 0x80, 0);
        }
    }
}

#[test]
fn erase_region_scenario() {
    assert_eq!(erase_range(0, 300000), (0, 0x50000));
    assert_eq!(sector_addresses(0, 300000), vec![0x00000, 0x10000, 0x20000, 0x30000, 0x40000]);
    let (mut flash, chip) = rig();
    erase_sectors(&mut flash, 0, 300000).unwrap();
    let txns = chip.borrow().txns.clone();
    let erases: Vec<u32> = txns.iter().filter(|t| t.opcode() == 0xD8).map(|t| t.addr()).collect();
    assert_eq!(erases, vec![0x00000, 0x10000, 0x20000, 0x30000, 0x40000]);
    for (i, t) in txns.iter().enumerate() {
        if t.opcode() == 0xD8 {
            assert_eq!(txns[i - 1].opcode(), 0x06);
            assert_eq!(txns[i + 1].opcode(), 0x05);
        }
    }
}

#[test]
fn program_scenario_600_bytes() {
    let plan = page_plan(0, 600);
    assert_eq!(plan, vec![(0, 256), (256, 256), (512, 88)]);
    let (mut flash, chip) = rig();
    let image: Vec<u8> = (0..600u32).map(|i| (i % 251) as u8).collect();
    program_pages(&mut flash, 0, &image).unwrap();
    let txns = chip.borrow().txns.clone();
    let progs: Vec<(u32, usize)> =
        txns.iter().filter(|t| t.opcode() == 0x02).map(|t| (t.addr(), t.mosi.len() - 4)).collect();
    assert_eq!(progs, vec![(0, 256), (256, 256), (512, 88)]);
    for (i, t) in txns.iter().enumerate() {
        if t.opcode() == 0x02 {
            assert_eq!(txns[i - 1].opcode(), 0x06);
            assert_eq!(txns[i + 1].opcode(), 0x05);
        }
    }
    let back = read_pages(&mut flash, 0, 600).unwrap();
    assert_eq!(back, image);
}

#[test]
fn jedec_id_with_misread_length_skips_extended_read() {
    let (mut flash, chip) = rig();
    chip.borrow_mut().jedec = vec![0x9F, 0xEF, 0x40, 0x18, 0xFF];
    assert_eq!(flash.read_id(), Ok(vec![0xEF, 0x40, 0x18]));
    let txns = chip.borrow().txns.clone();
    assert_eq!(txns.len(), 1);
    assert_eq!(txns[0].mosi.len(), 5);
}

#[test]
fn jedec_id_with_extended_bytes() {
    let (mut flash, chip) = rig();
    chip.borrow_mut().jedec = vec![0x9F, 0xEF, 0x40, 0x18, 0x02, 0xAA, 0xBB];
    assert_eq!(flash.read_id(), Ok(vec![0xEF, 0x40, 0x18, 0xAA, 0xBB]));
    assert_eq!(chip.borrow().txns[0].mosi.len(), 7);
}

#[test]
fn cdone_follows_gpio_bit_six() {
    let (mut flash, chip) = rig();
    assert_eq!(flash.cdone(), Ok(true));
    assert_eq!(flash.cdone_str(), Ok("high"));
    chip.borrow_mut().gpio_in = 0x00;
    assert_eq!(flash.cdone(), Ok(false));
    assert_eq!(flash.cdone_str(), Ok("low"));
}

#[test]
fn status_and_protection() {
    let (mut flash, chip) = rig();
    flash.write_enable().unwrap();
    assert_eq!(flash.read_status(), Ok(0x02));
    assert_eq!(flash.disable_protection(), Ok(0x00));
    let ops = opcodes(&chip);
    assert_eq!(ops[0..3], [0x06, 0x05, 0x01]);
}

#[test]
fn power_and_reset_commands() {
    let (mut flash, chip) = rig();
    flash.reset().unwrap();
    flash.power_up().unwrap();
    flash.power_down().unwrap();
    flash.bulk_erase().unwrap();
    let ops = opcodes(&chip);
    assert_eq!(ops, vec![0xAB, 0xB9, 0xC7]);
    let written = chip.borrow().written.clone();
    let pulse8 = [0x80, 0x00, 0x93, 0x33, 0x07, 0xFF, 0x80, 0x90, 0x93];
    let pulse2 = [0x80, 0x00, 0x93, 0x33, 0x01, 0xFF, 0x80, 0x90, 0x93];
    assert_eq!(written[0..9], pulse8);
    assert_eq!(written[9..18], pulse2);
    flash.release_reset().unwrap();
    assert_eq!(*chip.borrow().pins.last().unwrap(), 0x90);
}

#[test]
fn bulk_erase_clears_everything() {
    let (mut flash, chip) = rig();
    chip.borrow_mut().mem.insert(0xABCDE, 0);
    erase_chip(&mut flash).unwrap();
    let mut b = vec![0u8; 1];
    flash.read(0xABCDE, &mut b).unwrap();
    assert_eq!(b, vec![0xFF]);
}

#[test]
fn session_programs_and_verifies() {
    let (mut flash, chip) = rig();
    chip.borrow_mut().jedec = vec![0x9F, 0xEF, 0x40, 0x18, 0x00];
    let image: Vec<u8> = (0..1000u32).map(|i| (i * 13) as u8).collect();
    let report = run_programming_session(&mut flash, &image, 0x10000, options()).unwrap();
    assert_eq!(report.jedec_id, vec![0xEF, 0x40, 0x18]);
    assert!(report.mismatches.is_empty());
    assert_eq!(report.read_back, image);
    assert_eq!(report.com_port, Some(7));
    assert_eq!(report.cleanup_error, None);
    assert!(report.cdone);
    let ops = opcodes(&chip);
    assert_eq!(ops[ops.len() - 2..], [0x05, 0xB9]);
    assert_eq!(*chip.borrow().pins.last().unwrap(), 0x90);
}

#[test]
fn session_reports_every_mismatch() {
    let (mut flash, chip) = rig();
    chip.borrow_mut().stuck_low = Some((0x100, 0x01));
    let image = vec![0xFFu8; 512];
    match run_programming_session(&mut flash, &image, 0, options()) {
        Err(ProgrammingError::VerificationMismatch { offset, report }) => {
            assert_eq!(offset, 0x100);
            assert_eq!(report.mismatches, vec![0x100]);
        }
        other => panic!("unexpected outcome {:?}", other),
    }
    assert_eq!(*chip.borrow().pins.last().unwrap(), 0x90);
}

#[test]
fn session_read_only() {
    let (mut flash, chip) = rig();
    chip.borrow_mut().mem.insert(0x300, 0x5A);
    let mut o = options();
    o.read_only = Some(0x301);
    let report = run_programming_session(&mut flash, &[], 0, o).unwrap();
    assert_eq!(report.read_back.len(), 0x301);
    assert_eq!(report.read_back[0x300], 0x5A);
    assert!(!opcodes(&chip).contains(&0x02));
}

#[test]
fn session_refusals() {
    let chip = Rc::new(RefCell::new(Chip::new()));
    let mut flash = Flash::new(VCP::new(SimBridge(chip.clone()), BitMode::SyncBitbang));
    assert!(matches!(run_programming_session(&mut flash, &[1, 2], 0, options()), Err(ProgrammingError::UnexpectedBitMode)));
    let (mut flash, chip2) = rig();
    assert!(matches!(run_programming_session(&mut flash, &[1, 2], 100, options()), Err(ProgrammingError::PageBoundaryViolation)));
    assert!(matches!(
        run_programming_session(&mut flash, &[0u8; 512], 0xFF_FF00, options()),
        Err(ProgrammingError::ProtocolFraming)
    ));
    assert_eq!(chip.borrow().writes, 0);
    assert_eq!(chip2.borrow().writes, 0);
}

#[test]
fn mismatch_offsets_lists_all_differences() {
    assert_eq!(mismatch_offsets(&[1, 2, 3, 4], &[1, 0, 3, 0], 0x100), vec![0x101, 0x103]);
    assert_eq!(mismatch_offsets(&[], &[], 5), Vec::<u32>::new());
}

#[test]
fn session_releases_fpga_after_device_failure() {
    let (mut flash, chip) = rig();
    chip.borrow_mut().fail_reads = true;
    let image = vec![0u8; 16];
    assert!(matches!(
        run_programming_session(&mut flash, &image, 0, options()),
        Err(ProgrammingError::Device(Error::IoError))
    ));
    assert_eq!(*chip.borrow().pins.last().unwrap(), 0x90);
}

#[test]
fn short_write_is_an_io_error() {
    let (mut flash, chip) = rig();
    chip.borrow_mut().short_writes = true;
    assert_eq!(flash.write_enable(), Err(Error::IoError));
    let data = vec![1u8, 2, 3];
    assert_eq!(flash.prog(0, &data), Err(Error::IoError));
}

#[test]
fn driver_answers_are_passed_on() {
    let chip = Rc::new(RefCell::new(Chip::new()));
    chip.borrow_mut().fail_driver = true;
    let mut vcp = VCP::new(SimBridge(chip.clone()), BitMode::Reset);
    assert_eq!(vcp.init_mpsse(false), Err(Error::DeviceNotOpened));
    assert_eq!(vcp.bit_mode(), BitMode::Reset);
    assert_eq!(chip.borrow().writes, 0);
    assert_eq!(vcp.com_port(), Err(Error::NoComPortAssigned));
}
