use vstd::prelude::*;
use crate::status::Error;

verus! {

/// Data-transfer command bit: update data out on the negative clock edge.
pub const DATA_OCN: u8 = 0x01;
/// Data-transfer command bit: the length counts bits, not bytes.
pub const DATA_BITS: u8 = 0x02;
/// Data-transfer command bit: latch data in on the negative clock edge.
pub const DATA_ICN: u8 = 0x04;
/// Data-transfer command bit: shift least significant bit first.
pub const DATA_LSB: u8 = 0x08;
/// Data-transfer command bit: clock data out.
pub const DATA_OUT: u8 = 0x10;
/// Data-transfer command bit: clock data in.
pub const DATA_IN: u8 = 0x20;
/// Data-transfer command bit: TMS mode.
pub const DATA_TMS: u8 = 0x40;

/// Largest number of bytes one byte-transfer frame can carry (16-bit length field).
pub const MAX_FRAME_BYTES: usize = 65536;

/// MPSSE engine commands.
#[allow(non_camel_case_types)]
#[derive(Clone, Copy, Debug, PartialEq, Eq, Structural)]
pub enum Command {
    /// Set data bits, low byte
    MC_SETB_LOW,
    /// Read data bits, low byte
    MC_READB_LOW,
    /// Set data bits, high byte
    MC_SETB_HIGH,
    /// Read data bits, high byte
    MC_READB_HIGH,
    /// Enable loopback
    MC_LOOPBACK_EN,
    /// Disable loopback
    MC_LOOPBACK_DIS,
    /// Set clock divisor
    MC_SET_CLK_DIV,
    /// Flush buffer fifos to the PC
    MC_FLUSH,
    /// Wait on GPIOL1 to go high
    MC_WAIT_H,
    /// Wait on GPIOL1 to go low
    MC_WAIT_L,
    /// Disable /5 div, enables 60MHz master clock
    MC_TCK_X5,
    /// Enable /5 div, backward compatible with FT2232D
    MC_TCK_D5,
    /// Enable 3 phase clock, DDR I2C
    MC_EN_3PH_CLK,
    /// Disable 3 phase clock
    MC_DIS_3PH_CLK,
    /// Clock every bit, used for JTAG
    MC_CLK_N,
    /// Clock every byte, used for JTAG
    MC_CLK_N8,
    /// Clock until GPIOL1 goes high
    MC_CLK_TO_H,
    /// Clock until GPIOL1 goes low
    MC_CLK_TO_L,
    /// Enable adaptive clocking
    MC_EN_ADPT_CLK,
    /// Disable adaptive clocking
    MC_DIS_ADPT_CLK,
    /// Clock until GPIOL1 goes high, count bytes
    MC_CLK8_TO_H,
    /// Clock until GPIOL1 goes low, count bytes
    MC_CLK8_TO_L,
    /// Set IO to only drive on 0 and tristate on 1
    MC_TRI,
    /// CPU mode: read short address
    MC_CPU_RS,
    /// CPU mode: read extended address
    MC_CPU_RE,
    /// CPU mode: write short address
    MC_CPU_WS,
    /// CPU mode: write extended address
    MC_CPU_WE,
}

/// The opcode byte of each command, as the bridge firmware defines it.
pub open spec fn command_byte(c: Command) -> u8 {
    match c {
        Command::MC_SETB_LOW => 0x80,
        Command::MC_READB_LOW => 0x81,
        Command::MC_SETB_HIGH => 0x82,
        Command::MC_READB_HIGH => 0x83,
        Command::MC_LOOPBACK_EN => 0x84,
        Command::MC_LOOPBACK_DIS => 0x85,
        Command::MC_SET_CLK_DIV => 0x86,
        Command::MC_FLUSH => 0x87,
        Command::MC_WAIT_H => 0x88,
        Command::MC_WAIT_L => 0x89,
        Command::MC_TCK_X5 => 0x8A,
        Command::MC_TCK_D5 => 0x8B,
        Command::MC_EN_3PH_CLK => 0x8C,
        Command::MC_DIS_3PH_CLK => 0x8D,
        Command::MC_CLK_N => 0x8E,
        Command::MC_CLK_N8 => 0x8F,
        Command::MC_CLK_TO_H => 0x94,
        Command::MC_CLK_TO_L => 0x95,
        Command::MC_EN_ADPT_CLK => 0x96,
        Command::MC_DIS_ADPT_CLK => 0x97,
        Command::MC_CLK8_TO_H => 0x9C,
        Command::MC_CLK8_TO_L => 0x9D,
        Command::MC_TRI => 0x9E,
        Command::MC_CPU_RS => 0x90,
        Command::MC_CPU_RE => 0x91,
        Command::MC_CPU_WS => 0x92,
        Command::MC_CPU_WE => 0x93,
    }
}

impl Command {
    pub fn to_u8(&self) -> (r: u8)
        ensures
            r == command_byte(*self),
    {
        match *self {
            Command::MC_SETB_LOW => 0x80,
            Command::MC_READB_LOW => 0x81,
            Command::MC_SETB_HIGH => 0x82,
            Command::MC_READB_HIGH => 0x83,
            Command::MC_LOOPBACK_EN => 0x84,
            Command::MC_LOOPBACK_DIS => 0x85,
            Command::MC_SET_CLK_DIV => 0x86,
            Command::MC_FLUSH => 0x87,
            Command::MC_WAIT_H => 0x88,
            Command::MC_WAIT_L => 0x89,
            Command::MC_TCK_X5 => 0x8A,
            Command::MC_TCK_D5 => 0x8B,
            Command::MC_EN_3PH_CLK => 0x8C,
            Command::MC_DIS_3PH_CLK => 0x8D,
            Command::MC_CLK_N => 0x8E,
            Command::MC_CLK_N8 => 0x8F,
            Command::MC_CLK_TO_H => 0x94,
            Command::MC_CLK_TO_L => 0x95,
            Command::MC_EN_ADPT_CLK => 0x96,
            Command::MC_DIS_ADPT_CLK => 0x97,
            Command::MC_CLK8_TO_H => 0x9C,
            Command::MC_CLK8_TO_L => 0x9D,
            Command::MC_TRI => 0x9E,
            Command::MC_CPU_RS => 0x90,
            Command::MC_CPU_RE => 0x91,
            Command::MC_CPU_WS => 0x92,
            Command::MC_CPU_WE => 0x93,
        }
    }
}

/// Frame that drives the low GPIO byte: value, then direction (1 = output).
pub open spec fn set_low_gpio_frame(value: u8, direction: u8) -> Seq<u8> {
    seq![0x80u8, value, direction]
}

/// Header of a byte-oriented transfer of `n` bytes (1 <= n <= 65536): the opcode,
/// then `n - 1` little-endian in two bytes.
pub open spec fn byte_header(flags: u8, n: nat) -> Seq<u8> {
    seq![flags, ((n - 1) % 256) as u8, ((n - 1) / 256) as u8]
}

/// Size of the first frame when `len` bytes remain to be moved.
pub open spec fn chunk_len(len: nat) -> nat {
    if len <= MAX_FRAME_BYTES {
        len
    } else {
        MAX_FRAME_BYTES as nat
    }
}

/// The frames that move `data` with the given transfer opcode: `data` cut into
/// pieces of at most 65536 bytes, each behind its own header.
pub open spec fn framed(flags: u8, data: Seq<u8>) -> Seq<u8>
    decreases data.len(),
{
    if data.len() == 0 {
        Seq::empty()
    } else {
        let n = chunk_len(data.len());
        byte_header(flags, n) + data.take(n as int) + framed(flags, data.skip(n as int))
    }
}

/// Opcode of a full-duplex byte transfer: data in and out, out on the negative edge.
pub open spec fn duplex_opcode() -> u8 {
    0x31
}

/// Opcode of a write-only byte transfer, out on the negative edge.
pub open spec fn send_opcode() -> u8 {
    0x11
}

/// Opcode of a full-duplex bit transfer.
pub open spec fn bits_opcode() -> u8 {
    0x33
}

pub fn encode_set_low_gpio(value: u8, direction: u8) -> (r: Vec<u8>)
    ensures
        r@ == set_low_gpio_frame(value, direction),
{
    let r = vec![Command::MC_SETB_LOW.to_u8(), value, direction];
    assert(r@ =~= set_low_gpio_frame(value, direction));
    r
}

pub fn encode_read_low_gpio() -> (r: Vec<u8>)
    ensures
        r@ == seq![0x81u8],
{
    let r = vec![Command::MC_READB_LOW.to_u8()];
    assert(r@ =~= seq![0x81u8]);
    r
}

pub fn encode_read_high_gpio() -> (r: Vec<u8>)
    ensures
        r@ == seq![0x83u8],
{
    let r = vec![Command::MC_READB_HIGH.to_u8()];
    assert(r@ =~= seq![0x83u8]);
    r
}

pub fn encode_clock_divisor(divisor_low: u8, divisor_high: u8) -> (r: Vec<u8>)
    ensures
        r@ == seq![0x86u8, divisor_low, divisor_high],
{
    let r = vec![Command::MC_SET_CLK_DIV.to_u8(), divisor_low, divisor_high];
    assert(r@ =~= seq![0x86u8, divisor_low, divisor_high]);
    r
}

/// Selects the full-rate (60 MHz) master clock.
pub fn encode_disable_clk_div5() -> (r: Vec<u8>)
    ensures
        r@ == seq![0x8Au8],
{
    let r = vec![Command::MC_TCK_X5.to_u8()];
    assert(r@ =~= seq![0x8Au8]);
    r
}

/// Selects the master clock divided by five.
pub fn encode_enable_clk_div5() -> (r: Vec<u8>)
    ensures
        r@ == seq![0x8Bu8],
{
    let r = vec![Command::MC_TCK_D5.to_u8()];
    assert(r@ =~= seq![0x8Bu8]);
    r
}

/// Header of a byte transfer with opcode `flags` moving `byte_count` bytes; the
/// payload, if the opcode sends any, follows separately. A count outside
/// 1..=65536 does not fit the length field and is refused with `InvalidArgs`.
pub fn encode_byte_transfer(flags: u8, byte_count: usize) -> (r: Result<Vec<u8>, Error>)
    ensures
        r is Ok <==> 1 <= byte_count <= MAX_FRAME_BYTES,
        r matches Ok(v) ==> v@ == byte_header(flags, byte_count as nat),
        r matches Err(e) ==> e == Error::InvalidArgs,
{
    if byte_count == 0 || byte_count > MAX_FRAME_BYTES {
        return Err(Error::InvalidArgs);
    }
    let n = byte_count - 1;
    let r = vec![flags, (n % 256) as u8, (n / 256) as u8];
    assert(r@ =~= byte_header(flags, byte_count as nat));
    Ok(r)
}

/// Frame of a bit transfer with opcode `flags` moving `bit_count` bits of `value`.
/// A count outside 1..=8 is refused with `InvalidArgs`.
pub fn encode_bit_transfer(flags: u8, bit_count: usize, value: u8) -> (r: Result<Vec<u8>, Error>)
    ensures
        r is Ok <==> 1 <= bit_count <= 8,
        r matches Ok(v) ==> v@ == seq![flags, (bit_count - 1) as u8, value],
        r matches Err(e) ==> e == Error::InvalidArgs,
{
    if bit_count == 0 || bit_count > 8 {
        return Err(Error::InvalidArgs);
    }
    let r = vec![flags, (bit_count - 1) as u8, value];
    assert(r@ =~= seq![flags, (bit_count - 1) as u8, value]);
    Ok(r)
}

/// Clocks `byte_count` bytes with no data (dummy clocks). A count outside
/// 1..=65536 is refused with `InvalidArgs`.
pub fn encode_clock_only(byte_count: usize) -> (r: Result<Vec<u8>, Error>)
    ensures
        r is Ok <==> 1 <= byte_count <= MAX_FRAME_BYTES,
        r matches Ok(v) ==> v@ == byte_header(0x8F, byte_count as nat),
        r matches Err(e) ==> e == Error::InvalidArgs,
{
    encode_byte_transfer(Command::MC_CLK_N8.to_u8(), byte_count)
}

/// Clocks a single bit with no data.
pub fn encode_clock_bit() -> (r: Vec<u8>)
    ensures
        r@ == seq![0x8Eu8, 0x00u8],
{
    let r = vec![Command::MC_CLK_N.to_u8(), 0x00];
    assert(r@ =~= seq![0x8Eu8, 0x00u8]);
    r
}

/// `a` is a prefix of `b`.
pub open spec fn is_prefix(a: Seq<u8>, b: Seq<u8>) -> bool {
    a.len() <= b.len() && b.take(a.len() as int) == a
}

/// A prefix stays a prefix when more follows.
pub proof fn lemma_prefix_extend(a: Seq<u8>, b: Seq<u8>, c: Seq<u8>)
    requires
        is_prefix(a, b),
    ensures
        is_prefix(a, b + c),
{
    assert((b + c).take(a.len() as int) =~= b.take(a.len() as int));
}

/// Every sequence is a prefix of itself followed by more.
pub proof fn lemma_prefix_of_concat(a: Seq<u8>, c: Seq<u8>)
    ensures
        is_prefix(a, a + c),
{
    assert((a + c).take(a.len() as int) =~= a);
}

/// Nothing to move is no frame at all: a zero-length transfer never reaches the bridge.
pub proof fn lemma_framed_empty(flags: u8)
    ensures
        framed(flags, Seq::empty()) == Seq::<u8>::empty(),
{
}

/// A transfer of `L` bytes, 1 <= L <= 65536, is one frame: its header, then
/// exactly the `L` payload bytes.
pub proof fn lemma_framed_single(flags: u8, data: Seq<u8>)
    requires
        1 <= data.len() <= MAX_FRAME_BYTES,
    ensures
        framed(flags, data) == byte_header(flags, data.len()) + data,
{
    assert(data.take(data.len() as int) =~= data);
    assert(data.skip(data.len() as int) =~= Seq::<u8>::empty());
    assert(framed(flags, data.skip(data.len() as int)) == Seq::<u8>::empty());
    assert(byte_header(flags, data.len()) + data + Seq::<u8>::empty() =~= byte_header(flags, data.len()) + data);
}

/// Every frame moves its payload in order: `L` bytes give `L` payload bytes and
/// one three-byte header per started 64 KiB.
pub proof fn lemma_framed_len(flags: u8, data: Seq<u8>)
    ensures
        framed(flags, data).len() == data.len() + 3 * ((data.len() + 65535) / 65536),
    decreases data.len(),
{
    if data.len() > 0 {
        let n = chunk_len(data.len());
        lemma_framed_len(flags, data.skip(n as int));
    }
}
} // verus!
