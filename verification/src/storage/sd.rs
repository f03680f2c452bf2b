use vstd::prelude::*;

use crate::storage::StorageError;

verus! {

/// Number of ACMD41 polling attempts before giving up.
pub const ACMD41_MAX_RETRIES: u32 = 10;

/// SD card variant, determined during initialisation.
#[derive(Debug, Clone, Copy, PartialEq, Eq, Structural)]
pub enum CardKind {
    /// Standard Capacity card (≤ 2 GB, byte-addressed).
    Sdsc,
    /// High/Extended Capacity card (> 2 GB, sector-addressed).
    Sdhc,
}

/// Thin SD card SPI driver state: owns the SPI device the card sits on.
pub struct SdCard<SPI> {
    spi: SPI,
}

impl<SPI> SdCard<SPI> {
    pub closed spec fn bus(&self) -> SPI {
        self.spi
    }

    pub fn new(spi: SPI) -> (c: Self)
        ensures
            c.bus() == spi,
    {
        Self { spi }
    }

    /// Consume the driver and return the underlying SPI device.
    pub fn into_spi(self) -> (spi: SPI)
        ensures
            spi == self.bus(),
    {
        self.spi
    }

    /// The SPI device, for running a transfer on the card.
    pub fn spi_mut(&mut self) -> (spi: &mut SPI)
        ensures
            *spi == old(self).bus(),
            final(self).bus() == *final(spi),
    {
        &mut self.spi
    }
}

// ── Command frames and responses ─────────────────────────────────────────────

/// A command frame: start bits and index, the argument big-endian, then the CRC byte.
pub open spec fn spec_cmd_frame(cmd: u8, arg: u32, crc: u8) -> Seq<u8> {
    seq![
        0x40u8 | cmd,
        (arg / 0x100_0000) as u8,
        ((arg / 0x1_0000) % 256) as u8,
        ((arg / 0x100) % 256) as u8,
        (arg % 256) as u8,
        crc,
    ]
}

/// The position of the first byte of `s` at or after `k` that is not `0xFF`.
pub open spec fn first_busy_free(s: Seq<u8>, k: int) -> int
    decreases s.len() - k,
{
    if k < 0 || k >= s.len() {
        s.len() as int
    } else if s[k] != 0xFF {
        k
    } else {
        first_busy_free(s, k + 1)
    }
}

/// The position of the first `0xFE` data token of `s` at or after `k`.
pub open spec fn first_token(s: Seq<u8>, k: int) -> int
    decreases s.len() - k,
{
    if k < 0 || k >= s.len() {
        s.len() as int
    } else if s[k] == 0xFE {
        k
    } else {
        first_token(s, k + 1)
    }
}

proof fn lemma_first_busy_free(s: Seq<u8>, k: int)
    requires
        0 <= k <= s.len(),
    ensures
        k <= first_busy_free(s, k) <= s.len(),
    decreases s.len() - k,
{
    if k < s.len() && s[k] == 0xFF {
        lemma_first_busy_free(s, k + 1);
    }
}

proof fn lemma_first_token(s: Seq<u8>, k: int)
    requires
        0 <= k <= s.len(),
    ensures
        k <= first_token(s, k) <= s.len(),
    decreases s.len() - k,
{
    if k < s.len() && s[k] != 0xFE {
        lemma_first_token(s, k + 1);
    }
}

/// Build the six-byte frame of command `cmd` with argument `arg`.
pub fn build_cmd(cmd: u8, arg: u32, crc: u8) -> (frame: [u8; 6])
    ensures
        frame@ == spec_cmd_frame(cmd, arg, crc),
{
    let frame = [
        0x40u8 | cmd,
        (arg / 0x100_0000) as u8,
        ((arg / 0x1_0000) % 256) as u8,
        ((arg / 0x100) % 256) as u8,
        (arg % 256) as u8,
        crc,
    ];
    assert(frame@ =~= spec_cmd_frame(cmd, arg, crc));
    frame
}

fn find_busy_free(s: &[u8], from: usize) -> (r: usize)
    requires
        from <= s@.len(),
    ensures
        r == first_busy_free(s@, from as int),
{
    proof {
        lemma_first_busy_free(s@, from as int);
    }
    let mut k = from;
    while k < s.len()
        invariant
            from <= k <= s@.len(),
            first_busy_free(s@, from as int) == first_busy_free(s@, k as int),
        decreases s@.len() - k,
    {
        if s[k] != 0xFF {
            return k;
        }
        k += 1;
    }
    k
}

/// The R1 response: the first byte the card sends that is not `0xFF`.
pub open spec fn spec_r1(resp: Seq<u8>) -> Result<u8, StorageError> {
    let pos = first_busy_free(resp, 0);
    if pos < resp.len() {
        Ok(resp[pos])
    } else {
        Err(StorageError::IoError)
    }
}

/// Read an R1 response out of the bytes clocked in after a command.
pub fn r1_from_response(resp: &[u8]) -> (r: Result<u8, StorageError>)
    ensures
        r == spec_r1(resp@),
{
    let pos = find_busy_free(resp, 0);
    if pos < resp.len() {
        Ok(resp[pos])
    } else {
        Err(StorageError::IoError)
    }
}

/// The R7/R3 response: R1 and the four bytes after it, all within the seven read.
pub open spec fn spec_r7(resp: Seq<u8>) -> Result<Seq<u8>, StorageError> {
    let pos = first_busy_free(resp, 0);
    if pos >= resp.len() || pos + 4 >= resp.len() {
        Err(StorageError::IoError)
    } else {
        Ok(resp.subrange(pos, pos + 5))
    }
}

/// Read an R7/R3 response (`[R1, byte1, byte2, byte3, byte4]`) out of seven bytes.
pub fn r7_from_response(resp: &[u8; 7]) -> (r: Result<[u8; 5], StorageError>)
    ensures
        match spec_r7(resp@) {
            Ok(v) => r matches Ok(a) && a@ == v,
            Err(e) => r == Err::<[u8; 5], StorageError>(e),
        },
{
    let pos = find_busy_free(resp.as_slice(), 0);
    if pos >= 7 || pos + 4 >= 7 {
        return Err(StorageError::IoError);
    }
    let a = [resp[pos], resp[pos + 1], resp[pos + 2], resp[pos + 3], resp[pos + 4]];
    assert(a@ =~= resp@.subrange(pos as int, pos + 5));
    Ok(a)
}

/// Where a block read's 512 data bytes start: after an R1 of zero and the
/// `0xFE` token that follows it, and only when all of them were clocked in.
pub open spec fn spec_block_start(resp: Seq<u8>) -> Result<int, StorageError> {
    let r1_pos = first_busy_free(resp, 0);
    if r1_pos >= resp.len() || resp[r1_pos] != 0x00 {
        Err(StorageError::IoError)
    } else {
        let token_pos = first_token(resp, r1_pos + 1);
        if token_pos >= resp.len() || token_pos + 1 + 512 > resp.len() {
            Err(StorageError::IoError)
        } else {
            Ok(token_pos + 1)
        }
    }
}

/// Copy the data block out of the 520 bytes clocked in after a read command.
pub fn block_from_response(resp: &[u8; 520], buf: &mut [u8; 512]) -> (r: Result<(), StorageError>)
    ensures
        match spec_block_start(resp@) {
            Ok(start) => r is Ok && final(buf)@ == resp@.subrange(start, start + 512),
            Err(e) => r == Err::<(), StorageError>(e) && final(buf)@ == old(buf)@,
        },
{
    let s = resp.as_slice();
    let r1_pos = find_busy_free(s, 0);
    if r1_pos >= 520 || resp[r1_pos] != 0x00 {
        return Err(StorageError::IoError);
    }
    proof {
        lemma_first_token(resp@, r1_pos + 1);
    }
    let mut token_pos = r1_pos + 1;
    while token_pos < 520 && resp[token_pos] != 0xFE
        invariant
            r1_pos + 1 <= token_pos <= 520,
            first_token(resp@, r1_pos + 1) == first_token(resp@, token_pos as int),
        decreases 520 - token_pos,
    {
        token_pos += 1;
    }
    if token_pos >= 520 {
        return Err(StorageError::IoError);
    }
    let data_start = token_pos + 1;
    if data_start + 512 > 520 {
        return Err(StorageError::IoError);
    }
    let mut i: usize = 0;
    while i < 512
        invariant
            i <= 512,
            data_start + 512 <= 520,
            forall|k: int| 0 <= k < i ==> #[trigger] buf@[k] == resp@[data_start + k],
        decreases 512 - i,
    {
        buf[i] = resp[data_start + i];
        i += 1;
    }
    assert(buf@ =~= resp@.subrange(data_start as int, data_start + 512));
    Ok(())
}

/// The bytes sent for a block write: the `0xFE` token, the data, two dummy CRC bytes.
pub fn write_block_frame(data: &[u8; 512]) -> (frame: [u8; 515])
    ensures
        frame@ == seq![0xFEu8] + data@ + seq![0xFFu8, 0xFFu8],
{
    let mut frame = [0xFFu8; 515];
    frame[0] = 0xFE;
    let mut i: usize = 0;
    while i < 512
        invariant
            i <= 512,
            frame@[0] == 0xFE,
            frame@[513] == 0xFF,
            frame@[514] == 0xFF,
            forall|k: int| 0 <= k < i ==> #[trigger] frame@[1 + k] == data@[k],
        decreases 512 - i,
    {
        frame[1 + i] = data[i];
        i += 1;
    }
    let ghost expect = seq![0xFEu8] + data@ + seq![0xFFu8, 0xFFu8];
    assert forall|k: int| 0 <= k < 515 implies #[trigger] frame@[k] == expect[k] by {
        if 1 <= k < 513 {
            assert(frame@[1 + (k - 1)] == data@[k - 1]);
        }
    }
    assert(frame@ =~= expect);
    frame
}

/// The card's verdict on a block write: the first non-`0xFF` byte must be a
/// data response whose low nibble says "accepted" (`0b0101`).
pub open spec fn spec_write_accepted(resp: Seq<u8>) -> Result<(), StorageError> {
    let pos = first_busy_free(resp, 0);
    if pos >= resp.len() || resp[pos] & 0x0F != 0x05 {
        Err(StorageError::IoError)
    } else {
        Ok(())
    }
}

/// Check the data response clocked in after a block write.
pub fn check_write_response(resp: &[u8; 3]) -> (r: Result<(), StorageError>)
    ensures
        r == spec_write_accepted(resp@),
{
    let pos = find_busy_free(resp.as_slice(), 0);
    if pos >= 3 {
        return Err(StorageError::IoError);
    }
    if (resp[pos] & 0x0F) != 0x05 {
        return Err(StorageError::IoError);
    }
    Ok(())
}

/// The card's answer to a write command (CMD24): it accepts only an R1 of 0.
pub fn check_write_command(r1: u8) -> (r: Result<(), StorageError>)
    ensures
        r1 == 0 ==> r is Ok,
        r1 != 0 ==> r == Err::<(), StorageError>(StorageError::IoError),
{
    if r1 != 0x00 {
        return Err(StorageError::IoError);
    }
    Ok(())
}

// ── Initialisation ───────────────────────────────────────────────────────────

/// Where the SPI-mode initialisation sequence stands.
#[derive(Debug, Clone, Copy, PartialEq, Eq, Structural)]
pub enum SdInitState {
    /// Send 80 clock cycles with the card deselected.
    PowerUp,
    /// CMD0: GO_IDLE_STATE.
    GoIdle,
    /// CMD8: SEND_IF_COND.
    CheckVoltage,
    /// CMD55 before ACMD41, on poll attempt `attempt`.
    AppCommand { attempt: u32 },
    /// ACMD41 with HCS, on poll attempt `attempt`.
    OpCondition { attempt: u32 },
    /// CMD58: READ_OCR.
    ReadOcr,
    /// The card is ready.
    Ready(CardKind),
    /// Initialisation failed.
    Failed(StorageError),
}

/// One SPI exchange the initialisation asks for.
#[derive(Debug, Clone, Copy, PartialEq, Eq, Structural)]
pub enum SdRequest {
    /// Ten `0xFF` bytes (80 clocks).
    Clocks,
    /// A command answered by R1 (three bytes read).
    R1 { cmd: u8, arg: u32, crc: u8 },
    /// A command answered by R7/R3 (seven bytes read).
    R7 { cmd: u8, arg: u32, crc: u8 },
}

/// What an exchange produced.
#[derive(Debug, Clone, Copy, PartialEq, Eq)]
pub enum SdReply {
    /// The clocks went out.
    Sent,
    /// An R1 byte.
    R1(u8),
    /// An R7/R3 response.
    R7([u8; 5]),
    /// The exchange failed.
    Failed(StorageError),
}

/// The exchange a state asks for; none once the sequence is over.
pub open spec fn spec_init_request(s: SdInitState) -> Option<SdRequest> {
    match s {
        SdInitState::PowerUp => Some(SdRequest::Clocks),
        SdInitState::GoIdle => Some(SdRequest::R1 { cmd: 0, arg: 0, crc: 0x95 }),
        SdInitState::CheckVoltage => Some(SdRequest::R7 { cmd: 8, arg: 0x1AA, crc: 0x87 }),
        SdInitState::AppCommand { .. } => Some(SdRequest::R1 { cmd: 55, arg: 0, crc: 0x65 }),
        SdInitState::OpCondition { .. } => Some(
            SdRequest::R1 { cmd: 41, arg: 0x4000_0000, crc: 0x77 },
        ),
        SdInitState::ReadOcr => Some(SdRequest::R7 { cmd: 58, arg: 0, crc: 0xFD }),
        SdInitState::Ready(_) => None,
        SdInitState::Failed(_) => None,
    }
}

/// One bit through the SD card's CRC7 register (polynomial `x^7 + x^3 + 1`):
/// the register shifts left by one, and when its top bit differs from the
/// incoming bit, bits 0 and 3 flip.
pub open spec fn crc7_bit(c: u8, bit: u8) -> u8 {
    let shifted = (c << 1u8) & 0x7F;
    if (c >> 6u8) & 1 != bit {
        shifted ^ 0x09
    } else {
        shifted
    }
}

/// The CRC7 register after the eight bits of the byte `b`, most significant
/// first.
pub open spec fn crc7_byte(c: u8, b: u8) -> u8 {
    let c1 = crc7_bit(c, (b >> 7u8) & 1);
    let c2 = crc7_bit(c1, (b >> 6u8) & 1);
    let c3 = crc7_bit(c2, (b >> 5u8) & 1);
    let c4 = crc7_bit(c3, (b >> 4u8) & 1);
    let c5 = crc7_bit(c4, (b >> 3u8) & 1);
    let c6 = crc7_bit(c5, (b >> 2u8) & 1);
    let c7 = crc7_bit(c6, (b >> 1u8) & 1);
    crc7_bit(c7, b & 1)
}

/// Whether the last byte of a command frame is the CRC7 of its first five
/// bytes (from a zero register), shifted left, with the end bit set.
pub open spec fn frame_crc_ok(cmd: u8, arg: u32, crc: u8) -> bool {
    let f = spec_cmd_frame(cmd, arg, crc);
    let c0 = crc7_byte(0, f[0]);
    let c1 = crc7_byte(c0, f[1]);
    let c2 = crc7_byte(c1, f[2]);
    let c3 = crc7_byte(c2, f[3]);
    let c4 = crc7_byte(c3, f[4]);
    crc == (c4 << 1u8) | 1
}

proof fn lemma_crc7_cmd0()
    ensures
        frame_crc_ok(0, 0, 0x95),
{
    let f = spec_cmd_frame(0, 0, 0x95);
    assert(0x40u8 | 0u8 == 64u8) by (bit_vector);
    assert(f[0] == 64 && f[1] == 0 && f[2] == 0 && f[3] == 0 && f[4] == 0);
    assert((crc7_byte(crc7_byte(crc7_byte(crc7_byte(crc7_byte(0u8, 64u8), 0u8), 0u8), 0u8), 0u8) << 1u8) | 1 == 0x95u8) by (bit_vector);
}

proof fn lemma_crc7_cmd8()
    ensures
        frame_crc_ok(8, 0x1AA, 0x87),
{
    let f = spec_cmd_frame(8, 0x1AA, 0x87);
    assert(0x40u8 | 8u8 == 72u8) by (bit_vector);
    assert(f[0] == 72 && f[1] == 0 && f[2] == 0 && f[3] == 1 && f[4] == 170);
    assert((crc7_byte(crc7_byte(crc7_byte(crc7_byte(crc7_byte(0u8, 72u8), 0u8), 0u8), 1u8), 170u8) << 1u8) | 1 == 0x87u8) by (bit_vector);
}

proof fn lemma_crc7_cmd55()
    ensures
        frame_crc_ok(55, 0, 0x65),
{
    let f = spec_cmd_frame(55, 0, 0x65);
    assert(0x40u8 | 55u8 == 119u8) by (bit_vector);
    assert(f[0] == 119 && f[1] == 0 && f[2] == 0 && f[3] == 0 && f[4] == 0);
    assert((crc7_byte(crc7_byte(crc7_byte(crc7_byte(crc7_byte(0u8, 119u8), 0u8), 0u8), 0u8), 0u8) << 1u8) | 1 == 0x65u8) by (bit_vector);
}

proof fn lemma_crc7_cmd41()
    ensures
        frame_crc_ok(41, 0x4000_0000, 0x77),
{
    let f = spec_cmd_frame(41, 0x4000_0000, 0x77);
    assert(0x40u8 | 41u8 == 105u8) by (bit_vector);
    assert(f[0] == 105 && f[1] == 64 && f[2] == 0 && f[3] == 0 && f[4] == 0);
    assert((crc7_byte(crc7_byte(crc7_byte(crc7_byte(crc7_byte(0u8, 105u8), 64u8), 0u8), 0u8), 0u8) << 1u8) | 1 == 0x77u8) by (bit_vector);
}

proof fn lemma_crc7_cmd58()
    ensures
        frame_crc_ok(58, 0, 0xFD),
{
    let f = spec_cmd_frame(58, 0, 0xFD);
    assert(0x40u8 | 58u8 == 122u8) by (bit_vector);
    assert(f[0] == 122 && f[1] == 0 && f[2] == 0 && f[3] == 0 && f[4] == 0);
    assert((crc7_byte(crc7_byte(crc7_byte(crc7_byte(crc7_byte(0u8, 122u8), 0u8), 0u8), 0u8), 0u8) << 1u8) | 1 == 0xFDu8) by (bit_vector);
}

/// Every command of the initialisation sequence goes out with its true CRC7,
/// so a card that checks CRCs accepts each frame.
pub proof fn law_init_frames_carry_crc7(s: SdInitState)
    ensures
        spec_init_request(s) matches Some(SdRequest::R1 { cmd, arg, crc }) ==> frame_crc_ok(cmd, arg, crc),
        spec_init_request(s) matches Some(SdRequest::R7 { cmd, arg, crc }) ==> frame_crc_ok(cmd, arg, crc),
{
    lemma_crc7_cmd0();
    lemma_crc7_cmd8();
    lemma_crc7_cmd55();
    lemma_crc7_cmd41();
    lemma_crc7_cmd58();
}

/// The state after a reply: an idle card must answer CMD0 with 1, CMD8 must
/// not flag an illegal command, CMD55 must have no error bits, ACMD41 is
/// polled up to `ACMD41_MAX_RETRIES` times until it answers 0, and CMD58's
/// CCS bit tells SDHC from SDSC.
pub open spec fn spec_init_advance(s: SdInitState, reply: SdReply) -> SdInitState {
    match (s, reply) {
        (SdInitState::Ready(_), _) => s,
        (SdInitState::Failed(_), _) => s,
        (SdInitState::PowerUp, SdReply::Sent) => SdInitState::GoIdle,
        (SdInitState::PowerUp, SdReply::Failed(_)) => SdInitState::Failed(StorageError::IoError),
        (_, SdReply::Failed(e)) => SdInitState::Failed(e),
        (SdInitState::GoIdle, SdReply::R1(r)) => if r == 0x01 {
            SdInitState::CheckVoltage
        } else {
            SdInitState::Failed(StorageError::NotReady)
        },
        (SdInitState::CheckVoltage, SdReply::R7(r)) => if r[0] & 0x04 != 0 {
            SdInitState::Failed(StorageError::NotReady)
        } else {
            SdInitState::AppCommand { attempt: 0 }
        },
        (SdInitState::AppCommand { attempt }, SdReply::R1(r)) => if r & 0xFE != 0 {
            SdInitState::Failed(StorageError::IoError)
        } else {
            SdInitState::OpCondition { attempt }
        },
        (SdInitState::OpCondition { attempt }, SdReply::R1(r)) => if r == 0 {
            SdInitState::ReadOcr
        } else if attempt + 1 < ACMD41_MAX_RETRIES {
            SdInitState::AppCommand { attempt: (attempt + 1) as u32 }
        } else {
            SdInitState::Failed(StorageError::NotReady)
        },
        (SdInitState::ReadOcr, SdReply::R7(r)) => SdInitState::Ready(
            if r[1] & 0x40 != 0 {
                CardKind::Sdhc
            } else {
                CardKind::Sdsc
            },
        ),
        _ => SdInitState::Failed(StorageError::IoError),
    }
}

/// The exchange to perform next in state `s`, if any.
pub fn sd_init_request(s: &SdInitState) -> (r: Option<SdRequest>)
    ensures
        r == spec_init_request(*s),
{
    match s {
        SdInitState::PowerUp => Some(SdRequest::Clocks),
        SdInitState::GoIdle => Some(SdRequest::R1 { cmd: 0, arg: 0, crc: 0x95 }),
        SdInitState::CheckVoltage => Some(SdRequest::R7 { cmd: 8, arg: 0x1AA, crc: 0x87 }),
        SdInitState::AppCommand { .. } => Some(SdRequest::R1 { cmd: 55, arg: 0, crc: 0x65 }),
        SdInitState::OpCondition { .. } => Some(
            SdRequest::R1 { cmd: 41, arg: 0x4000_0000, crc: 0x77 },
        ),
        SdInitState::ReadOcr => Some(SdRequest::R7 { cmd: 58, arg: 0, crc: 0xFD }),
        SdInitState::Ready(_) => None,
        SdInitState::Failed(_) => None,
    }
}

/// Advance the initialisation with the reply to the last exchange.
pub fn sd_init_advance(s: SdInitState, reply: SdReply) -> (next: SdInitState)
    ensures
        next == spec_init_advance(s, reply),
{
    match (s, reply) {
        (SdInitState::Ready(_), _) => s,
        (SdInitState::Failed(_), _) => s,
        (SdInitState::PowerUp, SdReply::Sent) => SdInitState::GoIdle,
        (SdInitState::PowerUp, SdReply::Failed(_)) => SdInitState::Failed(StorageError::IoError),
        (_, SdReply::Failed(e)) => SdInitState::Failed(e),
        (SdInitState::GoIdle, SdReply::R1(r)) => {
            if r == 0x01 {
                SdInitState::CheckVoltage
            } else {
                SdInitState::Failed(StorageError::NotReady)
            }
        },
        (SdInitState::CheckVoltage, SdReply::R7(r)) => {
            if r[0] & 0x04 != 0 {
                SdInitState::Failed(StorageError::NotReady)
            } else {
                SdInitState::AppCommand { attempt: 0 }
            }
        },
        (SdInitState::AppCommand { attempt }, SdReply::R1(r)) => {
            if r & 0xFE != 0 {
                SdInitState::Failed(StorageError::IoError)
            } else {
                SdInitState::OpCondition { attempt }
            }
        },
        (SdInitState::OpCondition { attempt }, SdReply::R1(r)) => {
            if r == 0 {
                SdInitState::ReadOcr
            } else if attempt < ACMD41_MAX_RETRIES - 1 {
                SdInitState::AppCommand { attempt: attempt + 1 }
            } else {
                SdInitState::Failed(StorageError::NotReady)
            }
        },
        (SdInitState::ReadOcr, SdReply::R7(r)) => {
            SdInitState::Ready(
                if r[1] & 0x40 != 0 {
                    CardKind::Sdhc
                } else {
                    CardKind::Sdsc
                },
            )
        },
        _ => SdInitState::Failed(StorageError::IoError),
    }
}

/// How many exchanges at most remain before the sequence is over.
pub open spec fn init_steps_left(s: SdInitState) -> int {
    match s {
        SdInitState::PowerUp => 4 + 2 * ACMD41_MAX_RETRIES,
        SdInitState::GoIdle => 3 + 2 * ACMD41_MAX_RETRIES,
        SdInitState::CheckVoltage => 2 + 2 * ACMD41_MAX_RETRIES,
        SdInitState::AppCommand { attempt } => 1 + 2 * (ACMD41_MAX_RETRIES - attempt),
        SdInitState::OpCondition { attempt } => 2 * (ACMD41_MAX_RETRIES - attempt),
        SdInitState::ReadOcr => 1,
        SdInitState::Ready(_) => 0,
        SdInitState::Failed(_) => 0,
    }
}

/// Initialisation always ends: every exchange brings the sequence strictly
/// closer to `Ready` or `Failed`, at most 24 exchanges in all.
pub proof fn law_init_terminates(s: SdInitState, reply: SdReply)
    requires
        spec_init_request(s) is Some,
        s matches SdInitState::AppCommand { attempt } ==> attempt < ACMD41_MAX_RETRIES,
        s matches SdInitState::OpCondition { attempt } ==> attempt < ACMD41_MAX_RETRIES,
    ensures
        0 <= init_steps_left(spec_init_advance(s, reply)) < init_steps_left(s),
        init_steps_left(s) <= 24,
        spec_init_advance(s, reply) matches SdInitState::AppCommand { attempt } ==> attempt
            < ACMD41_MAX_RETRIES,
        spec_init_advance(s, reply) matches SdInitState::OpCondition { attempt } ==> attempt
            < ACMD41_MAX_RETRIES,
{
}

} // verus!
