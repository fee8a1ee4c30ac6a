//! What is known of the chip that is programmed, and the instructions that it takes.

use vstd::prelude::*;

verus! {

/// A memory of the chip.
#[derive(Debug, Clone, Copy, PartialEq, Eq, Structural)]
pub struct Memory {
    /// Page size in bytes.
    pub page_size: usize,
    /// Block size in words of 16 bits.
    pub block_size: usize,
}

/// Parameters used for programming a chip.
#[derive(Debug, Clone, Copy, PartialEq, Eq, Structural)]
pub struct Specs {
    pub timeout: u8,
    pub stab_delay: u8,
    pub cmd_exe_delay: u8,
    pub synch_loops: u8,
    pub byte_delay: u8,
    pub pool_value: u8,
    pub pool_index: u8,
    pub pre_delay: u8,
    pub post_delay: u8,
    pub reset_polarity: bool,
    pub erase_poll_method: u8,
    pub erase_delay: u8,
    pub fuse_poll_index: u8,
    pub lock_poll_index: u8,
    pub signature_poll_index: u8,
    pub flash: Memory,
    pub eeprom: Memory,
}

/// The three bytes by which a chip is told from others.
#[derive(Debug, Clone, Copy, PartialEq, Eq)]
pub struct Signature {
    pub bytes: (u8, u8, u8),
}

/// The fuse bytes of a chip.
#[derive(Debug, Clone, Copy, PartialEq, Eq, Structural)]
pub struct AVRFuse {
    pub low: u8,
    pub high: u8,
    pub extended: u8,
}

/// An instruction of the chip's serial programming interface.
pub type IspCommand = (u8, u8, u8, u8);

/// `avrisp::PROGRAMMING_ENABLE` is the instruction AC 53 00 00.
#[verifier::external_body]
pub(crate) fn programming_enable_instruction() -> (command: IspCommand)
    ensures
        command == (0xacu8, 0x53u8, 0u8, 0u8),
{
    avrisp::PROGRAMMING_ENABLE
}

/// `avrisp::CHIP_ERASE` is the instruction AC 80 00 00.
#[verifier::external_body]
pub(crate) fn chip_erase_instruction() -> (command: IspCommand)
    ensures
        command == (0xacu8, 0x80u8, 0u8, 0u8),
{
    avrisp::CHIP_ERASE
}

/// `avrisp::READ_SIGNATURE` is the instruction 30 00 00 00.
#[verifier::external_body]
pub(crate) fn read_signature_instruction() -> (command: IspCommand)
    ensures
        command == (0x30u8, 0u8, 0u8, 0u8),
{
    avrisp::READ_SIGNATURE
}

/// `avrisp::READ_FLASH_LOW` is the instruction 20 00 00 00.
#[verifier::external_body]
pub(crate) fn read_flash_low_instruction() -> (command: IspCommand)
    ensures
        command == (0x20u8, 0u8, 0u8, 0u8),
{
    avrisp::READ_FLASH_LOW
}

/// `avrisp::READ_EEPROM` is the instruction A0 00 00 00.
#[verifier::external_body]
pub(crate) fn read_eeprom_instruction() -> (command: IspCommand)
    ensures
        command == (0xa0u8, 0u8, 0u8, 0u8),
{
    avrisp::READ_EEPROM
}

/// `avrisp::READ_LOW_FUSE` is the instruction 50 00 00 00.
#[verifier::external_body]
pub(crate) fn read_low_fuse_instruction() -> (command: IspCommand)
    ensures
        command == (0x50u8, 0u8, 0u8, 0u8),
{
    avrisp::READ_LOW_FUSE
}

/// `avrisp::READ_HIGH_FUSE` is the instruction 58 08 00 00.
#[verifier::external_body]
pub(crate) fn read_high_fuse_instruction() -> (command: IspCommand)
    ensures
        command == (0x58u8, 0x08u8, 0u8, 0u8),
{
    avrisp::READ_HIGH_FUSE
}

/// `avrisp::READ_EXTENDED_FUSE` is the instruction 50 08 00 00.
#[verifier::external_body]
pub(crate) fn read_extended_fuse_instruction() -> (command: IspCommand)
    ensures
        command == (0x50u8, 0x08u8, 0u8, 0u8),
{
    avrisp::READ_EXTENDED_FUSE
}

/// `avrisp::READ_LOCK` is the instruction 58 00 00 00.
#[verifier::external_body]
pub(crate) fn read_lock_instruction() -> (command: IspCommand)
    ensures
        command == (0x58u8, 0u8, 0u8, 0u8),
{
    avrisp::READ_LOCK
}

/// `avrisp::Signature::from` takes three bytes and keeps them in order.
#[verifier::external_body]
pub(crate) fn signature_from(bytes: [u8; 3]) -> (kept: (u8, u8, u8))
    ensures
        kept == (bytes@[0], bytes@[1], bytes@[2]),
{
    avrisp::Signature::from(bytes).bytes
}

} // verus!
