use stk500v2::board::{SwVersion, TopCard};
use stk500v2::command::{Isp, Normal};
use stk500v2::param::{RO, RW};
use stk500v2::status::Status;

#[test]
fn codes_of_normal_commands() {
    let codes: Vec<u8> = vec![
        Normal::SignOn.into(),
        Normal::SetParameter.into(),
        Normal::GetParameter.into(),
        Normal::SetDeviceParameters.into(),
        Normal::OSCcal.into(),
        Normal::LoadAddress.into(),
        Normal::FirmwareUpgrade.into(),
        Normal::SpiMulti.into(),
        Normal::SetControlStack.into(),
        Normal::EnterIspMode.into(),
        Normal::LeaveIspMode.into(),
    ];
    assert_eq!(
        codes,
        vec![0x01, 0x02, 0x03, 0x04, 0x05, 0x06, 0x07, 0x1D, 0x2D, 0x10, 0x11]
    );
}

#[test]
fn codes_of_isp_commands() {
    let codes: Vec<u8> = vec![
        Isp::ChipErase.into(),
        Isp::ProgramFlash.into(),
        Isp::ReadFlash.into(),
        Isp::ProgramEeprom.into(),
        Isp::ReadEeprom.into(),
        Isp::ProgramFuse.into(),
        Isp::ReadFuse.into(),
        Isp::ProgramLock.into(),
        Isp::ReadLock.into(),
        Isp::ReadSignature.into(),
        Isp::ReadOsccal.into(),
    ];
    assert_eq!(codes, (0x12..=0x1C).collect::<Vec<u8>>());
}

#[test]
fn codes_of_parameters() {
    let ro: Vec<u8> = vec![
        RO::BuildNumberLow.into(),
        RO::BuildNumberHigh.into(),
        RO::HwVer.into(),
        RO::SwMajor.into(),
        RO::SwMinor.into(),
        RO::TopcardDetect.into(),
        RO::Status.into(),
        RO::Data.into(),
    ];
    assert_eq!(ro, vec![0x80, 0x81, 0x90, 0x91, 0x92, 0x9A, 0x9C, 0x9D]);
    let rw: Vec<u8> = vec![
        RW::Vtarget.into(),
        RW::Vadjust.into(),
        RW::OScPscale.into(),
        RW::OscCmatch.into(),
        RW::SckDuration.into(),
        RW::ControllerInit.into(),
        RW::ResetPolarity.into(),
    ];
    assert_eq!(rw, vec![0x94, 0x95, 0x96, 0x97, 0x98, 0x9F, 0x9E]);
}

#[test]
fn codes_of_status() {
    let codes: Vec<u8> = vec![
        Status::CmdOk.into(),
        Status::CmdTimeout.into(),
        Status::RdyBsyTout.into(),
        Status::SetParamMissing.into(),
        Status::CmdFailed.into(),
        Status::UnknownCmd.into(),
        Status::CheckSumError.into(),
        Status::AnswerChecksumError.into(),
    ];
    assert_eq!(codes, vec![0x00, 0x80, 0x81, 0x82, 0xC0, 0xC9, 0xC1, 0xB0]);
}

#[test]
fn codes_of_top_cards() {
    let codes: Vec<u8> = vec![
        TopCard::STK501.into(),
        TopCard::STK502.into(),
        TopCard::STK503.into(),
        TopCard::STK504.into(),
        TopCard::STK505.into(),
        TopCard::STK520.into(),
    ];
    assert_eq!(codes, vec![0xAA, 0x55, 0xFA, 0xEE, 0xE4, 0xDD]);
}

#[test]
fn version_as_text() {
    assert_eq!(SwVersion { major: 2, minor: 10 }.to_string(), "2.10");
    assert_eq!(SwVersion { major: 0, minor: 0 }.to_string(), "0.0");
    assert_eq!(SwVersion { major: 255, minor: 100 }.to_string(), "255.100");
}
