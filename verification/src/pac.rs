//! Calls into the peripheral access crate.
//!
//! `ch32_metapac` describes each USBHS register as a field set: a number with one
//! getter and one setter per field. These functions hand such a number in, let the
//! field set change or decode it, and hand the number or the field out again. None
//! of them touches hardware. Their contracts are taken as given.

use ch32_metapac::usbhs::regs::{EpBufMod, EpConfig, EpLen, EpRxCtrl, EpTxCtrl, IntEn, IntFg, IntSt};
use ch32_metapac::usbhs::vals::{EpRxResponse, EpTog, EpTxResponse, UsbToken};
use vstd::prelude::*;

verus! {

/// Data synchronisation state of an endpoint direction.
#[derive(Clone, Copy, Debug, PartialEq, Eq, Structural)]
pub enum Tog {
    Data0,
    Data1,
    Data2,
    Mdata,
}

/// Answer of an IN endpoint to the host.
#[derive(Clone, Copy, Debug, PartialEq, Eq, Structural)]
pub enum TxResponse {
    Ack,
    Reserved,
    Nak,
    Stall,
}

/// Answer of an OUT endpoint to the host.
#[derive(Clone, Copy, Debug, PartialEq, Eq, Structural)]
pub enum RxResponse {
    Ack,
    Nyet,
    Nak,
    Stall,
}

/// Kind of the token that a finished transfer answered.
#[derive(Clone, Copy, Debug, PartialEq, Eq, Structural)]
pub enum Token {
    Out,
    Sof,
    In,
    Setup,
}

impl Tog {
    /// The field value of this state.
    pub open spec fn bits(self) -> u8 {
        match self {
            Tog::Data0 => 0,
            Tog::Data1 => 1,
            Tog::Data2 => 2,
            Tog::Mdata => 3,
        }
    }

    /// The field value of this state.
    pub fn to_bits(self) -> (r: u8)
        ensures
            r == self.bits(),
    {
        match self {
            Tog::Data0 => 0,
            Tog::Data1 => 1,
            Tog::Data2 => 2,
            Tog::Mdata => 3,
        }
    }

    /// The state that follows in a two-phase sequence: `Data1` after `Data0`, and
    /// `Data0` after anything else.
    pub fn flipped(self) -> (r: Tog)
        ensures
            r == (if self == Tog::Data0 { Tog::Data1 } else { Tog::Data0 }),
    {
        match self {
            Tog::Data0 => Tog::Data1,
            _ => Tog::Data0,
        }
    }
}

impl TxResponse {
    /// The field value of this answer.
    pub open spec fn bits(self) -> u8 {
        match self {
            TxResponse::Ack => 0,
            TxResponse::Reserved => 1,
            TxResponse::Nak => 2,
            TxResponse::Stall => 3,
        }
    }

    /// The field value of this answer.
    pub fn to_bits(self) -> (r: u8)
        ensures
            r == self.bits(),
    {
        match self {
            TxResponse::Ack => 0,
            TxResponse::Reserved => 1,
            TxResponse::Nak => 2,
            TxResponse::Stall => 3,
        }
    }
}

impl RxResponse {
    /// The field value of this answer.
    pub open spec fn bits(self) -> u8 {
        match self {
            RxResponse::Ack => 0,
            RxResponse::Nyet => 1,
            RxResponse::Nak => 2,
            RxResponse::Stall => 3,
        }
    }

    /// The field value of this answer.
    pub fn to_bits(self) -> (r: u8)
        ensures
            r == self.bits(),
    {
        match self {
            RxResponse::Ack => 0,
            RxResponse::Nyet => 1,
            RxResponse::Nak => 2,
            RxResponse::Stall => 3,
        }
    }
}

impl Token {
    /// The field value of this token kind.
    pub open spec fn bits(self) -> u8 {
        match self {
            Token::Out => 0,
            Token::Sof => 1,
            Token::In => 2,
            Token::Setup => 3,
        }
    }
}

/// Calls `EpTxCtrl::set_mask_uep_t_tog`: bits 3 and 4 take the field value of `tog`,
/// the other bits stay.
#[verifier::external_body]
pub(crate) fn tx_ctrl_set_tog(ctrl: u8, tog: Tog) -> (r: u8)
    ensures
        r == (ctrl & !(0x03u8 << 3)) | (tog.bits() << 3),
{
    let mut v = EpTxCtrl(ctrl);
    v.set_mask_uep_t_tog(match tog {
        Tog::Data0 => EpTog::DATA0,
        Tog::Data1 => EpTog::DATA1,
        Tog::Data2 => EpTog::DATA2,
        Tog::Mdata => EpTog::MDATA,
    });
    v.0
}

/// Calls `EpTxCtrl::set_mask_uep_t_res`: bits 0 and 1 take the field value of `res`,
/// the other bits stay.
#[verifier::external_body]
pub(crate) fn tx_ctrl_set_res(ctrl: u8, res: TxResponse) -> (r: u8)
    ensures
        r == (ctrl & !0x03u8) | res.bits(),
{
    let mut v = EpTxCtrl(ctrl);
    v.set_mask_uep_t_res(match res {
        TxResponse::Ack => EpTxResponse::ACK,
        TxResponse::Reserved => EpTxResponse::_RESERVED_1,
        TxResponse::Nak => EpTxResponse::NAK,
        TxResponse::Stall => EpTxResponse::STALL,
    });
    v.0
}

/// Calls `EpTxCtrl::set_t_tog_auto`: bit 5 becomes `on`, the other bits stay.
#[verifier::external_body]
pub(crate) fn tx_ctrl_set_auto(ctrl: u8, on: bool) -> (r: u8)
    ensures
        r == (ctrl & !(0x01u8 << 5)) | (if on { 0x01u8 << 5 } else { 0 }),
{
    let mut v = EpTxCtrl(ctrl);
    v.set_t_tog_auto(on);
    v.0
}

/// Calls `EpTxCtrl::mask_uep_t_tog`: the state whose field value is in bits 3 and 4.
#[verifier::external_body]
pub(crate) fn tx_ctrl_tog(ctrl: u8) -> (r: Tog)
    ensures
        r.bits() == (ctrl >> 3) & 0x03,
{
    match EpTxCtrl(ctrl).mask_uep_t_tog() {
        EpTog::DATA0 => Tog::Data0,
        EpTog::DATA1 => Tog::Data1,
        EpTog::DATA2 => Tog::Data2,
        EpTog::MDATA => Tog::Mdata,
    }
}

/// Calls `EpTxCtrl::mask_uep_t_res`: the answer whose field value is in bits 0 and 1.
#[verifier::external_body]
pub(crate) fn tx_ctrl_res(ctrl: u8) -> (r: TxResponse)
    ensures
        r.bits() == ctrl & 0x03,
{
    match EpTxCtrl(ctrl).mask_uep_t_res() {
        EpTxResponse::ACK => TxResponse::Ack,
        EpTxResponse::_RESERVED_1 => TxResponse::Reserved,
        EpTxResponse::NAK => TxResponse::Nak,
        EpTxResponse::STALL => TxResponse::Stall,
    }
}

/// Calls `EpTxCtrl::t_tog_auto`: whether bit 5 is set.
#[verifier::external_body]
pub(crate) fn tx_ctrl_auto(ctrl: u8) -> (r: bool)
    ensures
        r == ((ctrl >> 5) & 0x01 != 0),
{
    EpTxCtrl(ctrl).t_tog_auto()
}

/// Calls `EpRxCtrl::set_mask_uep_r_tog`: bits 3 and 4 take the field value of `tog`,
/// the other bits stay.
#[verifier::external_body]
pub(crate) fn rx_ctrl_set_tog(ctrl: u8, tog: Tog) -> (r: u8)
    ensures
        r == (ctrl & !(0x03u8 << 3)) | (tog.bits() << 3),
{
    let mut v = EpRxCtrl(ctrl);
    v.set_mask_uep_r_tog(match tog {
        Tog::Data0 => EpTog::DATA0,
        Tog::Data1 => EpTog::DATA1,
        Tog::Data2 => EpTog::DATA2,
        Tog::Mdata => EpTog::MDATA,
    });
    v.0
}

/// Calls `EpRxCtrl::set_mask_uep_r_res`: bits 0 and 1 take the field value of `res`,
/// the other bits stay.
#[verifier::external_body]
pub(crate) fn rx_ctrl_set_res(ctrl: u8, res: RxResponse) -> (r: u8)
    ensures
        r == (ctrl & !0x03u8) | res.bits(),
{
    let mut v = EpRxCtrl(ctrl);
    v.set_mask_uep_r_res(match res {
        RxResponse::Ack => EpRxResponse::ACK,
        RxResponse::Nyet => EpRxResponse::NYET,
        RxResponse::Nak => EpRxResponse::NAK,
        RxResponse::Stall => EpRxResponse::STALL,
    });
    v.0
}

/// Calls `EpRxCtrl::set_r_tog_auto`: bit 5 becomes `on`, the other bits stay.
#[verifier::external_body]
pub(crate) fn rx_ctrl_set_auto(ctrl: u8, on: bool) -> (r: u8)
    ensures
        r == (ctrl & !(0x01u8 << 5)) | (if on { 0x01u8 << 5 } else { 0 }),
{
    let mut v = EpRxCtrl(ctrl);
    v.set_r_tog_auto(on);
    v.0
}

/// Calls `EpRxCtrl::mask_uep_r_tog`: the state whose field value is in bits 3 and 4.
#[verifier::external_body]
pub(crate) fn rx_ctrl_tog(ctrl: u8) -> (r: Tog)
    ensures
        r.bits() == (ctrl >> 3) & 0x03,
{
    match EpRxCtrl(ctrl).mask_uep_r_tog() {
        EpTog::DATA0 => Tog::Data0,
        EpTog::DATA1 => Tog::Data1,
        EpTog::DATA2 => Tog::Data2,
        EpTog::MDATA => Tog::Mdata,
    }
}

/// Calls `EpRxCtrl::mask_uep_r_res`: the answer whose field value is in bits 0 and 1.
#[verifier::external_body]
pub(crate) fn rx_ctrl_res(ctrl: u8) -> (r: RxResponse)
    ensures
        r.bits() == ctrl & 0x03,
{
    match EpRxCtrl(ctrl).mask_uep_r_res() {
        EpRxResponse::ACK => RxResponse::Ack,
        EpRxResponse::NYET => RxResponse::Nyet,
        EpRxResponse::NAK => RxResponse::Nak,
        EpRxResponse::STALL => RxResponse::Stall,
    }
}

/// Calls `EpRxCtrl::r_tog_auto`: whether bit 5 is set.
#[verifier::external_body]
pub(crate) fn rx_ctrl_auto(ctrl: u8) -> (r: bool)
    ensures
        r == ((ctrl >> 5) & 0x01 != 0),
{
    EpRxCtrl(ctrl).r_tog_auto()
}

/// Calls `EpLen::set_len`: the low eleven bits take those of `len`, the other bits
/// stay.
#[verifier::external_body]
pub(crate) fn ep_len_set(reg: u16, len: u16) -> (r: u16)
    ensures
        r == (reg & !0x07ffu16) | (len & 0x07ff),
{
    let mut v = EpLen(reg);
    v.set_len(len);
    v.0
}

/// Calls `EpBufMod::set_buf_mod`: bit `n` becomes `on`, the other bits stay.
#[verifier::external_body]
pub(crate) fn buf_mod_set(reg: u32, n: usize, on: bool) -> (r: u32)
    requires
        n < 16,
    ensures
        r == (reg & !(0x01u32 << n)) | (if on { 0x01u32 << n } else { 0 }),
{
    let mut v = EpBufMod(reg);
    v.set_buf_mod(n, on);
    v.0
}

/// Calls `EpBufMod::buf_mod`: whether bit `n` is set.
#[verifier::external_body]
pub(crate) fn buf_mod_get(reg: u32, n: usize) -> (r: bool)
    requires
        n < 16,
    ensures
        r == ((reg >> n) & 0x01 != 0),
{
    EpBufMod(reg).buf_mod(n)
}

/// Calls `IntFg::set_transfer`: bit 1 becomes `on`, the other bits stay.
#[verifier::external_body]
pub(crate) fn int_fg_set_transfer(reg: u8, on: bool) -> (r: u8)
    ensures
        r == (reg & !(0x01u8 << 1)) | (if on { 0x01u8 << 1 } else { 0 }),
{
    let mut v = IntFg(reg);
    v.set_transfer(on);
    v.0
}

/// Calls `IntFg::transfer`: whether bit 1 is set.
#[verifier::external_body]
pub(crate) fn int_fg_transfer(reg: u8) -> (r: bool)
    ensures
        r == ((reg >> 1) & 0x01 != 0),
{
    IntFg(reg).transfer()
}

/// Calls `IntEn::set_transfer`: bit 1 becomes `on`, the other bits stay.
#[verifier::external_body]
pub(crate) fn int_en_set_transfer(reg: u8, on: bool) -> (r: u8)
    ensures
        r == (reg & !(0x01u8 << 1)) | (if on { 0x01u8 << 1 } else { 0 }),
{
    let mut v = IntEn(reg);
    v.set_transfer(on);
    v.0
}

/// Calls `IntSt::endp`: the low four bits.
#[verifier::external_body]
pub(crate) fn int_st_endp(reg: u8) -> (r: u8)
    ensures
        r == reg & 0x0f,
{
    IntSt(reg).endp()
}

/// Calls `IntSt::token`: the token kind whose field value is in bits 4 and 5.
#[verifier::external_body]
pub(crate) fn int_st_token(reg: u8) -> (r: Token)
    ensures
        r.bits() == (reg >> 4) & 0x03,
{
    match IntSt(reg).token() {
        UsbToken::OUT => Token::Out,
        UsbToken::SOF => Token::Sof,
        UsbToken::IN => Token::In,
        UsbToken::SETUP => Token::Setup,
    }
}

/// Calls `EpConfig::r_en`: whether bit `17 + n` is set.
#[verifier::external_body]
pub(crate) fn ep_config_r_en(reg: u32, n: usize) -> (r: bool)
    requires
        n < 15,
    ensures
        r == ((reg >> ((17 + n) as usize)) & 0x01 != 0),
{
    EpConfig(reg).r_en(n)
}

/// Calls `EpConfig::t_en`: whether bit `1 + n` is set.
#[verifier::external_body]
pub(crate) fn ep_config_t_en(reg: u32, n: usize) -> (r: bool)
    requires
        n < 15,
    ensures
        r == ((reg >> ((1 + n) as usize)) & 0x01 != 0),
{
    EpConfig(reg).t_en(n)
}

} // verus!
