use usbhs_pipe::hw::{
    buf_mod_changed, clear_transfer, int_en_changed, len_word, pad_pending, pad_window,
    rx_ctrl_changed, rx_ctrl_word, set_buf_mod, set_rx_dma, set_t_len, set_tx_dma, set_tx_dma_reg,
    tx_ctrl_changed, tx_ctrl_word, write_rx_ctrl, write_tx_ctrl, write_tx_ctrl_auto,
    write_tx_ctrl_db, CtrlChange, HwOp,
};
use usbhs_pipe::pac::{RxResponse, Tog, TxResponse};

#[test]
fn control_words() {
    assert_eq!(tx_ctrl_word(false, true, false), 0x00);
    assert_eq!(tx_ctrl_word(true, true, false), 0x08);
    assert_eq!(tx_ctrl_word(false, false, false), 0x02);
    assert_eq!(tx_ctrl_word(true, false, true), 0x2A);
    assert_eq!(rx_ctrl_word(false, true, false), 0x00);
    assert_eq!(rx_ctrl_word(true, true, true), 0x28);
    assert_eq!(rx_ctrl_word(true, false, false), 0x0A);
    assert_eq!(rx_ctrl_word(false, false, true), 0x22);
}

#[test]
fn ack_keeps_the_other_fields() {
    assert_eq!(tx_ctrl_changed(0x2A, CtrlChange::Ack), 0x28);
    assert_eq!(rx_ctrl_changed(0x2A, CtrlChange::Ack), 0x28);
    assert_eq!(tx_ctrl_changed(0xFF, CtrlChange::Ack), 0xFC);
    assert_eq!(rx_ctrl_changed(0x03, CtrlChange::Ack), 0x00);
}

#[test]
fn completion_answers_nak_and_flips() {
    // DATA0 to DATA1 and back, the automatic flip stays.
    assert_eq!(tx_ctrl_changed(0x20, CtrlChange::Complete), 0x2A);
    assert_eq!(tx_ctrl_changed(0x2A, CtrlChange::Complete), 0x22);
    assert_eq!(rx_ctrl_changed(0x00, CtrlChange::Complete), 0x0A);
    assert_eq!(rx_ctrl_changed(0x0A, CtrlChange::Complete), 0x02);
    // DATA2 and MDATA go to DATA0.
    assert_eq!(tx_ctrl_changed(0x10, CtrlChange::Complete), 0x02);
    assert_eq!(rx_ctrl_changed(0x18, CtrlChange::Complete), 0x02);
}

#[test]
fn register_words() {
    assert_eq!(len_word(512), 512);
    assert_eq!(len_word(0xFFFF), 0x07FF);
    assert_eq!(buf_mod_changed(0, 3, true), 0x08);
    assert_eq!(buf_mod_changed(0xFFFF_FFFF, 3, false), 0xFFFF_FFF7);
    assert_eq!(buf_mod_changed(0x0001_0000, 15, true), 0x0001_8000);
    assert_eq!(int_en_changed(0x01), 0x03);
    assert_eq!(int_en_changed(0xFF), 0xFF);
}

#[test]
fn field_values() {
    assert_eq!(Tog::Data0.to_bits(), 0);
    assert_eq!(Tog::Mdata.to_bits(), 3);
    assert_eq!(Tog::Data0.flipped(), Tog::Data1);
    assert_eq!(Tog::Data2.flipped(), Tog::Data0);
    assert_eq!(TxResponse::Nak.to_bits(), 2);
    assert_eq!(TxResponse::Reserved.to_bits(), 1);
    assert_eq!(RxResponse::Nyet.to_bits(), 1);
    assert_eq!(RxResponse::Stall.to_bits(), 3);
}

#[test]
fn logged_writes() {
    let mut log = Vec::new();
    set_rx_dma(4, 0x2000_0000, &mut log);
    set_tx_dma(4, 0x2000_0200, 0x0FFF, &mut log);
    set_t_len(2, 64, &mut log);
    clear_transfer(&mut log);
    write_tx_ctrl(1, true, false, &mut log);
    write_rx_ctrl(1, false, true, &mut log);
    write_tx_ctrl_auto(1, false, true, &mut log);
    write_tx_ctrl_db(1, true, true, false, &mut log);
    write_tx_ctrl_db(1, true, true, true, &mut log);
    set_buf_mod(9, true, &mut log);
    set_tx_dma_reg(4, 0, 7, &mut log);
    set_tx_dma_reg(4, 1, 8, &mut log);
    assert_eq!(
        log,
        vec![
            HwOp::RxDma { n: 3, addr: 0x2000_0000 },
            HwOp::TxDma { n: 3, addr: 0x2000_0200 },
            HwOp::TLen { ep: 4, value: 0x07FF },
            HwOp::TLen { ep: 2, value: 64 },
            HwOp::IntFg { value: 0x02 },
            HwOp::TxCtrl { ep: 1, value: 0x0A },
            HwOp::RxCtrl { ep: 1, value: 0x00 },
            HwOp::TxCtrl { ep: 1, value: 0x20 },
            HwOp::TxCtrl { ep: 1, value: 0x08 },
            HwOp::TxCtrl { ep: 1, value: 0x28 },
            HwOp::BufMod { ep: 9, on: true },
            HwOp::TxDma { n: 3, addr: 7 },
            HwOp::RxDma { n: 3, addr: 8 },
        ]
    );
}

#[test]
fn pause_is_logged_only_when_set() {
    let mut log = Vec::new();
    pad_window(0, &mut log);
    assert!(log.is_empty());
    pad_window(12, &mut log);
    assert_eq!(log, vec![HwOp::Pad { ticks: 12 }]);
}

#[test]
fn pause_survives_the_counter_wrap() {
    assert!(pad_pending(0xFFFF_FFFE, 0x0000_0001, 4));
    assert!(!pad_pending(0xFFFF_FFFE, 0x0000_0002, 4));
    assert!(!pad_pending(5, 5, 0));
}
