use trading_signals::wire::{get_le, put_bytes, put_flag, put_le, put_text, take_array, take_text};
use trading_signals::wire::put_zeros;
use trading_signals::{
    read_record, write_record, ProgramError, Pubkey, SignalData, TradingError, TradingInstruction,
};

fn sample_push() -> TradingInstruction {
    TradingInstruction::PushSignal {
        trading_pair: "SOL/USDC".to_string(),
        is_buy: true,
        amount: 1_000_000_000,
        timestamp: 1_620_000_000,
        signature: [1; 64],
    }
}

fn sample_push_bytes() -> Vec<u8> {
    let mut bytes = vec![0u8, 8, 0, 0, 0];
    bytes.extend_from_slice(b"SOL/USDC");
    bytes.push(1);
    bytes.extend_from_slice(&[0x00, 0xca, 0x9a, 0x3b, 0, 0, 0, 0]);
    bytes.extend_from_slice(&[0x00, 0x3d, 0x8f, 0x60, 0, 0, 0, 0]);
    bytes.extend_from_slice(&[1; 64]);
    bytes
}

fn sample_record(executed: bool) -> SignalData {
    SignalData {
        oracle: Pubkey::new_from_array([9; 32]),
        trading_pair: "SOL/USDC".to_string(),
        is_buy: true,
        amount: 1_000_000_000,
        timestamp: 1_620_000_000,
        signature: [1; 64],
        executed,
    }
}

fn sample_record_bytes(executed: bool) -> Vec<u8> {
    let mut bytes = vec![9u8; 32];
    bytes.extend_from_slice(&sample_push_bytes()[1..]);
    bytes.push(executed as u8);
    bytes
}

fn encode(instruction: &TradingInstruction) -> Vec<u8> {
    let mut bytes = Vec::new();
    instruction.serialize(&mut bytes).unwrap();
    bytes
}

fn assert_same_instruction(left: &TradingInstruction, right: &TradingInstruction) {
    assert_eq!(format!("{:?}", left), format!("{:?}", right));
}

#[test]
fn push_signal_has_its_exact_bytes() {
    let bytes = encode(&sample_push());
    assert_eq!(bytes, sample_push_bytes());
    assert_eq!(bytes.len(), 1 + 4 + 8 + 1 + 8 + 8 + 64);
}

#[test]
fn execute_trade_has_its_exact_bytes() {
    assert_eq!(encode(&TradingInstruction::ExecuteTrade { slippage_bps: 50 }), vec![1, 50, 0]);
    assert_eq!(encode(&TradingInstruction::ExecuteTrade { slippage_bps: 0x1234 }), vec![1, 0x34, 0x12]);
    assert_eq!(encode(&TradingInstruction::ExecuteTrade { slippage_bps: u16::MAX }), vec![1, 255, 255]);
}

#[test]
fn serialize_appends_to_what_is_there() {
    let mut bytes = vec![7u8, 7];
    TradingInstruction::ExecuteTrade { slippage_bps: 1 }.serialize(&mut bytes).unwrap();
    assert_eq!(bytes, vec![7, 7, 1, 1, 0]);
    let mut bytes = vec![7u8];
    sample_record(false).serialize(&mut bytes).unwrap();
    assert_eq!(&bytes[1..], &sample_record_bytes(false)[..]);
    assert_eq!(bytes[0], 7);
}

#[test]
fn record_has_its_exact_bytes() {
    let mut bytes = Vec::new();
    sample_record(false).serialize(&mut bytes).unwrap();
    assert_eq!(bytes, sample_record_bytes(false));
    assert_eq!(bytes.len(), 126);
    let mut bytes = Vec::new();
    sample_record(true).serialize(&mut bytes).unwrap();
    assert_eq!(bytes, sample_record_bytes(true));
    assert_eq!(*bytes.last().unwrap(), 1);
}

#[test]
fn instructions_agree_with_borsh() {
    let by_borsh = borsh::to_vec(&(
        0u8,
        "SOL/USDC".to_string(),
        true,
        1_000_000_000u64,
        1_620_000_000u64,
        [1u8; 64],
    ))
    .unwrap();
    assert_eq!(encode(&sample_push()), by_borsh);
    let by_borsh = borsh::to_vec(&(1u8, 50u16)).unwrap();
    assert_eq!(encode(&TradingInstruction::ExecuteTrade { slippage_bps: 50 }), by_borsh);

    let pair = "δ€𝄞 pair with \u{10ffff}".to_string();
    let instruction = TradingInstruction::PushSignal {
        trading_pair: pair.clone(),
        is_buy: false,
        amount: u64::MAX,
        timestamp: 0x0102_0304_0506_0708,
        signature: [0xee; 64],
    };
    let by_borsh =
        borsh::to_vec(&(0u8, pair.clone(), false, u64::MAX, 0x0102_0304_0506_0708u64, [0xeeu8; 64]))
            .unwrap();
    assert_eq!(encode(&instruction), by_borsh);
    let (tag, text, is_buy, amount, timestamp, signature) =
        borsh::from_slice::<(u8, String, bool, u64, u64, [u8; 64])>(&encode(&instruction)).unwrap();
    assert_eq!((tag, text, is_buy, amount, timestamp), (0, pair, false, u64::MAX, 0x0102_0304_0506_0708));
    assert_eq!(signature, [0xee; 64]);
}

#[test]
fn records_agree_with_borsh() {
    let oracle = solana_program::pubkey::Pubkey::new_from_array([9; 32]);
    let by_borsh = borsh::to_vec(&(
        oracle,
        "SOL/USDC".to_string(),
        true,
        1_000_000_000u64,
        1_620_000_000u64,
        [1u8; 64],
        false,
    ))
    .unwrap();
    let mut bytes = Vec::new();
    sample_record(false).serialize(&mut bytes).unwrap();
    assert_eq!(bytes, by_borsh);

    let by_borsh = borsh::to_vec(&(oracle, "".to_string(), false, 0u64, 0u64, [0u8; 64], true)).unwrap();
    let record = SignalData::try_from_slice(&by_borsh).unwrap();
    assert_eq!(record.oracle.to_bytes(), oracle.to_bytes());
    assert_eq!(record.trading_pair, "");
    assert_eq!(record.executed, true);
}

#[test]
fn instructions_come_back_as_they_went() {
    let samples = vec![
        sample_push(),
        TradingInstruction::PushSignal {
            trading_pair: String::new(),
            is_buy: false,
            amount: 0,
            timestamp: 0,
            signature: [0; 64],
        },
        TradingInstruction::PushSignal {
            trading_pair: "ÄÖ/€ 𝄞".to_string(),
            is_buy: true,
            amount: u64::MAX,
            timestamp: u64::MAX,
            signature: [255; 64],
        },
        TradingInstruction::PushSignal {
            trading_pair: "x".repeat(70_000),
            is_buy: true,
            amount: 1 << 40,
            timestamp: 1 << 63,
            signature: [5; 64],
        },
        TradingInstruction::ExecuteTrade { slippage_bps: 0 },
        TradingInstruction::ExecuteTrade { slippage_bps: 50 },
        TradingInstruction::ExecuteTrade { slippage_bps: 256 },
        TradingInstruction::ExecuteTrade { slippage_bps: u16::MAX },
    ];
    for instruction in samples {
        let bytes = encode(&instruction);
        let decoded = TradingInstruction::try_from_slice(&bytes).unwrap();
        assert_same_instruction(&decoded, &instruction);
        assert_same_instruction(&decoded.clone(), &instruction);
        assert_eq!(encode(&decoded), bytes);
    }
}

#[test]
fn records_come_back_as_they_went() {
    let mut signature = [0u8; 64];
    for (i, byte) in signature.iter_mut().enumerate() {
        *byte = i as u8;
    }
    let mut key = [0u8; 32];
    for (i, byte) in key.iter_mut().enumerate() {
        *byte = 200 + i as u8;
    }
    for executed in [false, true] {
        let record = SignalData {
            oracle: Pubkey::new_from_array(key),
            trading_pair: "BONK/€".to_string(),
            is_buy: !executed,
            amount: 0x0807_0605_0403_0201,
            timestamp: 1,
            signature,
            executed,
        };
        let mut bytes = Vec::new();
        record.serialize(&mut bytes).unwrap();
        let decoded = SignalData::try_from_slice(&bytes).unwrap();
        assert_eq!(decoded.oracle, record.oracle);
        assert_eq!(decoded.oracle.to_bytes(), key);
        assert_eq!(decoded.trading_pair, "BONK/€");
        assert_eq!(decoded.is_buy, !executed);
        assert_eq!(decoded.amount, 0x0807_0605_0403_0201);
        assert_eq!(decoded.timestamp, 1);
        assert_eq!(decoded.signature, signature);
        assert_eq!(decoded.executed, executed);
        let copy = decoded.clone();
        assert_eq!(format!("{:?}", copy), format!("{:?}", record));
    }
}

#[test]
fn decoding_rejects_what_is_no_command() {
    let good = sample_push_bytes();
    assert!(TradingInstruction::try_from_slice(&good).is_ok());

    let mut cases: Vec<Vec<u8>> = vec![vec![], vec![2], vec![3, 0, 0], vec![1], vec![1, 0], vec![1, 0, 0, 0]];
    // one byte short, one byte long
    cases.push(good[..good.len() - 1].to_vec());
    let mut long = good.clone();
    long.push(0);
    cases.push(long);
    // the length prefix says more, or less, than is there
    let mut more = good.clone();
    more[1] = 9;
    cases.push(more);
    let mut less = good.clone();
    less[1] = 7;
    cases.push(less);
    let mut huge = good.clone();
    huge[4] = 0xff;
    cases.push(huge);
    // a direction that is neither 0 nor 1
    let mut flag = good.clone();
    flag[13] = 2;
    cases.push(flag);
    // text that is not UTF-8
    let mut text = good.clone();
    text[5] = 0xff;
    cases.push(text);
    let mut cut = good.clone();
    cut[12] = 0xc3;
    cases.push(cut);
    for bytes in cases {
        match TradingInstruction::try_from_slice(&bytes) {
            Err(TradingError::InvalidInstruction) => {}
            other => panic!("{:?} decoded to {:?}", bytes, other),
        }
        assert!(borsh::from_slice::<(u8, String, bool, u64, u64, [u8; 64])>(&bytes).is_err());
    }
}

#[test]
fn decoding_rejects_what_is_no_record() {
    let good = sample_record_bytes(false);
    assert!(SignalData::try_from_slice(&good).is_ok());
    let mut cases: Vec<Vec<u8>> = vec![vec![], vec![0; 32], vec![0; 125], vec![0; 1000]];
    cases.push(good[..good.len() - 1].to_vec());
    let mut long = good.clone();
    long.push(0);
    cases.push(long);
    let mut executed = good.clone();
    executed[125] = 2;
    cases.push(executed);
    let mut flag = good.clone();
    flag[44] = 7;
    cases.push(flag);
    let mut text = good.clone();
    text[36] = 0x80;
    cases.push(text);
    for bytes in cases {
        assert_eq!(SignalData::try_from_slice(&bytes).unwrap_err(), ProgramError::BorshIoError);
    }
    // 118 zero bytes are a record: an empty pair, nothing set.
    let empty = SignalData::try_from_slice(&[0u8; 118]).unwrap();
    assert_eq!(empty.trading_pair, "");
    assert_eq!(empty.oracle, Pubkey::new_from_array([0; 32]));
}

#[test]
fn decoded_text_is_the_text_of_the_bytes() {
    let mut bytes = vec![0u8, 5, 0, 0, 0];
    bytes.extend_from_slice(&[0xe2, 0x82, 0xac, b'/', b'B']);
    bytes.extend_from_slice(&[0; 81]);
    match TradingInstruction::try_from_slice(&bytes).unwrap() {
        TradingInstruction::PushSignal { trading_pair, .. } => assert_eq!(trading_pair, "€/B"),
        other => panic!("{:?}", other),
    }
    assert_eq!(take_text(&[b'a', 0xc3, 0xa4, b'b'], 1, 2), Some("ä".to_string()));
    assert_eq!(take_text(&[b'a', 0xc3, 0xa4, b'b'], 1, 1), None);
    assert_eq!(take_text(&[b'a', 0xc3, 0xa4, b'b'], 0, 4), Some("aäb".to_string()));
    assert_eq!(take_text(&[0xed, 0xa0, 0x80], 0, 3), None);
    assert_eq!(take_text(&[], 0, 0), Some(String::new()));
}

#[test]
fn little_endian_numbers() {
    let mut out = vec![0xaa];
    put_le(&mut out, 0x0102_0304_0506_0708, 8);
    assert_eq!(out, vec![0xaa, 8, 7, 6, 5, 4, 3, 2, 1]);
    let mut out = Vec::new();
    put_le(&mut out, 0x0102_0304_0506_0708, 2);
    assert_eq!(out, vec![8, 7]);
    put_le(&mut out, 5, 0);
    assert_eq!(out, vec![8, 7]);
    put_le(&mut out, 1, 10);
    assert_eq!(out, vec![8, 7, 1, 0, 0, 0, 0, 0, 0, 0, 0, 0]);

    let bytes = [1u8, 2, 3, 4, 5, 6, 7, 8, 9];
    assert_eq!(get_le(&bytes, 0, 8), 0x0807_0605_0403_0201);
    assert_eq!(get_le(&bytes, 1, 8), 0x0908_0706_0504_0302);
    assert_eq!(get_le(&bytes, 7, 2), 0x0908);
    assert_eq!(get_le(&bytes, 3, 1), 4);
    assert_eq!(get_le(&bytes, 9, 0), 0);
    assert_eq!(get_le(&[0xff; 8], 0, 8), u64::MAX);
}

#[test]
fn flags_bytes_and_text() {
    let mut out = Vec::new();
    put_flag(&mut out, true);
    put_flag(&mut out, false);
    put_bytes(&mut out, &[9, 8]);
    assert!(put_text(&mut out, "aä"));
    assert_eq!(out, vec![1, 0, 9, 8, 3, 0, 0, 0, b'a', 0xc3, 0xa4]);
    assert_eq!(take_array::<3>(&out, 2), [9, 8, 3]);
    assert_eq!(take_array::<0>(&out, 11), []);
}

#[test]
fn error_codes_and_messages() {
    assert_eq!(TradingError::InvalidInstruction.code(), 0);
    assert_eq!(TradingError::InvalidSignal.code(), 1);
    assert_eq!(TradingError::Unauthorized.code(), 2);
    assert_eq!(TradingError::TradeExecutionFailed.code(), 3);
    assert_eq!(ProgramError::from(TradingError::InvalidInstruction), ProgramError::Custom(0));
    assert_eq!(ProgramError::from(TradingError::InvalidSignal), ProgramError::Custom(1));
    assert_eq!(ProgramError::from(TradingError::Unauthorized), ProgramError::Custom(2));
    assert_eq!(ProgramError::from(TradingError::TradeExecutionFailed), ProgramError::Custom(3));
    assert_eq!(TradingError::InvalidInstruction.message(), "Invalid instruction");
    assert_eq!(TradingError::InvalidSignal.message(), "Invalid signal");
    assert_eq!(TradingError::Unauthorized.message(), "Unauthorized");
    assert_eq!(TradingError::TradeExecutionFailed.message(), "Trade execution failed");
}

#[test]
fn keys_compare_by_their_bytes() {
    let mut bytes = [3u8; 32];
    let key = Pubkey::new_from_array(bytes);
    assert_eq!(key, Pubkey::new_from_array([3; 32]));
    assert_eq!(key.to_bytes(), [3; 32]);
    for i in 0..32 {
        bytes[i] = 4;
        assert_ne!(key, Pubkey::new_from_array(bytes));
        bytes[i] = 3;
    }
}

#[test]
fn a_record_is_read_at_the_start_of_storage() {
    let form = sample_record_bytes(false);
    for tail in [vec![], vec![0u8; 874], vec![0xff; 3]] {
        let mut storage = form.clone();
        storage.extend_from_slice(&tail);
        let (record, length) = read_record(&storage).unwrap();
        assert_eq!(length, 126);
        assert_eq!(format!("{:?}", record), format!("{:?}", sample_record(false)));
    }
    // 1000 zero bytes start with the record of an empty pair.
    let (record, length) = read_record(&[0u8; 1000]).unwrap();
    assert_eq!(length, 118);
    assert_eq!(record.trading_pair, "");
    assert_eq!(record.executed, false);

    for cut in [0usize, 35, 36, 117, 125] {
        assert_eq!(read_record(&form[..cut]).unwrap_err(), ProgramError::BorshIoError);
    }
    let mut flag = form.clone();
    flag[125] = 2;
    flag.push(0);
    assert_eq!(read_record(&flag).unwrap_err(), ProgramError::BorshIoError);
    let mut long = form.clone();
    long[35] = 0x80;
    assert_eq!(read_record(&long).unwrap_err(), ProgramError::BorshIoError);
}

#[test]
fn a_record_is_written_over_the_start_of_storage() {
    let form = sample_record_bytes(true);
    let mut storage = vec![0x11u8; 130];
    write_record(&sample_record(true), &mut storage).unwrap();
    assert_eq!(storage.len(), 130);
    assert_eq!(&storage[..126], &form[..]);
    assert_eq!(&storage[126..], &[0x11; 4]);

    let mut exact = vec![0u8; 126];
    write_record(&sample_record(true), &mut exact).unwrap();
    assert_eq!(exact, form);

    for room in [0usize, 1, 125] {
        let mut short = vec![0x22u8; room];
        let done = write_record(&sample_record(true), &mut short);
        assert_eq!(done.unwrap_err(), ProgramError::BorshIoError);
        assert_eq!(short, vec![0x22u8; room]);
    }
}

#[test]
fn zeros_are_appended() {
    let mut out = vec![1u8];
    put_zeros(&mut out, 3);
    assert_eq!(out, vec![1, 0, 0, 0]);
    put_zeros(&mut out, 0);
    assert_eq!(out.len(), 4);
}
