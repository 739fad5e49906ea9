use vapor::fourcc::{code_bytes, fourcc, KEY_COUNT_KEY, TYPE_FLT, TYPE_SP78};
use vapor::smc::Smc;
use vapor::smc_param::{
    SMC_CMD_GET_KEY_FROM_INDEX, SMC_CMD_GET_KEY_INFO, SMC_CMD_READ_KEY, SMC_PARAM_LEN,
};
use vapor::{SmcKeyInfo, SmcPLimit, SmcParam, SmcVersion};

fn sample_param() -> SmcParam {
    let mut bytes = [0u8; 32];
    for (i, b) in bytes.iter_mut().enumerate() {
        *b = (i as u8) * 3 + 1;
    }
    SmcParam {
        key: 0x1122_3344,
        vers: SmcVersion { major: 1, minor: 2, build: 3, reserved: 4, release: 0x0506 },
        p_limit: SmcPLimit {
            version: 0x0708,
            length: 0x090A,
            cpu_plimit: 0x0B0C_0D0E,
            gpu_plimit: 0x0F10_1112,
            mem_plimit: 0x1314_1516,
        },
        key_info: SmcKeyInfo { data_size: 0x1718_191A, data_type: 0x1B1C_1D1E, data_attributes: 0x1F },
        result: 0x20,
        status: 0x21,
        selector: 0x22,
        data32: 0x2324_2526,
        bytes,
    }
}

#[test]
fn encode_lays_out_fields_little_endian() {
    let p = sample_param();
    let b = p.encode();
    assert_eq!(b.len(), SMC_PARAM_LEN);
    assert_eq!(&b[0..4], &[0x44, 0x33, 0x22, 0x11]);
    assert_eq!(&b[4..10], &[1, 2, 3, 4, 0x06, 0x05]);
    assert_eq!(&b[10..12], &[0, 0]);
    assert_eq!(&b[12..16], &[0x08, 0x07, 0x0A, 0x09]);
    assert_eq!(&b[16..20], &[0x0E, 0x0D, 0x0C, 0x0B]);
    assert_eq!(&b[24..28], &[0x16, 0x15, 0x14, 0x13]);
    assert_eq!(&b[28..32], &[0x1A, 0x19, 0x18, 0x17]);
    assert_eq!(&b[32..36], &[0x1E, 0x1D, 0x1C, 0x1B]);
    assert_eq!(&b[36..40], &[0x1F, 0, 0, 0]);
    assert_eq!(&b[40..44], &[0x20, 0x21, 0x22, 0]);
    assert_eq!(&b[44..48], &[0x26, 0x25, 0x24, 0x23]);
    assert_eq!(&b[48..80], &p.bytes[..]);
}

#[test]
fn decode_undoes_encode() {
    let p = sample_param();
    assert_eq!(SmcParam::decode(&p.encode()), p);
}

#[test]
fn decode_ignores_padding_bytes() {
    let p = sample_param();
    let mut b = p.encode();
    b[10] = 0xAA;
    b[11] = 0xBB;
    b[37] = 0xCC;
    b[43] = 0xDD;
    assert_eq!(SmcParam::decode(&b), p);
}

#[test]
fn requests_set_selector_and_operand() {
    let info = SmcKeyInfo { data_size: 2, data_type: TYPE_SP78, data_attributes: 0 };
    let r = SmcParam::for_key_info(0x5470_3031);
    assert_eq!(r, SmcParam { key: 0x5470_3031, selector: SMC_CMD_GET_KEY_INFO, ..SmcParam::blank() });
    let r = SmcParam::for_read_key(0x5470_3031, info);
    assert_eq!(r.key, 0x5470_3031);
    assert_eq!(r.key_info, info);
    assert_eq!(r.selector, SMC_CMD_READ_KEY);
    assert_eq!(r.data32, 0);
    let r = SmcParam::for_key_at_index(7);
    assert_eq!(r, SmcParam { selector: SMC_CMD_GET_KEY_FROM_INDEX, data32: 7, ..SmcParam::blank() });
    assert_eq!(SMC_CMD_GET_KEY_INFO, 9);
    assert_eq!(SMC_CMD_READ_KEY, 5);
    assert_eq!(SMC_CMD_GET_KEY_FROM_INDEX, 8);
    assert!(SmcParam::blank().encode().iter().all(|&b| b == 0));
}

#[test]
fn four_character_codes_are_big_endian() {
    assert_eq!(KEY_COUNT_KEY, u32::from_be_bytes(*b"#KEY"));
    assert_eq!(TYPE_SP78, u32::from_be_bytes(*b"sp78"));
    assert_eq!(TYPE_FLT, u32::from_be_bytes(*b"flt "));
    assert_eq!(fourcc(*b"Tp01"), u32::from_be_bytes(*b"Tp01"));
    assert_eq!(code_bytes(0x5467_3035), *b"Tg05");
}

/// Answers every request with `reply` built from the decoded request.
fn echo_smc(
    reply: impl Fn(SmcParam) -> Option<SmcParam>,
) -> impl Fn(&Vec<u8>) -> Option<Vec<u8>> {
    move |req: &Vec<u8>| reply(SmcParam::decode(req)).map(|p| p.encode())
}

#[test]
fn call_rejects_error_results_and_short_replies() {
    let mut smc = Smc::new(echo_smc(|p| Some(SmcParam { result: 0x84, ..p })));
    assert_eq!(smc.call(&SmcParam::for_key_info(1)), None);

    let mut smc = Smc::new(|_req: &Vec<u8>| Some(vec![0u8; 40]));
    assert_eq!(smc.call(&SmcParam::for_key_info(1)), None);

    let mut smc = Smc::new(|_req: &Vec<u8>| None);
    assert_eq!(smc.get_key_info(1), None);
    assert_eq!(smc.key_count(), 0);
    assert_eq!(smc.key_at_index(0), None);

    let mut smc = Smc::new(echo_smc(|p| Some(SmcParam { status: 3, ..p })));
    let out = smc.call(&SmcParam::for_key_at_index(4)).unwrap();
    assert_eq!(out.data32, 4);
    assert_eq!(out.status, 3);
}

#[test]
fn key_count_reads_big_endian_value_of_count_key() {
    let mut smc = Smc::new(echo_smc(|p| {
        if p.key != KEY_COUNT_KEY {
            return None;
        }
        match p.selector {
            SMC_CMD_GET_KEY_INFO => Some(SmcParam {
                key_info: SmcKeyInfo { data_size: 4, data_type: u32::from_be_bytes(*b"ui32"), data_attributes: 0 },
                ..p
            }),
            SMC_CMD_READ_KEY => {
                let mut bytes = [0u8; 32];
                bytes[..4].copy_from_slice(&0x0000_0A2Bu32.to_be_bytes());
                Some(SmcParam { bytes, ..p })
            }
            _ => None,
        }
    }));
    assert_eq!(smc.key_count(), 0x0A2B);
    let (info, bytes) = smc.read_key(KEY_COUNT_KEY).unwrap();
    assert_eq!(info.data_size, 4);
    assert_eq!(&bytes[..4], &[0, 0, 0x0A, 0x2B]);
    assert_eq!(smc.read_key(0x1234_5678), None);
}

#[test]
fn read_key_fails_when_value_read_fails() {
    let mut smc = Smc::new(echo_smc(|p| match p.selector {
        SMC_CMD_GET_KEY_INFO => Some(SmcParam {
            key_info: SmcKeyInfo { data_size: 4, data_type: 1, data_attributes: 0 },
            ..p
        }),
        _ => None,
    }));
    assert_eq!(smc.get_key_info(5).map(|i| i.data_size), Some(4));
    assert_eq!(smc.read_key(5), None);
    assert_eq!(smc.key_count(), 0);
}
