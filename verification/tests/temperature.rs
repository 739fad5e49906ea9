use std::collections::HashMap;

use vapor::fourcc::{KEY_COUNT_KEY, TYPE_FLT, TYPE_SP78};
use vapor::smc::Smc;
use vapor::smc_param::{SMC_CMD_GET_KEY_FROM_INDEX, SMC_CMD_GET_KEY_INFO, SMC_CMD_READ_KEY};
use vapor::temperature::{
    decode_temp, is_decodable, sensor_kind, SensorKind, SmcCache, TempReading, TempSource, FLT_MAX_BITS,
    FLT_ONE_BITS,
};
use vapor::{SmcKeyInfo, SmcParam};

fn info(data_type: u32, data_size: u32) -> SmcKeyInfo {
    SmcKeyInfo { data_size, data_type, data_attributes: 0 }
}

fn value(prefix: &[u8]) -> [u8; 32] {
    let mut b = [0u8; 32];
    b[..prefix.len()].copy_from_slice(prefix);
    b
}

fn celsius(t: TempReading) -> f32 {
    match t {
        TempReading::Sp78 { raw } => raw as f32 / 256.0,
        TempReading::Flt { bits } => f32::from_bits(bits),
    }
}

#[test]
fn decode_sp78_is_signed_fixed_point() {
    let t = decode_temp(&info(TYPE_SP78, 2), &value(&[0x2A, 0x80]));
    assert_eq!(t, Some(TempReading::Sp78 { raw: 0x2A80 }));
    assert_eq!(celsius(t.unwrap()), 42.5);
    // 1.0 is the lowest kept value, 120.0 the first rejected one.
    assert_eq!(decode_temp(&info(TYPE_SP78, 2), &value(&[0x01, 0x00])), Some(TempReading::Sp78 { raw: 256 }));
    assert_eq!(decode_temp(&info(TYPE_SP78, 2), &value(&[0x00, 0xFF])), None);
    assert_eq!(decode_temp(&info(TYPE_SP78, 2), &value(&[0x78, 0x00])), None);
    assert_eq!(decode_temp(&info(TYPE_SP78, 2), &value(&[0x77, 0xFF])), Some(TempReading::Sp78 { raw: 0x77FF }));
    // Negative values are rejected.
    assert_eq!(decode_temp(&info(TYPE_SP78, 2), &value(&[0xD6, 0x00])), None);
    // Too small a size for the type.
    assert_eq!(decode_temp(&info(TYPE_SP78, 1), &value(&[0x2A, 0x80])), None);
}

#[test]
fn decode_flt_is_little_endian_single() {
    let t = decode_temp(&info(TYPE_FLT, 4), &value(&45.25f32.to_le_bytes()));
    assert_eq!(t, Some(TempReading::Flt { bits: 45.25f32.to_bits() }));
    assert_eq!(celsius(t.unwrap()), 45.25);
    assert_eq!(decode_temp(&info(TYPE_FLT, 4), &value(&120.0f32.to_le_bytes())), None);
    assert_eq!(decode_temp(&info(TYPE_FLT, 4), &value(&0.99f32.to_le_bytes())), None);
    assert_eq!(decode_temp(&info(TYPE_FLT, 4), &value(&f32::NAN.to_le_bytes())), None);
    assert_eq!(decode_temp(&info(TYPE_FLT, 4), &value(&(-50.0f32).to_le_bytes())), None);
    assert_eq!(decode_temp(&info(TYPE_FLT, 2), &value(&45.25f32.to_le_bytes())), None);
    assert_eq!(decode_temp(&info(u32::from_be_bytes(*b"ui8 "), 4), &value(&[40, 0, 0, 0])), None);
}

#[test]
fn flt_bit_range_is_the_float_range() {
    assert_eq!(f32::from_bits(FLT_ONE_BITS), 1.0);
    assert_eq!(f32::from_bits(FLT_MAX_BITS), 120.0);
    let mut bits: u32 = 0;
    loop {
        let f = f32::from_bits(bits);
        let kept = decode_temp(&info(TYPE_FLT, 4), &value(&bits.to_le_bytes())).is_some();
        assert_eq!(kept, (1.0..120.0).contains(&f), "bits {bits:#x}");
        match bits.checked_add(0x0000_1F3D) {
            Some(b) => bits = b,
            None => break,
        }
    }
}

#[test]
fn sp78_range_is_the_float_range() {
    for raw in i16::MIN..=i16::MAX {
        let kept = decode_temp(&info(TYPE_SP78, 2), &value(&raw.to_be_bytes())).is_some();
        assert_eq!(kept, (1.0..120.0).contains(&(raw as f32 / 256.0)), "raw {raw}");
    }
}

#[test]
fn sensor_keys_are_tp_and_tg() {
    assert_eq!(sensor_kind(u32::from_be_bytes(*b"Tp01")), Some(SensorKind::Cpu));
    assert_eq!(sensor_kind(u32::from_be_bytes(*b"Tg0f")), Some(SensorKind::Gpu));
    assert_eq!(sensor_kind(u32::from_be_bytes(*b"TC0P")), None);
    assert_eq!(sensor_kind(u32::from_be_bytes(*b"tp01")), None);
    assert_eq!(sensor_kind(u32::from_be_bytes(*b"#KEY")), None);
    assert!(is_decodable(TYPE_SP78));
    assert!(is_decodable(TYPE_FLT));
    assert!(!is_decodable(u32::from_be_bytes(*b"ui16")));
}

/// A simulated SMC holding `keys` in index order, with their types and values.
fn simulated_smc(
    keys: Vec<(&'static [u8; 4], SmcKeyInfo, [u8; 32])>,
) -> impl Fn(&Vec<u8>) -> Option<Vec<u8>> {
    let table: HashMap<u32, (SmcKeyInfo, [u8; 32])> =
        keys.iter().map(|(k, i, v)| (u32::from_be_bytes(**k), (*i, *v))).collect();
    let order: Vec<u32> = keys.iter().map(|(k, _, _)| u32::from_be_bytes(**k)).collect();
    move |req: &Vec<u8>| {
        let p = SmcParam::decode(req);
        let reply = match p.selector {
            SMC_CMD_GET_KEY_FROM_INDEX => {
                order.get(p.data32 as usize).map(|k| SmcParam { key: *k, ..p })
            }
            SMC_CMD_GET_KEY_INFO if p.key == KEY_COUNT_KEY => {
                Some(SmcParam { key_info: info(u32::from_be_bytes(*b"ui32"), 4), ..p })
            }
            SMC_CMD_READ_KEY if p.key == KEY_COUNT_KEY => {
                Some(SmcParam { bytes: value(&(order.len() as u32).to_be_bytes()), ..p })
            }
            SMC_CMD_GET_KEY_INFO => table.get(&p.key).map(|(i, _)| SmcParam { key_info: *i, ..p }),
            SMC_CMD_READ_KEY => table.get(&p.key).map(|(_, v)| SmcParam { bytes: *v, ..p }),
            _ => None,
        };
        Some(reply.unwrap_or(SmcParam { result: 0x84, ..p }).encode())
    }
}

fn sample_machine() -> Vec<(&'static [u8; 4], SmcKeyInfo, [u8; 32])> {
    vec![
        (b"ACID", info(u32::from_be_bytes(*b"ch8*"), 6), value(b"abc")),
        (b"Tp01", info(TYPE_FLT, 4), value(&50.0f32.to_le_bytes())),
        (b"TC0P", info(TYPE_SP78, 2), value(&[0x30, 0x00])),
        (b"Tg05", info(TYPE_SP78, 2), value(&[0x28, 0x40])),
        (b"Tp09", info(u32::from_be_bytes(*b"ui8 "), 1), value(&[40])),
        (b"Tp0D", info(TYPE_FLT, 4), value(&60.0f32.to_le_bytes())),
        (b"Tg0L", info(TYPE_FLT, 4), value(&0.0f32.to_le_bytes())),
        (b"Tp0b", info(TYPE_SP78, 2), value(&[0x7F, 0x00])),
    ]
}

#[test]
fn cache_keeps_decodable_cpu_and_gpu_sensors_in_order() {
    let mut smc = Smc::new(simulated_smc(sample_machine()));
    assert_eq!(smc.key_count(), 8);
    let mut cache = SmcCache::build(smc);
    let cpu: Vec<[u8; 4]> = cache.cpu_sensor_keys().iter().map(|(k, _)| k.to_be_bytes()).collect();
    let gpu: Vec<[u8; 4]> = cache.gpu_sensor_keys().iter().map(|(k, _)| k.to_be_bytes()).collect();
    assert_eq!(cpu, vec![*b"Tp01", *b"Tp0D", *b"Tp0b"]);
    assert_eq!(gpu, vec![*b"Tg05", *b"Tg0L"]);
    assert_eq!(cache.cpu_sensor_keys()[0].1, info(TYPE_FLT, 4));
}

#[test]
fn cache_reads_only_wanted_kinds_and_drops_implausible_values() {
    let mut cache = SmcCache::build(Smc::new(simulated_smc(sample_machine())));
    let r = cache.read_temps(true, true);
    let cpu: Vec<f32> = r.cpu.iter().map(|t| celsius(*t)).collect();
    let gpu: Vec<f32> = r.gpu.iter().map(|t| celsius(*t)).collect();
    // Tp0b holds 127 °C, out of range; Tg0L holds 0 °C.
    assert_eq!(cpu, vec![50.0, 60.0]);
    assert_eq!(gpu, vec![40.25]);
    let r = cache.read_temps(false, true);
    assert!(r.cpu.is_empty());
    assert_eq!(r.gpu.len(), 1);
    let r = cache.read_temps(false, false);
    assert!(r.cpu.is_empty() && r.gpu.is_empty());
}

#[test]
fn cache_of_unreachable_smc_is_empty() {
    let mut cache = SmcCache::build(Smc::new(|_req: &Vec<u8>| None));
    assert!(cache.cpu_sensor_keys().is_empty());
    assert!(cache.gpu_sensor_keys().is_empty());
    let r = cache.read_temps(true, true);
    assert!(r.cpu.is_empty() && r.gpu.is_empty());
}

#[test]
fn cache_reads_temps_in_plausible_range() {
    let mut cache = SmcCache::build(Smc::new(simulated_smc(sample_machine())));
    let r = cache.read_temps(true, true);
    for t in r.cpu.iter().chain(r.gpu.iter()) {
        let c = celsius(*t);
        assert!((1.0..120.0).contains(&c), "temp {c} out of range");
    }
}

/// Wraps a transport and records the selector and key of every request.
fn recording(
    inner: impl Fn(&Vec<u8>) -> Option<Vec<u8>>,
    seen: std::rc::Rc<std::cell::RefCell<Vec<(u8, u32, u32)>>>,
) -> impl Fn(&Vec<u8>) -> Option<Vec<u8>> {
    move |req: &Vec<u8>| {
        let p = SmcParam::decode(req);
        seen.borrow_mut().push((p.selector, p.key, p.data32));
        inner(req)
    }
}

#[test]
fn scan_asks_each_index_once_and_info_only_for_sensors() {
    let seen = std::rc::Rc::new(std::cell::RefCell::new(Vec::new()));
    let cache = SmcCache::build(Smc::new(recording(simulated_smc(sample_machine()), seen.clone())));
    drop(cache);
    let log = seen.borrow();
    let be = |k: &[u8; 4]| u32::from_be_bytes(*k);
    let mut expected = vec![
        (SMC_CMD_GET_KEY_INFO, KEY_COUNT_KEY, 0),
        (SMC_CMD_READ_KEY, KEY_COUNT_KEY, 0),
    ];
    for (i, (k, _, _)) in sample_machine().iter().enumerate() {
        expected.push((SMC_CMD_GET_KEY_FROM_INDEX, 0, i as u32));
        if k[0] == b'T' && (k[1] == b'p' || k[1] == b'g') {
            expected.push((SMC_CMD_GET_KEY_INFO, be(k), 0));
        }
    }
    assert_eq!(*log, expected);
}

#[test]
fn poll_reads_only_wanted_cached_keys() {
    let seen = std::rc::Rc::new(std::cell::RefCell::new(Vec::new()));
    let mut cache = SmcCache::build(Smc::new(recording(simulated_smc(sample_machine()), seen.clone())));
    seen.borrow_mut().clear();
    cache.read_temps(false, false);
    assert!(seen.borrow().is_empty());
    cache.read_temps(false, true);
    let be = |k: &[u8; 4]| u32::from_be_bytes(*k);
    assert_eq!(*seen.borrow(), vec![(SMC_CMD_READ_KEY, be(b"Tg05"), 0), (SMC_CMD_READ_KEY, be(b"Tg0L"), 0)]);
    seen.borrow_mut().clear();
    cache.read_temps(true, false);
    assert_eq!(seen.borrow().len(), 3);
    assert!(seen.borrow().iter().all(|(sel, _, _)| *sel == SMC_CMD_READ_KEY));
}

#[test]
fn source_scans_once_and_retries_failed_connections() {
    let opens = std::cell::Cell::new(0u32);
    let fail_first = std::cell::Cell::new(true);
    let seen = std::rc::Rc::new(std::cell::RefCell::new(Vec::new()));
    let open = || {
        opens.set(opens.get() + 1);
        if fail_first.replace(false) {
            None
        } else {
            Some(Smc::new(recording(simulated_smc(sample_machine()), seen.clone())))
        }
    };
    let mut source = TempSource::new();
    // Nothing wanted: no connection attempt.
    assert!(source.read(false, false, &open).is_none());
    assert_eq!(opens.get(), 0);
    // First connection fails: no readings, retried on the next poll.
    assert!(source.read(true, false, &open).is_none());
    assert_eq!(opens.get(), 1);
    let r = source.read(true, true, &open).unwrap();
    assert_eq!(opens.get(), 2);
    assert_eq!(r.cpu.len(), 2);
    assert_eq!(r.gpu.len(), 1);
    let scans = seen.borrow().iter().filter(|(sel, _, _)| *sel == SMC_CMD_GET_KEY_FROM_INDEX).count();
    assert_eq!(scans, 8);
    // Later polls reuse the cache: no new connection, no new scan.
    let r = source.read(false, true, &open).unwrap();
    assert!(r.cpu.is_empty());
    assert_eq!(r.gpu.len(), 1);
    assert_eq!(opens.get(), 2);
    let scans = seen.borrow().iter().filter(|(sel, _, _)| *sel == SMC_CMD_GET_KEY_FROM_INDEX).count();
    assert_eq!(scans, 8);
}
