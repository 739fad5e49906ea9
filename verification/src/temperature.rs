//! Temperature sensors on the SMC: which keys are CPU and GPU sensors, how
//! their values decode, and the cache of sensor keys that each poll reads.
//!
//! A reading is kept exact, in the encoding the SMC gave it: a `sp78` value as
//! its raw signed 16-bit count of 1/256 °C, a `flt ` value as the bits of its
//! IEEE-754 single. Only readings in the plausible range [1 °C, 120 °C) are
//! kept. For `flt `, that range is exactly the bit patterns
//! `0x3F80_0000 ..= 0x42EF_FFFF`: positive finite singles are ordered as
//! their bits, and `1.0` and `120.0` are `0x3F80_0000` and `0x42F0_0000`.

use vstd::prelude::*;
use crate::fourcc::{code_byte0, code_byte1, code_bytes, TYPE_FLT, TYPE_SP78};
use crate::smc::{count_of, read_key_result, reply_key, reply_key_info, reply_value, Exchange, Smc};
use crate::fourcc::KEY_COUNT_KEY;
use crate::smc_param::{get_le32, key_at_index_request, key_info_request, read_key_request, SmcKeyInfo};

verus! {

/// Bits of the single `1.0`.
pub const FLT_ONE_BITS: u32 = 0x3F80_0000;
/// Bits of the single `120.0`.
pub const FLT_MAX_BITS: u32 = 0x42F0_0000;
/// `1.0` in `sp78` counts (1/256 °C).
pub const SP78_ONE: i16 = 256;
/// `120.0` in `sp78` counts (1/256 °C).
pub const SP78_MAX: i16 = 30720;

/// A temperature read from the SMC, in the encoding it came in.
#[derive(Debug, Clone, Copy, PartialEq, Eq)]
pub enum TempReading {
    /// Signed fixed point: `raw / 256` °C.
    Sp78 { raw: i16 },
    /// The bits of an IEEE-754 single holding °C.
    Flt { bits: u32 },
}

impl TempReading {
    /// The reading lies in [1 °C, 120 °C).
    pub open spec fn in_range(self) -> bool {
        match self {
            TempReading::Sp78 { raw } => SP78_ONE <= raw < SP78_MAX,
            TempReading::Flt { bits } => FLT_ONE_BITS <= bits < FLT_MAX_BITS,
        }
    }
}

/// The signed big-endian 16-bit value of the bytes `hi`, `lo`.
pub open spec fn be_i16(hi: u8, lo: u8) -> int {
    if hi < 128 {
        hi * 256 + lo
    } else {
        hi * 256 + lo - 65536
    }
}

/// What `decode_temp` makes of the value bytes `b` of a key of type `info`.
pub open spec fn decode_temp_spec(info: SmcKeyInfo, b: Seq<u8>) -> Option<TempReading> {
    if info.data_type == TYPE_SP78 && info.data_size >= 2 {
        let raw = be_i16(b[0], b[1]);
        if SP78_ONE <= raw < SP78_MAX {
            Some(TempReading::Sp78 { raw: raw as i16 })
        } else {
            None
        }
    } else if info.data_type == TYPE_FLT && info.data_size >= 4 {
        let bits = get_le32(b, 0);
        if FLT_ONE_BITS <= bits < FLT_MAX_BITS {
            Some(TempReading::Flt { bits })
        } else {
            None
        }
    } else {
        None
    }
}

/// Decodes the value of a temperature key: a `sp78` (size at least 2) or a
/// `flt ` (size at least 4) in [1 °C, 120 °C); nothing for any other type,
/// size or value.
pub fn decode_temp(info: &SmcKeyInfo, bytes: &[u8; 32]) -> (t: Option<TempReading>)
    ensures
        t == decode_temp_spec(*info, bytes@),
        t matches Some(r) ==> r.in_range(),
{
    if info.data_type == TYPE_SP78 && info.data_size >= 2 {
        let hi = bytes[0];
        let lo = bytes[1];
        let unsigned: i32 = (hi as i32) * 256 + (lo as i32);
        let raw: i32 = if hi < 128 {
            unsigned
        } else {
            unsigned - 65536
        };
        if 256 <= raw && raw < 30720 {
            Some(TempReading::Sp78 { raw: raw as i16 })
        } else {
            None
        }
    } else if info.data_type == TYPE_FLT && info.data_size >= 4 {
        let bits: u32 = (bytes[0] as u32) | ((bytes[1] as u32) << 8u32) | ((bytes[2] as u32)
            << 16u32) | ((bytes[3] as u32) << 24u32);
        if FLT_ONE_BITS <= bits && bits < FLT_MAX_BITS {
            Some(TempReading::Flt { bits })
        } else {
            None
        }
    } else {
        None
    }
}

/// Which processor a sensor key measures.
#[derive(Debug, Clone, Copy, PartialEq, Eq)]
pub enum SensorKind {
    Cpu,
    Gpu,
}

/// `Tp..` keys are CPU package and cluster sensors, `Tg..` keys GPU sensors.
pub open spec fn sensor_kind_spec(key: u32) -> Option<SensorKind> {
    if code_byte0(key) != 0x54u8 {
        None
    } else if code_byte1(key) == 0x67u8 {
        Some(SensorKind::Gpu)
    } else if code_byte1(key) == 0x70u8 {
        Some(SensorKind::Cpu)
    } else {
        None
    }
}

/// The processor whose temperature `key` measures, if it is a sensor key.
pub fn sensor_kind(key: u32) -> (kind: Option<SensorKind>)
    ensures
        kind == sensor_kind_spec(key),
{
    let kb = code_bytes(key);
    if kb[0] != 0x54u8 {
        return None;
    }
    let is_gpu = kb[1] == 0x67u8;
    let is_cpu = kb[1] == 0x70u8;
    if is_gpu {
        Some(SensorKind::Gpu)
    } else if is_cpu {
        Some(SensorKind::Cpu)
    } else {
        None
    }
}

/// The types whose values can be decoded as a temperature.
pub open spec fn decodable_spec(data_type: u32) -> bool {
    data_type == TYPE_SP78 || data_type == TYPE_FLT
}

pub fn is_decodable(data_type: u32) -> (b: bool)
    ensures
        b == decodable_spec(data_type),
{
    data_type == TYPE_SP78 || data_type == TYPE_FLT
}


// ── the sensor-key cache ────────────────────────────────────────────────────

/// One index of the key scan: the key found there, and for a sensor key its
/// type and size (each absent when its request failed).
pub type ScanStep = (Option<u32>, Option<SmcKeyInfo>);

/// The step keeps a sensor key of `kind` with a decodable type.
pub open spec fn admits(step: ScanStep, kind: SensorKind) -> bool {
    match step.0 {
        Some(key) => sensor_kind_spec(key) == Some(kind) && (step.1 matches Some(info)
            && decodable_spec(info.data_type)),
        None => false,
    }
}

/// The sensors of `kind` that a scan kept, in index order.
pub open spec fn sensors_found(steps: Seq<ScanStep>, kind: SensorKind) -> Seq<(u32, SmcKeyInfo)>
    decreases steps.len(),
{
    if steps.len() == 0 {
        seq![]
    } else {
        let prev = sensors_found(steps.drop_last(), kind);
        let step = steps.last();
        if admits(step, kind) {
            prev.push((step.0.unwrap(), step.1.unwrap()))
        } else {
            prev
        }
    }
}

/// What the exchanges of one index of the scan found.
pub open spec fn scan_step_of(ex: Seq<Exchange>) -> ScanStep {
    (reply_key(ex[0].1), if ex.len() == 2 {
        reply_key_info(ex[1].1)
    } else {
        None
    })
}

/// What the exchanges of each index of the scan found, in index order.
pub open spec fn scan_steps(per_index: Seq<Seq<Exchange>>) -> Seq<ScanStep> {
    per_index.map_values(|ex: Seq<Exchange>| scan_step_of(ex))
}

/// `key` is a sensor of `kind` whose value type can be decoded.
pub open spec fn is_sensor_entry(entry: (u32, SmcKeyInfo), kind: SensorKind) -> bool {
    sensor_kind_spec(entry.0) == Some(kind) && decodable_spec(entry.1.data_type)
}

/// The value requests for `keys`, one per key with its cached info.
pub open spec fn value_requests(keys: Seq<(u32, SmcKeyInfo)>) -> Seq<crate::smc_param::SmcParam> {
    keys.map_values(|k: (u32, SmcKeyInfo)| read_key_request(k.0, k.1))
}

/// The temperatures read from `keys`, given the exchange of each key's value.
pub open spec fn readings_of(keys: Seq<(u32, SmcKeyInfo)>, ex: Seq<Exchange>) -> Seq<TempReading>
    decreases keys.len(),
{
    if keys.len() == 0 {
        seq![]
    } else {
        let prev = readings_of(keys.drop_last(), ex.take(keys.len() - 1));
        match reply_value(ex[keys.len() - 1].1) {
            Some(v) => match decode_temp_spec(keys.last().1, v) {
                Some(t) => prev.push(t),
                None => prev,
            },
            None => prev,
        }
    }
}

/// Law: a scan keeps only `Tp..` keys as CPU sensors and `Tg..` keys as GPU
/// sensors, each of a type that decodes as a temperature, and never more
/// keys than it looked at.
pub proof fn lemma_scan_keeps_only_sensors(steps: Seq<ScanStep>, kind: SensorKind)
    ensures
        forall|i: int|
            0 <= i < sensors_found(steps, kind).len() ==> is_sensor_entry(
                #[trigger] sensors_found(steps, kind)[i],
                kind,
            ),
        sensors_found(steps, kind).len() <= steps.len(),
    decreases steps.len(),
{
    if steps.len() > 0 {
        lemma_scan_keeps_only_sensors(steps.drop_last(), kind);
    }
}

/// Law: a scan keeps every `Tp..` or `Tg..` key whose type was read and
/// decodes as a temperature, in index order: each step that admits a sensor
/// adds exactly that sensor at the end.
pub proof fn lemma_scan_keeps_every_sensor(steps: Seq<ScanStep>, step: ScanStep, kind: SensorKind)
    ensures
        admits(step, kind) ==> sensors_found(steps.push(step), kind) == sensors_found(steps, kind).push(
            (step.0.unwrap(), step.1.unwrap()),
        ),
        !admits(step, kind) ==> sensors_found(steps.push(step), kind) == sensors_found(steps, kind),
{
    assert(steps.push(step).drop_last() =~= steps);
}

/// Law: a decoded temperature lies in [1 °C, 120 °C).
pub proof fn lemma_decoded_in_range(info: SmcKeyInfo, b: Seq<u8>)
    ensures
        decode_temp_spec(info, b) matches Some(t) ==> t.in_range(),
{
}

/// Law: every reading kept from the cached keys lies in [1 °C, 120 °C), and
/// there is at most one reading per key.
pub proof fn lemma_readings_in_range(keys: Seq<(u32, SmcKeyInfo)>, ex: Seq<Exchange>)
    requires
        ex.len() == keys.len(),
    ensures
        forall|i: int|
            0 <= i < readings_of(keys, ex).len() ==> (#[trigger] readings_of(keys, ex)[i]).in_range(),
        readings_of(keys, ex).len() <= keys.len(),
    decreases keys.len(),
{
    if keys.len() > 0 {
        let prev_keys = keys.drop_last();
        let prev_ex = ex.take(keys.len() - 1);
        lemma_readings_in_range(prev_keys, prev_ex);
        match reply_value(ex[keys.len() - 1].1) {
            Some(v) => lemma_decoded_in_range(keys.last().1, v),
            None => {},
        }
        let prev = readings_of(prev_keys, prev_ex);
        let all = readings_of(keys, ex);
        assert forall|i: int| 0 <= i < all.len() implies (#[trigger] all[i]).in_range() by {
            if i < prev.len() {
                assert(all[i] == prev[i]);
            }
        }
    }
}

impl<F: Fn(&Vec<u8>) -> Option<Vec<u8>>> Smc<F> {
    /// The exchanges of index `index` of the scan: the key-at-index request,
    /// then, only for a `Tp..` or `Tg..` key, the key-info request for it.
    pub open spec fn scan_step_sent(self, index: u32, ex: Seq<Exchange>) -> bool {
        &&& ex.len() >= 1
        &&& self.sends(ex[0], key_at_index_request(index))
        &&& match reply_key(ex[0].1) {
            Some(key) => if sensor_kind_spec(key) is Some {
                ex.len() == 2 && self.sends(ex[1], key_info_request(key))
            } else {
                ex.len() == 1
            },
            None => ex.len() == 1,
        }
    }

    /// `ex` are the value requests for `keys`, one per key in order.
    pub open spec fn values_sent(self, keys: Seq<(u32, SmcKeyInfo)>, ex: Seq<Exchange>) -> bool {
        self.sent(ex, value_requests(keys))
    }
}

/// The CPU and GPU sensor keys, each of a type that decodes as a temperature.
struct SensorKeys {
    cpu: Vec<(u32, SmcKeyInfo)>,
    gpu: Vec<(u32, SmcKeyInfo)>,
}

impl SensorKeys {
    #[verifier::type_invariant]
    spec fn keys_are_sensors(self) -> bool {
        &&& forall|i: int|
            0 <= i < self.cpu@.len() ==> is_sensor_entry(#[trigger] self.cpu@[i], SensorKind::Cpu)
        &&& forall|i: int|
            0 <= i < self.gpu@.len() ==> is_sensor_entry(#[trigger] self.gpu@[i], SensorKind::Gpu)
    }
}

/// The sensor keys found once, so that each poll reads only those.
pub struct SmcCache<F: Fn(&Vec<u8>) -> Option<Vec<u8>>> {
    smc: Smc<F>,
    keys: SensorKeys,
}

/// The temperatures of one poll.
pub struct SensorReadings {
    pub cpu: Vec<TempReading>,
    pub gpu: Vec<TempReading>,
}

/// Reads the value of each of `keys`, one request per key in order, and keeps
/// those that decode.
fn sample<F: Fn(&Vec<u8>) -> Option<Vec<u8>>>(smc: &mut Smc<F>, keys: &Vec<(u32, SmcKeyInfo)>) -> (out:
    Vec<TempReading>)
    ensures
        ({
            let ex = final(smc).log().skip(old(smc).log().len() as int);
            &&& final(smc).appended(*old(smc), ex)
            &&& old(smc).values_sent(keys@, ex)
            &&& out@ == readings_of(keys@, ex)
        }),
        forall|i: int| 0 <= i < out@.len() ==> (#[trigger] out@[i]).in_range(),
{
    let ghost smc0 = *smc;
    let mut out: Vec<TempReading> = Vec::new();
    let mut i: usize = 0;
    while i < keys.len()
        invariant
            i <= keys@.len(),
            ({
                let ex = smc.log().skip(smc0.log().len() as int);
                &&& smc.appended(smc0, ex)
                &&& smc0.values_sent(keys@.take(i as int), ex)
                &&& out@ == readings_of(keys@.take(i as int), ex)
            }),
            forall|j: int| 0 <= j < out@.len() ==> (#[trigger] out@[j]).in_range(),
        decreases keys@.len() - i,
    {
        let ghost before = smc.log();
        let (key, info) = keys[i];
        let reply = smc.read_key_bytes(key, info);
        if let Some(bytes) = reply {
            if let Some(t) = decode_temp(&info, &bytes) {
                out.push(t);
            }
        }
        proof {
            let old_ex = before.skip(smc0.log().len() as int);
            let ex = smc.log().skip(smc0.log().len() as int);
            let e = smc.log().last();
            assert(ex =~= old_ex.push(e));
            assert(smc.log() =~= smc0.log() + ex);
            assert(keys@.take(i + 1).drop_last() =~= keys@.take(i as int));
            assert(ex.take(i as int) =~= old_ex);
            assert(keys@.take(i + 1).last() == keys@[i as int]);
            assert(value_requests(keys@.take(i + 1)) =~= value_requests(keys@.take(i as int)).push(
                read_key_request(key, info),
            ));
            assert(smc0.values_sent(keys@.take(i + 1), ex));
        }
        i = i + 1;
    }
    assert(keys@.take(keys@.len() as int) =~= keys@);
    out
}

impl<F: Fn(&Vec<u8>) -> Option<Vec<u8>>> SmcCache<F> {
    pub closed spec fn smc(self) -> Smc<F> {
        self.smc
    }

    pub closed spec fn cpu_keys(self) -> Seq<(u32, SmcKeyInfo)> {
        self.keys.cpu@
    }

    pub closed spec fn gpu_keys(self) -> Seq<(u32, SmcKeyInfo)> {
        self.keys.gpu@
    }

    /// `self` is what scanning with `smc` gives: it reads `#KEY` for the count,
    /// then asks for the key at each index below it once, in increasing order,
    /// and for key info only of `Tp..` and `Tg..` keys; it keeps the sensors
    /// those exchanges found.
    pub open spec fn built_from(self, smc: Smc<F>) -> bool {
        &&& self.smc().transport() == smc.transport()
        &&& exists|count_ex: Seq<Exchange>, per_index: Seq<Seq<Exchange>>|
            #![trigger smc.read_key_sent(KEY_COUNT_KEY, count_ex), scan_steps(per_index)]
            {
                &&& self.smc().log() == smc.log() + count_ex + per_index.flatten_alt()
                &&& smc.read_key_sent(KEY_COUNT_KEY, count_ex)
                &&& per_index.len() == count_of(read_key_result(count_ex))
                &&& forall|i: int|
                    0 <= i < per_index.len() ==> smc.scan_step_sent(
                        i as u32,
                        #[trigger] per_index[i],
                    )
                &&& self.cpu_keys() == sensors_found(scan_steps(per_index), SensorKind::Cpu)
                &&& self.gpu_keys() == sensors_found(scan_steps(per_index), SensorKind::Gpu)
            }
    }

    /// `self` is `old` after one poll of the wanted kinds that read `r`: the
    /// cached keys are kept, and the only exchanges are the value requests of
    /// the wanted kinds, CPU keys first, one per cached key with its info.
    pub open spec fn polled_from(self, old: Self, want_cpu: bool, want_gpu: bool, r: SensorReadings) -> bool {
        &&& self.cpu_keys() == old.cpu_keys()
        &&& self.gpu_keys() == old.gpu_keys()
        &&& exists|cpu_ex: Seq<Exchange>, gpu_ex: Seq<Exchange>|
            #![trigger self.smc().appended(old.smc(), cpu_ex + gpu_ex)]
            {
                &&& self.smc().appended(old.smc(), cpu_ex + gpu_ex)
                &&& if want_cpu {
                    old.smc().values_sent(old.cpu_keys(), cpu_ex) && r.cpu@ == readings_of(
                        old.cpu_keys(),
                        cpu_ex,
                    )
                } else {
                    cpu_ex.len() == 0 && r.cpu@ == Seq::<TempReading>::empty()
                }
                &&& if want_gpu {
                    old.smc().values_sent(old.gpu_keys(), gpu_ex) && r.gpu@ == readings_of(
                        old.gpu_keys(),
                        gpu_ex,
                    )
                } else {
                    gpu_ex.len() == 0 && r.gpu@ == Seq::<TempReading>::empty()
                }
            }
    }

    /// Scans every key the SMC holds and keeps the CPU (`Tp..`) and GPU
    /// (`Tg..`) sensors whose type decodes as a temperature, in index order.
    /// It reads `#KEY` for the count, then asks for the key at each index
    /// below it once, in increasing order, and for key info only of `Tp..` and
    /// `Tg..` keys.
    pub fn build(smc: Smc<F>) -> (cache: Self)
        ensures
            cache.built_from(smc),
    {
        let ghost smc0 = smc;
        let mut smc = smc;
        let count = smc.key_count();
        let ghost count_ex = smc.log().skip(smc0.log().len() as int);
        let ghost after_count = smc.log();
        let mut cpu_keys: Vec<(u32, SmcKeyInfo)> = Vec::new();
        let mut gpu_keys: Vec<(u32, SmcKeyInfo)> = Vec::new();
        let ghost mut per_index: Seq<Seq<Exchange>> = seq![];
        proof {
            assert(per_index.flatten_alt() =~= Seq::<Exchange>::empty());
            assert(after_count =~= smc0.log() + count_ex);
            assert(scan_steps(per_index) =~= Seq::<ScanStep>::empty());
        }
        let mut i: u32 = 0;
        while i < count
            invariant
                i <= count,
                smc.transport() == smc0.transport(),
                smc.log() == smc0.log() + count_ex + per_index.flatten_alt(),
                smc0.read_key_sent(KEY_COUNT_KEY, count_ex),
                count == count_of(read_key_result(count_ex)),
                per_index.len() == i,
                forall|j: int|
                    0 <= j < i ==> smc0.scan_step_sent(j as u32, #[trigger] per_index[j]),
                cpu_keys@ == sensors_found(scan_steps(per_index), SensorKind::Cpu),
                gpu_keys@ == sensors_found(scan_steps(per_index), SensorKind::Gpu),
                forall|j: int|
                    0 <= j < cpu_keys@.len() ==> is_sensor_entry(
                        #[trigger] cpu_keys@[j],
                        SensorKind::Cpu,
                    ),
                forall|j: int|
                    0 <= j < gpu_keys@.len() ==> is_sensor_entry(
                        #[trigger] gpu_keys@[j],
                        SensorKind::Gpu,
                    ),
            decreases count - i,
        {
            let ghost before = smc.log();
            let found = smc.key_at_index(i);
            let ghost e0 = smc.log().last();
            let ghost mut step_ex: Seq<Exchange> = seq![e0];
            if let Some(key) = found {
                if let Some(kind) = sensor_kind(key) {
                    let info_reply = smc.get_key_info(key);
                    proof {
                        step_ex = seq![e0, smc.log().last()];
                    }
                    if let Some(info) = info_reply {
                        if is_decodable(info.data_type) {
                            match kind {
                                SensorKind::Gpu => gpu_keys.push((key, info)),
                                SensorKind::Cpu => cpu_keys.push((key, info)),
                            }
                        }
                    }
                }
            }
            proof {
                assert(smc.log() =~= before + step_ex);
                assert(smc0.scan_step_sent(i, step_ex));
                let old_per_index = per_index;
                per_index = per_index.push(step_ex);
                assert(per_index.drop_last() =~= old_per_index);
                assert(per_index.flatten_alt() == old_per_index.flatten_alt() + step_ex);
                assert(smc.log() =~= smc0.log() + count_ex + per_index.flatten_alt());
                assert(scan_steps(per_index) =~= scan_steps(old_per_index).push(scan_step_of(step_ex)));
                assert(scan_steps(per_index).drop_last() =~= scan_steps(old_per_index));
                assert forall|j: int| 0 <= j < i + 1 implies smc0.scan_step_sent(
                    j as u32,
                    #[trigger] per_index[j],
                ) by {
                    if j < i {
                        assert(per_index[j] == old_per_index[j]);
                    }
                }
            }
            i = i + 1;
        }
        let keys = SensorKeys { cpu: cpu_keys, gpu: gpu_keys };
        let cache = SmcCache { smc, keys };
        assert(cache.smc().log() == smc0.log() + count_ex + per_index.flatten_alt());
        assert(smc0.read_key_sent(KEY_COUNT_KEY, count_ex));
        assert(scan_steps(per_index) == scan_steps(per_index));
        cache
    }

    /// Reads the cached sensors of each wanted kind: one value request per
    /// cached key, with its cached info, CPU keys first. A kind not wanted
    /// gets no request and no readings.
    pub fn read_temps(&mut self, want_cpu: bool, want_gpu: bool) -> (r: SensorReadings)
        ensures
            final(self).polled_from(*old(self), want_cpu, want_gpu, r),
            forall|i: int| 0 <= i < r.cpu@.len() ==> (#[trigger] r.cpu@[i]).in_range(),
            forall|i: int| 0 <= i < r.gpu@.len() ==> (#[trigger] r.gpu@[i]).in_range(),
    {
        let ghost smc0 = self.smc;
        let cpu = if want_cpu {
            sample(&mut self.smc, &self.keys.cpu)
        } else {
            Vec::new()
        };
        let ghost mid = self.smc;
        let ghost cpu_ex = mid.log().skip(smc0.log().len() as int);
        let gpu = if want_gpu {
            sample(&mut self.smc, &self.keys.gpu)
        } else {
            Vec::new()
        };
        let ghost gpu_ex = self.smc.log().skip(mid.log().len() as int);
        proof {
            if !want_cpu {
                assert(cpu_ex =~= Seq::<Exchange>::empty());
            }
            if !want_gpu {
                assert(gpu_ex =~= Seq::<Exchange>::empty());
            }
            assert(self.smc.log() =~= smc0.log() + (cpu_ex + gpu_ex));
            assert(self.smc().appended(old(self).smc(), cpu_ex + gpu_ex));
        }
        SensorReadings { cpu, gpu }
    }

    /// The cached CPU sensor keys and their types.
    pub fn cpu_sensor_keys(&self) -> (keys: &Vec<(u32, SmcKeyInfo)>)
        ensures
            keys@ == self.cpu_keys(),
            forall|i: int| 0 <= i < keys@.len() ==> is_sensor_entry(#[trigger] keys@[i], SensorKind::Cpu),
    {
        proof {
            use_type_invariant(&self.keys);
        }
        &self.keys.cpu
    }

    /// The cached GPU sensor keys and their types.
    pub fn gpu_sensor_keys(&self) -> (keys: &Vec<(u32, SmcKeyInfo)>)
        ensures
            keys@ == self.gpu_keys(),
            forall|i: int| 0 <= i < keys@.len() ==> is_sensor_entry(#[trigger] keys@[i], SensorKind::Gpu),
    {
        proof {
            use_type_invariant(&self.keys);
        }
        &self.keys.gpu
    }
}

// ── the cache of a process ──────────────────────────────────────────────────

/// The sensor-key cache of a process: scanned on the first poll that wants a
/// temperature, and scanned again on later polls for as long as connecting to
/// the SMC fails. Once it exists, its keys are never scanned again.
pub struct TempSource<F: Fn(&Vec<u8>) -> Option<Vec<u8>>> {
    cache: Option<SmcCache<F>>,
}

impl<F: Fn(&Vec<u8>) -> Option<Vec<u8>>> TempSource<F> {
    pub closed spec fn cache(self) -> Option<SmcCache<F>> {
        self.cache
    }

    /// No cache yet.
    pub fn new() -> (s: Self)
        ensures
            s.cache() is None,
    {
        TempSource { cache: None }
    }

    /// Reads the wanted temperatures. When nothing is wanted, nothing happens.
    /// When there is no cache yet, `open` connects to the SMC; if it succeeds
    /// the keys are scanned and the cache kept, and if it fails there are no
    /// readings and the next poll tries again. With a cache, only its keys of
    /// the wanted kinds are read.
    pub fn read<O: Fn() -> Option<Smc<F>>>(&mut self, want_cpu: bool, want_gpu: bool, open: O) -> (r:
        Option<SensorReadings>)
        requires
            call_requires(open, ()),
        ensures
            !(want_cpu || want_gpu) ==> r is None && final(self).cache() == old(self).cache(),
            (want_cpu || want_gpu) && old(self).cache() is Some ==> ({
                &&& final(self).cache() is Some
                &&& r is Some
                &&& final(self).cache().unwrap().polled_from(
                    old(self).cache().unwrap(),
                    want_cpu,
                    want_gpu,
                    r.unwrap(),
                )
            }),
            (want_cpu || want_gpu) && old(self).cache() is None ==> exists|opened: Option<Smc<F>>|
                #[trigger] call_ensures(open, (), opened) && match opened {
                    None => r is None && final(self).cache() is None,
                    Some(smc) => exists|built: SmcCache<F>|
                        #[trigger] built.built_from(smc) && final(self).cache() is Some && r is Some
                            && final(self).cache().unwrap().polled_from(
                            built,
                            want_cpu,
                            want_gpu,
                            r.unwrap(),
                        ),
                },
            old(self).cache() is Some ==> final(self).cache() is Some,
    {
        if !want_cpu && !want_gpu {
            return None;
        }
        if self.cache.is_none() {
            let opened = open();
            assert(call_ensures(open, (), opened));
            match opened {
                Some(smc) => {
                    let built = SmcCache::build(smc);
                    assert(built.built_from(smc));
                    self.cache = Some(built);
                },
                None => {
                    return None;
                },
            }
        }
        match &mut self.cache {
            Some(c) => Some(c.read_temps(want_cpu, want_gpu)),
            None => None,
        }
    }

    /// Law: a source with a cache keeps its keys through every read, so the
    /// keys of a process are scanned at most once.
    pub proof fn lemma_keys_scanned_once(
        old_cache: SmcCache<F>,
        new_cache: SmcCache<F>,
        want_cpu: bool,
        want_gpu: bool,
        r: SensorReadings,
    )
        requires
            new_cache.polled_from(old_cache, want_cpu, want_gpu, r),
        ensures
            new_cache.cpu_keys() == old_cache.cpu_keys(),
            new_cache.gpu_keys() == old_cache.gpu_keys(),
    {
    }
}


// ── laws stated on the bytes ────────────────────────────────────────────────

/// Law: a key is a CPU sensor exactly when its first byte is `T` and its
/// second `p`, and a GPU sensor exactly when they are `T` and `g`, whatever
/// its last two bytes; no other key is a sensor.
pub proof fn lemma_sensor_keys_by_first_two_bytes(key: u32)
    ensures
        (key / 0x100_0000 == 0x54 && (key / 0x1_0000) % 0x100 == 0x70) <==> sensor_kind_spec(key)
            == Some(SensorKind::Cpu),
        (key / 0x100_0000 == 0x54 && (key / 0x1_0000) % 0x100 == 0x67) <==> sensor_kind_spec(key)
            == Some(SensorKind::Gpu),
        !(key / 0x100_0000 == 0x54 && ((key / 0x1_0000) % 0x100 == 0x70 || (key / 0x1_0000) % 0x100
            == 0x67)) <==> sensor_kind_spec(key) is None,
{
    let b0 = code_byte0(key);
    let b1 = code_byte1(key);
    assert(b0 as u32 == key / 0x100_0000 && b1 as u32 == (key / 0x1_0000) % 0x100) by (bit_vector)
        requires
            b0 == (key >> 24u32) as u8,
            b1 == ((key >> 16u32) & 0xff) as u8,
    ;
}

/// Law: the scan caches a `Tp..` key of type `sp78` or `flt ` whose info was
/// read as a CPU sensor, at the end of the list, and a `Tg..` key likewise as
/// a GPU sensor; a step with any other key, or without info, adds nothing.
pub proof fn lemma_scan_caches_decodable_sensor(steps: Seq<ScanStep>, key: u32, info: Option<SmcKeyInfo>)
    ensures
        ({
            let step: ScanStep = (Some(key), info);
            let tp = key / 0x100_0000 == 0x54 && (key / 0x1_0000) % 0x100 == 0x70;
            let tg = key / 0x100_0000 == 0x54 && (key / 0x1_0000) % 0x100 == 0x67;
            let decodable = info matches Some(i) && (i.data_type == TYPE_SP78 || i.data_type
                == TYPE_FLT);
            &&& tp && decodable ==> sensors_found(steps.push(step), SensorKind::Cpu) == sensors_found(
                steps,
                SensorKind::Cpu,
            ).push((key, info.unwrap()))
            &&& !(tp && decodable) ==> sensors_found(steps.push(step), SensorKind::Cpu)
                == sensors_found(steps, SensorKind::Cpu)
            &&& tg && decodable ==> sensors_found(steps.push(step), SensorKind::Gpu) == sensors_found(
                steps,
                SensorKind::Gpu,
            ).push((key, info.unwrap()))
            &&& !(tg && decodable) ==> sensors_found(steps.push(step), SensorKind::Gpu)
                == sensors_found(steps, SensorKind::Gpu)
        }),
{
    lemma_sensor_keys_by_first_two_bytes(key);
    let step: ScanStep = (Some(key), info);
    assert(steps.push(step).drop_last() =~= steps);
}

/// Law: a cached key whose value reply is accepted and decodes adds exactly
/// its reading at the end; any other key adds nothing. So there is one reading
/// per key whose value decodes, in key order, however many keys there are.
pub proof fn lemma_one_reading_per_decoding_key(
    keys: Seq<(u32, SmcKeyInfo)>,
    ex: Seq<Exchange>,
    k: (u32, SmcKeyInfo),
    e: Exchange,
)
    requires
        ex.len() == keys.len(),
    ensures
        (reply_value(e.1) matches Some(v) && decode_temp_spec(k.1, v) matches Some(t))
            ==> readings_of(keys.push(k), ex.push(e)) == readings_of(keys, ex).push(
            decode_temp_spec(k.1, reply_value(e.1).unwrap()).unwrap(),
        ),
        !(reply_value(e.1) matches Some(v) && decode_temp_spec(k.1, v) is Some) ==> readings_of(
            keys.push(k),
            ex.push(e),
        ) == readings_of(keys, ex),
{
    assert(keys.push(k).drop_last() =~= keys);
    assert(ex.push(e).take(keys.len() as int) =~= ex);
}

/// Law: what a temperature value decodes to, stated on its bytes: a `sp78`
/// (size at least 2) is the big-endian count `b0 * 256 + b1` of 1/256 °C when
/// that is in [256, 30720), a `flt ` (size at least 4) the little-endian bits
/// when they are in [0x3F80_0000, 0x42F0_0000), and anything else nothing.
pub proof fn lemma_decode_temp_on_bytes(info: SmcKeyInfo, b: Seq<u8>)
    requires
        b.len() >= 4,
    ensures
        ({
            let count = b[0] * 256 + b[1];
            let bits = b[0] + b[1] * 0x100 + b[2] * 0x1_0000 + b[3] * 0x100_0000;
            &&& info.data_type == TYPE_SP78 && info.data_size >= 2 ==> decode_temp_spec(info, b) == (
            if 256 <= count < 30720 {
                Some(TempReading::Sp78 { raw: count as i16 })
            } else {
                None
            })
            &&& info.data_type == TYPE_FLT && info.data_size >= 4 ==> decode_temp_spec(info, b) == (
            if 0x3F80_0000 <= bits < 0x42F0_0000 {
                Some(TempReading::Flt { bits: bits as u32 })
            } else {
                None
            })
            &&& !(info.data_type == TYPE_SP78 && info.data_size >= 2) && !(info.data_type == TYPE_FLT
                && info.data_size >= 4) ==> decode_temp_spec(info, b) is None
        }),
{
    let b0 = b[0];
    let b1 = b[1];
    let b2 = b[2];
    let b3 = b[3];
    let v = get_le32(b, 0);
    assert(v as int == b0 + b1 * 0x100 + b2 * 0x1_0000 + b3 * 0x100_0000) by (bit_vector)
        requires
            v == (b0 as u32) | ((b1 as u32) << 8u32) | ((b2 as u32) << 16u32) | ((b3 as u32) << 24u32),
    ;
}

} // verus!
