//! The hardware abstraction layer: a uniform, vendor-neutral view of
//! every discovered GPU, and the selection rules over it.
//!
//! Device discovery talks to vendor libraries and lives outside the
//! library; what arrives here is one plain record per device. The
//! selection rules — the VRAM floor, the 80% free-memory headroom, and
//! the compute-capability order — are stated and proved here.

use vstd::prelude::*;
use crate::error::Error;
use crate::json::{char_digit, dec_val, is_dec_digit};
use crate::outside::sha256_of;
use crate::pow::{compute_search, pow_message, pow_solution_ok, satisfies_mask, spec_difficulty_mask};
use crate::protocol::{CPUInfo, GPUInfo, GPUVendor, TaskRequirements};
use crate::textutil::{spec_contains, str_contains};

verus! {

broadcast use vstd::seq::group_seq_axioms;

/// One byte count per gibibyte.
pub const BYTES_PER_GIB: u64 = 1073741824;

/// The vendor kinds a backend can report.
#[derive(Debug, Clone, Copy, PartialEq, Eq, Structural)]
pub enum DeviceType {
    NVIDIA,
    AMD,
    Intel,
    Apple,
}

/// VRAM byte counts as a backend reports them.
#[derive(Debug, Clone, Copy, PartialEq, Eq, Structural)]
pub struct MemoryInfo {
    pub total: u64,
    pub free: u64,
    pub used: u64,
}

/// A value capped at the largest `u32`.
pub open spec fn cap_u32(x: int) -> int {
    vstd::math::min(x, u32::MAX as int)
}

impl MemoryInfo {
    /// How full the memory is, in permille, capped.
    pub open spec fn spec_utilization_permille(self) -> int {
        if self.total == 0 {
            0
        } else {
            cap_u32(self.used * 1000 / self.total as int)
        }
    }

    /// How full the memory is, in permille.
    pub fn utilization_permille(&self) -> (r: u32)
        ensures
            r == self.spec_utilization_permille(),
    {
        if self.total == 0 {
            return 0;
        }
        proof {
            vstd::arithmetic::mul::lemma_mul_upper_bound(
                self.used as int,
                u64::MAX as int,
                1000,
                1000,
            );
        }
        let wide: u128 = (self.used as u128) * 1000 / (self.total as u128);
        if wide > u32::MAX as u128 {
            u32::MAX
        } else {
            wide as u32
        }
    }
}

/// One discovered device: identity, telemetry and capability, all as
/// plain values.
#[derive(Debug, Clone, PartialEq)]
pub struct GpuDevice {
    pub index: u32,
    pub vendor: GPUVendor,
    pub model: String,
    pub memory: MemoryInfo,
    pub utilization_permille: u32,
    pub temperature_deci_c: u32,
    pub power_mw: u32,
    pub fan_speed_permille: u32,
    pub compute_capability: String,
    pub cuda_cores: Option<u32>,
    pub pcie_bandwidth_gbps: u32,
    pub uuid: String,
}

/// The digits of a capability component, after an optional leading
/// plus sign.
pub open spec fn component_digits(t: Seq<char>) -> Seq<char> {
    if t.len() >= 1 && t[0] == '+' {
        t.skip(1)
    } else {
        t
    }
}

/// The number a capability component stands for, read as an unsigned
/// parse reads it: an optional leading plus, then one or more digits,
/// leading zeros allowed; anything else, or a value beyond `u32`,
/// counts as zero.
pub open spec fn spec_parse_component(t: Seq<char>) -> int {
    let d = component_digits(t);
    if d.len() >= 1 && (forall|j: int| 0 <= j < d.len() ==> is_dec_digit(#[trigger] d[j]))
        && dec_val(d) <= u32::MAX {
        dec_val(d) as int
    } else {
        0
    }
}

/// Reads one capability component.
pub fn parse_capability_component(s: &str) -> (r: u32)
    ensures
        r == spec_parse_component(s@),
{
    let n = s.unicode_len();
    let start: usize = if n >= 1 && s.get_char(0) == '+' {
        1
    } else {
        0
    };
    let ghost d = component_digits(s@);
    proof {
        if start == 1 {
            assert(d =~= s@.skip(1));
        } else {
            assert(d =~= s@);
        }
        assert(d.take(0) =~= Seq::<char>::empty());
    }
    if start == n {
        return 0;
    }
    let mut acc: u64 = 0;
    let mut too_big = false;
    let mut i: usize = start;
    while i < n
        invariant
            start <= i <= n,
            n == s@.len(),
            start <= 1,
            d == component_digits(s@),
            d.len() == n - start,
            forall|j: int| 0 <= j < d.len() ==> #[trigger] d[j] == s@[start + j],
            forall|j: int| 0 <= j < i - start ==> is_dec_digit(#[trigger] d[j]),
            !too_big ==> acc == dec_val(d.take(i - start)) && acc <= u32::MAX,
            too_big ==> dec_val(d.take(i - start)) > u32::MAX,
        decreases n - i,
    {
        let c = s.get_char(i);
        let ghost m = i - start;
        proof {
            assert(d[m as int] == s@[i as int]);
            assert(d.take(m + 1).drop_last() =~= d.take(m as int));
            assert(d.take(m + 1).last() == d[m as int]);
        }
        if !('0' <= c && c <= '9') {
            return 0;
        }
        let dig = crate::json::char_digit_exec(c);
        if too_big {
            proof {
                assert(dec_val(d.take(m + 1)) == dec_val(d.take(m as int)) * 10 + char_digit(
                    d[m as int],
                ));
            }
        } else {
            acc = acc * 10 + dig;
            if acc > u32::MAX as u64 {
                too_big = true;
            }
        }
        i = i + 1;
    }
    proof {
        assert(d.take(n - start) =~= d);
    }
    if too_big {
        0
    } else {
        acc as u32
    }
}

/// Where the first dot stands in the text, or the text's length.
pub open spec fn first_dot(s: Seq<char>) -> int
    decreases s.len(),
{
    if s.len() == 0 {
        0
    } else if s.first() == '.' {
        0
    } else {
        1 + first_dot(s.drop_first())
    }
}

/// How many dots the text holds.
pub open spec fn dot_count(s: Seq<char>) -> int
    decreases s.len(),
{
    if s.len() == 0 {
        0
    } else {
        (if s.first() == '.' { 1int } else { 0int }) + dot_count(s.drop_first())
    }
}

/// The (major, minor) a compute-capability text stands for: the two
/// numbers around a single dot; anything unparsable counts as zero.
pub open spec fn spec_parse_capability(s: Seq<char>) -> (int, int) {
    if dot_count(s) != 1 {
        (0int, 0int)
    } else {
        let k = first_dot(s);
        (spec_parse_component(s.take(k)), spec_parse_component(s.skip(k + 1)))
    }
}

/// The first dot is never at a negative index.
proof fn lemma_first_dot_nonneg(s: Seq<char>)
    ensures
        first_dot(s) >= 0,
    decreases s.len(),
{
    if s.len() > 0 && s.first() != '.' {
        lemma_first_dot_nonneg(s.drop_first());
    }
}

/// The dot index never passes the length, and counts agree with scans.
proof fn lemma_dot_scan(s: Seq<char>, i: int)
    requires
        0 <= i <= s.len(),
        forall|j: int| 0 <= j < i ==> s[j] != '.',
    ensures
        first_dot(s) >= i,
        dot_count(s) == dot_count(s.skip(i)),
        i < s.len() && s[i] == '.' ==> first_dot(s) == i,
    decreases i,
{
    lemma_first_dot_nonneg(s);
    if i > 0 {
        assert(s.first() != '.');
        assert(s.drop_first() =~= s.skip(1));
        lemma_dot_scan(s.skip(1), i - 1);
        assert(s.skip(1).skip(i - 1) =~= s.skip(i));
        assert(first_dot(s) == 1 + first_dot(s.skip(1)));
        assert(dot_count(s) == dot_count(s.skip(1)));
        if i < s.len() && s[i] == '.' {
            assert(s.skip(1)[i - 1] == s[i]);
        }
    } else {
        assert(s.skip(0) =~= s);
    }
}

/// Dots in a concatenation come from either side.
proof fn lemma_dot_count_concat(a: Seq<char>, b: Seq<char>)
    ensures
        dot_count(a + b) == dot_count(a) + dot_count(b),
    decreases a.len(),
{
    if a.len() == 0 {
        assert(a + b =~= b);
    } else {
        assert((a + b).drop_first() =~= a.drop_first() + b);
        assert((a + b).first() == a.first());
        lemma_dot_count_concat(a.drop_first(), b);
    }
}

/// A dot-free text has no dots counted.
proof fn lemma_dot_count_free(s: Seq<char>)
    requires
        forall|j: int| 0 <= j < s.len() ==> s[j] != '.',
    ensures
        dot_count(s) == 0,
    decreases s.len(),
{
    if s.len() > 0 {
        lemma_dot_count_free(s.drop_first());
    }
}

/// Parses a compute-capability text into (major, minor); unparsable
/// text counts as (0, 0).
pub fn parse_compute_capability(s: &str) -> (r: (u32, u32))
    ensures
        (r.0 as int, r.1 as int) == spec_parse_capability(s@),
{
    let n = s.unicode_len();
    let mut dots: usize = 0;
    let mut k: usize = n;
    let mut i: usize = 0;
    while i < n
        invariant
            n == s@.len(),
            i <= n,
            k == n || (k < i && s@[k as int] == '.' && first_dot(s@) == k),
            k == n ==> forall|j: int| 0 <= j < i ==> s@[j] != '.',
            dots == dot_count(s@.take(i as int)),
            dots <= i,
        decreases n - i,
    {
        let c = s.get_char(i);
        proof {
            assert(s@.take(i + 1).drop_last() =~= s@.take(i as int));
            assert(s@.take(i + 1).last() == s@[i as int]);
            lemma_dot_count_concat(s@.take(i as int), seq![s@[i as int]]);
            assert(s@.take(i as int) + seq![s@[i as int]] =~= s@.take(i + 1));
            assert(seq![s@[i as int]].drop_first() =~= Seq::<char>::empty());
            assert(dot_count(Seq::<char>::empty()) == 0);
            assert(dot_count(seq![s@[i as int]]) == (if s@[i as int] == '.' { 1int } else { 0int }));
        }
        if c == '.' {
            if k == n {
                proof {
                    lemma_dot_scan(s@, i as int);
                }
                k = i;
            }
            dots = dots + 1;
        }
        i = i + 1;
    }
    proof {
        assert(s@.take(n as int) =~= s@);
        if k == n {
            lemma_dot_count_free(s@);
        }
    }
    if dots != 1 {
        return (0, 0);
    }
    proof {
        assert(k < n);
    }
    let head = s.substring_char(0, k);
    let tail = s.substring_char(k + 1, n);
    proof {
        assert(head@ =~= s@.take(k as int));
        assert(tail@ =~= s@.skip(k as int + 1));
    }
    let major = parse_capability_component(head);
    let minor = parse_capability_component(tail);
    (major, minor)
}

/// Whole gibibytes a byte count amounts to, rounded up.
pub open spec fn spec_vram_gb(total: u64) -> int {
    (total + BYTES_PER_GIB - 1) as int / BYTES_PER_GIB as int
}

/// Capability order: major first, then minor.
pub open spec fn capability_at_least(d: (int, int), r: (int, int)) -> bool {
    d.0 > r.0 || (d.0 == r.0 && d.1 >= r.1)
}

/// Whether a device can serve a task: enough total VRAM, at least 80%
/// of the required VRAM free, and a high enough compute capability.
pub open spec fn spec_meets_requirements(d: GpuDevice, req: TaskRequirements) -> bool {
    &&& spec_vram_gb(d.memory.total) >= req.min_vram_gb
    &&& d.memory.free >= req.min_vram_gb * BYTES_PER_GIB * 8 / 10
    &&& capability_at_least(
        spec_parse_capability(d.compute_capability@),
        spec_parse_capability(req.min_compute_capability@),
    )
}

impl GpuDevice {
    /// Whether this device can serve a task with these requirements.
    pub fn meets_requirements(&self, req: &TaskRequirements) -> (r: bool)
        ensures
            r == spec_meets_requirements(*self, *req),
    {
        let vram_gb_wide: u128 = ((self.memory.total as u128) + (BYTES_PER_GIB - 1) as u128)
            / (BYTES_PER_GIB as u128);
        if vram_gb_wide < req.min_vram_gb as u128 {
            return false;
        }
        let headroom: u128 = (req.min_vram_gb as u128) * (BYTES_PER_GIB as u128) * 8 / 10;
        proof {
            vstd::arithmetic::mul::lemma_mul_upper_bound(
                req.min_vram_gb as int,
                u32::MAX as int,
                BYTES_PER_GIB as int,
                BYTES_PER_GIB as int,
            );
            vstd::arithmetic::mul::lemma_mul_upper_bound(
                req.min_vram_gb * BYTES_PER_GIB,
                u32::MAX as int * BYTES_PER_GIB as int,
                8,
                8,
            );
        }
        if (self.memory.free as u128) < headroom {
            return false;
        }
        let dev_cc = parse_compute_capability(self.compute_capability.as_str());
        let req_cc = parse_compute_capability(req.min_compute_capability.as_str());
        dev_cc.0 > req_cc.0 || (dev_cc.0 == req_cc.0 && dev_cc.1 >= req_cc.1)
    }

    /// The registration record this device reports.
    pub fn to_info(&self) -> (r: GPUInfo)
        ensures
            r.index == self.index,
            r.vendor == self.vendor,
            r.model@ == self.model@,
            r.vram_gb == cap_u32(spec_vram_gb(self.memory.total)),
            r.compute_capability@ == self.compute_capability@,
            r.cuda_cores == self.cuda_cores,
            r.pcie_bandwidth_gbps == self.pcie_bandwidth_gbps,
    {
        let vram_gb_wide: u128 = ((self.memory.total as u128) + (BYTES_PER_GIB - 1) as u128)
            / (BYTES_PER_GIB as u128);
        let vram_gb: u32 = if vram_gb_wide > u32::MAX as u128 {
            u32::MAX
        } else {
            vram_gb_wide as u32
        };
        GPUInfo {
            index: self.index,
            vendor: self.vendor,
            model: self.model.clone(),
            vram_gb,
            compute_capability: self.compute_capability.clone(),
            cuda_cores: self.cuda_cores,
            pcie_bandwidth_gbps: self.pcie_bandwidth_gbps,
        }
    }

    /// An owned copy, equal to the original.
    pub fn duplicate(&self) -> (r: Self)
        ensures
            r == *self,
    {
        GpuDevice {
            index: self.index,
            vendor: self.vendor,
            model: self.model.clone(),
            memory: self.memory,
            utilization_permille: self.utilization_permille,
            temperature_deci_c: self.temperature_deci_c,
            power_mw: self.power_mw,
            fan_speed_permille: self.fan_speed_permille,
            compute_capability: self.compute_capability.clone(),
            cuda_cores: self.cuda_cores,
            pcie_bandwidth_gbps: self.pcie_bandwidth_gbps,
            uuid: self.uuid.clone(),
        }
    }
}

/// The best index for a task, if any device passes: a passing device
/// with the most free VRAM, the earliest such index on ties.
pub fn select_best(devices: &Vec<GpuDevice>, req: &TaskRequirements) -> (r: Option<usize>)
    ensures
        match r {
            Some(i) => {
                &&& i < devices@.len()
                &&& spec_meets_requirements(devices@[i as int], *req)
                &&& forall|j: int|
                    0 <= j < devices@.len() && spec_meets_requirements(#[trigger] devices@[j], *req)
                        ==> devices@[j].memory.free <= devices@[i as int].memory.free
                &&& forall|j: int|
                    0 <= j < i && spec_meets_requirements(#[trigger] devices@[j], *req)
                        ==> devices@[j].memory.free < devices@[i as int].memory.free
            },
            None => forall|j: int|
                0 <= j < devices@.len() ==> !spec_meets_requirements(#[trigger] devices@[j], *req),
        },
{
    let n = devices.len();
    let mut best: Option<usize> = None;
    let mut i: usize = 0;
    while i < n
        invariant
            n == devices@.len(),
            i <= n,
            match best {
                Some(b) => {
                    &&& b < i
                    &&& spec_meets_requirements(devices@[b as int], *req)
                    &&& forall|j: int|
                        0 <= j < i && spec_meets_requirements(#[trigger] devices@[j], *req)
                            ==> devices@[j].memory.free <= devices@[b as int].memory.free
                    &&& forall|j: int|
                        0 <= j < b && spec_meets_requirements(#[trigger] devices@[j], *req)
                            ==> devices@[j].memory.free < devices@[b as int].memory.free
                },
                None => forall|j: int|
                    0 <= j < i ==> !spec_meets_requirements(#[trigger] devices@[j], *req),
            },
        decreases n - i,
    {
        if devices[i].meets_requirements(req) {
            match best {
                Some(b) => {
                    if devices[i].memory.free > devices[b].memory.free {
                        best = Some(i);
                    }
                },
                None => {
                    best = Some(i);
                },
            }
        }
        i = i + 1;
    }
    best
}

/// How many nonces the raw proof-of-work probe tries.
pub const POW_PROBE_MAX_ITERS: u64 = 10000000;

/// Whether some solution nonce hashes with the challenge to this very
/// digest, clearing the difficulty.
pub open spec fn is_pow_answer(nonce: Seq<u8>, difficulty: u32, h: Seq<u8>) -> bool {
    exists|sol: u64| #[trigger] pow_solution_ok(nonce, difficulty, sol, h)
}

/// The discovered devices in backend order, with the host's CPU and
/// memory snapshot.
#[derive(Debug)]
pub struct GPUDetector {
    pub devices: Vec<GpuDevice>,
    pub cpu: CPUInfo,
    pub memory_gb: u32,
}

impl GPUDetector {
    /// Assembles the device set from the per-vendor backends, keeping
    /// the vendor order and each backend's own indexing. Discovery of
    /// no device at all is a hard error.
    pub fn from_backends(
        nvidia: Vec<GpuDevice>,
        amd: Vec<GpuDevice>,
        apple: Vec<GpuDevice>,
        intel: Vec<GpuDevice>,
        cpu: CPUInfo,
        memory_gb: u32,
    ) -> (r: Result<GPUDetector, Error>)
        ensures
            match r {
                Ok(d) => {
                    &&& d.devices@ == nvidia@ + amd@ + apple@ + intel@
                    &&& d.devices@.len() > 0
                    &&& d.cpu == cpu
                    &&& d.memory_gb == memory_gb
                },
                Err(e) => {
                    &&& e is GpuNotFound
                    &&& nvidia@.len() + amd@.len() + apple@.len() + intel@.len() == 0
                },
            },
    {
        let mut devices = nvidia;
        let mut amd = amd;
        let mut apple = apple;
        let mut intel = intel;
        devices.append(&mut amd);
        devices.append(&mut apple);
        devices.append(&mut intel);
        if devices.len() == 0 {
            return Err(Error::GpuNotFound);
        }
        Ok(GPUDetector { devices, cpu, memory_gb })
    }

    /// How many devices were discovered.
    pub fn device_count(&self) -> (r: usize)
        ensures
            r == self.devices@.len(),
    {
        self.devices.len()
    }

    /// One device by index.
    pub fn get_device(&self, index: usize) -> (r: Option<&GpuDevice>)
        ensures
            match r {
                Some(d) => index < self.devices@.len() && *d == self.devices@[index as int],
                None => index >= self.devices@.len(),
            },
    {
        if index < self.devices.len() {
            Some(&self.devices[index])
        } else {
            None
        }
    }

    /// All devices.
    pub fn get_all_devices(&self) -> (r: &Vec<GpuDevice>)
        ensures
            r == &self.devices,
    {
        &self.devices
    }

    /// Whether any device can serve the task.
    pub fn meets_requirements(&self, req: &TaskRequirements) -> (r: bool)
        ensures
            r == exists|i: int|
                0 <= i < self.devices@.len() && spec_meets_requirements(
                    #[trigger] self.devices@[i],
                    *req,
                ),
    {
        match select_best(&self.devices, req) {
            Some(i) => {
                proof {
                    assert(spec_meets_requirements(self.devices@[i as int], *req));
                }
                true
            },
            None => false,
        }
    }

    /// The best device for a task, by index: a passing device with the
    /// most free VRAM, the earliest on ties; `None` when none passes.
    pub fn select_best_gpu(&self, req: &TaskRequirements) -> (r: Option<usize>)
        ensures
            match r {
                Some(i) => {
                    &&& i < self.devices@.len()
                    &&& spec_meets_requirements(self.devices@[i as int], *req)
                    &&& forall|j: int|
                        0 <= j < self.devices@.len() && spec_meets_requirements(
                            #[trigger] self.devices@[j],
                            *req,
                        ) ==> self.devices@[j].memory.free <= self.devices@[i as int].memory.free
                    &&& forall|j: int|
                        0 <= j < i && spec_meets_requirements(#[trigger] self.devices@[j], *req)
                            ==> self.devices@[j].memory.free < self.devices@[i as int].memory.free
                },
                None => forall|j: int|
                    0 <= j < self.devices@.len() ==> !spec_meets_requirements(
                        #[trigger] self.devices@[j],
                        *req,
                    ),
            },
    {
        select_best(&self.devices, req)
    }

    /// Answers a raw proof-of-work probe on the first device's behalf:
    /// a solution whose hash clears four leading zero bits, searched
    /// over the first `POW_PROBE_MAX_ITERS` nonces. With no device at
    /// all the probe is refused; it times out exactly when none of the
    /// searched nonces clears the mask.
    pub fn compute_pow(&self, challenge: &[u8]) -> (r: Result<Vec<u8>, Error>)
        ensures
            match r {
                Ok(h) => self.devices@.len() > 0 && is_pow_answer(challenge@, 4, h@),
                Err(e) => {
                    &&& (e is GpuNotFound || e is TaskTimeout)
                    &&& (e is GpuNotFound <==> self.devices@.len() == 0)
                    &&& (e is TaskTimeout ==> forall|sol: u64|
                        sol < POW_PROBE_MAX_ITERS ==> !satisfies_mask(
                            sha256_of(#[trigger] pow_message(challenge@, sol)),
                            spec_difficulty_mask(4),
                        ))
                },
            },
    {
        if self.devices.len() == 0 {
            return Err(Error::GpuNotFound);
        }
        match compute_search(challenge, 4, 0, 1, POW_PROBE_MAX_ITERS) {
            Some(p) => {
                proof {
                    let sol = p.0;
                    assert(is_pow_answer(challenge@, 4, p.1@)) by {
                        assert(pow_solution_ok(challenge@, 4, sol, p.1@));
                    }
                }
                Ok(p.1)
            },
            None => {
                proof {
                    assert forall|sol: u64| sol < POW_PROBE_MAX_ITERS implies !satisfies_mask(
                        sha256_of(#[trigger] pow_message(challenge@, sol)),
                        spec_difficulty_mask(4),
                    ) by {
                        assert(0 + (sol as int) * 1 == sol as int);
                        assert((0 + (sol as int) * 1) as u64 == sol);
                    }
                }
                Err(Error::TaskTimeout)
            },
        }
    }
}

/// CUDA core counts estimated from the model name, for the models the
/// estimate knows; anything else is unknown.
pub fn estimate_cuda_cores(name: &str) -> (r: Option<u32>)
    ensures
        r == spec_estimate_cuda_cores(name@),
{
    if str_contains(name, "4090") {
        Some(16384)
    } else if str_contains(name, "4080") {
        Some(9728)
    } else if str_contains(name, "3090") {
        Some(10496)
    } else if str_contains(name, "3080") {
        Some(8704)
    } else if str_contains(name, "A100") {
        Some(6912)
    } else if str_contains(name, "V100") {
        Some(5120)
    } else {
        None
    }
}

/// The known core-count estimates by model name.
pub open spec fn spec_estimate_cuda_cores(name: Seq<char>) -> Option<u32> {
    if spec_contains(name, "4090"@) { Some(16384u32) }
    else if spec_contains(name, "4080"@) { Some(9728u32) }
    else if spec_contains(name, "3090"@) { Some(10496u32) }
    else if spec_contains(name, "3080"@) { Some(8704u32) }
    else if spec_contains(name, "A100"@) { Some(6912u32) }
    else if spec_contains(name, "V100"@) { Some(5120u32) }
    else { None }
}

/// The AMD backend's device handle; its telemetry is not implemented,
/// and every query says so rather than fabricate a value.
#[derive(Debug, Clone)]
pub struct AmdGPU {
    pub index: u32,
}

impl AmdGPU {
    /// A handle for the device at an index.
    pub fn new(index: u32) -> (r: Self)
        ensures
            r.index == index,
    {
        AmdGPU { index }
    }

    /// The device index.
    pub fn index(&self) -> (r: u32)
        ensures
            r == self.index,
    {
        self.index
    }

    /// The vendor tag.
    pub fn vendor(&self) -> (r: GPUVendor)
        ensures
            r is AMD,
    {
        GPUVendor::AMD
    }

    /// Unimplemented: fails rather than fabricate a name.
    pub fn name(&self) -> (r: Result<String, Error>)
        ensures
            r matches Err(e) && e is Gpu,
    {
        Err(Error::Gpu("AMD GPU support not implemented".to_owned()))
    }

    /// Unimplemented: fails rather than fabricate telemetry.
    pub fn memory_info(&self) -> (r: Result<MemoryInfo, Error>)
        ensures
            r matches Err(e) && e is Gpu,
    {
        Err(Error::Gpu("AMD GPU support not implemented".to_owned()))
    }

    /// Unimplemented: fails rather than fabricate a capability.
    pub fn compute_capability(&self) -> (r: Result<String, Error>)
        ensures
            r matches Err(e) && e is Gpu,
    {
        Err(Error::Gpu("AMD GPU support not implemented".to_owned()))
    }

    /// Unimplemented: fails rather than fabricate an id.
    pub fn uuid(&self) -> (r: Result<String, Error>)
        ensures
            r matches Err(e) && e is Gpu,
    {
        Err(Error::Gpu("AMD GPU support not implemented".to_owned()))
    }
}

/// The Apple backend's device handle. Fan speed reports zero (the
/// machines are fanless or unreadable) and PCIe bandwidth reports zero
/// to signal unified memory; everything else is unimplemented.
#[derive(Debug, Clone)]
pub struct AppleGPU {
    pub index: u32,
}

impl AppleGPU {
    /// A handle for the device at an index.
    pub fn new(index: u32) -> (r: Self)
        ensures
            r.index == index,
    {
        AppleGPU { index }
    }

    /// The device index.
    pub fn index(&self) -> (r: u32)
        ensures
            r == self.index,
    {
        self.index
    }

    /// The vendor tag.
    pub fn vendor(&self) -> (r: GPUVendor)
        ensures
            r is Apple,
    {
        GPUVendor::Apple
    }

    /// Unimplemented: fails rather than fabricate a name.
    pub fn name(&self) -> (r: Result<String, Error>)
        ensures
            r matches Err(e) && e is Gpu,
    {
        Err(Error::Gpu("Apple GPU support not implemented".to_owned()))
    }

    /// Fan speed on this platform reads as zero.
    pub fn fan_speed_permille(&self) -> (r: Result<u32, Error>)
        ensures
            r == Ok::<u32, Error>(0u32),
    {
        Ok(0)
    }

    /// Zero bandwidth signals unified memory.
    pub fn pcie_bandwidth(&self) -> (r: Result<u32, Error>)
        ensures
            r == Ok::<u32, Error>(0u32),
    {
        Ok(0)
    }

    /// Unimplemented: fails rather than fabricate telemetry.
    pub fn memory_info(&self) -> (r: Result<MemoryInfo, Error>)
        ensures
            r matches Err(e) && e is Gpu,
    {
        Err(Error::Gpu("Apple GPU support not implemented".to_owned()))
    }
}

} // verus!
