//! What the host can compute with, as far as choosing a model needs it.
//!
//! Nothing here fails: what cannot be read counts as zero memory, and the
//! choice of a model takes that for "use the safe default".

use vstd::prelude::*;

use crate::decimal;
use crate::text;

verus! {

/// Snapshot of the host's compute capabilities, taken at daemon start.
#[derive(Debug, Clone)]
pub struct HardwareProfile {
    pub total_ram_bytes: u64,
    pub available_ram_bytes: u64,
    pub cpu_threads: usize,
    pub gpu: Option<GpuProfile>,
}

/// A usable GPU.
#[derive(Debug, Clone)]
pub struct GpuProfile {
    pub backend: GpuBackend,
    pub device_name: String,
    pub vram_bytes: u64,
}

/// The interface by which a GPU is used.
#[derive(Debug, Clone, Copy, PartialEq, Eq, Structural)]
pub enum GpuBackend {
    Cuda,
    Vulkan,
    Rocm,
}

impl GpuBackend {
    /// The name of the build feature for this backend.
    pub open spec fn name(self) -> Seq<char> {
        match self {
            GpuBackend::Cuda => "cuda"@,
            GpuBackend::Vulkan => "vulkan"@,
            GpuBackend::Rocm => "hipblas"@,
        }
    }

    /// The name of the build feature for this backend.
    pub fn tag(self) -> (r: &'static str)
        ensures
            r@ == self.name(),
    {
        match self {
            GpuBackend::Cuda => "cuda",
            GpuBackend::Vulkan => "vulkan",
            GpuBackend::Rocm => "hipblas",
        }
    }
}

/// The number of bytes that a value such as `  12345 kB` stands for. Any
/// other unit, and a number that does not fit, stand for nothing.
pub open spec fn kb_value(s: Seq<char>) -> Option<u64> {
    let t = text::trimmed(s);
    if "kB"@.is_suffix_of(t) {
        match decimal::u64_of(text::trimmed(t.take(t.len() - 2))) {
            Some(kb) => if kb * 1024 <= u64::MAX {
                Some((kb * 1024) as u64)
            } else {
                None
            },
            None => None,
        }
    } else {
        None
    }
}

/// The value of the last of `lines` that starts with `label`.
pub open spec fn labelled(lines: Seq<Seq<char>>, label: Seq<char>) -> Option<u64>
    decreases lines.len(),
{
    if lines.len() == 0 {
        None
    } else if label.is_prefix_of(lines.last()) {
        kb_value(lines.last().skip(label.len() as int))
    } else {
        labelled(lines.drop_last(), label)
    }
}

/// Total and available memory in bytes, from the text of `/proc/meminfo`.
pub open spec fn memory(s: Seq<char>) -> Option<(u64, u64)> {
    let lines = text::split(s, '\n');
    match (labelled(lines, "MemTotal:"@), labelled(lines, "MemAvailable:"@)) {
        (Some(total), Some(available)) => Some((total, available)),
        _ => None,
    }
}

/// Parse a value such as `  12345 kB` into bytes.
pub fn parse_kb_line(s: &str) -> (r: Option<u64>)
    ensures
        r == kb_value(s@),
{
    let value = text::trim(s);
    let chars = text::chars_of(value.as_str());
    proof {
        reveal_strlit("kB");
    }
    if !text::ends_with(value.as_str(), "kB") {
        return None;
    }
    let end: usize = chars.len() - 2;
    let lo = text::skip_white(&chars, 0, end);
    let hi = text::skip_white_back(&chars, lo, end);
    assert(chars@.subrange(0, end as int) == chars@.take(end as int));
    match decimal::parse_u64(&chars, lo, hi) {
        Some(kb) => kb.checked_mul(1024),
        None => None,
    }
}

/// What follows `label` at the start of `line`, if it stands there.
fn after_label(line: &str, label: &str) -> (r: Option<String>)
    ensures
        match r {
            Some(rest) => label@.is_prefix_of(line@) && rest@ == line@.skip(label@.len() as int),
            None => !label@.is_prefix_of(line@),
        },
{
    if !text::starts_with(line, label) {
        return None;
    }
    let chars = text::chars_of(line);
    let front = text::chars_of(label);
    let rest = text::piece(&chars, front.len(), chars.len());
    assert(rest@ == line@.skip(label@.len() as int));
    Some(rest)
}

/// Total and available memory in bytes, from the text of `/proc/meminfo`.
/// Both lines must be there, in either order.
pub fn parse_meminfo_str(s: &str) -> (r: Option<(u64, u64)>)
    ensures
        r == memory(s@),
{
    let lines = text::split_on(s, '\n');
    let ghost all = text::split(s@, '\n');
    let mut total: Option<u64> = None;
    let mut available: Option<u64> = None;
    for i in 0..lines.len()
        invariant
            all == text::texts(lines@),
            total == labelled(all.take(i as int), "MemTotal:"@),
            available == labelled(all.take(i as int), "MemAvailable:"@),
    {
        assert(all.take(i + 1).drop_last() == all.take(i as int));
        assert(all.take(i + 1).last() == lines@[i as int]@);
        let line: &str = lines[i].as_str();
        match after_label(line, "MemTotal:") {
            Some(rest) => {
                proof {
                    labels_differ(line@);
                }
                total = parse_kb_line(rest.as_str());
            },
            None => {
                match after_label(line, "MemAvailable:") {
                    Some(rest) => {
                        available = parse_kb_line(rest.as_str());
                    },
                    None => {},
                }
            },
        }
    }
    assert(all.take(lines@.len() as int) == all);
    match (total, available) {
        (Some(total), Some(available)) => Some((total, available)),
        _ => None,
    }
}

/// No line carries both labels.
proof fn labels_differ(line: Seq<char>)
    ensures
        !("MemTotal:"@.is_prefix_of(line) && "MemAvailable:"@.is_prefix_of(line)),
{
    reveal_strlit("MemTotal:");
    reveal_strlit("MemAvailable:");
    if "MemTotal:"@.is_prefix_of(line) && "MemAvailable:"@.is_prefix_of(line) {
        assert("MemTotal:"@[3] == line.subrange(0, 9)[3]);
        assert("MemAvailable:"@[3] == line.subrange(0, 13)[3]);
    }
}

/// The profile of a host from the text of `/proc/meminfo` and its number of
/// threads, as far as these could be read.
pub fn detect(meminfo: Option<&str>, parallelism: Option<usize>) -> (r: HardwareProfile)
    ensures
        (r.total_ram_bytes, r.available_ram_bytes) == match meminfo {
            Some(s) => match memory(s@) {
                Some(found) => found,
                None => (0, 0),
            },
            None => (0, 0),
        },
        r.cpu_threads == match parallelism {
            Some(n) => n,
            None => 1,
        },
        r.gpu is None,
{
    let found: Option<(u64, u64)> = match meminfo {
        Some(s) => parse_meminfo_str(s),
        None => None,
    };
    let (total_ram_bytes, available_ram_bytes): (u64, u64) = match found {
        Some(pair) => pair,
        None => (0, 0),
    };
    let cpu_threads: usize = match parallelism {
        Some(n) => n,
        None => 1,
    };
    HardwareProfile { total_ram_bytes, available_ram_bytes, cpu_threads, gpu: None }
}

// ---------------------------------------------------------------------------
// Laws
// ---------------------------------------------------------------------------

/// The backends go by their own names, and no two share one.
pub proof fn backends_go_by_their_names(a: GpuBackend, b: GpuBackend)
    ensures
        GpuBackend::Cuda.name() == "cuda"@,
        GpuBackend::Vulkan.name() == "vulkan"@,
        GpuBackend::Rocm.name() == "hipblas"@,
        a.name() == b.name() ==> a == b,
{
    reveal_strlit("cuda");
    reveal_strlit("vulkan");
    reveal_strlit("hipblas");
    assert("cuda"@.len() == 4 && "vulkan"@.len() == 6 && "hipblas"@.len() == 7);
}

/// A number of kilobytes stands for 1024 times as many bytes, with white space
/// around it or not; a number too large stands for nothing.
pub proof fn kilobytes_are_1024_bytes(front: Seq<char>, n: nat, gap: Seq<char>, back: Seq<char>)
    requires
        text::blank(front),
        text::blank(gap),
        text::blank(back),
    ensures
        kb_value(front + (decimal::numeral(n) + gap + "kB"@) + back) == if n * 1024
            <= 0xffff_ffff_ffff_ffff {
            Some((n * 1024) as u64)
        } else {
            None
        },
{
    reveal_strlit("kB");
    let digits = decimal::numeral(n);
    let core = digits + gap + "kB"@;
    decimal::numeral_reads_back(n);
    assert(text::is_digit(digits[0]));
    assert(text::is_digit(digits[digits.len() - 1]));
    assert(core[0] == digits[0]);
    assert(core.last() == 'B');
    text::trimming_leaves_the_core(front, core, back);
    assert(core.subrange(core.len() - 2, core.len() as int) =~= "kB"@);
    assert(core.take(core.len() - 2) =~= Seq::<char>::empty() + digits + gap);
    text::trimming_leaves_the_core(Seq::empty(), digits, gap);
    decimal::numbers_are_digits(digits);
}

/// Only a value in kilobytes stands for something.
pub proof fn other_units_are_refused(s: Seq<char>)
    requires
        kb_value(s) is Some,
    ensures
        ({
            let t = text::trimmed(s);
            &&& t.len() > 2
            &&& t[t.len() - 2] == 'k'
            &&& t[t.len() - 1] == 'B'
            &&& kb_value(s)->0 % 1024 == 0
        }),
{
    reveal_strlit("kB");
    let t = text::trimmed(s);
    let end = t.subrange(t.len() - 2, t.len() as int);
    assert(end == "kB"@);
    assert(end[0] == t[t.len() - 2] && end[1] == t[t.len() - 1]);
    if t.len() == 2 {
        assert(t.take(0) =~= Seq::<char>::empty());
        assert(text::trimmed(t.take(0)) =~= Seq::<char>::empty());
    }
}

/// A line counts where it starts with the label, and a later one outranks an
/// earlier one; other lines do not matter.
pub proof fn the_last_labelled_line_counts(
    lines: Seq<Seq<char>>,
    label: Seq<char>,
    value: Seq<char>,
    other: Seq<char>,
)
    requires
        !label.is_prefix_of(other),
    ensures
        labelled(lines.push(label + value), label) == kb_value(value),
        labelled(lines.push(other), label) == labelled(lines, label),
        labelled(Seq::empty(), label) is None,
{
    let line = label + value;
    assert(line.subrange(0, label.len() as int) =~= label);
    assert(line.skip(label.len() as int) =~= value);
    assert(lines.push(other).drop_last() =~= lines);
}

/// The profile takes the total from the line for it and what is free from the line
/// for that; where one of them cannot be read, both count as zero.
pub proof fn memory_is_read_from_its_lines(text: &str, threads: usize, r: HardwareProfile)
    requires
        call_ensures(detect, (Some(text), Some(threads)), r),
    ensures
        ({
            let lines = text::split(text@, '\n');
            let total = labelled(lines, "MemTotal:"@);
            let free = labelled(lines, "MemAvailable:"@);
            if total is Some && free is Some {
                r.total_ram_bytes == total->0 && r.available_ram_bytes == free->0
            } else {
                r.total_ram_bytes == 0 && r.available_ram_bytes == 0
            }
        }),
        r.cpu_threads == threads,
        r.gpu is None,
{
}

/// What is read of the memory: both numbers, each from its own line, or nothing.
pub proof fn memory_lines_are_read(
    text: &str,
    r: Option<(u64, u64)>,
    line: &str,
    bytes: Option<u64>,
    backend: GpuBackend,
    tag: &'static str,
)
    requires
        call_ensures(parse_meminfo_str, (text,), r),
        call_ensures(parse_kb_line, (line,), bytes),
        call_ensures(GpuBackend::tag, (backend,), tag),
    ensures
        r is Some <==> labelled(text::split(text@, '\n'), "MemTotal:"@) is Some && labelled(
            text::split(text@, '\n'),
            "MemAvailable:"@,
        ) is Some,
        r matches Some(found) ==> labelled(text::split(text@, '\n'), "MemTotal:"@) == Some(found.0)
            && labelled(text::split(text@, '\n'), "MemAvailable:"@) == Some(found.1),
        bytes == kb_value(line@),
        tag@ == match backend {
            GpuBackend::Cuda => "cuda"@,
            GpuBackend::Vulkan => "vulkan"@,
            GpuBackend::Rocm => "hipblas"@,
        },
{
}

/// Where nothing can be read, the memory counts as zero and the threads as one.
pub proof fn the_unknown_counts_as_nothing(r: HardwareProfile)
    requires
        call_ensures(detect, (None::<&str>, None::<usize>), r),
    ensures
        r.total_ram_bytes == 0,
        r.available_ram_bytes == 0,
        r.cpu_threads == 1,
        r.gpu is None,
{
}

} // verus!
