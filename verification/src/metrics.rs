//! The shared snapshot of the latest metric displays, the sampler publishing
//! steps, and the label formatter that the periodic UI refresh renders.
use crate::format::char_digit;
use crate::format::format_cpu_percent;
use crate::format::format_ram_display;
use crate::format::lemma_ram_display_shape;
use crate::format::ram_tenths;
use crate::format::spec_cpu_display;
use crate::format::spec_ram_display;
use crate::format::spec_total_used;
use crate::format::total_used_bytes;
use crate::format::value_of_digit_chars;
use crate::text::all_digit_chars;
use crate::vm_stat::compressed_memory_bytes;
use crate::vm_stat::spec_compressed_memory;
use vstd::prelude::*;

verus! {

/// The latest display text for each metric. A plain value: reading the
/// shared state hands out an independent copy.
pub struct MetricSnapshot {
    pub cpu_display: String,
    pub ram_display: String,
}

impl MetricSnapshot {
    /// The state before any sampler has published: both fields empty.
    pub fn new() -> (r: MetricSnapshot)
        ensures
            r.cpu_display@ == Seq::<char>::empty(),
            r.ram_display@ == Seq::<char>::empty(),
    {
        MetricSnapshot { cpu_display: String::new(), ram_display: String::new() }
    }

    /// An equal, independent copy.
    pub fn duplicate(&self) -> (r: MetricSnapshot)
        ensures
            r.cpu_display@ == self.cpu_display@,
            r.ram_display@ == self.ram_display@,
    {
        MetricSnapshot {
            cpu_display: self.cpu_display.clone(),
            ram_display: self.ram_display.clone(),
        }
    }
}

/// The single shared record both samplers publish into and the UI refresh
/// reads from. Callers that share it across threads guard it with one lock;
/// each operation here is a short, field-local copy or overwrite, so a reader
/// always sees a fully formed snapshot, never a torn field.
pub struct SharedMetricsState {
    snapshot: MetricSnapshot,
}

impl SharedMetricsState {
    /// The CPU display text held now.
    pub closed spec fn cpu(&self) -> Seq<char> {
        self.snapshot.cpu_display@
    }

    /// The RAM display text held now.
    pub closed spec fn ram(&self) -> Seq<char> {
        self.snapshot.ram_display@
    }

    /// Fresh state with both displays empty.
    pub fn new() -> (r: SharedMetricsState)
        ensures
            r.cpu() == Seq::<char>::empty(),
            r.ram() == Seq::<char>::empty(),
    {
        SharedMetricsState { snapshot: MetricSnapshot::new() }
    }

    /// Copies both fields out. The copy is exactly the held snapshot: what
    /// the writers last published, never a partially written value.
    pub fn read(&self) -> (r: MetricSnapshot)
        ensures
            r.cpu_display@ == self.cpu(),
            r.ram_display@ == self.ram(),
    {
        self.snapshot.duplicate()
    }

    /// Overwrites the CPU display only.
    pub fn write_cpu(&mut self, text: String)
        ensures
            final(self).cpu() == text@,
            final(self).ram() == old(self).ram(),
    {
        self.snapshot.cpu_display = text;
    }

    /// Overwrites the RAM display only.
    pub fn write_ram(&mut self, text: String)
        ensures
            final(self).ram() == text@,
            final(self).cpu() == old(self).cpu(),
    {
        self.snapshot.ram_display = text;
    }
}

/// The plain-text fallback label shown when the icon glyphs are unavailable.
pub open spec fn spec_plain_label(cpu: Seq<char>, ram: Seq<char>) -> Seq<char> {
    "🖥️ "@ + cpu + " | 💾 "@ + ram
}

/// The text that follows the CPU glyph in the icon-composite label.
pub open spec fn spec_cpu_segment(cpu: Seq<char>) -> Seq<char> {
    " "@ + cpu + "  "@
}

/// The text that follows the RAM glyph in the icon-composite label.
pub open spec fn spec_ram_segment(ram: Seq<char>) -> Seq<char> {
    " "@ + ram
}

/// The label text for a snapshot: with icons, the two glyph-adjacent text
/// segments in order; without, the emoji fallback.
pub open spec fn spec_format(cpu: Seq<char>, ram: Seq<char>, has_icons: bool) -> Seq<char> {
    if has_icons {
        spec_cpu_segment(cpu) + spec_ram_segment(ram)
    } else {
        spec_plain_label(cpu, ram)
    }
}

/// The text placed after the CPU glyph when composing the attributed label.
pub fn cpu_segment(snapshot: &MetricSnapshot) -> (r: String)
    ensures
        r@ == spec_cpu_segment(snapshot.cpu_display@),
{
    let mut out = String::from_str(" ");
    out.append(snapshot.cpu_display.as_str());
    out.append("  ");
    proof {
        assert(out@ =~= spec_cpu_segment(snapshot.cpu_display@));
    }
    out
}

/// The text placed after the RAM glyph when composing the attributed label.
pub fn ram_segment(snapshot: &MetricSnapshot) -> (r: String)
    ensures
        r@ == spec_ram_segment(snapshot.ram_display@),
{
    let mut out = String::from_str(" ");
    out.append(snapshot.ram_display.as_str());
    proof {
        assert(out@ =~= spec_ram_segment(snapshot.ram_display@));
    }
    out
}

/// Renders the label for a snapshot. Pure: the result is a function of the
/// snapshot text and the icon flag alone.
pub fn format_label(snapshot: &MetricSnapshot, has_icons: bool) -> (r: String)
    ensures
        r@ == spec_format(snapshot.cpu_display@, snapshot.ram_display@, has_icons),
{
    if has_icons {
        let mut out = cpu_segment(snapshot);
        let tail = ram_segment(snapshot);
        out.append(tail.as_str());
        proof {
            assert(out@ =~= spec_format(snapshot.cpu_display@, snapshot.ram_display@, true));
        }
        out
    } else {
        let mut out = String::from_str("🖥️ ");
        out.append(snapshot.cpu_display.as_str());
        out.append(" | 💾 ");
        out.append(snapshot.ram_display.as_str());
        proof {
            assert(out@ =~= spec_format(snapshot.cpu_display@, snapshot.ram_display@, false));
        }
        out
    }
}

/// The formatter is deterministic: the same snapshot text and the same
/// icon-availability flag always give the identical label.
pub proof fn lemma_format_deterministic(
    cpu1: Seq<char>,
    ram1: Seq<char>,
    icons1: bool,
    cpu2: Seq<char>,
    ram2: Seq<char>,
    icons2: bool,
)
    requires
        cpu1 == cpu2,
        ram1 == ram2,
        icons1 == icons2,
    ensures
        spec_format(cpu1, ram1, icons1) == spec_format(cpu2, ram2, icons2),
{
}

/// One UI-refresh tick: reads the shared snapshot and renders the label the
/// status item is to show.
pub fn update_title(state: &SharedMetricsState, has_icons: bool) -> (r: String)
    ensures
        r@ == spec_format(state.cpu(), state.ram(), has_icons),
{
    let snapshot = state.read();
    format_label(&snapshot, has_icons)
}

/// One CPU sampler cycle after a successful utilization query, given in
/// hundredths of a percent: formats the rounded whole percent and publishes
/// it; the RAM display is untouched. A failed query skips the cycle and
/// leaves the previous value standing, so no step runs for it.
pub fn cpu_sample_step(state: &mut SharedMetricsState, centi_percent: u64)
    requires
        centi_percent <= 10000,
    ensures
        final(state).cpu() == spec_cpu_display(centi_percent as int),
        final(state).ram() == old(state).ram(),
{
    let text = format_cpu_percent(centi_percent);
    state.write_cpu(text);
}

/// The byte total a RAM sampler cycle publishes: the base used-memory figure
/// plus the report's compressed-memory contribution, when a report is at hand
/// and parses; otherwise the base figure alone.
pub open spec fn spec_ram_step_total(base: int, report: Option<Seq<u8>>) -> int {
    match report {
        None => base,
        Some(rep) => match spec_compressed_memory(rep) {
            None => base,
            Some(c) => spec_total_used(base, c as int),
        },
    }
}

/// The report bytes a RAM sampler cycle was handed, if any.
pub open spec fn spec_report_view(report: Option<&Vec<u8>>) -> Option<Seq<u8>> {
    match report {
        None => None,
        Some(rep) => Some(rep@),
    }
}

/// One RAM sampler cycle after a successful used-memory query: adds the
/// compressed-memory contribution parsed from the statistics report, when one
/// was captured, formats the saturated total as gigabytes and publishes it;
/// the CPU display is untouched.
pub fn ram_sample_step(state: &mut SharedMetricsState, used_bytes: u64, report: Option<&Vec<u8>>)
    ensures
        final(state).ram() == spec_ram_display(
            spec_ram_step_total(used_bytes as int, spec_report_view(report)),
        ),
        final(state).cpu() == old(state).cpu(),
{
    let compressed = match report {
        None => None,
        Some(rep) => compressed_memory_bytes(rep.as_slice()),
    };
    let total = match compressed {
        None => used_bytes,
        Some(c) => total_used_bytes(used_bytes, c),
    };
    let text = format_ram_display(total);
    state.write_ram(text);
}

/// For a RAM cycle whose report yields a compressed contribution `c` with
/// `base + c` still representable, the published total is exactly `base + c`
/// and the published display is its rounded binary-gigabyte rendering: one
/// or more digits, a dot, one digit, then "GB", the digits reading back as
/// the half-up-rounded tenths of `(base + c) / 2^30`. Above the
/// representable range the total saturates instead.
pub proof fn lemma_ram_step_display(base: u64, rep: Seq<u8>, c: u64)
    requires
        spec_compressed_memory(rep) == Some(c),
        base + c <= u64::MAX,
    ensures
        spec_ram_step_total(base as int, Some(rep)) == base + c,
        ({
            let s = spec_ram_display(base + c);
            let t = ram_tenths(base + c);
            let k = s.len() - 4;
            &&& 1 <= k
            &&& all_digit_chars(s.take(k))
            &&& s[k] == '.'
            &&& '0' <= s[k + 1] <= '9'
            &&& s[k + 2] == 'G'
            &&& s[k + 3] == 'B'
            &&& value_of_digit_chars(s.take(k)) == t / 10
            &&& char_digit(s[k + 1]) == t % 10
            &&& t == ((base + c) * 10 + 0x2000_0000) / 0x4000_0000
        }),
{
    lemma_ram_display_shape((base + c) as u64, 0);
}

} // verus!
