//! Host telemetry.

use vstd::prelude::*;

verus! {

/// The space of one disk, in bytes.
#[derive(Clone, Copy, Debug)]
pub struct DiskSpace {
    pub total: u64,
    pub available: u64,
}

/// What the host tells about itself at one moment.
#[derive(Debug)]
pub struct HostReading {
    /// The bits of the CPU load in per cent, a single-precision number.
    pub cpu_percent_bits: u32,
    pub mem_used: u64,
    pub mem_total: u64,
    pub disks: Vec<DiskSpace>,
    pub uptime_secs: u64,
    /// The bits of the one-minute load average, a double-precision number.
    pub load_one_bits: u64,
    pub hostname: Option<String>,
}

/// The space of all disks together.
pub open spec fn total_space(disks: Seq<DiskSpace>) -> nat
    decreases disks.len(),
{
    if disks.len() == 0 {
        0
    } else {
        total_space(disks.drop_last()) + disks.last().total as nat
    }
}

/// The free space of all disks together.
pub open spec fn available_space(disks: Seq<DiskSpace>) -> nat
    decreases disks.len(),
{
    if disks.len() == 0 {
        0
    } else {
        available_space(disks.drop_last()) + disks.last().available as nat
    }
}

/// The host's telemetry.
#[derive(Debug)]
pub struct Metrics {
    /// The bits of the CPU load in per cent, a single-precision number.
    pub cpu_percent_bits: u32,
    pub mem_used: u64,
    pub mem_total: u64,
    pub disk_used: u64,
    pub disk_total: u64,
    pub uptime_secs: u64,
    /// The bits of the one-minute load average, a double-precision number.
    pub load_one_bits: u64,
    pub hostname: String,
}

/// What [`Metrics`] hold.
pub struct MetricsView {
    pub cpu_percent_bits: u32,
    pub mem_used: u64,
    pub mem_total: u64,
    pub disk_used: u64,
    pub disk_total: u64,
    pub uptime_secs: u64,
    pub load_one_bits: u64,
    pub hostname: Seq<char>,
}

impl View for Metrics {
    type V = MetricsView;

    open spec fn view(&self) -> MetricsView {
        MetricsView {
            cpu_percent_bits: self.cpu_percent_bits,
            mem_used: self.mem_used,
            mem_total: self.mem_total,
            disk_used: self.disk_used,
            disk_total: self.disk_total,
            uptime_secs: self.uptime_secs,
            load_one_bits: self.load_one_bits,
            hostname: self.hostname@,
        }
    }
}

impl Clone for Metrics {
    fn clone(&self) -> (r: Self)
        ensures
            r == *self,
    {
        Metrics {
            cpu_percent_bits: self.cpu_percent_bits,
            mem_used: self.mem_used,
            mem_total: self.mem_total,
            disk_used: self.disk_used,
            disk_total: self.disk_total,
            uptime_secs: self.uptime_secs,
            load_one_bits: self.load_one_bits,
            hostname: self.hostname.clone(),
        }
    }
}

/// Telemetry before anything was read: zero throughout, and no name.
pub open spec fn no_metrics() -> MetricsView {
    MetricsView {
        cpu_percent_bits: 0,
        mem_used: 0,
        mem_total: 0,
        disk_used: 0,
        disk_total: 0,
        uptime_secs: 0,
        load_one_bits: 0,
        hostname: seq![],
    }
}

impl Default for Metrics {
    fn default() -> (r: Self)
        ensures
            r@ == no_metrics(),
            r.cpu_percent_bits == 0,
            r.mem_used == 0,
            r.mem_total == 0,
            r.disk_used == 0,
            r.disk_total == 0,
            r.uptime_secs == 0,
            r.load_one_bits == 0,
            r.hostname@.len() == 0,
    {
        Metrics {
            cpu_percent_bits: 0,
            mem_used: 0,
            mem_total: 0,
            disk_used: 0,
            disk_total: 0,
            uptime_secs: 0,
            load_one_bits: 0,
            hostname: String::new(),
        }
    }
}

/// Whether the space of the disks can be counted in 64 bits.
pub open spec fn countable(disks: Seq<DiskSpace>) -> bool {
    total_space(disks) <= u64::MAX && available_space(disks) <= u64::MAX
}

/// The telemetry of a reading: what is not free on the disks is used, and a host
/// without a name is called `smolofis`.
pub open spec fn sampled(reading: HostReading) -> MetricsView {
    let total = total_space(reading.disks@);
    let available = available_space(reading.disks@);
    MetricsView {
        cpu_percent_bits: reading.cpu_percent_bits,
        mem_used: reading.mem_used,
        mem_total: reading.mem_total,
        disk_used: if available <= total {
            (total - available) as u64
        } else {
            0
        },
        disk_total: total as u64,
        uptime_secs: reading.uptime_secs,
        load_one_bits: reading.load_one_bits,
        hostname: match reading.hostname {
            Some(name) => name@,
            None => "smolofis"@,
        },
    }
}

/// The space of the disks of two lists is that of one and that of the other, and one
/// disk has its own.
pub proof fn space_adds_up(a: Seq<DiskSpace>, b: Seq<DiskSpace>, disk: DiskSpace)
    ensures
        total_space(a + b) == total_space(a) + total_space(b),
        available_space(a + b) == available_space(a) + available_space(b),
        total_space(seq![disk]) == disk.total,
        available_space(seq![disk]) == disk.available,
        total_space(seq![]) == 0,
        available_space(seq![]) == 0,
    decreases b.len(),
{
    reveal_with_fuel(total_space, 2);
    reveal_with_fuel(available_space, 2);
    assert(seq![disk].drop_last() == Seq::<DiskSpace>::empty());
    if b.len() == 0 {
        assert(a + b == a);
    } else {
        assert((a + b).drop_last() == a + b.drop_last());
        space_adds_up(a, b.drop_last(), disk);
    }
}

/// A disk more, wherever it stands in the list, is its space more.
pub proof fn disk_counts_wherever_it_stands(
    a: Seq<DiskSpace>,
    disk: DiskSpace,
    b: Seq<DiskSpace>,
)
    ensures
        total_space(a + seq![disk] + b) == total_space(a + b) + disk.total,
        available_space(a + seq![disk] + b) == available_space(a + b) + disk.available,
{
    space_adds_up(a + seq![disk], b, disk);
    space_adds_up(a, seq![disk], disk);
    space_adds_up(a, b, disk);
}

/// The telemetry is what was read. Of the disks it gives the space of all together,
/// and as used what of this is not free; a host without a name gets one.
pub proof fn telemetry_is_what_was_read(reading: HostReading)
    requires
        total_space(reading.disks@) <= u64::MAX,
        available_space(reading.disks@) <= u64::MAX,
    ensures
        ({
            let m = sampled(reading);
            let (total, free) = (total_space(reading.disks@), available_space(reading.disks@));
            &&& m.cpu_percent_bits == reading.cpu_percent_bits
            &&& m.mem_used == reading.mem_used
            &&& m.mem_total == reading.mem_total
            &&& m.disk_total == total
            &&& free <= total ==> m.disk_used + free == total
            &&& free > total ==> m.disk_used == 0
            &&& m.uptime_secs == reading.uptime_secs
            &&& m.load_one_bits == reading.load_one_bits
            &&& reading.hostname matches Some(name) ==> m.hostname == name@
            &&& reading.hostname is None ==> m.hostname == "smolofis"@
        }),
{
}

/// Telemetry of a host with a disk more: the total is its total more.
pub proof fn disk_more_in_telemetry(reading: HostReading, disk: DiskSpace, more: HostReading)
    requires
        more.disks@ == reading.disks@.push(disk),
        total_space(more.disks@) <= u64::MAX,
    ensures
        sampled(more).disk_total == sampled(reading).disk_total + disk.total,
{
    assert(more.disks@ == reading.disks@ + seq![disk]);
    space_adds_up(reading.disks@, seq![disk], disk);
}

/// Never more is used on the disks than they hold, and used and free space make up
/// the whole unless more is called free than there is.
pub proof fn disk_space_adds_up(reading: HostReading)
    requires
        countable(reading.disks@),
    ensures
        sampled(reading).disk_used <= sampled(reading).disk_total,
        sampled(reading).disk_total == total_space(reading.disks@),
        available_space(reading.disks@) <= total_space(reading.disks@) ==> sampled(
            reading,
        ).disk_used + available_space(reading.disks@) == sampled(reading).disk_total,
{
}

proof fn lemma_space_of_prefix(disks: Seq<DiskSpace>, n: int)
    requires
        0 <= n <= disks.len(),
    ensures
        total_space(disks.take(n)) <= total_space(disks),
        available_space(disks.take(n)) <= available_space(disks),
    decreases disks.len(),
{
    if n < disks.len() {
        lemma_space_of_prefix(disks.drop_last(), n);
        assert(disks.drop_last().take(n) == disks.take(n));
    } else {
        assert(disks.take(n) == disks);
    }
}

/// The total and the free space of the disks, `None` where it cannot be counted in
/// 64 bits.
fn checked_space(disks: &Vec<DiskSpace>) -> (r: Option<(u64, u64)>)
    ensures
        match r {
            Some((total, available)) => {
                &&& total == total_space(disks@)
                &&& available == available_space(disks@)
            },
            None => !countable(disks@),
        },
{
    let n: usize = disks.len();
    let mut total: u64 = 0;
    let mut available: u64 = 0;
    let mut i: usize = 0;
    while i < n
        invariant
            i <= n,
            n == disks@.len(),
            total == total_space(disks@.take(i as int)),
            available == available_space(disks@.take(i as int)),
        decreases n - i,
    {
        proof {
            assert(disks@.take(i + 1).drop_last() == disks@.take(i as int));
            lemma_space_of_prefix(disks@, i + 1);
        }
        match (total.checked_add(disks[i].total), available.checked_add(disks[i].available)) {
            (Some(t), Some(a)) => {
                total = t;
                available = a;
            },
            _ => {
                return None;
            },
        }
        i = i + 1;
    }
    proof {
        assert(disks@.take(n as int) == disks@);
    }
    Some((total, available))
}

/// Whether the space of the disks can be counted in 64 bits.
pub fn is_countable(disks: &Vec<DiskSpace>) -> (r: bool)
    ensures
        r == countable(disks@),
        r == (total_space(disks@) <= 0xffff_ffff_ffff_ffff && available_space(disks@)
            <= 0xffff_ffff_ffff_ffff),
{
    checked_space(disks).is_some()
}

impl Metrics {
    /// The telemetry of a reading.
    pub fn sample(reading: HostReading) -> (r: Metrics)
        requires
            countable(reading.disks@),
        ensures
            r@ == sampled(reading),
            r.cpu_percent_bits == reading.cpu_percent_bits,
            r.mem_used == reading.mem_used,
            r.mem_total == reading.mem_total,
            r.disk_total == total_space(reading.disks@),
            available_space(reading.disks@) <= r.disk_total ==> r.disk_used + available_space(
                reading.disks@,
            ) == r.disk_total,
            available_space(reading.disks@) > r.disk_total ==> r.disk_used == 0,
            r.uptime_secs == reading.uptime_secs,
            r.load_one_bits == reading.load_one_bits,
            reading.hostname matches Some(name) ==> r.hostname@ == name@,
            reading.hostname is None ==> r.hostname@ == "smolofis"@,
    {
        let (total, available): (u64, u64) = checked_space(&reading.disks).unwrap();
        Metrics {
            cpu_percent_bits: reading.cpu_percent_bits,
            mem_used: reading.mem_used,
            mem_total: reading.mem_total,
            disk_used: total.saturating_sub(available),
            disk_total: total,
            uptime_secs: reading.uptime_secs,
            load_one_bits: reading.load_one_bits,
            hostname: match reading.hostname {
                Some(name) => name,
                None => "smolofis".to_owned(),
            },
        }
    }
}

} // verus!
