use vstd::prelude::*;

use crate::numbers::parse_unsigned_span;
use crate::text::{split_lines, split_words, chars_of, trim_span, Trimmed};
use crate::numbers;
use crate::text;

verus! {

/// One `cpu` line of `/proc/stat`: time spent in each state, in clock ticks.
#[derive(Clone, Copy, Debug, PartialEq, Eq, Structural)]
pub struct CpuStat {
    pub user: u64,
    pub nice: u64,
    pub system: u64,
    pub idle: u64,
    pub iowait: u64,
    pub irq: u64,
    pub softirq: u64,
    pub steal: u64,
}

impl CpuStat {
    /// All ticks of the line.
    pub open spec fn total_ticks(&self) -> int {
        self.user + self.nice + self.system + self.idle + self.iowait + self.irq + self.softirq
            + self.steal
    }

    /// The ticks in which the CPU did no work.
    pub open spec fn idle_ticks(&self) -> int {
        self.idle + self.iowait
    }

    /// The sum of all ticks fits in a `u64`.
    pub fn total_fits(&self) -> (b: bool)
        ensures
            b == (self.total_ticks() <= u64::MAX),
    {
        let t: u128 = self.user as u128 + self.nice as u128 + self.system as u128 + self.idle as u128
            + self.iowait as u128 + self.irq as u128 + self.softirq as u128 + self.steal as u128;
        t <= u64::MAX as u128
    }

    /// Sum of all ticks.
    pub fn total(&self) -> (t: u64)
        requires
            self.total_ticks() <= u64::MAX,
        ensures
            t == self.total_ticks(),
    {
        self.user + self.nice + self.system + self.idle + self.iowait + self.irq + self.softirq
            + self.steal
    }

    /// Idle ticks: `idle` and `iowait`.
    pub fn idle_total(&self) -> (t: u64)
        requires
            self.idle_ticks() <= u64::MAX,
        ensures
            t == self.idle_ticks(),
    {
        self.idle + self.iowait
    }
}

// ---------------------------------------------------------------------------
// /proc/stat
// ---------------------------------------------------------------------------

pub open spec fn is_ascii_digit(c: char) -> bool {
    '0' <= c && c <= '9'
}

/// A per-CPU line of `/proc/stat`: `cpu` followed by a digit.
pub open spec fn is_cpu_line(l: Seq<char>) -> bool {
    &&& l.len() >= 4
    &&& l[0] == 'c'
    &&& l[1] == 'p'
    &&& l[2] == 'u'
    &&& is_ascii_digit(l[3])
}

/// Field `j` of a line split into words: the word read as a `u64`, or 0
/// when the word is missing or is not a number.
pub open spec fn stat_field(w: Seq<Seq<char>>, j: int) -> u64 {
    if 0 <= j < w.len() {
        match numbers::parse_unsigned(w[j], 10, u64::MAX as nat) {
            Some(v) => v as u64,
            None => 0,
        }
    } else {
        0
    }
}

/// The counters of a `cpuN` line, in the order the kernel writes them.
pub open spec fn stat_of_line(l: Seq<char>) -> CpuStat {
    let w = text::words(l);
    CpuStat {
        user: stat_field(w, 1),
        nice: stat_field(w, 2),
        system: stat_field(w, 3),
        idle: stat_field(w, 4),
        iowait: stat_field(w, 5),
        irq: stat_field(w, 6),
        softirq: stat_field(w, 7),
        steal: stat_field(w, 8),
    }
}

/// The statistics of each `cpuN` line of `content`, in order.
pub open spec fn proc_stat(content: Seq<char>) -> Seq<CpuStat> {
    text::lines(content).filter_map(
        |l: Seq<char>|
            if is_cpu_line(l) {
                Some(stat_of_line(l))
            } else {
                None
            },
    )
}

fn read_field(s: &Vec<char>, ws: &Vec<(usize, usize)>, j: usize, Ghost(lo): Ghost<int>, Ghost(hi): Ghost<int>) -> (v: u64)
    requires
        0 <= lo <= hi <= s.len(),
        ws.len() == text::words(s@.subrange(lo, hi)).len(),
        forall|i: int|
            0 <= i < ws.len() ==> {
                &&& lo <= (#[trigger] ws[i]).0 <= ws[i].1 <= hi
                &&& s@.subrange(ws[i].0 as int, ws[i].1 as int) == text::words(s@.subrange(lo, hi))[i]
            },
    ensures
        v == stat_field(text::words(s@.subrange(lo, hi)), j as int),
{
    if j < ws.len() {
        let (a, b) = ws[j];
        match parse_unsigned_span(s, a, b, 10, u64::MAX) {
            Some(v) => v,
            None => 0,
        }
    } else {
        0
    }
}

/// Reads the per-CPU lines of `/proc/stat`. A counter that is missing or
/// is not a number counts as 0.
pub fn parse_proc_stat(content: &str) -> (r: Vec<CpuStat>)
    ensures
        r@ == proc_stat(content@),
{
    let s = chars_of(content);
    let ls = split_lines(&s, 0, s.len());
    let ghost all = text::lines(s@.subrange(0, s.len() as int));
    proof {
        assert(s@.subrange(0, s.len() as int) =~= content@);
    }
    let ghost f = |l: Seq<char>|
        if is_cpu_line(l) {
            Some(stat_of_line(l))
        } else {
            None
        };
    let mut r: Vec<CpuStat> = Vec::new();
    let mut i: usize = 0;
    while i < ls.len()
        invariant
            0 <= i <= ls.len(),
            all == text::lines(content@),
            s@ == content@,
            ls.len() == all.len(),
            forall|k: int|
                0 <= k < ls.len() ==> {
                    &&& 0 <= (#[trigger] ls[k]).0 <= ls[k].1 <= s.len()
                    &&& s@.subrange(ls[k].0 as int, ls[k].1 as int) == all[k]
                },
            f == (|l: Seq<char>|
                if is_cpu_line(l) {
                    Some(stat_of_line(l))
                } else {
                    None
                }),
            r@ == all.take(i as int).filter_map(f),
        decreases ls.len() - i,
    {
        let (a, b) = ls[i];
        let ghost l = s@.subrange(a as int, b as int);
        assert(all.take(i + 1).drop_last() =~= all.take(i as int));
        assert(all.take(i + 1).last() == l);
        if b - a >= 4 && s[a] == 'c' && s[a + 1] == 'p' && s[a + 2] == 'u' && '0' <= s[a + 3]
            && s[a + 3] <= '9' {
            assert(is_cpu_line(l));
            let ws = split_words(&s, a, b);
            let stat = CpuStat {
                user: read_field(&s, &ws, 1, Ghost(a as int), Ghost(b as int)),
                nice: read_field(&s, &ws, 2, Ghost(a as int), Ghost(b as int)),
                system: read_field(&s, &ws, 3, Ghost(a as int), Ghost(b as int)),
                idle: read_field(&s, &ws, 4, Ghost(a as int), Ghost(b as int)),
                iowait: read_field(&s, &ws, 5, Ghost(a as int), Ghost(b as int)),
                irq: read_field(&s, &ws, 6, Ghost(a as int), Ghost(b as int)),
                softirq: read_field(&s, &ws, 7, Ghost(a as int), Ghost(b as int)),
                steal: read_field(&s, &ws, 8, Ghost(a as int), Ghost(b as int)),
            };
            assert(stat == stat_of_line(l));
            r.push(stat);
        } else {
            assert(!is_cpu_line(l));
        }
        i = i + 1;
    }
    assert(all.take(ls.len() as int) =~= all);
    r
}

/// A line counts as a CPU of its own exactly when it starts with `cpu`
/// and an ASCII digit (`'0'` to `'9'`, what `char::is_ascii_digit`
/// accepts): the text `cpu<d><rest>` on one line gives one entry for every
/// digit `d`, and none for any other character.
pub proof fn lemma_cpu_line_digits(d: char, rest: Seq<char>)
    requires
        forall|i: int| 0 <= i < rest.len() ==> rest[i] != '\n',
        d != '\n',
    ensures
        ('0' <= d && d <= '9') ==> proc_stat(seq!['c', 'p', 'u', d] + rest).len() == 1,
        !('0' <= d && d <= '9') ==> proc_stat(seq!['c', 'p', 'u', d] + rest).len() == 0,
{
    let l = seq!['c', 'p', 'u', d] + rest;
    assert forall|i: int| 0 <= i < l.len() implies l[i] != '\n' by {
        if i >= 4 {
            assert(l[i] == rest[i - 4]);
        }
    }
    text::lemma_single_line(l);
    assert(seq![l].drop_last() =~= Seq::<Seq<char>>::empty());
    assert(l[0] == 'c' && l[1] == 'p' && l[2] == 'u' && l[3] == d);
    assert(is_cpu_line(l) == ('0' <= d && d <= '9'));
    assert(seq![l].last() == l);
    reveal_with_fuel(Seq::filter_map, 2);
}

/// The number written as the `j`-th word of `l` (words counted from 0), or
/// 0 when there is no such word or it is not a number.
pub open spec fn number_at_word(l: Seq<char>, j: int) -> int {
    let w = text::words(l);
    if 0 <= j < w.len() && numbers::parse_unsigned(w[j], 10, u64::MAX as nat) is Some {
        numbers::parse_unsigned(w[j], 10, u64::MAX as nat)->0 as int
    } else {
        0
    }
}

/// The counters of a per-CPU line are its numbers in the kernel's order:
/// the word after the `cpuN` label is `user`, then `nice`, `system`,
/// `idle`, `iowait`, `irq`, `softirq`, `steal`.
pub proof fn lemma_cpu_line_counters(d: char, rest: Seq<char>)
    requires
        forall|i: int| 0 <= i < rest.len() ==> rest[i] != '\n',
        '0' <= d && d <= '9',
    ensures
        ({
            let l = seq!['c', 'p', 'u', d] + rest;
            let e = proc_stat(l)[0];
            &&& e.user == number_at_word(l, 1)
            &&& e.nice == number_at_word(l, 2)
            &&& e.system == number_at_word(l, 3)
            &&& e.idle == number_at_word(l, 4)
            &&& e.iowait == number_at_word(l, 5)
            &&& e.irq == number_at_word(l, 6)
            &&& e.softirq == number_at_word(l, 7)
            &&& e.steal == number_at_word(l, 8)
        }),
{
    lemma_cpu_line_digits(d, rest);
    let l = seq!['c', 'p', 'u', d] + rest;
    assert forall|i: int| 0 <= i < l.len() implies l[i] != '\n' by {
        if i >= 4 {
            assert(l[i] == rest[i - 4]);
        }
    }
    text::lemma_single_line(l);
    assert(seq![l].drop_last() =~= Seq::<Seq<char>>::empty());
    assert(seq![l].last() == l);
    assert(is_cpu_line(l));
    reveal_with_fuel(Seq::filter_map, 2);
    assert(proc_stat(l)[0] == stat_of_line(l));
}

// ---------------------------------------------------------------------------
// Usage between two samples
// ---------------------------------------------------------------------------

/// Ticks that passed between two samples of one CPU, and how many of them
/// were busy. The load in percent is `100 * busy / total` (0 when `total`
/// is 0).
#[derive(Clone, Copy, Debug, PartialEq, Eq, Structural)]
pub struct UsageDelta {
    pub busy: u64,
    pub total: u64,
}

pub open spec fn saturating_diff(a: int, b: int) -> int {
    if a >= b {
        a - b
    } else {
        0
    }
}

/// The ticks between `prev` and `curr`: each count goes down to 0 rather
/// than below it, as `u64::saturating_sub` does.
pub open spec fn usage_delta(prev: CpuStat, curr: CpuStat) -> UsageDelta {
    let total = saturating_diff(curr.total_ticks(), prev.total_ticks());
    let idle = saturating_diff(curr.idle_ticks(), prev.idle_ticks());
    UsageDelta { busy: saturating_diff(total, idle) as u64, total: total as u64 }
}

/// Busy and total ticks between two samples of one CPU.
pub fn cpu_usage_delta(prev: &CpuStat, curr: &CpuStat) -> (d: UsageDelta)
    requires
        prev.total_ticks() <= u64::MAX,
        curr.total_ticks() <= u64::MAX,
    ensures
        d == usage_delta(*prev, *curr),
{
    let total = curr.total().saturating_sub(prev.total());
    let idle = curr.idle_total().saturating_sub(prev.idle_total());
    UsageDelta { busy: total.saturating_sub(idle), total }
}

/// The load can never exceed the time that passed: `busy <= total`, so the
/// percentage lies between 0 and 100.
pub proof fn lemma_busy_within_total(prev: CpuStat, curr: CpuStat)
    requires
        prev.total_ticks() <= u64::MAX,
        curr.total_ticks() <= u64::MAX,
    ensures
        usage_delta(prev, curr).busy <= usage_delta(prev, curr).total,
{
}

/// Between two samples whose counters only grew, the total is the growth of
/// all eight counters, and the busy ticks are that total less the growth of
/// `idle` and `iowait`: time spent in any other state (`user`, `nice`,
/// `system`, `irq`, `softirq`, `steal`) counts as busy.
pub proof fn lemma_usage_delta_counters(prev: CpuStat, curr: CpuStat)
    requires
        prev.total_ticks() <= u64::MAX,
        curr.total_ticks() <= u64::MAX,
        prev.user <= curr.user,
        prev.nice <= curr.nice,
        prev.system <= curr.system,
        prev.idle <= curr.idle,
        prev.iowait <= curr.iowait,
        prev.irq <= curr.irq,
        prev.softirq <= curr.softirq,
        prev.steal <= curr.steal,
    ensures
        usage_delta(prev, curr).total == (curr.user - prev.user) + (curr.nice - prev.nice) + (
        curr.system - prev.system) + (curr.idle - prev.idle) + (curr.iowait - prev.iowait) + (
        curr.irq - prev.irq) + (curr.softirq - prev.softirq) + (curr.steal - prev.steal),
        usage_delta(prev, curr).busy == (curr.user - prev.user) + (curr.nice - prev.nice) + (
        curr.system - prev.system) + (curr.irq - prev.irq) + (curr.softirq - prev.softirq) + (
        curr.steal - prev.steal),
{
}

/// The idle ticks of a sample are part of its total.
pub proof fn lemma_idle_within_total(s: CpuStat)
    ensures
        s.idle_ticks() <= s.total_ticks(),
{
}

/// The usage of each CPU between two readings of `/proc/stat`, paired by
/// position; a CPU present in only one reading is left out.
pub fn cpu_usage_deltas(prev: &Vec<CpuStat>, curr: &Vec<CpuStat>) -> (r: Vec<UsageDelta>)
    requires
        forall|i: int| 0 <= i < prev.len() ==> (#[trigger] prev[i]).total_ticks() <= u64::MAX,
        forall|i: int| 0 <= i < curr.len() ==> (#[trigger] curr[i]).total_ticks() <= u64::MAX,
    ensures
        r.len() == if prev.len() < curr.len() {
            prev.len()
        } else {
            curr.len()
        },
        forall|i: int| 0 <= i < r.len() ==> #[trigger] r[i] == usage_delta(prev[i], curr[i]),
{
    let n = if prev.len() < curr.len() {
        prev.len()
    } else {
        curr.len()
    };
    let mut r: Vec<UsageDelta> = Vec::new();
    let mut i: usize = 0;
    while i < n
        invariant
            0 <= i <= n,
            n <= prev.len(),
            n <= curr.len(),
            forall|k: int| 0 <= k < prev.len() ==> (#[trigger] prev[k]).total_ticks() <= u64::MAX,
            forall|k: int| 0 <= k < curr.len() ==> (#[trigger] curr[k]).total_ticks() <= u64::MAX,
            r.len() == i,
            forall|k: int| 0 <= k < i ==> #[trigger] r[k] == usage_delta(prev[k], curr[k]),
        decreases n - i,
    {
        r.push(cpu_usage_delta(&prev[i], &curr[i]));
        i = i + 1;
    }
    r
}

// ---------------------------------------------------------------------------
// Clock frequency
// ---------------------------------------------------------------------------

/// The frequency in MHz that `scaling_cur_freq` (in kHz) shows.
pub open spec fn freq_mhz(text: Seq<char>) -> Option<u64> {
    match numbers::parse_unsigned(text::trim(text, Trimmed::Whitespace), 10, u64::MAX as nat) {
        Some(khz) => Some((khz / 1000) as u64),
        None => None,
    }
}

/// The file holds kHz; the result is the whole number of MHz in it: `m`
/// with `1000 * m <= khz < 1000 * (m + 1)`. Text that is not a number
/// gives nothing.
pub proof fn lemma_freq_whole_mhz(text: Seq<char>)
    ensures
        numbers::parse_unsigned(text::trim(text, Trimmed::Whitespace), 10, u64::MAX as nat) is None
            ==> freq_mhz(text) is None,
        numbers::parse_unsigned(text::trim(text, Trimmed::Whitespace), 10, u64::MAX as nat) matches Some(
            khz,
        ) ==> freq_mhz(text) matches Some(m) && 1000 * m <= khz < 1000 * (m + 1),
{
}

/// Reads a cpufreq `scaling_cur_freq` file: kHz, as a decimal number with
/// white space around it, converted to whole MHz.
pub fn cpu_freq_mhz(text: &str) -> (r: Option<u64>)
    ensures
        r == freq_mhz(text@),
{
    let s = chars_of(text);
    let (a, b) = trim_span(&s, 0, s.len(), Trimmed::Whitespace);
    proof {
        assert(s@.subrange(0, s.len() as int) =~= text@);
    }
    match parse_unsigned_span(&s, a, b, 10, u64::MAX) {
        Some(khz) => Some(khz / 1000),
        None => None,
    }
}

} // verus!
