use vstd::prelude::*;

use crate::text::{chars_of, contains_span, push_str, span_equals, split_words, string_of_span};
use crate::translations::{is_polish, Translations};
use crate::text;
use crate::translations;

verus! {

broadcast use vstd::string::group_string_axioms;

// ---------------------------------------------------------------------------
// Order of the sensors
// ---------------------------------------------------------------------------

/// Rank of a sensor in the temperature table: CPU sensors (`coretemp`)
/// first, then GPU sensors (`amdgpu`), then the rest.
pub open spec fn component_priority(label: Seq<char>) -> u8 {
    if text::contains(label, "coretemp"@) {
        1
    } else if text::contains(label, "amdgpu"@) {
        2
    } else {
        3
    }
}

fn holds(s: &Vec<char>, lit: &str) -> (b: bool)
    ensures
        b == text::contains(s@, lit@),
{
    let n = chars_of(lit);
    proof {
        assert(s@.subrange(0, s.len() as int) =~= s@);
    }
    contains_span(s, 0, s.len(), &n)
}

fn is_lit(s: &Vec<char>, lit: &str) -> (b: bool)
    ensures
        b == (s@ == lit@),
{
    let n = chars_of(lit);
    proof {
        assert(s@.subrange(0, s.len() as int) =~= s@);
    }
    span_equals(s, 0, s.len(), &n)
}

/// Rank of the sensor `label` (1 CPU, 2 GPU, 3 other).
pub fn get_component_priority(label: &str) -> (p: u8)
    ensures
        p == component_priority(label@),
        1 <= p <= 3,
{
    let s = chars_of(label);
    if holds(&s, "coretemp") {
        1
    } else if holds(&s, "amdgpu") {
        2
    } else {
        3
    }
}

/// CPU sensors (`coretemp` in the label) come first, then GPU sensors
/// (`amdgpu`), then all others; a label with both counts as a CPU sensor.
pub proof fn lemma_priority_ranks(label: Seq<char>)
    ensures
        text::contains(label, "coretemp"@) ==> component_priority(label) == 1,
        !text::contains(label, "coretemp"@) && text::contains(label, "amdgpu"@) ==> component_priority(
            label,
        ) == 2,
        !text::contains(label, "coretemp"@) && !text::contains(label, "amdgpu"@) ==> component_priority(
            label,
        ) == 3,
{
}

/// `r` lists the indices of `ps` sorted by priority, as a stable sort
/// does: each index exactly once, lower priorities first, and indices of
/// equal priority in their original order.
pub open spec fn is_priority_order(ps: Seq<u8>, r: Seq<usize>) -> bool {
    &&& r.len() == ps.len()
    &&& forall|i: int| 0 <= i < r.len() ==> #[trigger] r[i] < ps.len()
    &&& forall|j: usize| j < ps.len() ==> #[trigger] r.contains(j)
    &&& forall|i: int, j: int| 0 <= i < j < r.len() ==> ps[#[trigger] r[i] as int] <= ps[#[trigger] r[j] as int]
    &&& forall|i: int, j: int|
        0 <= i < j < r.len() && ps[#[trigger] r[i] as int] == ps[#[trigger] r[j] as int] ==> r[i] < r[j]
}

/// The priorities of a list of sensor labels.
pub open spec fn priorities(labels: Seq<String>) -> Seq<u8> {
    Seq::new(labels.len(), |i: int| component_priority(labels[i]@))
}

spec fn count_lt(ps: Seq<u8>, m: int, k: int) -> nat
    decreases m,
{
    if m <= 0 {
        0
    } else {
        count_lt(ps, m - 1, k) + if ps[m - 1] < k {
            1nat
        } else {
            0nat
        }
    }
}

spec fn count_eq(ps: Seq<u8>, m: int, k: int) -> nat
    decreases m,
{
    if m <= 0 {
        0
    } else {
        count_eq(ps, m - 1, k) + if ps[m - 1] == k {
            1nat
        } else {
            0nat
        }
    }
}

proof fn lemma_count_split(ps: Seq<u8>, m: int, k: int)
    ensures
        count_lt(ps, m, k) + count_eq(ps, m, k) == count_lt(ps, m, k + 1),
    decreases m,
{
    if m > 0 {
        lemma_count_split(ps, m - 1, k);
    }
}

proof fn lemma_count_none_below(ps: Seq<u8>, m: int, k: int)
    requires
        forall|j: int| 0 <= j < m ==> ps[j] >= k,
    ensures
        count_lt(ps, m, k) == 0,
    decreases m,
{
    if m > 0 {
        lemma_count_none_below(ps, m - 1, k);
    }
}

proof fn lemma_count_all_below(ps: Seq<u8>, m: int, k: int)
    requires
        m >= 0,
        forall|j: int| 0 <= j < m ==> ps[j] < k,
    ensures
        count_lt(ps, m, k) == m,
    decreases m,
{
    if m > 0 {
        lemma_count_all_below(ps, m - 1, k);
    }
}

/// The order in which the temperature table lists the sensors `labels`:
/// their indices, sorted stably by `get_component_priority`.
pub fn sort_by_priority(labels: &Vec<String>) -> (r: Vec<usize>)
    ensures
        is_priority_order(priorities(labels@), r@),
{
    let n = labels.len();
    let mut pv: Vec<u8> = Vec::new();
    let mut q: usize = 0;
    while q < n
        invariant
            0 <= q <= n,
            n == labels.len(),
            pv.len() == q,
            forall|j: int| 0 <= j < q ==> #[trigger] pv@[j] == component_priority(labels@[j]@),
            forall|j: int| 0 <= j < q ==> 1 <= #[trigger] pv@[j] <= 3,
        decreases n - q,
    {
        pv.push(get_component_priority(labels[q].as_str()));
        q = q + 1;
    }
    let ghost ps = pv@;
    assert(ps =~= priorities(labels@));
    proof {
        lemma_count_none_below(ps, n as int, 1);
    }
    let mut r: Vec<usize> = Vec::new();
    let mut k: u8 = 1;
    while k <= 3
        invariant
            1 <= k <= 4,
            n == pv.len(),
            ps == pv@,
            forall|j: int| 0 <= j < n ==> 1 <= #[trigger] ps[j] <= 3,
            r.len() == count_lt(ps, n as int, k as int),
            forall|t: int| 0 <= t < r.len() ==> #[trigger] r[t] < n && ps[r[t] as int] < k,
            forall|j: int|
                0 <= j < n && #[trigger] ps[j] < k ==> exists|t: int| 0 <= t < r.len() && #[trigger] r[t] == j,
            forall|a: int, b: int| 0 <= a < b < r.len() ==> ps[#[trigger] r[a] as int] <= ps[#[trigger] r[b] as int],
            forall|a: int, b: int|
                0 <= a < b < r.len() && ps[#[trigger] r[a] as int] == ps[#[trigger] r[b] as int] ==> r[a] < r[b],
        decreases 4 - k,
    {
        let mut i: usize = 0;
        while i < n
            invariant
                1 <= k <= 3,
                0 <= i <= n,
                n == pv.len(),
                ps == pv@,
                r.len() == count_lt(ps, n as int, k as int) + count_eq(ps, i as int, k as int),
                forall|t: int|
                    0 <= t < r.len() ==> #[trigger] r[t] < n && (ps[r[t] as int] < k || (ps[r[t] as int]
                        == k && r[t] < i)),
                forall|j: int|
                    0 <= j < n && (#[trigger] ps[j] < k || (ps[j] == k && j < i)) ==> exists|t: int|
                        0 <= t < r.len() && #[trigger] r[t] == j,
                forall|a: int, b: int|
                    0 <= a < b < r.len() ==> ps[#[trigger] r[a] as int] <= ps[#[trigger] r[b] as int],
                forall|a: int, b: int|
                    0 <= a < b < r.len() && ps[#[trigger] r[a] as int] == ps[#[trigger] r[b] as int]
                        ==> r[a] < r[b],
            decreases n - i,
        {
            if pv[i] == k {
                let ghost old_r = r@;
                r.push(i);
                assert(r[r.len() - 1] == i);
                assert forall|j: int|
                    0 <= j < n && (#[trigger] ps[j] < k || (ps[j] == k && j < i + 1)) implies exists|t: int|
                        0 <= t < r.len() && #[trigger] r[t] == j by {
                    if j == i {
                        assert(r[r.len() - 1] == j);
                    } else {
                        let t = choose|t: int| 0 <= t < old_r.len() && #[trigger] old_r[t] == j;
                        assert(r[t] == j);
                    }
                }
            }
            i = i + 1;
        }
        proof {
            lemma_count_split(ps, n as int, k as int);
        }
        k = k + 1;
    }
    proof {
        lemma_count_all_below(ps, n as int, 4);
        assert(r.len() == n);
        assert(ps == priorities(labels@));
        assert forall|j: usize| j < ps.len() implies #[trigger] r@.contains(j) by {
            assert(ps[j as int] < 4);
            let t = choose|t: int| 0 <= t < r.len() && #[trigger] r[t] == j;
            assert(r@[t] == j);
        }
    }
    r
}

// ---------------------------------------------------------------------------
// Names shown for the sensors
// ---------------------------------------------------------------------------

pub open spec fn pick(polish: bool, pl: Seq<char>, en: Seq<char>) -> Seq<char> {
    if polish {
        pl
    } else {
        en
    }
}

/// The last word of `l`, or nothing when `l` has no word.
pub open spec fn last_word(l: Seq<char>) -> Seq<char> {
    let w = text::words(l);
    if w.len() > 0 {
        w.last()
    } else {
        seq![]
    }
}

/// The name shown for the sensor `l`, in Polish or English; a label that
/// is not known is shown as it is.
pub open spec fn localized_name(l: Seq<char>, polish: bool) -> Seq<char> {
    if l == "gigabyte_wmi temp1"@ {
        pick(polish, "Płyta główna - Mostek północny"@, "Motherboard - Northbridge"@)
    }     else if l == "gigabyte_wmi temp6"@ {
        pick(polish, "Płyta główna - Mostek południowy"@, "Motherboard - Southbridge"@)
    }     else if l == "gigabyte_wmi temp3"@ {
        pick(polish, "Płyta główna - VRM 1"@, "Motherboard - VRM 1"@)
    }     else if l == "gigabyte_wmi temp5"@ {
        pick(polish, "Płyta główna - VRM 2"@, "Motherboard - VRM 2"@)
    }     else if l == "gigabyte_wmi temp4"@ {
        pick(polish, "Płyta główna - Chipset"@, "Motherboard - Chipset"@)
    }     else if l == "gigabyte_wmi temp2"@ {
        pick(polish, "Płyta główna - Obszar ogólny"@, "Motherboard - General Area"@)
    }     else if l == "acpitz temp1"@ {
        pick(polish, "Strefa termiczna ACPI 1"@, "ACPI Thermal Zone 1"@)
    }     else if l == "acpitz temp2"@ {
        pick(polish, "Strefa termiczna ACPI 2"@, "ACPI Thermal Zone 2"@)
    } else if text::contains(l, "coretemp"@) && text::contains(l, "Core"@) {
        pick(polish, "Procesor - Rdzeń "@, "CPU - Core "@) + last_word(l)
    } else if text::contains(l, "coretemp"@) && text::contains(l, "Package"@) {
        pick(polish, "Procesor - Pakiet"@, "CPU - Package"@)
    } else if text::contains(l, "amdgpu"@) && text::contains(l, "mem"@) {
        pick(polish, "Karta graficzna - Pamięć VRAM"@, "Graphics Card - VRAM Memory"@)
    } else if text::contains(l, "amdgpu"@) && text::contains(l, "junction"@) {
        pick(polish, "Karta graficzna - Złącze"@, "Graphics Card - Junction"@)
    } else if text::contains(l, "amdgpu"@) && text::contains(l, "edge"@) {
        pick(polish, "Karta graficzna - Krawędź"@, "Graphics Card - Edge"@)
    } else {
        l
    }
}

/// The eight sensors known by their exact label differ from each other.
proof fn lemma_known_labels_distinct()
    ensures
        "gigabyte_wmi temp1"@ != "gigabyte_wmi temp6"@,
        "gigabyte_wmi temp1"@ != "gigabyte_wmi temp3"@,
        "gigabyte_wmi temp1"@ != "gigabyte_wmi temp5"@,
        "gigabyte_wmi temp1"@ != "gigabyte_wmi temp4"@,
        "gigabyte_wmi temp1"@ != "gigabyte_wmi temp2"@,
        "gigabyte_wmi temp6"@ != "gigabyte_wmi temp3"@,
        "gigabyte_wmi temp6"@ != "gigabyte_wmi temp5"@,
        "gigabyte_wmi temp6"@ != "gigabyte_wmi temp4"@,
        "gigabyte_wmi temp6"@ != "gigabyte_wmi temp2"@,
        "gigabyte_wmi temp3"@ != "gigabyte_wmi temp5"@,
        "gigabyte_wmi temp3"@ != "gigabyte_wmi temp4"@,
        "gigabyte_wmi temp3"@ != "gigabyte_wmi temp2"@,
        "gigabyte_wmi temp5"@ != "gigabyte_wmi temp4"@,
        "gigabyte_wmi temp5"@ != "gigabyte_wmi temp2"@,
        "gigabyte_wmi temp4"@ != "gigabyte_wmi temp2"@,
        "acpitz temp1"@ != "acpitz temp2"@,
        "acpitz temp1"@ != "gigabyte_wmi temp1"@,
        "acpitz temp1"@ != "gigabyte_wmi temp6"@,
        "acpitz temp1"@ != "gigabyte_wmi temp3"@,
        "acpitz temp1"@ != "gigabyte_wmi temp5"@,
        "acpitz temp1"@ != "gigabyte_wmi temp4"@,
        "acpitz temp1"@ != "gigabyte_wmi temp2"@,
        "acpitz temp2"@ != "gigabyte_wmi temp1"@,
        "acpitz temp2"@ != "gigabyte_wmi temp6"@,
        "acpitz temp2"@ != "gigabyte_wmi temp3"@,
        "acpitz temp2"@ != "gigabyte_wmi temp5"@,
        "acpitz temp2"@ != "gigabyte_wmi temp4"@,
        "acpitz temp2"@ != "gigabyte_wmi temp2"@,
{
    reveal_strlit("gigabyte_wmi temp1");
    reveal_strlit("gigabyte_wmi temp6");
    reveal_strlit("gigabyte_wmi temp3");
    reveal_strlit("gigabyte_wmi temp5");
    reveal_strlit("gigabyte_wmi temp4");
    reveal_strlit("gigabyte_wmi temp2");
    reveal_strlit("acpitz temp1");
    reveal_strlit("acpitz temp2");
    assert("gigabyte_wmi temp1"@[17] == '1');
    assert("gigabyte_wmi temp6"@[17] == '6');
    assert("gigabyte_wmi temp3"@[17] == '3');
    assert("gigabyte_wmi temp5"@[17] == '5');
    assert("gigabyte_wmi temp4"@[17] == '4');
    assert("gigabyte_wmi temp2"@[17] == '2');
    assert("acpitz temp1"@.len() == 12);
    assert("acpitz temp2"@.len() == 12);
    assert("gigabyte_wmi temp1"@.len() == 18);
    assert("acpitz temp1"@[11] == '1');
    assert("acpitz temp2"@[11] == '2');
}

/// Each sensor known by its exact label gets its own fixed name, in English
/// and in Polish.
pub proof fn lemma_known_sensor_names()
    ensures
        localized_name("gigabyte_wmi temp1"@, false) == "Motherboard - Northbridge"@,
        localized_name("gigabyte_wmi temp1"@, true) == "Płyta główna - Mostek północny"@,
        localized_name("gigabyte_wmi temp6"@, false) == "Motherboard - Southbridge"@,
        localized_name("gigabyte_wmi temp6"@, true) == "Płyta główna - Mostek południowy"@,
        localized_name("gigabyte_wmi temp3"@, false) == "Motherboard - VRM 1"@,
        localized_name("gigabyte_wmi temp3"@, true) == "Płyta główna - VRM 1"@,
        localized_name("gigabyte_wmi temp5"@, false) == "Motherboard - VRM 2"@,
        localized_name("gigabyte_wmi temp5"@, true) == "Płyta główna - VRM 2"@,
        localized_name("gigabyte_wmi temp4"@, false) == "Motherboard - Chipset"@,
        localized_name("gigabyte_wmi temp4"@, true) == "Płyta główna - Chipset"@,
        localized_name("gigabyte_wmi temp2"@, false) == "Motherboard - General Area"@,
        localized_name("gigabyte_wmi temp2"@, true) == "Płyta główna - Obszar ogólny"@,
        localized_name("acpitz temp1"@, false) == "ACPI Thermal Zone 1"@,
        localized_name("acpitz temp1"@, true) == "Strefa termiczna ACPI 1"@,
        localized_name("acpitz temp2"@, false) == "ACPI Thermal Zone 2"@,
        localized_name("acpitz temp2"@, true) == "Strefa termiczna ACPI 2"@,
{
    lemma_known_labels_distinct();
    reveal_strlit("gigabyte_wmi temp1");
    reveal_strlit("gigabyte_wmi temp6");
    reveal_strlit("gigabyte_wmi temp3");
    reveal_strlit("gigabyte_wmi temp5");
    reveal_strlit("gigabyte_wmi temp4");
    reveal_strlit("gigabyte_wmi temp2");
    reveal_strlit("acpitz temp1");
    reveal_strlit("acpitz temp2");
}

/// The names of the sensors known by their exact label are all different,
/// in each language: no two sensors are shown alike.
pub proof fn lemma_known_sensor_names_distinct(a: Seq<char>, b: Seq<char>, polish: bool)
    requires
        a != b,
        is_known_label(a),
        is_known_label(b),
    ensures
        localized_name(a, polish) != localized_name(b, polish),
{
    lemma_known_sensor_names();
    reveal_strlit("Płyta główna - Mostek północny");
    reveal_strlit("Motherboard - Northbridge");
    reveal_strlit("Płyta główna - Mostek południowy");
    reveal_strlit("Motherboard - Southbridge");
    reveal_strlit("Płyta główna - VRM 1");
    reveal_strlit("Motherboard - VRM 1");
    reveal_strlit("Płyta główna - VRM 2");
    reveal_strlit("Motherboard - VRM 2");
    reveal_strlit("Płyta główna - Chipset");
    reveal_strlit("Motherboard - Chipset");
    reveal_strlit("Płyta główna - Obszar ogólny");
    reveal_strlit("Motherboard - General Area");
    reveal_strlit("Strefa termiczna ACPI 1");
    reveal_strlit("ACPI Thermal Zone 1");
    reveal_strlit("Strefa termiczna ACPI 2");
    reveal_strlit("ACPI Thermal Zone 2");
    assert(name_key(localized_name(a, polish)) != name_key(localized_name(b, polish)));
}

/// One of the eight sensors known by their exact label.
pub open spec fn is_known_label(l: Seq<char>) -> bool {
    !(l != "gigabyte_wmi temp1"@ && l != "gigabyte_wmi temp6"@ && l != "gigabyte_wmi temp3"@ && l != "gigabyte_wmi temp5"@ && l != "gigabyte_wmi temp4"@ && l != "gigabyte_wmi temp2"@ && l != "acpitz temp1"@ && l != "acpitz temp2"@)
}

/// The characters that tell the known sensor names apart.
spec fn name_key(s: Seq<char>) -> (int, char, char, char) {
    (s.len() as int, s[0], s[14], s[s.len() - 1])
}

/// A CPU core sensor (`coretemp` and `Core` in its label) is shown as the
/// core followed by the last word of its label, its number.
pub proof fn lemma_core_sensor_name(l: Seq<char>, polish: bool)
    requires
        !is_known_label(l),
        text::contains(l, "coretemp"@),
        text::contains(l, "Core"@),
    ensures
        localized_name(l, polish) == (if polish {
            "Procesor - Rdzeń "@
        } else {
            "CPU - Core "@
        }) + last_word(l),
{
}

/// The CPU package sensor (`coretemp` and `Package`, not `Core`).
pub proof fn lemma_package_sensor_name(l: Seq<char>, polish: bool)
    requires
        !is_known_label(l),
        text::contains(l, "coretemp"@),
        !text::contains(l, "Core"@),
        text::contains(l, "Package"@),
    ensures
        localized_name(l, polish) == if polish {
            "Procesor - Pakiet"@
        } else {
            "CPU - Package"@
        },
{
}

/// The GPU sensors (`amdgpu` with `mem`, `junction` or `edge`, tested in
/// that order), for labels without `coretemp`.
pub proof fn lemma_gpu_sensor_names(l: Seq<char>, polish: bool)
    requires
        !is_known_label(l),
        !text::contains(l, "coretemp"@),
        text::contains(l, "amdgpu"@),
    ensures
        text::contains(l, "mem"@) ==> localized_name(l, polish) == if polish {
            "Karta graficzna - Pamięć VRAM"@
        } else {
            "Graphics Card - VRAM Memory"@
        },
        !text::contains(l, "mem"@) && text::contains(l, "junction"@) ==> localized_name(l, polish)
            == if polish {
            "Karta graficzna - Złącze"@
        } else {
            "Graphics Card - Junction"@
        },
        !text::contains(l, "mem"@) && !text::contains(l, "junction"@) && text::contains(l, "edge"@)
            ==> localized_name(l, polish) == if polish {
            "Karta graficzna - Krawędź"@
        } else {
            "Graphics Card - Edge"@
        },
{
}

/// Any other sensor keeps its label: one that is not known by its exact
/// label and names neither `coretemp` nor `amdgpu`.
pub proof fn lemma_other_sensor_name(l: Seq<char>, polish: bool)
    requires
        !is_known_label(l),
        !text::contains(l, "coretemp"@),
        !text::contains(l, "amdgpu"@),
    ensures
        localized_name(l, polish) == l,
{
}

fn pick_string(polish: bool, pl: &str, en: &str) -> (r: String)
    ensures
        r@ == pick(polish, pl@, en@),
{
    if polish {
        pl.to_string()
    } else {
        en.to_string()
    }
}

/// The name to show for the sensor `original`, in the language of
/// `translations` (Polish when its title is the Polish one).
pub fn get_localized_name(original: &str, translations: &Translations) -> (r: String)
    ensures
        r@ == localized_name(original@, translations.title@ == translations::polish_title()),
{
    let polish = is_polish(translations);
    let s = chars_of(original);
    if is_lit(&s, "gigabyte_wmi temp1") {
        pick_string(polish, "Płyta główna - Mostek północny", "Motherboard - Northbridge")
    }     else if is_lit(&s, "gigabyte_wmi temp6") {
        pick_string(polish, "Płyta główna - Mostek południowy", "Motherboard - Southbridge")
    }     else if is_lit(&s, "gigabyte_wmi temp3") {
        pick_string(polish, "Płyta główna - VRM 1", "Motherboard - VRM 1")
    }     else if is_lit(&s, "gigabyte_wmi temp5") {
        pick_string(polish, "Płyta główna - VRM 2", "Motherboard - VRM 2")
    }     else if is_lit(&s, "gigabyte_wmi temp4") {
        pick_string(polish, "Płyta główna - Chipset", "Motherboard - Chipset")
    }     else if is_lit(&s, "gigabyte_wmi temp2") {
        pick_string(polish, "Płyta główna - Obszar ogólny", "Motherboard - General Area")
    }     else if is_lit(&s, "acpitz temp1") {
        pick_string(polish, "Strefa termiczna ACPI 1", "ACPI Thermal Zone 1")
    }     else if is_lit(&s, "acpitz temp2") {
        pick_string(polish, "Strefa termiczna ACPI 2", "ACPI Thermal Zone 2")
    } else if holds(&s, "coretemp") && holds(&s, "Core") {
        let mut r = pick_string(polish, "Procesor - Rdzeń ", "CPU - Core ");
        let ws = split_words(&s, 0, s.len());
        proof {
            assert(s@.subrange(0, s.len() as int) =~= s@);
        }
        if ws.len() > 0 {
            let (a, b) = ws[ws.len() - 1];
            let w = string_of_span(&s, a, b);
            push_str(&mut r, w.as_str());
        }
        r
    } else if holds(&s, "coretemp") && holds(&s, "Package") {
        pick_string(polish, "Procesor - Pakiet", "CPU - Package")
    } else if holds(&s, "amdgpu") && holds(&s, "mem") {
        pick_string(polish, "Karta graficzna - Pamięć VRAM", "Graphics Card - VRAM Memory")
    } else if holds(&s, "amdgpu") && holds(&s, "junction") {
        pick_string(polish, "Karta graficzna - Złącze", "Graphics Card - Junction")
    } else if holds(&s, "amdgpu") && holds(&s, "edge") {
        pick_string(polish, "Karta graficzna - Krawędź", "Graphics Card - Edge")
    } else {
        original.to_string()
    }
}

// ---------------------------------------------------------------------------
// Recent readings of one sensor
// ---------------------------------------------------------------------------

/// How many readings of a sensor the history keeps.
pub const HISTORY_LIMIT: usize = 100;

/// The last `n` elements of `s` (all of them when there are fewer).
pub open spec fn last_n<T>(s: Seq<T>, n: nat) -> Seq<T> {
    if s.len() > n {
        s.skip(s.len() - n)
    } else {
        s
    }
}

/// The most recent readings of one sensor, oldest first, at most
/// `HISTORY_LIMIT` of them.
pub struct TemperatureHistory<T> {
    samples: Vec<T>,
}

impl<T> View for TemperatureHistory<T> {
    type V = Seq<T>;

    closed spec fn view(&self) -> Seq<T> {
        self.samples@
    }
}

impl<T> TemperatureHistory<T> {
    #[verifier::type_invariant]
    spec fn within_limit(self) -> bool {
        self.samples.len() <= HISTORY_LIMIT
    }

    /// An empty history.
    pub fn new() -> (h: Self)
        ensures
            h@ == Seq::<T>::empty(),
    {
        TemperatureHistory { samples: Vec::new() }
    }

    /// Records a reading; the oldest one goes when the history is full.
    pub fn push(&mut self, value: T)
        ensures
            final(self)@ == last_n(old(self)@.push(value), HISTORY_LIMIT as nat),
    {
        proof {
            use_type_invariant(&*self);
        }
        let mut s: Vec<T> = Vec::new();
        std::mem::swap(&mut s, &mut self.samples);
        let ghost before = s@;
        s.push(value);
        if s.len() > HISTORY_LIMIT {
            s.remove(0);
            assert(s@ =~= before.push(value).skip(1));
        }
        self.samples = s;
    }

    /// Number of readings held.
    pub fn len(&self) -> (n: usize)
        ensures
            n == self@.len(),
            n <= HISTORY_LIMIT,
    {
        proof {
            use_type_invariant(self);
        }
        self.samples.len()
    }

    /// The readings, oldest first.
    pub fn samples(&self) -> (s: &[T])
        ensures
            s@ == self@,
    {
        self.samples.as_slice()
    }
}

/// Recording readings one by one into a history of the last readings of
/// `xs` leaves the last readings of `xs` followed by the new one: the
/// history always holds the most recent `HISTORY_LIMIT` readings.
pub proof fn lemma_history_window<T>(xs: Seq<T>, value: T)
    ensures
        last_n(last_n(xs, HISTORY_LIMIT as nat).push(value), HISTORY_LIMIT as nat) == last_n(
            xs.push(value),
            HISTORY_LIMIT as nat,
        ),
{
    let n = HISTORY_LIMIT as nat;
    if xs.len() > n {
        assert(last_n(xs, n).push(value).skip(1) =~= xs.push(value).skip(xs.push(value).len() - n));
    } else if xs.len() == n {
        assert(xs.push(value).skip(1) =~= xs.push(value).skip(xs.push(value).len() - n));
    }
}

} // verus!
