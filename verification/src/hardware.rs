use vstd::prelude::*;

use crate::numbers::{parse_unsigned_span, push_decimal};
use crate::text::{chars_of, contains_span, find_span, push_str, split_lines, starts_with_span, string_of_span, trim_span, Trimmed};
use crate::translations::{is_polish, Translations};
use crate::numbers;
use crate::text;
use crate::translations;

verus! {

broadcast use vstd::string::group_string_axioms;

// ---------------------------------------------------------------------------
// Graphics card
// ---------------------------------------------------------------------------

/// The marketing name of an AMD graphics card, by PCI device id.
pub open spec fn gpu_model(device_id: u16) -> Option<Seq<char>> {
    if device_id == 0x73ff {
        Some("AMD Radeon RX 6600"@)
    }     else if device_id == 0x73fe {
        Some("AMD Radeon RX 6600 XT"@)
    }     else if device_id == 0x73e1 {
        Some("AMD Radeon RX 6600M"@)
    }     else if device_id == 0x73df {
        Some("AMD Radeon RX 6700 XT"@)
    }     else if device_id == 0x73e0 {
        Some("AMD Radeon RX 6700"@)
    }     else if device_id == 0x73e2 {
        Some("AMD Radeon RX 6700M"@)
    }     else if device_id == 0x73bf {
        Some("AMD Radeon RX 6900 XT"@)
    }     else if device_id == 0x73c0 {
        Some("AMD Radeon RX 6800"@)
    }     else if device_id == 0x73c1 {
        Some("AMD Radeon RX 6800 XT"@)
    }     else if device_id == 0x743f {
        Some("AMD Radeon RX 6500 XT"@)
    }     else if device_id == 0x743e {
        Some("AMD Radeon RX 6400"@)
    }     else if device_id == 0x744c {
        Some("AMD Radeon RX 7900 XTX"@)
    }     else if device_id == 0x744b {
        Some("AMD Radeon RX 7900 XT"@)
    }     else if device_id == 0x747e {
        Some("AMD Radeon RX 7800 XT"@)
    }     else if device_id == 0x7470 {
        Some("AMD Radeon RX 7700 XT"@)
    }     else if device_id == 0x7480 {
        Some("AMD Radeon RX 7600"@)
    }     else if device_id == 0x7481 {
        Some("AMD Radeon RX 7600 XT"@)
    }     else if device_id == 0x731f {
        Some("AMD Radeon RX 5700 XT"@)
    }     else if device_id == 0x7310 {
        Some("AMD Radeon RX 5700"@)
    }     else if device_id == 0x7340 {
        Some("AMD Radeon RX 5600 XT"@)
    }     else if device_id == 0x687f {
        Some("AMD Radeon RX Vega 64"@)
    }     else if device_id == 0x6863 {
        Some("AMD Radeon RX Vega 56"@)
    } else {
        None
    }
}

/// The marketing name of the AMD graphics card with PCI device id
/// `device_id`, for the cards the monitor knows.
pub fn exact_gpu_model(device_id: u16) -> (r: Option<String>)
    ensures
        match r {
            Some(s) => gpu_model(device_id) == Some(s@),
            None => gpu_model(device_id) is None,
        },
{
    if device_id == 0x73ff {
        Some("AMD Radeon RX 6600".to_string())
    }     else if device_id == 0x73fe {
        Some("AMD Radeon RX 6600 XT".to_string())
    }     else if device_id == 0x73e1 {
        Some("AMD Radeon RX 6600M".to_string())
    }     else if device_id == 0x73df {
        Some("AMD Radeon RX 6700 XT".to_string())
    }     else if device_id == 0x73e0 {
        Some("AMD Radeon RX 6700".to_string())
    }     else if device_id == 0x73e2 {
        Some("AMD Radeon RX 6700M".to_string())
    }     else if device_id == 0x73bf {
        Some("AMD Radeon RX 6900 XT".to_string())
    }     else if device_id == 0x73c0 {
        Some("AMD Radeon RX 6800".to_string())
    }     else if device_id == 0x73c1 {
        Some("AMD Radeon RX 6800 XT".to_string())
    }     else if device_id == 0x743f {
        Some("AMD Radeon RX 6500 XT".to_string())
    }     else if device_id == 0x743e {
        Some("AMD Radeon RX 6400".to_string())
    }     else if device_id == 0x744c {
        Some("AMD Radeon RX 7900 XTX".to_string())
    }     else if device_id == 0x744b {
        Some("AMD Radeon RX 7900 XT".to_string())
    }     else if device_id == 0x747e {
        Some("AMD Radeon RX 7800 XT".to_string())
    }     else if device_id == 0x7470 {
        Some("AMD Radeon RX 7700 XT".to_string())
    }     else if device_id == 0x7480 {
        Some("AMD Radeon RX 7600".to_string())
    }     else if device_id == 0x7481 {
        Some("AMD Radeon RX 7600 XT".to_string())
    }     else if device_id == 0x731f {
        Some("AMD Radeon RX 5700 XT".to_string())
    }     else if device_id == 0x7310 {
        Some("AMD Radeon RX 5700".to_string())
    }     else if device_id == 0x7340 {
        Some("AMD Radeon RX 5600 XT".to_string())
    }     else if device_id == 0x687f {
        Some("AMD Radeon RX Vega 64".to_string())
    }     else if device_id == 0x6863 {
        Some("AMD Radeon RX Vega 56".to_string())
    } else {
        None
    }
}

/// The card names the monitor knows, one per PCI device id of the AMD
/// Radeon RX 5000, 6000, 7000 and Vega series.
pub proof fn lemma_gpu_model_table()
    ensures
        gpu_model(0x73ff) == Some("AMD Radeon RX 6600"@),
        gpu_model(0x73fe) == Some("AMD Radeon RX 6600 XT"@),
        gpu_model(0x73e1) == Some("AMD Radeon RX 6600M"@),
        gpu_model(0x73df) == Some("AMD Radeon RX 6700 XT"@),
        gpu_model(0x73e0) == Some("AMD Radeon RX 6700"@),
        gpu_model(0x73e2) == Some("AMD Radeon RX 6700M"@),
        gpu_model(0x73bf) == Some("AMD Radeon RX 6900 XT"@),
        gpu_model(0x73c0) == Some("AMD Radeon RX 6800"@),
        gpu_model(0x73c1) == Some("AMD Radeon RX 6800 XT"@),
        gpu_model(0x743f) == Some("AMD Radeon RX 6500 XT"@),
        gpu_model(0x743e) == Some("AMD Radeon RX 6400"@),
        gpu_model(0x744c) == Some("AMD Radeon RX 7900 XTX"@),
        gpu_model(0x744b) == Some("AMD Radeon RX 7900 XT"@),
        gpu_model(0x747e) == Some("AMD Radeon RX 7800 XT"@),
        gpu_model(0x7470) == Some("AMD Radeon RX 7700 XT"@),
        gpu_model(0x7480) == Some("AMD Radeon RX 7600"@),
        gpu_model(0x7481) == Some("AMD Radeon RX 7600 XT"@),
        gpu_model(0x731f) == Some("AMD Radeon RX 5700 XT"@),
        gpu_model(0x7310) == Some("AMD Radeon RX 5700"@),
        gpu_model(0x7340) == Some("AMD Radeon RX 5600 XT"@),
        gpu_model(0x687f) == Some("AMD Radeon RX Vega 64"@),
        gpu_model(0x6863) == Some("AMD Radeon RX Vega 56"@),
{
}

/// The letters that tell the known card names apart: length, the two
/// characters after `AMD Radeon RX `, and the character at index 19.
spec fn name_key(s: Seq<char>) -> (int, char, char, char) {
    (s.len() as int, s[14], s[15], s[19])
}

/// Different cards get different names: no two device ids of the table
/// share a name.
pub proof fn lemma_gpu_model_names_distinct(a: u16, b: u16)
    requires
        gpu_model(a) is Some,
        gpu_model(b) is Some,
        a != b,
    ensures
        gpu_model(a) != gpu_model(b),
{
    reveal_strlit("AMD Radeon RX 6600");
    reveal_strlit("AMD Radeon RX 6600 XT");
    reveal_strlit("AMD Radeon RX 6600M");
    reveal_strlit("AMD Radeon RX 6700 XT");
    reveal_strlit("AMD Radeon RX 6700");
    reveal_strlit("AMD Radeon RX 6700M");
    reveal_strlit("AMD Radeon RX 6900 XT");
    reveal_strlit("AMD Radeon RX 6800");
    reveal_strlit("AMD Radeon RX 6800 XT");
    reveal_strlit("AMD Radeon RX 6500 XT");
    reveal_strlit("AMD Radeon RX 6400");
    reveal_strlit("AMD Radeon RX 7900 XTX");
    reveal_strlit("AMD Radeon RX 7900 XT");
    reveal_strlit("AMD Radeon RX 7800 XT");
    reveal_strlit("AMD Radeon RX 7700 XT");
    reveal_strlit("AMD Radeon RX 7600");
    reveal_strlit("AMD Radeon RX 7600 XT");
    reveal_strlit("AMD Radeon RX 5700 XT");
    reveal_strlit("AMD Radeon RX 5700");
    reveal_strlit("AMD Radeon RX 5600 XT");
    reveal_strlit("AMD Radeon RX Vega 64");
    reveal_strlit("AMD Radeon RX Vega 56");
    assert(name_key(gpu_model(a)->0) != name_key(gpu_model(b)->0));
}

/// `s` without every leading copy of `p` (`str::trim_start_matches`).
pub open spec fn strip_repeated_prefix(s: Seq<char>, p: Seq<char>) -> Seq<char>
    decreases s.len(),
{
    if p.len() > 0 && text::starts_with(s, p) {
        strip_repeated_prefix(s.skip(p.len() as int), p)
    } else {
        s
    }
}

/// The PCI device id that a sysfs `device` file holds: hexadecimal, with
/// white space around it and an optional `0x` prefix.
pub open spec fn sysfs_device_id(text: Seq<char>) -> Option<u16> {
    match numbers::parse_unsigned(
        strip_repeated_prefix(text::trim(text, Trimmed::Whitespace), "0x"@),
        16,
        0xffff,
    ) {
        Some(v) => Some(v as u16),
        None => None,
    }
}

proof fn lemma_trim_keeps(t: Seq<char>)
    requires
        t.len() > 0,
        !text::is_whitespace(t[0]),
        !text::is_whitespace(t.last()),
    ensures
        text::trim(t, Trimmed::Whitespace) == t,
{
}

/// A `device` file holding hexadecimal digits, with or without the `0x`
/// prefix, gives the number they denote (when it fits in 16 bits).
pub proof fn lemma_device_id_hex(h: Seq<char>)
    requires
        h.len() > 0,
        numbers::all_digits(h, 16),
        numbers::digits_value(h, 16) <= 0xffff,
    ensures
        sysfs_device_id(seq!['0', 'x'] + h) == Some(numbers::digits_value(h, 16) as u16),
        sysfs_device_id(h) == Some(numbers::digits_value(h, 16) as u16),
{
    reveal_strlit("0x");
    let t = seq!['0', 'x'] + h;
    assert(numbers::digit_value(h[0], 16) is Some);
    assert(numbers::digit_value(h.last(), 16) is Some);
    assert(t.last() == h.last());
    lemma_trim_keeps(t);
    lemma_trim_keeps(h);
    assert(t.take(2) =~= "0x"@);
    assert(t.skip(2) =~= h);
    if h.len() >= 2 {
        assert(numbers::digit_value(h[1], 16) is Some);
        assert(h.take(2)[1] == h[1]);
    }
    assert(!text::starts_with(h, "0x"@));
    assert(strip_repeated_prefix(h, "0x"@) == h);
    assert(strip_repeated_prefix(t, "0x"@) == h);
}

/// Reads the PCI device id in a sysfs `device` file.
pub fn parse_device_id(text: &str) -> (r: Option<u16>)
    ensures
        r == sysfs_device_id(text@),
{
    let s = chars_of(text);
    let hex = chars_of("0x");
    proof {
        reveal_strlit("0x");
        assert(s@.subrange(0, s.len() as int) =~= text@);
    }
    let (a, b) = trim_span(&s, 0, s.len(), Trimmed::Whitespace);
    let ghost t = s@.subrange(a as int, b as int);
    let mut i = a;
    while starts_with_span(&s, i, b, &hex)
        invariant
            a <= i <= b <= s.len(),
            hex@ == "0x"@,
            hex@.len() == 2,
            strip_repeated_prefix(t, hex@) == strip_repeated_prefix(
                s@.subrange(i as int, b as int),
                hex@,
            ),
        decreases b - i,
    {
        assert(s@.subrange(i as int, b as int).skip(2) =~= s@.subrange(i + 2, b as int));
        i = i + 2;
    }
    match parse_unsigned_span(&s, i, b, 16, 0xffff) {
        Some(v) => Some(v as u16),
        None => None,
    }
}

/// The graphics card name from the `product_name` file (trimmed): the card
/// name is kept unless it is a chip code name (contains `Navi`), which the
/// PCI device id, when known, turns into a marketing name.
pub open spec fn product_gpu_name(product: Seq<char>, device_id: Option<u16>) -> Seq<char> {
    let n = text::trim(product, Trimmed::Whitespace);
    if !text::contains(n, "Navi"@) {
        n
    } else {
        match device_id {
            Some(id) => match gpu_model(id) {
                Some(m) => m,
                None => n,
            },
            None => n,
        }
    }
}

fn holds(s: &Vec<char>, lo: usize, hi: usize, lit: &str) -> (b: bool)
    requires
        lo <= hi <= s.len(),
    ensures
        b == text::contains(s@.subrange(lo as int, hi as int), lit@),
{
    let n = chars_of(lit);
    contains_span(s, lo, hi, &n)
}

fn product_name_of(product: &str, device_id: Option<u16>) -> (r: String)
    ensures
        r@ == product_gpu_name(product@, device_id),
{
    let s = chars_of(product);
    proof {
        assert(s@.subrange(0, s.len() as int) =~= product@);
    }
    let (a, b) = trim_span(&s, 0, s.len(), Trimmed::Whitespace);
    if !holds(&s, a, b, "Navi") {
        return string_of_span(&s, a, b);
    }
    match device_id {
        Some(id) => match exact_gpu_model(id) {
            Some(m) => m,
            None => string_of_span(&s, a, b),
        },
        None => string_of_span(&s, a, b),
    }
}

// --- lspci ---

/// An `os-release` file whose first line is `<key><value>` gives `value`
/// without the quotes around it.
pub proof fn lemma_os_release_first_line(key: Seq<char>, value: Seq<char>, more: Seq<char>)
    requires
        key.len() > 0,
        forall|i: int| 0 <= i < key.len() ==> key[i] != '\n',
        forall|i: int| 0 <= i < value.len() ==> value[i] != '\n',
        (key + value).last() != '\r',
    ensures
        os_release_value(key + value + seq!['\n'] + more, key) == Some(
            text::trim(value, Trimmed::Only('"')),
        ),
{
    let c = key + value + seq!['\n'] + more;
    let l = key + value;
    assert forall|i: int| 0 <= i < l.len() implies l[i] != '\n' by {
        if i >= key.len() {
            assert(l[i] == value[i - key.len()]);
        }
    }
    text::lemma_single_line_prefix(l, more);
    assert(text::lines(c)[0] == l);
    assert(l.take(key.len() as int) =~= key);
    assert(l.skip(key.len() as int) =~= value);
}

/// A line of `lspci -nn` that describes a display controller.
pub open spec fn is_gpu_line(l: Seq<char>) -> bool {
    text::contains(l, "VGA"@) || text::contains(l, "3D"@)
}

/// Display controllers are the lines that mention `VGA` or `3D`.
pub proof fn lemma_gpu_line_words(l: Seq<char>)
    ensures
        is_gpu_line(l) <==> (exists|i: int| text::occurs_at(l, seq!['V', 'G', 'A'], i)) || (exists|i: int|
            text::occurs_at(l, seq!['3', 'D'], i)),
{
    reveal_strlit("VGA");
    reveal_strlit("3D");
    assert("VGA"@ =~= seq!['V', 'G', 'A']);
    assert("3D"@ =~= seq!['3', 'D']);
}

/// The first display controller line.
pub open spec fn first_gpu_line(ls: Seq<Seq<char>>) -> Option<Seq<char>>
    decreases ls.len(),
{
    if ls.len() == 0 {
        None
    } else if is_gpu_line(ls[0]) {
        Some(ls[0])
    } else {
        first_gpu_line(ls.drop_first())
    }
}

/// The AMD device id that an `lspci -nn` line shows as `[1002:xxxx]`.
pub open spec fn lspci_device_id(l: Seq<char>) -> Option<u16> {
    match text::find(l, "[1002:"@) {
        Some(st) => {
            let rest = l.skip(st + 6);
            match text::find(rest, "]"@) {
                Some(n) => match numbers::parse_unsigned(rest.take(n), 16, 0xffff) {
                    Some(v) => Some(v as u16),
                    None => None,
                },
                None => None,
            }
        },
        None => None,
    }
}

/// The known card of the line's device id, if any.
pub open spec fn lspci_known_model(l: Seq<char>) -> Option<Seq<char>> {
    match lspci_device_id(l) {
        Some(id) => gpu_model(id),
        None => None,
    }
}

/// The line's first `[` comes after the start of its first `"] ["`: the
/// bracketed name cannot be cut out of it.
pub open spec fn lspci_line_brackets_reversed(l: Seq<char>) -> bool {
    &&& lspci_known_model(l) is None
    &&& text::find(l, "["@) is Some
    &&& text::find(l, "] ["@) is Some
    &&& text::find(l, "["@)->0 + 1 > text::find(l, "] ["@)->0
}

/// The card name that a display controller line of `lspci -nn` gives: the
/// known card of its device id; else the text in its first brackets (up to
/// `"] ["`), unless that text lists several cards (holds `/`) and the
/// device id is known but not the card.
pub open spec fn lspci_line_name(l: Seq<char>) -> Option<Seq<char>> {
    if lspci_known_model(l) is Some {
        lspci_known_model(l)
    } else {
        match (text::find(l, "["@), text::find(l, "] ["@)) {
            (Some(st), Some(e)) => {
                let inner = l.subrange(st + 1, e);
                if text::contains(inner, "/"@) && lspci_device_id(l) is Some {
                    None
                } else {
                    Some(inner)
                }
            },
            _ => None,
        }
    }
}

/// The card name that the output of `lspci -nn` gives.
pub open spec fn lspci_gpu_name(output: Seq<char>) -> Option<Seq<char>> {
    match first_gpu_line(text::lines(output)) {
        Some(l) => lspci_line_name(l),
        None => None,
    }
}

/// Reading the card name out of `output` would cut a reversed span.
pub open spec fn lspci_output_reversed(output: Seq<char>) -> bool {
    match first_gpu_line(text::lines(output)) {
        Some(l) => lspci_line_brackets_reversed(l),
        None => false,
    }
}

fn lspci_device_id_span(s: &Vec<char>, a: usize, b: usize) -> (r: Option<u16>)
    requires
        a <= b <= s.len(),
    ensures
        r == lspci_device_id(s@.subrange(a as int, b as int)),
{
    let ghost l = s@.subrange(a as int, b as int);
    let tag = chars_of("[1002:");
    let close = chars_of("]");
    proof {
        reveal_strlit("[1002:");
    }
    match find_span(s, a, b, &tag) {
        Some(st) => {
            let from = st + 6;
            assert(s@.subrange(from as int, b as int) =~= l.skip(st - a + 6));
            match find_span(s, from, b, &close) {
                Some(e) => {
                    let ghost rest = s@.subrange(from as int, b as int);
                    assert(s@.subrange(from as int, e as int) =~= rest.take(e - from));
                    match parse_unsigned_span(s, from, e, 16, 0xffff) {
                        Some(v) => Some(v as u16),
                        None => None,
                    }
                },
                None => None,
            }
        },
        None => None,
    }
}

fn lspci_line_name_span(s: &Vec<char>, a: usize, b: usize) -> (r: Option<String>)
    requires
        a <= b <= s.len(),
        !lspci_line_brackets_reversed(s@.subrange(a as int, b as int)),
    ensures
        match r {
            Some(x) => lspci_line_name(s@.subrange(a as int, b as int)) == Some(x@),
            None => lspci_line_name(s@.subrange(a as int, b as int)) is None,
        },
{
    let ghost l = s@.subrange(a as int, b as int);
    let id = lspci_device_id_span(s, a, b);
    if let Some(v) = id {
        if let Some(m) = exact_gpu_model(v) {
            return Some(m);
        }
    }
    let open = chars_of("[");
    let sep = chars_of("] [");
    match find_span(s, a, b, &open) {
        Some(st) => match find_span(s, a, b, &sep) {
            Some(e) => {
                let inner_lo = st + 1;
                assert(s@.subrange(inner_lo as int, e as int) =~= l.subrange(
                    st - a + 1,
                    e - a,
                ));
                let slashed = holds(s, inner_lo, e, "/");
                if slashed && id.is_some() {
                    None
                } else {
                    Some(string_of_span(s, inner_lo, e))
                }
            },
            None => None,
        },
        None => None,
    }
}

fn first_gpu_line_span(s: &Vec<char>) -> (r: Option<(usize, usize)>)
    ensures
        match r {
            Some(sp) => sp.0 <= sp.1 <= s.len() && first_gpu_line(text::lines(s@)) == Some(
                s@.subrange(sp.0 as int, sp.1 as int),
            ),
            None => first_gpu_line(text::lines(s@)) is None,
        },
{
    let ls = split_lines(s, 0, s.len());
    let ghost all = text::lines(s@.subrange(0, s.len() as int));
    proof {
        assert(s@.subrange(0, s.len() as int) =~= s@);
        assert(all.skip(0) =~= all);
    }
    let mut i: usize = 0;
    while i < ls.len()
        invariant
            0 <= i <= ls.len(),
            all == text::lines(s@),
            ls.len() == all.len(),
            forall|k: int|
                0 <= k < ls.len() ==> {
                    &&& 0 <= (#[trigger] ls[k]).0 <= ls[k].1 <= s.len()
                    &&& s@.subrange(ls[k].0 as int, ls[k].1 as int) == all[k]
                },
            first_gpu_line(all) == first_gpu_line(all.skip(i as int)),
        decreases ls.len() - i,
    {
        let (a, b) = ls[i];
        assert(all.skip(i as int)[0] == all[i as int]);
        assert(all.skip(i as int).drop_first() =~= all.skip(i + 1));
        if holds(s, a, b, "VGA") || holds(s, a, b, "3D") {
            return Some((a, b));
        }
        i = i + 1;
    }
    assert(all.skip(i as int) =~= Seq::<Seq<char>>::empty());
    None
}

/// Whether the card name can be read out of `lspci -nn` output: false when
/// the display controller line has its brackets in an order that the name
/// cannot be cut from.
pub fn lspci_output_is_readable(output: &str) -> (b: bool)
    ensures
        b == !lspci_output_reversed(output@),
{
    let s = chars_of(output);
    match first_gpu_line_span(&s) {
        Some((a, b)) => {
            let ghost l = s@.subrange(a as int, b as int);
            let known = match lspci_device_id_span(&s, a, b) {
                Some(v) => exact_gpu_model(v).is_some(),
                None => false,
            };
            if known {
                return true;
            }
            let open = chars_of("[");
            let sep = chars_of("] [");
            match (find_span(&s, a, b, &open), find_span(&s, a, b, &sep)) {
                (Some(st), Some(e)) => st < e,
                _ => true,
            }
        },
        None => true,
    }
}

/// The graphics card name that the output of `lspci -nn` gives: the first
/// display controller line (one that mentions `VGA` or `3D`) names the
/// card by its AMD device id `[1002:xxxx]` or by the text in its first
/// brackets.
pub fn gpu_name_from_lspci(output: &str) -> (r: Option<String>)
    requires
        !lspci_output_reversed(output@),
    ensures
        match r {
            Some(x) => lspci_gpu_name(output@) == Some(x@),
            None => lspci_gpu_name(output@) is None,
        },
{
    let s = chars_of(output);
    match first_gpu_line_span(&s) {
        Some((a, b)) => lspci_line_name_span(&s, a, b),
        None => None,
    }
}

// --- the whole description ---

/// The graphics card as the hardware tab shows it.
#[derive(Debug)]
pub struct GpuInfo {
    pub name: String,
    pub driver: String,
}

/// The driver as shown: `amdgpu`, with the module version in brackets
/// when it is known.
pub open spec fn driver_label(version: Option<Seq<char>>) -> Seq<char> {
    match version {
        Some(v) => "amdgpu ("@ + text::trim(v, Trimmed::Whitespace) + ")"@,
        None => "amdgpu"@,
    }
}

/// A card name from `product_name` is kept (trimmed) unless it is a chip
/// code name holding `Navi`; then a known device id gives the marketing
/// name. Without `product_name` and a usable `lspci` output the card is
/// `AMD GPU`.
pub proof fn lemma_gpu_name_choice(p: Seq<char>, id: Option<u16>, device_text: Option<Seq<char>>)
    ensures
        !text::contains(text::trim(p, Trimmed::Whitespace), seq!['N', 'a', 'v', 'i']) ==> product_gpu_name(p, id)
            == text::trim(p, Trimmed::Whitespace),
        text::contains(text::trim(p, Trimmed::Whitespace), seq!['N', 'a', 'v', 'i']) && id is Some && gpu_model(
            id->0,
        ) is Some ==> product_gpu_name(p, id) == gpu_model(id->0)->0,
        detected_gpu_name(None, device_text, None) == seq!['A', 'M', 'D', ' ', 'G', 'P', 'U'],
{
    reveal_strlit("Navi");
    reveal_strlit("AMD GPU");
    assert("Navi"@ =~= seq!['N', 'a', 'v', 'i']);
    assert("AMD GPU"@ =~= seq!['A', 'M', 'D', ' ', 'G', 'P', 'U']);
}

/// The driver is shown as `amdgpu`, followed by ` (<version>)` with the
/// version trimmed when the module version is known.
pub proof fn lemma_driver_label_shape(version: Option<Seq<char>>)
    ensures
        driver_label(version).take(6) == seq!['a', 'm', 'd', 'g', 'p', 'u'],
        version is None ==> driver_label(version).len() == 6,
        version matches Some(v) ==> driver_label(version) == seq!['a', 'm', 'd', 'g', 'p', 'u', ' ', '(']
            + text::trim(v, Trimmed::Whitespace) + seq![')'],
{
    reveal_strlit("amdgpu (");
    reveal_strlit(")");
    reveal_strlit("amdgpu");
    assert("amdgpu ("@ =~= seq!['a', 'm', 'd', 'g', 'p', 'u', ' ', '(']);
    assert(")"@ =~= seq![')']);
    assert("amdgpu"@ =~= seq!['a', 'm', 'd', 'g', 'p', 'u']);
    if let Some(v) = version {
        let r = driver_label(version);
        assert(r.take(6) =~= seq!['a', 'm', 'd', 'g', 'p', 'u']);
    } else {
        assert("amdgpu"@.take(6) =~= "amdgpu"@);
    }
}

/// The card name from what sysfs and `lspci` offer: the `product_name`
/// file when it exists, else the `lspci -nn` output, else `AMD GPU`.
pub open spec fn detected_gpu_name(
    product: Option<Seq<char>>,
    device_text: Option<Seq<char>>,
    lspci: Option<Seq<char>>,
) -> Seq<char> {
    let id = match device_text {
        Some(t) => sysfs_device_id(t),
        None => None,
    };
    match product {
        Some(p) => product_gpu_name(p, id),
        None => match lspci {
            Some(o) => match lspci_gpu_name(o) {
                Some(n) => n,
                None => "AMD GPU"@,
            },
            None => "AMD GPU"@,
        },
    }
}

/// Describes the graphics card. `present`: an AMD card was found;
/// `product_name` and `device_text`: the sysfs `product_name` and `device`
/// files, when they could be read; `lspci_output`: the output of
/// `lspci -nn`, needed only when there is no `product_name`;
/// `driver_version`: the `amdgpu` module version file.
pub fn describe_gpu(
    present: bool,
    product_name: Option<&str>,
    device_text: Option<&str>,
    lspci_output: Option<&str>,
    driver_version: Option<&str>,
) -> (g: GpuInfo)
    requires
        present && product_name is None && lspci_output is Some ==> !lspci_output_reversed(
            lspci_output->0@,
        ),
    ensures
        present ==> g.name@ == detected_gpu_name(
            product_name.deep_view(),
            device_text.deep_view(),
            lspci_output.deep_view(),
        ),
        present ==> g.driver@ == driver_label(driver_version.deep_view()),
        !present ==> g.name@ == "Brak wykrytej karty"@ && g.driver@ == "Brak"@,
{
    if !present {
        return GpuInfo { name: "Brak wykrytej karty".to_string(), driver: "Brak".to_string() };
    }
    let id = match device_text {
        Some(t) => parse_device_id(t),
        None => None,
    };
    let name = match product_name {
        Some(p) => product_name_of(p, id),
        None => match lspci_output {
            Some(o) => match gpu_name_from_lspci(o) {
                Some(n) => n,
                None => "AMD GPU".to_string(),
            },
            None => "AMD GPU".to_string(),
        },
    };
    let driver = match driver_version {
        Some(v) => {
            let mut d = "amdgpu (".to_string();
            let t = chars_of(v);
            proof {
                assert(t@.subrange(0, t.len() as int) =~= v@);
            }
            let (a, b) = trim_span(&t, 0, t.len(), Trimmed::Whitespace);
            let core = string_of_span(&t, a, b);
            push_str(&mut d, core.as_str());
            push_str(&mut d, ")");
            d
        },
        None => "amdgpu".to_string(),
    };
    GpuInfo { name, driver }
}

// ---------------------------------------------------------------------------
// Distribution, board and firmware
// ---------------------------------------------------------------------------

/// The first of the lines `ls` that starts with `key`.
pub open spec fn first_line_with(ls: Seq<Seq<char>>, key: Seq<char>) -> Option<Seq<char>>
    decreases ls.len(),
{
    if ls.len() == 0 {
        None
    } else if text::starts_with(ls[0], key) {
        Some(ls[0])
    } else {
        first_line_with(ls.drop_first(), key)
    }
}

/// The value of `key` (such as `PRETTY_NAME=`) in an `os-release` file:
/// the rest of the first line that starts with it, without quotes around.
pub open spec fn os_release_value(content: Seq<char>, key: Seq<char>) -> Option<Seq<char>> {
    match first_line_with(text::lines(content), key) {
        Some(l) => Some(text::trim(l.skip(key.len() as int), Trimmed::Only('"'))),
        None => None,
    }
}

/// Reads the value of `key` in an `os-release` file.
pub fn get_os_release_value(content: &str, key: &str) -> (r: Option<String>)
    ensures
        match r {
            Some(v) => os_release_value(content@, key@) == Some(v@),
            None => os_release_value(content@, key@) is None,
        },
{
    let s = chars_of(content);
    let k = chars_of(key);
    let ls = split_lines(&s, 0, s.len());
    let ghost all = text::lines(s@.subrange(0, s.len() as int));
    proof {
        assert(s@.subrange(0, s.len() as int) =~= content@);
        assert(all.skip(0) =~= all);
    }
    let mut i: usize = 0;
    while i < ls.len()
        invariant
            0 <= i <= ls.len(),
            all == text::lines(content@),
            s@ == content@,
            k@ == key@,
            ls.len() == all.len(),
            forall|j: int|
                0 <= j < ls.len() ==> {
                    &&& 0 <= (#[trigger] ls[j]).0 <= ls[j].1 <= s.len()
                    &&& s@.subrange(ls[j].0 as int, ls[j].1 as int) == all[j]
                },
            first_line_with(all, key@) == first_line_with(all.skip(i as int), key@),
        decreases ls.len() - i,
    {
        let (a, b) = ls[i];
        assert(all.skip(i as int)[0] == all[i as int]);
        assert(all.skip(i as int).drop_first() =~= all.skip(i + 1));
        if starts_with_span(&s, a, b, &k) {
            let from = a + k.len();
            assert(s@.subrange(from as int, b as int) =~= all[i as int].skip(key@.len() as int));
            let (x, y) = trim_span(&s, from, b, Trimmed::Only('"'));
            return Some(string_of_span(&s, x, y));
        }
        i = i + 1;
    }
    assert(all.skip(i as int) =~= Seq::<Seq<char>>::empty());
    None
}

/// The distribution as the hardware tab shows it.
#[derive(Debug)]
pub struct DistroInfo {
    pub name: String,
    pub version: String,
}

pub open spec fn value_or(v: Option<Seq<char>>, unknown: Seq<char>) -> Seq<char> {
    match v {
        Some(x) => x,
        None => unknown,
    }
}

/// The distribution name (`PRETTY_NAME`) and version (`VERSION`) from the
/// `os-release` file; `unknown` for what the file lacks, or for both when
/// it could not be read.
pub fn describe_distro(os_release: Option<&str>, unknown: &str) -> (d: DistroInfo)
    ensures
        os_release matches Some(c) ==> d.name@ == value_or(
            os_release_value(c@, "PRETTY_NAME="@),
            unknown@,
        ) && d.version@ == value_or(os_release_value(c@, "VERSION="@), unknown@),
        os_release is None ==> d.name@ == unknown@ && d.version@ == unknown@,
{
    match os_release {
        Some(c) => {
            let name = match get_os_release_value(c, "PRETTY_NAME=") {
                Some(v) => v,
                None => unknown.to_string(),
            };
            let version = match get_os_release_value(c, "VERSION=") {
                Some(v) => v,
                None => unknown.to_string(),
            };
            DistroInfo { name, version }
        },
        None => DistroInfo { name: unknown.to_string(), version: unknown.to_string() },
    }
}

fn trimmed(t: &str) -> (r: String)
    ensures
        r@ == text::trim(t@, Trimmed::Whitespace),
{
    let s = chars_of(t);
    proof {
        assert(s@.subrange(0, s.len() as int) =~= t@);
    }
    let (a, b) = trim_span(&s, 0, s.len(), Trimmed::Whitespace);
    string_of_span(&s, a, b)
}

/// The first of two sysfs files that could be read, trimmed; `unknown`
/// when neither could (board: `board_name`, then `board_vendor`; firmware:
/// `bios_version` alone).
pub fn first_trimmed_or(first: Option<&str>, second: Option<&str>, unknown: &str) -> (r: String)
    ensures
        r@ == match first {
            Some(a) => text::trim(a@, Trimmed::Whitespace),
            None => match second {
                Some(b) => text::trim(b@, Trimmed::Whitespace),
                None => unknown@,
            },
        },
{
    match first {
        Some(a) => trimmed(a),
        None => match second {
            Some(b) => trimmed(b),
            None => unknown.to_string(),
        },
    }
}

// ---------------------------------------------------------------------------
// Processor
// ---------------------------------------------------------------------------

/// How the processor configuration reads: `<n> rdzeni` in Polish, `<n>
/// cores` otherwise.
pub fn cpu_config_label(cores: usize, translations: &Translations) -> (r: String)
    ensures
        r@ == numbers::decimal(cores as nat) + if translations.title@ == translations::polish_title() {
            " rdzeni"@
        } else {
            " cores"@
        },
{
    let mut r = String::new();
    push_decimal(&mut r, cores as u64);
    if is_polish(translations) {
        push_str(&mut r, " rdzeni");
    } else {
        push_str(&mut r, " cores");
    }
    r
}

} // verus!
