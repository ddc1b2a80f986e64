use vstd::prelude::*;



use crate::numbers::push_decimal;
use crate::text::push_str;
use vstd::string::StringSliceAdditionalSpecFns;
use vstd::utf8;
use crate::numbers;

verus! {

broadcast use {vstd::string::group_string_axioms, vstd::utf8::encode_utf8_decode_utf8};

// ---------------------------------------------------------------------------
// Process names
// ---------------------------------------------------------------------------

/// The longest process name, in bytes, that the process table shows whole.
pub const NAME_LIMIT: usize = 35;

/// How many bytes of a longer name are kept before the ellipsis.
pub const NAME_KEEP: usize = 32;

/// The name shown for a process called `name`: names longer than
/// `NAME_LIMIT` bytes become their first `NAME_KEEP` bytes and `...`.
pub open spec fn shown_process_name(name: &str) -> Seq<char> {
    if name.len() > NAME_LIMIT {
        utf8::decode_utf8(name.spec_bytes().take(NAME_KEEP as int)) + "..."@
    } else {
        name@
    }
}

/// Shortens a long process name for the process table. A name longer than
/// `NAME_LIMIT` bytes must have a character boundary after `NAME_KEEP`
/// bytes.
pub fn display_process_name(name: &str) -> (r: String)
    requires
        name.len() > NAME_LIMIT ==> utf8::is_char_boundary(name.spec_bytes(), NAME_KEEP as int),
    ensures
        r@ == shown_process_name(name),
{
    if name.len() > NAME_LIMIT {
        let (head, _tail) = name.split_at(NAME_KEEP);
        proof {
            assert(head.spec_bytes() =~= name.spec_bytes().take(NAME_KEEP as int));
            assert(utf8::decode_utf8(utf8::encode_utf8(head@)) == head@);
        }
        let mut r = head.to_string();
        assert(r@ == head@);
        assert(head@ == utf8::decode_utf8(name.spec_bytes().take(NAME_KEEP as int)));
        push_str(&mut r, "...");
        r
    } else {
        name.to_string()
    }
}

/// The encoding of two strings one after the other.
pub proof fn lemma_encode_concat(a: Seq<char>, b: Seq<char>)
    ensures
        utf8::encode_utf8(a + b) == utf8::encode_utf8(a) + utf8::encode_utf8(b),
    decreases a.len(),
{
    if a.len() > 0 {
        assert((a + b).drop_first() =~= a.drop_first() + b);
        assert((a + b)[0] == a[0]);
        lemma_encode_concat(a.drop_first(), b);
        assert(utf8::encode_utf8(a + b) =~= utf8::encode_utf8(a) + utf8::encode_utf8(b));
    } else {
        assert(a + b =~= b);
    }
}

/// A shown process name is never longer than `NAME_LIMIT` bytes.
pub proof fn lemma_shown_name_fits(name: &str)
    requires
        name.spec_bytes().len() <= usize::MAX,
        name.len() > NAME_LIMIT ==> utf8::is_char_boundary(name.spec_bytes(), NAME_KEEP as int),
    ensures
        utf8::encode_utf8(shown_process_name(name)).len() <= NAME_LIMIT,
        name.len() > 35 ==> utf8::encode_utf8(shown_process_name(name)).len() == 35 && utf8::encode_utf8(
            shown_process_name(name),
        ).take(32) == name.spec_bytes().take(32) && shown_process_name(name).last() == '.',
        name.len() <= 35 ==> shown_process_name(name) == name@,
{
    broadcast use vstd::utf8::encode_utf8_valid_utf8;

    let bytes = name.spec_bytes();
    if name.len() > NAME_LIMIT {
        let head = bytes.take(NAME_KEEP as int);
        assert(head =~= bytes.subrange(0, NAME_KEEP as int));
        utf8::valid_utf8_split(bytes, NAME_KEEP as int);
        utf8::decode_utf8_encode_utf8(head);
        lemma_encode_concat(utf8::decode_utf8(head), "..."@);
        reveal_strlit("...");
        assert(utf8::encode_utf8("..."@).len() == 3) by {
            reveal_with_fuel(utf8::encode_utf8, 4);
        }
        let shown = utf8::decode_utf8(head) + "..."@;
        assert(utf8::encode_utf8(shown).take(32) =~= head);
        assert(shown.last() == "..."@[2]);
    }
}

// ---------------------------------------------------------------------------
// Gauges
// ---------------------------------------------------------------------------

/// The text under a gauge: the clock, then memory use (`unit` is `RAM` or
/// `VRAM`), with the total only when it is known (not 0).
pub open spec fn gauge_text(unit: Seq<char>, clock_mhz: u64, used_mb: u64, total_mb: u64) -> Seq<char> {
    if total_mb > 0 {
        numbers::decimal(clock_mhz as nat) + " MHz\n"@ + unit + ": "@ + numbers::decimal(used_mb as nat) + " / "@
            + numbers::decimal(total_mb as nat) + " MB"@
    } else {
        numbers::decimal(clock_mhz as nat) + " MHz\n"@ + unit + ": "@ + numbers::decimal(used_mb as nat) + " MB"@
    }
}

/// Formats the text under a gauge.
pub fn gauge_info(unit: &str, clock_mhz: u64, used_mb: u64, total_mb: u64) -> (r: String)
    ensures
        r@ == gauge_text(unit@, clock_mhz, used_mb, total_mb),
{
    let mut r = String::new();
    push_decimal(&mut r, clock_mhz);
    push_str(&mut r, " MHz\n");
    push_str(&mut r, unit);
    push_str(&mut r, ": ");
    push_decimal(&mut r, used_mb);
    if total_mb > 0 {
        push_str(&mut r, " / ");
        push_decimal(&mut r, total_mb);
    }
    push_str(&mut r, " MB");
    r
}

/// How loaded a device is, which picks the colour of its gauge.
#[derive(Clone, Copy, Debug, PartialEq, Eq, Structural)]
pub enum LoadLevel {
    Low,
    Medium,
    High,
}

/// The level of a busy percentage: above 80 high, above 50 medium,
/// otherwise low.
pub open spec fn load_level(busy_percent: u8) -> LoadLevel {
    if busy_percent > 80 {
        LoadLevel::High
    } else if busy_percent > 50 {
        LoadLevel::Medium
    } else {
        LoadLevel::Low
    }
}

/// The level never falls as the load rises; 0..=50 is low, 51..=80
/// medium and 81..=255 high.
pub proof fn lemma_load_level_bands(a: u8, b: u8)
    ensures
        a <= b && load_level(a) == LoadLevel::High ==> load_level(b) == LoadLevel::High,
        a <= b && load_level(b) == LoadLevel::Low ==> load_level(a) == LoadLevel::Low,
        a <= 50 <==> load_level(a) == LoadLevel::Low,
        51 <= a <= 80 <==> load_level(a) == LoadLevel::Medium,
        81 <= a <==> load_level(a) == LoadLevel::High,
{
}

/// The level of a GPU busy percentage.
pub fn gpu_load_level(busy_percent: u8) -> (l: LoadLevel)
    ensures
        l == load_level(busy_percent),
{
    if busy_percent > 80 {
        LoadLevel::High
    } else if busy_percent > 50 {
        LoadLevel::Medium
    } else {
        LoadLevel::Low
    }
}

} // verus!
