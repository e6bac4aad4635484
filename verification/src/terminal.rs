//! Terminal replies and the Kitty Graphics Protocol: reading probe replies
//! and OSC 11 background colors, previewing raw bytes, and chunking a PNG.

use base64::Engine as _;
use vstd::prelude::*;
use vstd::utf8::encode_utf8;

use crate::strings::{bool_text, bool_text_exec, concat, decimal, join, push_char, push_decimal, seq_join, string_of, views};

verus! {

pub const PROBE_RESPONSE_PREVIEW_LIMIT: usize = 256;

/// The Kitty graphics protocol query: a one-pixel image that the terminal
/// is asked to check, not to show.
pub const GRAPHICS_QUERY: [u8; 35] = [0x1bu8, 0x5fu8, 0x47u8, 0x69u8, 0x3du8, 0x33u8, 0x31u8, 0x2cu8, 0x73u8, 0x3du8, 0x31u8, 0x2cu8, 0x76u8, 0x3du8, 0x31u8, 0x2cu8, 0x61u8, 0x3du8, 0x71u8, 0x2cu8, 0x74u8, 0x3du8, 0x64u8, 0x2cu8, 0x66u8, 0x3du8, 0x32u8, 0x34u8, 0x3bu8, 0x41u8, 0x41u8, 0x41u8, 0x41u8, 0x1bu8, 0x5cu8];

/// The primary device attributes query, which every terminal answers.
pub const PRIMARY_DEVICE_ATTRIBUTES_QUERY: [u8; 3] = [0x1bu8, 0x5bu8, 0x63u8];

/// The OSC 11 query for the background color.
pub const OSC_BACKGROUND_QUERY: [u8; 8] = [0x1bu8, 0x5du8, 0x31u8, 0x31u8, 0x3bu8, 0x3fu8, 0x1bu8, 0x5cu8];

/// Result of a Kitty graphics probe.
#[derive(Debug, Clone)]
pub struct KittyProbeResult {
    pub graphics_seen: bool,
    pub device_attributes_seen: bool,
    pub response_bytes: Vec<u8>,
    pub trace: Vec<String>,
}

// ---------------------------------------------------------------------------
// Byte patterns
// ---------------------------------------------------------------------------

/// Whether `pat` occurs in `b` at position `at`.
pub open spec fn bytes_at(b: Seq<u8>, pat: Seq<u8>, at: int) -> bool {
    0 <= at && at + pat.len() <= b.len() && b.subrange(at, at + pat.len()) == pat
}

/// Start of a Kitty graphics reply: ESC `_` `G`.
pub open spec fn graphics_start() -> Seq<u8> {
    seq![0x1bu8, 0x5fu8, 0x47u8]
}

/// End of a Kitty graphics reply (string terminator): ESC `\`.
pub open spec fn string_terminator() -> Seq<u8> {
    seq![0x1bu8, 0x5cu8]
}

/// A Kitty graphics reply was seen: a reply start, and a string terminator at
/// or after it.
pub open spec fn graphics_reply_seen(b: Seq<u8>) -> bool {
    exists|s: int, e: int| s <= e && bytes_at(b, graphics_start(), s) && bytes_at(b, string_terminator(), e)
}

/// Bytes allowed between `ESC [` and `c` in a device-attributes reply.
pub open spec fn is_da_param_byte(c: u8) -> bool {
    c == 0x3fu8 || c == 0x3eu8 || (0x30u8 <= c && c <= 0x39u8) || c == 0x3bu8 || c == 0x3au8
}

/// A device-attributes reply `ESC [ [?>0-9;:]* c` stands at `i`, ending at `j`.
pub open spec fn da_reply_at(b: Seq<u8>, i: int, j: int) -> bool {
    &&& 0 <= i
    &&& i + 2 <= j < b.len()
    &&& b[i] == 0x1bu8
    &&& b[i + 1] == 0x5bu8
    &&& (forall|k: int| i + 2 <= k < j ==> #[trigger] is_da_param_byte(b[k]))
    &&& b[j] == 0x63u8
}

/// A device-attributes reply occurs somewhere in the buffer.
pub open spec fn da_reply_seen(b: Seq<u8>) -> bool {
    exists|i: int, j: int| da_reply_at(b, i, j)
}

fn bytes_at_exec(b: &[u8], pat: &[u8], at: usize) -> (r: bool)
    ensures
        r == bytes_at(b@, pat@, at as int),
{
    let n = b.len();
    let m = pat.len();
    if at > n || m > n - at {
        return false;
    }
    let mut k: usize = 0;
    while k < m
        invariant
            n == b@.len(),
            m == pat@.len(),
            at + m <= n,
            0 <= k <= m,
            forall|t: int| 0 <= t < k ==> b@[at + t] == pat@[t],
        decreases m - k,
    {
        if b[at + k] != pat[k] {
            assert(b@.subrange(at as int, at + m)[k as int] != pat@[k as int]);
            return false;
        }
        k += 1;
    }
    assert(b@.subrange(at as int, at + m) == pat@);
    true
}

/// First position at or after `from` where `pat` occurs, if any.
fn find_bytes(b: &[u8], pat: &[u8], from: usize) -> (r: Option<usize>)
    ensures
        match r {
            Some(p) => from <= p && bytes_at(b@, pat@, p as int) && forall|q: int|
                from <= q < p ==> !bytes_at(b@, pat@, q),
            None => forall|q: int| from <= q ==> !bytes_at(b@, pat@, q),
        },
{
    let n = b.len();
    let mut p: usize = from;
    while p < n
        invariant
            n == b@.len(),
            from <= p || p == from,
            forall|q: int| from <= q < p ==> !bytes_at(b@, pat@, q),
        decreases n - p,
    {
        if bytes_at_exec(b, pat, p) {
            return Some(p);
        }
        p += 1;
    }
    if p == n && bytes_at_exec(b, pat, p) {
        return Some(p);
    }
    assert forall|q: int| from <= q implies !bytes_at(b@, pat@, q) by {
        if q > n {
        }
    }
    None
}

/// Whether a device-attributes reply starts at `i`.
fn da_reply_from(b: &[u8], i: usize) -> (r: bool)
    ensures
        r == exists|j: int| da_reply_at(b@, i as int, j),
{
    let n = b.len();
    if i >= n || n - i < 3 || b[i] != 0x1bu8 || b[i + 1] != 0x5bu8 {
        proof {
            assert forall|j: int| !da_reply_at(b@, i as int, j) by {
            }
        }
        return false;
    }
    let mut j: usize = i + 2;
    while j < n && (b[j] == 0x3fu8 || b[j] == 0x3eu8 || (0x30u8 <= b[j] && b[j] <= 0x39u8) || b[j]
        == 0x3bu8 || b[j] == 0x3au8)
        invariant
            n == b@.len(),
            i + 2 <= j <= n,
            forall|k: int| i + 2 <= k < j ==> #[trigger] is_da_param_byte(b@[k]),
        decreases n - j,
    {
        j += 1;
    }
    if j < n && b[j] == 0x63u8 {
        assert(da_reply_at(b@, i as int, j as int));
        true
    } else {
        assert forall|jj: int| !da_reply_at(b@, i as int, jj) by {
            if da_reply_at(b@, i as int, jj) {
                if jj > j {
                    assert(is_da_param_byte(b@[j as int]));
                } else if jj < j {
                    assert(is_da_param_byte(b@[jj]));
                }
            }
        }
        false
    }
}

fn any_da_reply(buffer: &[u8]) -> (r: bool)
    ensures
        r == da_reply_seen(buffer@),
{
    let n = buffer.len();
    let mut i: usize = 0;
    while i < n
        invariant
            n == buffer@.len(),
            0 <= i <= n,
            forall|ii: int, j: int| 0 <= ii < i ==> !da_reply_at(buffer@, ii, j),
        decreases n - i,
    {
        if da_reply_from(buffer, i) {
            return true;
        }
        i += 1;
    }
    assert forall|ii: int, j: int| !da_reply_at(buffer@, ii, j) by {
        if 0 <= ii < i {
        }
    }
    false
}

/// Scan terminal buffer for Kitty graphics and device attributes responses.
pub fn scan_terminal_responses(buffer: &[u8]) -> (r: (bool, bool))
    ensures
        r.0 == graphics_reply_seen(buffer@),
        r.1 == da_reply_seen(buffer@),
{
    let start_pat: [u8; 3] = [0x1bu8, 0x5fu8, 0x47u8];
    let end_pat: [u8; 2] = [0x1bu8, 0x5cu8];
    assert(start_pat@ == graphics_start());
    assert(end_pat@ == string_terminator());
    let graphics_seen = match find_bytes(buffer, &start_pat, 0) {
        Some(s) => match find_bytes(buffer, &end_pat, s) {
            Some(e) => {
                assert(graphics_reply_seen(buffer@)) by {
                    assert(s <= e && bytes_at(buffer@, graphics_start(), s as int) && bytes_at(
                        buffer@,
                        string_terminator(),
                        e as int,
                    ));
                }
                true
            },
            None => {
                assert(!graphics_reply_seen(buffer@)) by {
                    if graphics_reply_seen(buffer@) {
                        let (s2, e2) = choose|s2: int, e2: int|
                            s2 <= e2 && bytes_at(buffer@, graphics_start(), s2) && bytes_at(
                                buffer@,
                                string_terminator(),
                                e2,
                            );
                        assert(s <= s2);
                        assert(!bytes_at(buffer@, string_terminator(), e2));
                    }
                }
                false
            },
        },
        None => false,
    };
    (graphics_seen, any_da_reply(buffer))
}

// ---------------------------------------------------------------------------
// Hex color components and the OSC 11 reply
// ---------------------------------------------------------------------------

/// The value of an ASCII hexadecimal digit byte.
pub open spec fn hex_byte_value(c: u8) -> Option<nat> {
    if 0x30u8 <= c && c <= 0x39u8 {
        Some((c - 0x30u8) as nat)
    } else if 0x61u8 <= c && c <= 0x66u8 {
        Some((c - 0x61u8 + 10) as nat)
    } else if 0x41u8 <= c && c <= 0x46u8 {
        Some((c - 0x41u8 + 10) as nat)
    } else {
        None
    }
}

pub open spec fn is_hex_byte(c: u8) -> bool {
    hex_byte_value(c) is Some
}

/// The number that a run of hex digit bytes denotes.
pub open spec fn hex_run_value(ds: Seq<u8>) -> nat
    decreases ds.len(),
{
    if ds.len() == 0 {
        0
    } else {
        hex_run_value(ds.drop_last()) * 16 + hex_byte_value(ds.last()).unwrap_or(0)
    }
}

/// 16 to the power `k`.
pub open spec fn pow16(k: nat) -> nat
    decreases k,
{
    if k == 0 {
        1
    } else {
        16 * pow16((k - 1) as nat)
    }
}

/// A component of `len` hex digits scaled to 0..=255, rounding to nearest.
pub open spec fn scaled_component(value: nat, len: nat) -> nat {
    let max = (pow16(len) - 1) as nat;
    (value * 255 + max / 2) / max
}

/// Whether every byte is a hex digit.
pub open spec fn all_hex(ds: Seq<u8>) -> bool {
    forall|i: int| 0 <= i < ds.len() ==> #[trigger] is_hex_byte(ds[i])
}

/// What `u32::from_str_radix(.., 16)` accepts: an optional `+`, then one or
/// more hex digits.
pub open spec fn radix16_digits(c: Seq<u8>) -> Option<Seq<u8>> {
    let ds = if c.len() > 0 && c[0] == 0x2bu8 {
        c.drop_first()
    } else {
        c
    };
    if ds.len() > 0 && all_hex(ds) {
        Some(ds)
    } else {
        None
    }
}

/// A color component of 2 to 4 bytes read as hex and scaled to 0..=255.
pub open spec fn component_spec(c: Seq<u8>) -> Option<u8> {
    if 2 <= c.len() <= 4 {
        match radix16_digits(c) {
            Some(ds) => Some(scaled_component(hex_run_value(ds), c.len()) as u8),
            None => None,
        }
    } else {
        None
    }
}

proof fn lemma_hex_run_bound(ds: Seq<u8>)
    requires
        forall|i: int| 0 <= i < ds.len() ==> #[trigger] is_hex_byte(ds[i]),
    ensures
        hex_run_value(ds) < pow16(ds.len()),
    decreases ds.len(),
{
    if ds.len() > 0 {
        let p = ds.drop_last();
        assert forall|i: int| 0 <= i < p.len() implies #[trigger] is_hex_byte(p[i]) by {
            assert(p[i] == ds[i]);
        }
        lemma_hex_run_bound(p);
        assert(is_hex_byte(ds[ds.len() - 1]));
        assert(hex_byte_value(ds.last()).unwrap_or(0) < 16);
    }
}

fn hex_byte(c: u8) -> (r: Option<u32>)
    ensures
        match hex_byte_value(c) {
            Some(v) => r == Some(v as u32),
            None => r is None,
        },
{
    if 0x30u8 <= c && c <= 0x39u8 {
        Some((c - 0x30u8) as u32)
    } else if 0x61u8 <= c && c <= 0x66u8 {
        Some((c - 0x61u8 + 10) as u32)
    } else if 0x41u8 <= c && c <= 0x46u8 {
        Some((c - 0x41u8 + 10) as u32)
    } else {
        None
    }
}

pub fn parse_hex_color_component_to_u8(component: &[u8]) -> (r: Option<u8>)
    ensures
        r == component_spec(component@),
{
    let len = component.len();
    if len < 2 || len > 4 {
        return None;
    }
    let start: usize = if component[0] == 0x2bu8 { 1 } else { 0 };
    let ghost ds = if component@[0] == 0x2bu8 { component@.drop_first() } else { component@ };
    assert(ds == component@.subrange(start as int, len as int));
    if start >= len {
        return None;
    }
    proof {
        reveal_with_fuel(pow16, 5);
    }
    let mut value: u32 = 0;
    let mut i: usize = start;
    while i < len
        invariant
            start <= i <= len <= 4,
            2 <= len,
            len == component@.len(),
            ds == (if component@[0] == 0x2bu8 { component@.drop_first() } else { component@ }),
            ds == component@.subrange(start as int, len as int),
            forall|k: int| start <= k < i ==> #[trigger] is_hex_byte(component@[k]),
            value == hex_run_value(ds.subrange(0, i - start)),
            value < pow16((i - start) as nat),
            pow16((i - start) as nat) <= pow16(4),
        decreases len - i,
    {
        let d = match hex_byte(component[i]) {
            Some(d) => d,
            None => {
                assert(ds[i - start] == component@[i as int]);
                assert(!is_hex_byte(ds[i - start]));
                assert(!all_hex(ds));
                return None;
            },
        };
        assert(ds.subrange(0, i + 1 - start).drop_last() == ds.subrange(0, i - start));
        proof {
            reveal_with_fuel(pow16, 5);
        }
        assert(pow16((i + 1 - start) as nat) == 16 * pow16((i - start) as nat));
        value = value * 16 + d;
        i += 1;
    }
    assert(ds.subrange(0, len - start) == ds);
    assert forall|k: int| 0 <= k < ds.len() implies #[trigger] is_hex_byte(ds[k]) by {
        assert(ds[k] == component@[start + k]);
    }
    let max: u32 = if len == 2 { 255 } else if len == 3 { 4095 } else { 65535 };
    proof {
        reveal_with_fuel(pow16, 5);
        assert(pow16(1) == 16 && pow16(2) == 256 && pow16(3) == 4096 && pow16(4) == 65536);
    }
    assert(value <= max);
    let scaled = (value * 255 + max / 2) / max;
    assert(scaled <= 255) by (nonlinear_arith)
        requires
            value <= max,
            max >= 255,
            scaled as int == (value as int * 255 + max as int / 2) / max as int,
    {
    }
    Some(scaled as u8)
}


/// The OSC 11 reply prefix: ESC `]11;rgb:`.
pub open spec fn osc_background_prefix() -> Seq<u8> {
    seq![0x1bu8, 0x5du8, 0x31u8, 0x31u8, 0x3bu8, 0x72u8, 0x67u8, 0x62u8, 0x3au8]
}

/// End of the run of hex digit bytes that starts at `i`.
pub open spec fn hex_run_end(b: Seq<u8>, i: int) -> int
    decreases b.len() - i,
{
    if 0 <= i < b.len() && is_hex_byte(b[i]) {
        hex_run_end(b, i + 1)
    } else {
        i
    }
}

/// A run of 2 to 4 hex digits starting at `i`, followed by `sep` (when
/// `sep` is `Some`): its end.
pub open spec fn hex_field_end(b: Seq<u8>, i: int) -> int {
    hex_run_end(b, i)
}

pub open spec fn field_len_ok(b: Seq<u8>, i: int) -> bool {
    2 <= hex_field_end(b, i) - i <= 4
}

/// The reply `ESC ]11;rgb:RRRR/GGGG/BBBB` ended by BEL or `ESC \`, with 2 to
/// 4 hex digits per component, standing at position `i`: the three
/// component fields as (start, end) pairs.
pub open spec fn osc_fields_at(b: Seq<u8>, i: int) -> Option<(int, int, int, int, int, int)> {
    let r0 = i + osc_background_prefix().len();
    let r1 = hex_field_end(b, r0);
    let g0 = r1 + 1;
    let g1 = hex_field_end(b, g0);
    let b0 = g1 + 1;
    let b1 = hex_field_end(b, b0);
    if bytes_at(b, osc_background_prefix(), i) && field_len_ok(b, r0) && r1 < b.len() && b[r1]
        == 0x2fu8 && field_len_ok(b, g0) && g1 < b.len() && b[g1] == 0x2fu8 && field_len_ok(b, b0)
        && b1 < b.len() && (b[b1] == 0x07u8 || (b[b1] == 0x1bu8 && b1 + 1 < b.len() && b[b1 + 1]
        == 0x5cu8)) {
        Some((r0, r1, g0, g1, b0, b1))
    } else {
        None
    }
}

/// The color of the first OSC 11 reply at or after `i`.
pub open spec fn osc_background_from(b: Seq<u8>, i: int) -> Option<(u8, u8, u8)>
    decreases b.len() - i,
{
    if i < 0 || i >= b.len() {
        None
    } else {
        match osc_fields_at(b, i) {
            Some((r0, r1, g0, g1, b0, b1)) => match (
                component_spec(b.subrange(r0, r1)),
                component_spec(b.subrange(g0, g1)),
                component_spec(b.subrange(b0, b1)),
            ) {
                (Some(r), Some(g), Some(bl)) => Some((r, g, bl)),
                _ => None,
            },
            None => osc_background_from(b, i + 1),
        }
    }
}

proof fn lemma_hex_run_end_bounds(b: Seq<u8>, i: int)
    requires
        0 <= i <= b.len(),
    ensures
        i <= hex_run_end(b, i) <= b.len(),
        forall|k: int| i <= k < hex_run_end(b, i) ==> #[trigger] is_hex_byte(b[k]),
        hex_run_end(b, i) < b.len() ==> !is_hex_byte(b[hex_run_end(b, i)]),
    decreases b.len() - i,
{
    if i < b.len() && is_hex_byte(b[i]) {
        lemma_hex_run_end_bounds(b, i + 1);
    }
}

fn hex_run_end_exec(b: &[u8], i: usize) -> (r: usize)
    requires
        i <= b@.len(),
    ensures
        r == hex_run_end(b@, i as int),
{
    let n = b.len();
    let mut j: usize = i;
    while j < n && hex_byte(b[j]).is_some()
        invariant
            n == b@.len(),
            i <= j <= n,
            hex_run_end(b@, i as int) == hex_run_end(b@, j as int),
        decreases n - j,
    {
        j += 1;
    }
    j
}

fn slice_vec(b: &[u8], from: usize, to: usize) -> (r: Vec<u8>)
    requires
        from <= to <= b@.len(),
    ensures
        r@ == b@.subrange(from as int, to as int),
{
    let mut out: Vec<u8> = Vec::new();
    let mut k: usize = from;
    while k < to
        invariant
            from <= k <= to <= b@.len(),
            out@ == b@.subrange(from as int, k as int),
        decreases to - k,
    {
        out.push(b[k]);
        k += 1;
    }
    out
}

/// The color reported by an OSC 11 reply standing at `i`, if one does.
fn osc_background_at(b: &[u8], i: usize) -> (r: Option<Option<(u8, u8, u8)>>)
    requires
        i < b@.len(),
    ensures
        match osc_fields_at(b@, i as int) {
            Some((r0, r1, g0, g1, b0, b1)) => r == Some(
                match (
                    component_spec(b@.subrange(r0, r1)),
                    component_spec(b@.subrange(g0, g1)),
                    component_spec(b@.subrange(b0, b1)),
                ) {
                    (Some(rr), Some(gg), Some(bb)) => Some((rr, gg, bb)),
                    _ => None,
                },
            ),
            None => r is None,
        },
{
    let n = b.len();
    let prefix: [u8; 9] = [0x1bu8, 0x5du8, 0x31u8, 0x31u8, 0x3bu8, 0x72u8, 0x67u8, 0x62u8, 0x3au8];
    assert(prefix@ == osc_background_prefix());
    if !bytes_at_exec(b, &prefix, i) {
        return None;
    }
    let r0 = i + 9;
    let r1 = hex_run_end_exec(b, r0);
    proof {
        lemma_hex_run_end_bounds(b@, r0 as int);
    }
    if r1 - r0 < 2 || r1 - r0 > 4 || r1 >= n || b[r1] != 0x2fu8 {
        return None;
    }
    let g0 = r1 + 1;
    let g1 = hex_run_end_exec(b, g0);
    proof {
        lemma_hex_run_end_bounds(b@, g0 as int);
    }
    if g1 - g0 < 2 || g1 - g0 > 4 || g1 >= n || b[g1] != 0x2fu8 {
        return None;
    }
    let b0 = g1 + 1;
    let b1 = hex_run_end_exec(b, b0);
    proof {
        lemma_hex_run_end_bounds(b@, b0 as int);
    }
    if b1 - b0 < 2 || b1 - b0 > 4 || b1 >= n {
        return None;
    }
    if !(b[b1] == 0x07u8 || (b[b1] == 0x1bu8 && b1 + 1 < n && b[b1 + 1] == 0x5cu8)) {
        return None;
    }
    let red = parse_hex_color_component_to_u8(slice_vec(b, r0, r1).as_slice());
    let green = parse_hex_color_component_to_u8(slice_vec(b, g0, g1).as_slice());
    let blue = parse_hex_color_component_to_u8(slice_vec(b, b0, b1).as_slice());
    match (red, green, blue) {
        (Some(rr), Some(gg), Some(bb)) => Some(Some((rr, gg, bb))),
        _ => Some(None),
    }
}

/// The color of the first OSC 11 background reply in the buffer.
pub fn parse_osc_background_response(buffer: &[u8]) -> (r: Option<(u8, u8, u8)>)
    ensures
        r == osc_background_from(buffer@, 0),
{
    let n = buffer.len();
    let mut i: usize = 0;
    while i < n
        invariant
            n == buffer@.len(),
            0 <= i <= n,
            osc_background_from(buffer@, 0) == osc_background_from(buffer@, i as int),
        decreases n - i,
    {
        match osc_background_at(buffer, i) {
            Some(found) => {
                return found;
            },
            None => {},
        }
        i += 1;
    }
    None
}

// ---------------------------------------------------------------------------
// Probe diagnostics
// ---------------------------------------------------------------------------

/// The lowercase hex digit for a value below 16.
pub open spec fn hex_digit_char(v: int) -> char {
    crate::palette::hex_char(v)
}

/// Two lowercase hex digits for a byte.
pub open spec fn hex2(b: u8) -> Seq<char> {
    seq![hex_digit_char((b / 16) as int), hex_digit_char((b % 16) as int)]
}

/// How a byte shows in the escaped preview.
pub open spec fn escape_byte(b: u8) -> Seq<char> {
    if b == 0x1bu8 {
        seq!['\\', 'x', '1', 'b']
    } else if b == 0x0du8 {
        seq!['\\', 'r']
    } else if b == 0x0au8 {
        seq!['\\', 'n']
    } else if b == 0x09u8 {
        seq!['\\', 't']
    } else if 0x20u8 <= b && b <= 0x7eu8 {
        seq![(b as u32) as char]
    } else {
        seq!['\\', 'x'] + hex2(b)
    }
}

/// The escaped form of a byte sequence.
pub open spec fn escape_all(bs: Seq<u8>) -> Seq<char>
    decreases bs.len(),
{
    if bs.len() == 0 {
        Seq::empty()
    } else {
        escape_all(bs.drop_last()) + escape_byte(bs.last())
    }
}

/// The bytes in hex, separated by spaces.
pub open spec fn hex_all(bs: Seq<u8>) -> Seq<char> {
    seq_join(bs.map_values(|b: u8| hex2(b)), " "@)
}

/// The preview of the bytes a probe received: escaped and hex forms of at
/// most the first 256 bytes, noting the total when there were more.
pub open spec fn preview_spec(bytes: Seq<u8>) -> Seq<char> {
    if bytes.len() == 0 {
        "no response bytes received"@
    } else {
        let shown = if bytes.len() <= 256 {
            bytes
        } else {
            bytes.take(256)
        };
        let body = "escaped=`"@ + escape_all(shown) + "` hex=`"@ + hex_all(shown) + "`"@;
        if bytes.len() > shown.len() {
            body + " (truncated, "@ + decimal(bytes.len()) + " bytes total)"@
        } else {
            body
        }
    }
}

fn push_hex2(out: &mut String, b: u8)
    ensures
        final(out)@ == old(out)@ + hex2(b),
{
    push_char(out, hex_char_lower(b / 16));
    push_char(out, hex_char_lower(b % 16));
}

fn hex_char_lower(v: u8) -> (c: char)
    requires
        v < 16,
    ensures
        c == hex_digit_char(v as int),
{
    if v < 10 {
        (48u8 + v) as char
    } else {
        (87u8 + v) as char
    }
}

fn push_escaped(out: &mut String, b: u8)
    ensures
        final(out)@ == old(out)@ + escape_byte(b),
{
    let ghost start = out@;
    if b == 0x1bu8 {
        push_char(out, '\\');
        push_char(out, 'x');
        push_char(out, '1');
        push_char(out, 'b');
    } else if b == 0x0du8 {
        push_char(out, '\\');
        push_char(out, 'r');
    } else if b == 0x0au8 {
        push_char(out, '\\');
        push_char(out, 'n');
    } else if b == 0x09u8 {
        push_char(out, '\\');
        push_char(out, 't');
    } else if 0x20u8 <= b && b <= 0x7eu8 {
        push_char(out, b as char);
    } else {
        push_char(out, '\\');
        push_char(out, 'x');
        push_hex2(out, b);
    }
    assert(out@ == start + escape_byte(b));
}

/// Format probe response bytes as a human-readable preview.
pub fn format_probe_response_preview(bytes: &[u8]) -> (r: String)
    ensures
        r@ == preview_spec(bytes@),
{
    let total = bytes.len();
    if total == 0 {
        return string_of("no response bytes received");
    }
    let shown_len: usize = if total <= PROBE_RESPONSE_PREVIEW_LIMIT {
        total
    } else {
        PROBE_RESPONSE_PREVIEW_LIMIT
    };
    let ghost shown = if total <= 256 { bytes@ } else { bytes@.take(256) };
    assert(shown == bytes@.subrange(0, shown_len as int));
    let mut escaped = String::new();
    let mut hex = String::new();
    let mut i: usize = 0;
    while i < shown_len
        invariant
            shown_len <= bytes@.len(),
            shown == bytes@.subrange(0, shown_len as int),
            0 <= i <= shown_len,
            escaped@ == escape_all(shown.take(i as int)),
            hex@ == hex_all(shown.take(i as int)),
        decreases shown_len - i,
    {
        let b = bytes[i];
        assert(shown.take(i + 1).drop_last() == shown.take(i as int));
        assert(shown.take(i + 1).last() == b);
        push_escaped(&mut escaped, b);
        let ghost before = shown.take(i as int).map_values(|x: u8| hex2(x));
        assert(shown.take(i + 1).map_values(|x: u8| hex2(x)) == before.push(hex2(b)));
        assert(shown.take(i + 1).map_values(|x: u8| hex2(x)).drop_last() == before);
        if i > 0 {
            push_char(&mut hex, ' ');
            let ghost after_space = hex@;
            push_hex2(&mut hex, b);
            assert(hex@ == after_space + hex2(b));
        } else {
            push_hex2(&mut hex, b);
            assert(before.len() == 0);
        }
        proof {
            reveal_strlit(" ");
        }
        i += 1;
    }
    assert(shown.take(shown_len as int) == shown);
    let mut out = concat("escaped=`", escaped.as_str());
    out.append("` hex=`");
    out.append(hex.as_str());
    out.append("`");
    if total > shown_len {
        out.append(" (truncated, ");
        push_decimal(&mut out, total as u64);
        out.append(" bytes total)");
    }
    out
}

/// The probe trace lines joined, or a note that none were recorded.
pub open spec fn trace_spec(trace: Seq<Seq<char>>) -> Seq<char> {
    if trace.len() == 0 {
        "no probe trace recorded"@
    } else {
        seq_join(trace, "\n"@)
    }
}

pub fn format_probe_trace(trace: &[String]) -> (r: String)
    ensures
        r@ == trace_spec(views(trace@)),
{
    if trace.len() == 0 {
        return string_of("no probe trace recorded");
    }
    join(trace, "\n")
}


// ---------------------------------------------------------------------------
// Kitty Graphics Protocol encoding
// ---------------------------------------------------------------------------

/// The character of the standard base64 alphabet for a six-bit value:
/// `A`-`Z`, `a`-`z`, `0`-`9`, `+`, `/`.
pub open spec fn base64_digit(v: int) -> u8 {
    if v < 26 {
        (0x41 + v) as u8
    } else if v < 52 {
        (0x61 + (v - 26)) as u8
    } else if v < 62 {
        (0x30 + (v - 52)) as u8
    } else if v == 62 {
        0x2bu8
    } else {
        0x2fu8
    }
}

/// Standard base64 with `=` padding: every group of three bytes becomes four
/// alphabet characters, six bits each, most significant first; a last group
/// of one or two bytes is filled with zero bits and padded to four.
pub open spec fn base64_standard(data: Seq<u8>) -> Seq<u8>
    decreases data.len(),
{
    if data.len() == 0 {
        seq![]
    } else if data.len() == 1 {
        let a = data[0] as int;
        seq![base64_digit(a / 4), base64_digit((a % 4) * 16), 0x3du8, 0x3du8]
    } else if data.len() == 2 {
        let a = data[0] as int;
        let b = data[1] as int;
        seq![base64_digit(a / 4), base64_digit((a % 4) * 16 + b / 16), base64_digit((b % 16) * 4), 0x3du8]
    } else {
        let a = data[0] as int;
        let b = data[1] as int;
        let c = data[2] as int;
        seq![
            base64_digit(a / 4),
            base64_digit((a % 4) * 16 + b / 16),
            base64_digit((b % 16) * 4 + c / 64),
            base64_digit(c % 64),
        ] + base64_standard(data.skip(3))
    }
}

/// The bytes of the standard base64 alphabet and its padding character.
pub open spec fn is_base64_byte(c: u8) -> bool {
    (0x41u8 <= c && c <= 0x5au8) || (0x61u8 <= c && c <= 0x7au8) || (0x30u8 <= c && c <= 0x39u8)
        || c == 0x2bu8 || c == 0x2fu8 || c == 0x3du8
}

/// The encoding is plain ASCII: it holds only alphabet characters and `=`,
/// and it is four characters for every started group of three bytes.
pub proof fn law_base64_alphabet(data: Seq<u8>)
    ensures
        forall|i: int|
            0 <= i < base64_standard(data).len() ==> #[trigger] is_base64_byte(
                base64_standard(data)[i],
            ),
        base64_standard(data).len() == 4 * ((data.len() + 2) / 3),
    decreases data.len(),
{
    let e = base64_standard(data);
    if data.len() == 0 {
    } else if data.len() < 3 {
        assert forall|i: int| 0 <= i < e.len() implies #[trigger] is_base64_byte(e[i]) by {
            let a = data[0] as int;
            assert(0 <= a / 4 < 64 && 0 <= (a % 4) * 16 < 64);
            if data.len() == 2 {
                let b = data[1] as int;
                assert(0 <= (a % 4) * 16 + b / 16 < 64);
                assert(0 <= (b % 16) * 4 < 64);
            }
        }
    } else {
        let rest = data.skip(3);
        law_base64_alphabet(rest);
        let a = data[0] as int;
        let b = data[1] as int;
        let c = data[2] as int;
        let head = seq![
            base64_digit(a / 4),
            base64_digit((a % 4) * 16 + b / 16),
            base64_digit((b % 16) * 4 + c / 64),
            base64_digit(c % 64),
        ];
        assert(e == head + base64_standard(rest));
        assert(0 <= (a % 4) * 16 + b / 16 < 64);
        assert(0 <= (b % 16) * 4 + c / 64 < 64);
        assert forall|i: int| 0 <= i < e.len() implies #[trigger] is_base64_byte(e[i]) by {
            if i >= 4 {
                assert(e[i] == base64_standard(rest)[i - 4]);
            }
        }
    }
}

/// Calls `base64::engine::general_purpose::STANDARD.encode`, the standard
/// alphabet with `=` padding, which is the encoding `base64_standard` states.
#[verifier::external_body]
fn base64_encode(data: &[u8]) -> (r: Vec<u8>)
    ensures
        r@ == base64_standard(data@),
{
    base64::engine::general_purpose::STANDARD.encode(data).into_bytes()
}

/// The control keys shared by the first chunk: transmit-and-display a PNG
/// with the given placement.
pub open spec fn control_prefix(placement_cols: u32, placement_rows: Option<u32>, cursor_no_move: bool) -> Seq<char> {
    let base = "a=T,t=d,f=100,c="@ + decimal(placement_cols as nat);
    let with_rows = match placement_rows {
        Some(r) => base + ",r="@ + decimal(r as nat),
        None => base,
    };
    if cursor_no_move {
        with_rows + ",C=1"@
    } else {
        with_rows
    }
}

/// The `k`-th escape sequence of a chunked transmission of `encoded`.
pub open spec fn kitty_chunk(encoded: Seq<u8>, chunk_size: nat, k: nat, prefix: Seq<char>) -> Seq<u8> {
    let offset: int = (k * chunk_size) as int;
    let more = if offset + chunk_size < encoded.len() {
        "1"@
    } else {
        "0"@
    };
    let control = if k == 0 {
        prefix + ",m="@ + more + ";"@
    } else {
        "m="@ + more + ";"@
    };
    encode_utf8("\x1b_G"@) + encode_utf8(control) + chunk_payload(encoded, chunk_size, k)
        + encode_utf8("\x1b\\"@)
}

/// The encoded bytes that chunk `k` carries.
pub open spec fn chunk_payload(encoded: Seq<u8>, chunk_size: nat, k: nat) -> Seq<u8> {
    let offset: int = (k * chunk_size) as int;
    let end: int = if offset + chunk_size < encoded.len() {
        offset + chunk_size
    } else {
        encoded.len() as int
    };
    encoded.subrange(offset, end)
}

/// The payloads of the first `n` chunks, one after the other.
pub open spec fn payloads_upto(encoded: Seq<u8>, chunk_size: nat, n: nat) -> Seq<u8>
    decreases n,
{
    if n == 0 {
        seq![]
    } else {
        payloads_upto(encoded, chunk_size, (n - 1) as nat) + chunk_payload(
            encoded,
            chunk_size,
            (n - 1) as nat,
        )
    }
}

proof fn lemma_payloads_prefix(encoded: Seq<u8>, cs: nat, n: nat)
    requires
        cs > 0,
        encoded.len() > 0,
        n == 0 || ((n - 1) * cs) < encoded.len(),
    ensures
        payloads_upto(encoded, cs, n) == encoded.subrange(
            0,
            if n * cs < encoded.len() {
                (n * cs) as int
            } else {
                encoded.len() as int
            },
        ),
    decreases n,
{
    if n == 0 {
        assert(encoded.subrange(0, 0) =~= seq![]);
    } else {
        let m = (n - 1) as nat;
        assert(m * cs + cs == n * cs) by (nonlinear_arith)
            requires
                m == n - 1,
        ;
        if m > 0 {
            assert((m - 1) * cs <= m * cs) by (nonlinear_arith)
                requires
                    m > 0,
            ;
        }
        lemma_payloads_prefix(encoded, cs, m);
        assert(m * cs < encoded.len());
        assert(payloads_upto(encoded, cs, n) =~= encoded.subrange(
            0,
            if n * cs < encoded.len() {
                (n * cs) as int
            } else {
                encoded.len() as int
            },
        ));
    }
}

/// The chunks carry the whole encoding: their payloads, in order, are
/// exactly the encoded bytes.
pub proof fn law_chunks_carry_payload(encoded: Seq<u8>, chunk_size: nat)
    requires
        chunk_size > 0,
    ensures
        payloads_upto(encoded, chunk_size, kitty_chunk_count(encoded.len(), chunk_size))
            == encoded,
{
    let n = encoded.len();
    let count = kitty_chunk_count(n, chunk_size);
    if n == 0 {
        assert(count == 1);
        assert(0 * chunk_size == 0) by (nonlinear_arith);
        assert(payloads_upto(encoded, chunk_size, 0) =~= seq![]);
        assert(chunk_payload(encoded, chunk_size, 0) =~= seq![]);
        assert(payloads_upto(encoded, chunk_size, 1) == payloads_upto(encoded, chunk_size, 0)
            + chunk_payload(encoded, chunk_size, 0));
        assert(payloads_upto(encoded, chunk_size, 1) =~= encoded);
    } else {
        lemma_chunk_count(n, chunk_size);
        assert(((count - 1) as nat * chunk_size) < n);
        lemma_payloads_prefix(encoded, chunk_size, count);
        let q = n / chunk_size;
        let r = n % chunk_size;
        assert(count * chunk_size >= n) by (nonlinear_arith)
            requires
                chunk_size > 0,
                q == n / chunk_size,
                r == n % chunk_size,
                count == if r != 0 {
                    q + 1
                } else {
                    q
                },
        ;
        assert(encoded.subrange(0, n as int) =~= encoded);
    }
}

/// Number of chunks for an encoding of length `n`: one per started chunk,
/// and one when the encoding is empty.
pub open spec fn kitty_chunk_count(n: nat, chunk_size: nat) -> nat {
    if n == 0 {
        1
    } else {
        ((n + chunk_size - 1) / chunk_size as int) as nat
    }
}

proof fn lemma_chunk_count(n: nat, cs: nat)
    requires
        cs > 0,
    ensures
        forall|j: nat| j < kitty_chunk_count(n, cs) && n > 0 ==> #[trigger] (j * cs) < n,
        n > 0 ==> kitty_chunk_count(n, cs) == (if n % cs != 0 { n / cs + 1 } else { n / cs }),
        n > 0 ==> kitty_chunk_count(n, cs) >= 1,
{
    if n > 0 {
        let q = n / cs;
        let r = n % cs;
        assert(n == q * cs + r && 0 <= r < cs) by (nonlinear_arith)
            requires
                cs > 0,
                q == n / cs,
                r == n % cs,
        ;
        assert(((n + cs - 1) / cs as int) == (if r != 0 { (q + 1) as int } else { q as int })) by (nonlinear_arith)
            requires
                cs > 0,
                n == q * cs + r,
                0 <= r < cs,
        ;
        if r == 0 {
            assert(q >= 1) by (nonlinear_arith)
                requires
                    n == q * cs,
                    n > 0,
                    cs > 0,
            ;
        }
        assert forall|j: nat| j < kitty_chunk_count(n, cs) implies #[trigger] (j * cs) < n by {
            if r != 0 {
                assert(j * cs < n) by (nonlinear_arith)
                    requires
                        j <= q,
                        n == q * cs + r,
                        0 < r,
                        cs > 0,
                ;
            } else {
                assert(j * cs < n) by (nonlinear_arith)
                    requires
                        j < q,
                        n == q * cs,
                        cs > 0,
                ;
            }
        }
    }
}

pub const CHUNK_SIZE_ERROR: &'static str = "chunk_size must be a positive multiple of 4";

fn append_bytes(out: &mut Vec<u8>, more: &[u8])
    ensures
        final(out)@ == old(out)@ + more@,
{
    let n = more.len();
    let mut i: usize = 0;
    let ghost start = out@;
    while i < n
        invariant
            n == more@.len(),
            0 <= i <= n,
            out@ == start + more@.subrange(0, i as int),
        decreases n - i,
    {
        out.push(more[i]);
        assert(more@.subrange(0, i + 1) == more@.subrange(0, i as int).push(more@[i as int]));
        i += 1;
    }
    assert(more@.subrange(0, n as int) == more@);
}

fn build_chunk(control: &str, encoded: &Vec<u8>, from: usize, to: usize) -> (r: Vec<u8>)
    requires
        from <= to <= encoded@.len(),
    ensures
        r@ == encode_utf8("\x1b_G"@) + encode_utf8(control@) + encoded@.subrange(from as int, to as int)
            + encode_utf8("\x1b\\"@),
{
    let mut chunk: Vec<u8> = Vec::new();
    append_bytes(&mut chunk, "\x1b_G".as_bytes());
    append_bytes(&mut chunk, control.as_bytes());
    append_bytes(&mut chunk, slice_vec(encoded.as_slice(), from, to).as_slice());
    append_bytes(&mut chunk, "\x1b\\".as_bytes());
    assert(chunk@ == Seq::<u8>::empty() + encode_utf8("\x1b_G"@) + encode_utf8(control@) + encoded@.subrange(from as int, to as int) + encode_utf8("\x1b\\"@));
    chunk
}

/// Encode a PNG for transport with the Kitty graphics protocol.
pub fn encode_kitty_chunks(
    png_bytes: &[u8],
    placement_cols: u32,
    placement_rows: Option<u32>,
    cursor_no_move: bool,
    chunk_size: usize,
) -> (r: Result<Vec<Vec<u8>>, String>)
    ensures
        chunk_size == 0 || chunk_size % 4 != 0 ==> (r is Err && r->Err_0@ == CHUNK_SIZE_ERROR@),
        chunk_size != 0 && chunk_size % 4 == 0 ==> (r matches Ok(chunks) && ({
            let e = base64_standard(png_bytes@);
            let prefix = control_prefix(placement_cols, placement_rows, cursor_no_move);
            &&& chunks@.len() == kitty_chunk_count(e.len(), chunk_size as nat)
            &&& forall|k: int|
                0 <= k < chunks@.len() ==> #[trigger] chunks@[k]@ == kitty_chunk(
                    e,
                    chunk_size as nat,
                    k as nat,
                    prefix,
                )
        })),
{
    if chunk_size == 0 || chunk_size % 4 != 0 {
        return Err(string_of(CHUNK_SIZE_ERROR));
    }
    let encoded = base64_encode(png_bytes);
    let ghost e = encoded@;
    let mut prefix = string_of("a=T,t=d,f=100,c=");
    push_decimal(&mut prefix, placement_cols as u64);
    match placement_rows {
        Some(rows) => {
            prefix.append(",r=");
            push_decimal(&mut prefix, rows as u64);
        },
        None => {},
    }
    if cursor_no_move {
        prefix.append(",C=1");
    }
    let ghost prefix_spec = control_prefix(placement_cols, placement_rows, cursor_no_move);
    assert(prefix@ == prefix_spec);
    let n = encoded.len();
    let count: usize = if n == 0 {
        1
    } else if n % chunk_size != 0 {
        assert(n / chunk_size <= n / 1) by (nonlinear_arith)
            requires
                chunk_size >= 1,
        ;
        assert(n / chunk_size < n) by (nonlinear_arith)
            requires
                chunk_size >= 4,
                n > 0,
        ;
        n / chunk_size + 1
    } else {
        n / chunk_size
    };
    proof {
        lemma_chunk_count(n as nat, chunk_size as nat);
    }
    assert(count == kitty_chunk_count(n as nat, chunk_size as nat));
    let mut chunks: Vec<Vec<u8>> = Vec::new();
    let mut offset: usize = 0;
    let mut k: usize = 0;
    while k < count
        invariant
            n == e.len(),
            encoded@ == e,
            prefix@ == prefix_spec,
            chunk_size > 0,
            count == kitty_chunk_count(n as nat, chunk_size as nat),
            forall|j: nat| j < count && n > 0 ==> #[trigger] (j * (chunk_size as nat)) < n,
            0 <= k <= count,
            k < count ==> offset == k * chunk_size,
            k < count ==> (offset < n || n == 0),
            chunks@.len() == k,
            forall|j: int| 0 <= j < k ==> #[trigger] chunks@[j]@ == kitty_chunk(e, chunk_size as nat, j as nat, prefix_spec),
        decreases count - k,
    {
        let has_more = chunk_size < n - offset;
        let end = if has_more { offset + chunk_size } else { n };
        let mut control = if k == 0 {
            concat(prefix.as_str(), ",m=")
        } else {
            string_of("m=")
        };
        if has_more {
            control.append("1");
        } else {
            control.append("0");
        }
        control.append(";");
        let chunk = build_chunk(control.as_str(), &encoded, offset, end);
        assert(chunk@ == kitty_chunk(e, chunk_size as nat, k as nat, prefix_spec));
        chunks.push(chunk);
        k += 1;
        if k < count {
            assert(((k as nat) * (chunk_size as nat)) < n);
            assert(k * chunk_size == offset + chunk_size) by (nonlinear_arith)
                requires
                    offset == (k - 1) * chunk_size,
            ;
            offset = offset + chunk_size;
        }
    }
    Ok(chunks)
}

// ---------------------------------------------------------------------------
// The probe's reading loop
// ---------------------------------------------------------------------------

/// What a Kitty graphics probe has read so far: the reply bytes, which
/// replies they hold, and the trace of the probe.
pub struct ProbeState {
    pub buffer: Vec<u8>,
    pub graphics_seen: bool,
    pub device_attributes_seen: bool,
    pub trace: Vec<String>,
}

/// The trace lines that reading a chunk adds: the chunk, the scan of the
/// whole buffer, and the end of the probe once both replies are in.
pub open spec fn absorb_trace(chunk: Seq<u8>, buffer: Seq<u8>) -> Seq<Seq<char>> {
    let g = graphics_reply_seen(buffer);
    let da = da_reply_seen(buffer);
    seq![
        "read "@ + decimal(chunk.len()) + " bytes: "@ + preview_spec(chunk),
        "scan buffer: total_bytes="@ + decimal(buffer.len()) + " graphics_reply="@ + bool_text(g)
            + " da_reply="@ + bool_text(da),
    ] + if g && da {
        seq!["probe complete: saw graphics and device-attributes replies"@]
    } else {
        seq![]
    }
}

impl ProbeState {
    /// A probe that has read nothing, with its trace so far.
    pub fn new(trace: Vec<String>) -> (r: ProbeState)
        ensures
            r.buffer@ == Seq::<u8>::empty(),
            !r.graphics_seen,
            !r.device_attributes_seen,
            r.trace@ == trace@,
    {
        ProbeState { buffer: Vec::new(), graphics_seen: false, device_attributes_seen: false, trace }
    }

    /// Take in a chunk of reply bytes; the result says whether both replies
    /// are now in, which ends the probe.
    pub fn absorb_chunk(&mut self, chunk: &[u8]) -> (done: bool)
        requires
            old(self).buffer@.len() + chunk@.len() <= usize::MAX,
        ensures
            final(self).buffer@ == old(self).buffer@ + chunk@,
            final(self).graphics_seen == graphics_reply_seen(final(self).buffer@),
            final(self).device_attributes_seen == da_reply_seen(final(self).buffer@),
            views(final(self).trace@) == views(old(self).trace@) + absorb_trace(
                chunk@,
                final(self).buffer@,
            ),
            done == (final(self).graphics_seen && final(self).device_attributes_seen),
    {
        let ghost trace0 = views(self.trace@);
        let mut line = string_of("read ");
        push_decimal(&mut line, chunk.len() as u64);
        line.append(" bytes: ");
        let preview = format_probe_response_preview(chunk);
        line.append(preview.as_str());
        self.trace.push(line);
        let mut i: usize = 0;
        let ghost buf0 = self.buffer@;
        while i < chunk.len()
            invariant
                0 <= i <= chunk@.len(),
                self.buffer@ == buf0 + chunk@.subrange(0, i as int),
                views(self.trace@) == trace0.push(
                    "read "@ + decimal(chunk@.len()) + " bytes: "@ + preview_spec(chunk@),
                ),
            decreases chunk@.len() - i,
        {
            self.buffer.push(chunk[i]);
            assert(buf0 + chunk@.subrange(0, i + 1) =~= (buf0 + chunk@.subrange(0, i as int)).push(
                chunk@[i as int],
            ));
            i += 1;
        }
        assert(chunk@.subrange(0, chunk@.len() as int) =~= chunk@);
        let (g, da) = scan_terminal_responses(self.buffer.as_slice());
        self.graphics_seen = g;
        self.device_attributes_seen = da;
        let mut scan = string_of("scan buffer: total_bytes=");
        push_decimal(&mut scan, self.buffer.len() as u64);
        scan.append(" graphics_reply=");
        scan.append(bool_text_exec(g));
        scan.append(" da_reply=");
        scan.append(bool_text_exec(da));
        let ghost t1 = views(self.trace@);
        self.trace.push(scan);
        assert(views(self.trace@) =~= t1.push(scan@));
        let done = g && da;
        if done {
            let ghost t2 = views(self.trace@);
            let last = string_of("probe complete: saw graphics and device-attributes replies");
            self.trace.push(last);
            assert(views(self.trace@) =~= t2.push(last@));
        }
        proof {
            assert(views(self.trace@) =~= trace0 + absorb_trace(chunk@, self.buffer@));
        }
        done
    }

    /// End the probe: note what was seen and hand over the result.
    pub fn finish(self) -> (r: KittyProbeResult)
        ensures
            r.graphics_seen == self.graphics_seen,
            r.device_attributes_seen == self.device_attributes_seen,
            r.response_bytes@ == self.buffer@,
            views(r.trace@) == views(self.trace@).push(
                "probe finish: graphics_reply="@ + bool_text(self.graphics_seen) + " da_reply="@
                    + bool_text(self.device_attributes_seen) + " response_bytes="@ + decimal(
                    self.buffer@.len(),
                ),
            ),
    {
        let mut trace = self.trace;
        let ghost t0 = views(trace@);
        let mut line = string_of("probe finish: graphics_reply=");
        line.append(bool_text_exec(self.graphics_seen));
        line.append(" da_reply=");
        line.append(bool_text_exec(self.device_attributes_seen));
        line.append(" response_bytes=");
        push_decimal(&mut line, self.buffer.len() as u64);
        trace.push(line);
        assert(views(trace@) =~= t0.push(line@));
        KittyProbeResult {
            graphics_seen: self.graphics_seen,
            device_attributes_seen: self.device_attributes_seen,
            response_bytes: self.buffer,
            trace,
        }
    }
}

} // verus!
