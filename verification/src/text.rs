//! Terminal text rendering backend using Unicode glyphs and ANSI colors.

use vstd::prelude::*;

use crate::palette::{
    builtin_profile, canonical_profile_spec, hex_input_ok, hex_rgb_spec, hex_to_rgb,
    lemma_ascii_hex_input_ok, lemma_builtin_colors_ascii, padded_cells, theme_colors, theme_of,
    unknown_profile_message,
};
use crate::dates::{
    add_days, day_number, day_number_bounds, day_number_of, days_between, is_valid_date,
    max_day_number,
};
use crate::scale::{bucket_for_value, lemma_bucket_position, spec_bucket};
use crate::sections::{label_views, section_wf, YearSection};
use crate::strings::{trim_end_spec, concat, decimal, push_char, push_decimal, seq_join, string_of, views};

verus! {

pub const EMPTY_GLYPH: &'static str = "\u{b7}";

pub const FILLED_GLYPH: &'static str = "\u{25a0}";

pub const MONO_GLYPHS: [&'static str; 4] = ["\u{25ab}", "\u{25aa}", "\u{25fe}", "\u{25a0}"];

pub const ROW_LABEL_WIDTH: usize = 4;

pub const TEXT_CELL_WIDTH: usize = 2;

/// `text` wrapped in a 24-bit foreground color escape for `color`.
pub open spec fn truecolor_spec(text: Seq<char>, color: Seq<char>) -> Seq<char> {
    let (r, g, b) = hex_rgb_spec(color);
    "\x1b[38;2;"@ + decimal(r as nat) + ";"@ + decimal(g as nat) + ";"@ + decimal(b as nat) + "m"@
        + text + "\x1b[0m"@
}

pub fn style_truecolor(text: &str, color: &str) -> (r: String)
    requires
        hex_input_ok(color@),
    ensures
        r@ == truecolor_spec(text@, color@),
{
    let (r, g, b) = hex_to_rgb(color);
    let mut out = string_of("\x1b[38;2;");
    push_decimal(&mut out, r as u64);
    out.append(";");
    push_decimal(&mut out, g as u64);
    out.append(";");
    push_decimal(&mut out, b as u64);
    out.append("m");
    out.append(text);
    out.append("\x1b[0m");
    out
}

/// The monochrome glyph for a bucket: the empty glyph for bucket 0, the
/// filled glyph when there is at most one bucket, and otherwise one of four
/// glyphs of rising weight by the bucket's share of the range.
pub open spec fn fallback_glyph_spec(bucket: nat, max_bucket: nat) -> Seq<char> {
    if bucket == 0 {
        EMPTY_GLYPH@
    } else if max_bucket <= 1 {
        FILLED_GLYPH@
    } else {
        let index = (((bucket - 1) * 4) / max_bucket as int) as int;
        MONO_GLYPHS[if index < 3 { index } else { 3 }]@
    }
}

pub fn fallback_glyph(bucket: usize, max_bucket: usize) -> (r: &'static str)
    requires
        bucket == 0 || (bucket - 1) * 4 <= usize::MAX,
    ensures
        r@ == fallback_glyph_spec(bucket as nat, max_bucket as nat),
{
    if bucket == 0 {
        return EMPTY_GLYPH;
    }
    if max_bucket <= 1 {
        return FILLED_GLYPH;
    }
    let index = ((bucket - 1) * 4) / max_bucket;
    let glyphs = MONO_GLYPHS;
    if index < 3 {
        glyphs[index]
    } else {
        glyphs[3]
    }
}

/// The label column of a grid row: weekday names on rows 1, 3 and 5.
pub open spec fn row_prefix_spec(row: u8) -> Seq<char> {
    if row == 1 {
        "Mon "@
    } else if row == 3 {
        "Wed "@
    } else if row == 5 {
        "Fri "@
    } else {
        "    "@
    }
}

pub fn row_prefix(row: u8) -> (r: &'static str)
    ensures
        r@ == row_prefix_spec(row),
{
    match row {
        1 => "Mon ",
        3 => "Wed ",
        5 => "Fri ",
        _ => "    ",
    }
}

/// A filled cell: the colored filled glyph, or the monochrome glyph.
pub open spec fn filled_cell_spec(bucket: nat, thresholds_len: nat, color: Seq<char>, use_color: bool) -> Seq<char> {
    if use_color {
        truecolor_spec(FILLED_GLYPH@, color)
    } else {
        fallback_glyph_spec(bucket, thresholds_len)
    }
}

pub fn render_filled_cell(bucket: usize, thresholds_len: usize, color: &str, use_color: bool) -> (r: String)
    requires
        use_color ==> hex_input_ok(color@),
        !use_color ==> bucket == 0 || (bucket - 1) * 4 <= usize::MAX,
    ensures
        r@ == filled_cell_spec(bucket as nat, thresholds_len as nat, color@, use_color),
{
    if use_color {
        style_truecolor(FILLED_GLYPH, color)
    } else {
        string_of(fallback_glyph(bucket, thresholds_len))
    }
}

/// The label of the `i`-th threshold in the legend: the value, with `+` on
/// the last.
pub open spec fn threshold_label(t: u64, last: bool) -> Seq<char> {
    if last {
        decimal(t as nat) + "+"@
    } else {
        decimal(t as nat)
    }
}

/// The legend parts as printed: `· 0`, then each marker with its label.
pub open spec fn legend_parts(thresholds: Seq<u64>, colors: Seq<Seq<char>>, use_color: bool) -> Seq<Seq<char>> {
    Seq::new(
        thresholds.len() + 1,
        |k: int|
            if k == 0 {
                EMPTY_GLYPH@ + " 0"@
            } else {
                filled_cell_spec(k as nat, thresholds.len(), colors[k - 1], use_color) + " "@
                    + threshold_label(thresholds[k - 1], k == thresholds.len())
            },
    )
}

/// Display width of the legend's first `count` threshold parts, with the
/// `· 0` part: each part is its glyph, a space and its label.
pub open spec fn legend_width_upto(thresholds: Seq<u64>, count: int) -> int
    decreases count,
{
    if count <= 0 {
        3
    } else {
        legend_width_upto(thresholds, count - 1) + 2 + threshold_label(
            thresholds[count - 1],
            count == thresholds.len(),
        ).len()
    }
}

/// Display width of the whole legend line, with two-space separators.
pub open spec fn legend_display_width(thresholds: Seq<u64>) -> int {
    legend_width_upto(thresholds, thresholds.len() as int) + 2 * thresholds.len()
}

/// The legend line, right-aligned within `layout_width` columns.
pub open spec fn legend_spec(thresholds: Seq<u64>, colors: Seq<Seq<char>>, use_color: bool, layout_width: nat) -> Seq<char> {
    let pad = layout_width - legend_display_width(thresholds);
    Seq::new(if pad > 0 { pad as nat } else { 0 }, |i: int| ' ') + seq_join(
        legend_parts(thresholds, colors, use_color),
        "  "@,
    )
}

/// Ten to the power `k`.
pub open spec fn pow10(k: nat) -> nat
    decreases k,
{
    if k == 0 {
        1
    } else {
        10 * pow10((k - 1) as nat)
    }
}

proof fn lemma_decimal_len_bound(n: nat, k: nat)
    requires
        k >= 1,
        n < pow10(k),
    ensures
        1 <= decimal(n).len() <= k,
    decreases n,
{
    if n >= 10 {
        if k == 1 {
            assert(pow10(1) == 10);
        }
        assert(n / 10 < pow10((k - 1) as nat)) by (nonlinear_arith)
            requires
                n < 10 * pow10((k - 1) as nat),
        ;
        lemma_decimal_len_bound(n / 10, (k - 1) as nat);
    }
}

proof fn lemma_decimal_len(n: nat)
    requires
        n <= u64::MAX,
    ensures
        1 <= decimal(n).len() <= 20,
{
    reveal_with_fuel(pow10, 21);
    lemma_decimal_len_bound(n, 20);
}

proof fn lemma_legend_width_bound(thresholds: Seq<u64>, count: int)
    requires
        0 <= count <= thresholds.len(),
    ensures
        3 <= legend_width_upto(thresholds, count) <= 3 + 23 * count,
    decreases count,
{
    if count > 0 {
        lemma_legend_width_bound(thresholds, count - 1);
        lemma_decimal_len(thresholds[count - 1] as nat);
        reveal_strlit("+");
    }
}

fn threshold_label_exec(t: u64, last: bool) -> (r: String)
    ensures
        r@ == threshold_label(t, last),
{
    let mut s = crate::strings::u64_to_string(t);
    if last {
        s.append("+");
    }
    s
}

pub fn render_legend(thresholds: &[u64], colors: &[String], use_color: bool, layout_width: usize) -> (r: String)
    requires
        colors@.len() >= thresholds@.len(),
        thresholds@.len() < usize::MAX / 32,
        use_color ==> forall|i: int| 0 <= i < thresholds@.len() ==> hex_input_ok(#[trigger] colors@[i]@),
    ensures
        r@ == legend_spec(thresholds@, views(colors@), use_color, layout_width as nat),
{
    let n = thresholds.len();
    let ghost parts_spec = legend_parts(thresholds@, views(colors@), use_color);
    let mut rendered: Vec<String> = Vec::new();
    let first = concat(EMPTY_GLYPH, " 0");
    rendered.push(first);
    let mut width: usize = 3;
    proof {
        reveal_strlit(" 0");
        reveal_strlit("\u{b7}");
        lemma_legend_width_bound(thresholds@, n as int);
    }
    let mut index: usize = 0;
    while index < n
        invariant
            n == thresholds@.len(),
            n < usize::MAX / 32,
            colors@.len() >= n,
            use_color ==> forall|i: int| 0 <= i < n ==> hex_input_ok(#[trigger] colors@[i]@),
            parts_spec == legend_parts(thresholds@, views(colors@), use_color),
            0 <= index <= n,
            rendered@.len() == index + 1,
            forall|k: int| 0 <= k <= index ==> #[trigger] rendered@[k]@ == parts_spec[k],
            width == legend_width_upto(thresholds@, index as int),
            width <= 3 + 23 * index,
        decreases n - index,
    {
        let bucket = index + 1;
        let marker = render_filled_cell(bucket, n, colors[index].as_str(), use_color);
        let label = threshold_label_exec(thresholds[index], index == n - 1);
        let mut part = marker;
        part.append(" ");
        part.append(label.as_str());
        assert(part@ == parts_spec[bucket as int]);
        rendered.push(part);
        proof {
            lemma_decimal_len(thresholds@[index as int] as nat);
            reveal_strlit("+");
        }
        let label_len = label.as_str().unicode_len();
        width = width + 2 + label_len;
        index += 1;
    }
    assert(views(rendered@) == parts_spec);
    let display_width = width + 2 * n;
    let mut out = String::new();
    let pad: usize = if layout_width > display_width { layout_width - display_width } else { 0 };
    let mut p: usize = 0;
    while p < pad
        invariant
            0 <= p <= pad,
            out@ == Seq::new(p as nat, |i: int| ' '),
        decreases pad - p,
    {
        push_char(&mut out, ' ');
        p += 1;
    }
    let content = crate::strings::join(rendered.as_slice(), "  ");
    out.append(content.as_str());
    out
}

/// The text-mode cell colors: the palette's cell colors for the profile.
pub fn resolve_text_colors(dark_mode: bool, threshold_count: usize, color_profile: &str) -> (r: Result<Vec<String>, String>)
    ensures
        match crate::palette::builtin_profile(crate::palette::canonical_profile_spec(color_profile@, dark_mode)) {
            Some(p) => r matches Ok(cells) && cells@.len() == threshold_count && forall|i: int|
                0 <= i < threshold_count ==> #[trigger] cells@[i]@ == crate::palette::padded_cells(
                    crate::palette::theme_of(p, dark_mode).cells,
                    threshold_count as nat,
                )[i],
            None => r is Err && r->Err_0@ == crate::palette::unknown_profile_message(color_profile@),
        },
{
    match crate::palette::load_palette(dark_mode, threshold_count, color_profile) {
        Ok(palette) => Ok(palette.cells),
        Err(e) => Err(e),
    }
}

// ---------------------------------------------------------------------------
// The grid
// ---------------------------------------------------------------------------

/// `line` with `label` written from column `start` on, cut at the line's end.
pub open spec fn place_label(line: Seq<char>, start: int, label: Seq<char>) -> Seq<char> {
    Seq::new(
        line.len(),
        |i: int|
            if start <= i < start + label.len() {
                label[i - start]
            } else {
                line[i]
            },
    )
}

/// A blank line with the month labels written in order, each at the column
/// of its week.
pub open spec fn placed_labels(width: nat, labels: Seq<(u32, Seq<char>)>, cell_width: int) -> Seq<
    char,
>
    decreases labels.len(),
{
    if labels.len() == 0 {
        Seq::new(width, |i: int| ' ')
    } else {
        place_label(
            placed_labels(width, labels.drop_last(), cell_width),
            ROW_LABEL_WIDTH + labels.last().0 * cell_width,
            labels.last().1,
        )
    }
}

/// The month line of a section.
pub open spec fn month_line_spec(s: YearSection, cell_width: int) -> Seq<char> {
    trim_end_spec(
        placed_labels(
            (ROW_LABEL_WIDTH + s.week_count * cell_width) as nat,
            label_views(s.month_labels@),
            cell_width,
        ),
    )
}

/// The month line of a section: each label written at its week's column.
pub fn month_line(section: &YearSection, cell_width: usize) -> (r: String)
    requires
        ROW_LABEL_WIDTH + section.week_count * cell_width <= usize::MAX,
        forall|j: int|
            0 <= j < section.month_labels@.len() ==> ROW_LABEL_WIDTH
                + (#[trigger] section.month_labels@[j]).0 * cell_width <= usize::MAX,
    ensures
        r@ == month_line_spec(*section, cell_width as int),
{
    let width: usize = ROW_LABEL_WIDTH + section.week_count as usize * cell_width;
    let mut chars: Vec<char> = Vec::new();
    while chars.len() < width
        invariant
            chars@.len() <= width,
            forall|i: int| 0 <= i < chars@.len() ==> #[trigger] chars@[i] == ' ',
        decreases width - chars@.len(),
    {
        chars.push(' ');
    }
    let ghost labels = label_views(section.month_labels@);
    assert(chars@ =~= placed_labels(width as nat, labels.take(0), cell_width as int));
    let mut j: usize = 0;
    while j < section.month_labels.len()
        invariant
            width == ROW_LABEL_WIDTH + section.week_count * cell_width,
            labels == label_views(section.month_labels@),
            0 <= j <= section.month_labels@.len(),
            forall|k: int|
                0 <= k < section.month_labels@.len() ==> ROW_LABEL_WIDTH
                    + (#[trigger] section.month_labels@[k]).0 * cell_width <= usize::MAX,
            chars@ == placed_labels(width as nat, labels.take(j as int), cell_width as int),
        decreases section.month_labels@.len() - j,
    {
        let week = section.month_labels[j].0;
        let start: usize = ROW_LABEL_WIDTH + week as usize * cell_width;
        let label = crate::strings::chars_of(section.month_labels[j].1.as_str());
        let ghost before = chars@;
        let mut offset: usize = 0;
        while offset < label.len()
            invariant
                0 <= offset <= label@.len(),
                chars@.len() == before.len(),
                forall|i: int|
                    0 <= i < chars@.len() ==> #[trigger] chars@[i] == if start <= i < start
                        + offset {
                        label@[i - start]
                    } else {
                        before[i]
                    },
            decreases label@.len() - offset,
        {
            if start <= chars.len() && offset < chars.len() - start {
                chars.set(start + offset, label[offset]);
            }
            offset += 1;
        }
        proof {
            assert(labels.take(j + 1).drop_last() =~= labels.take(j as int));
            assert(labels.take(j + 1).last() == labels[j as int]);
            assert(chars@ =~= place_label(before, start as int, label@));
        }
        j += 1;
    }
    assert(labels.take(section.month_labels@.len() as int) =~= labels);
    crate::strings::collect_trim_end(&chars)
}

/// The text of one cell: blank outside the range, the empty glyph without
/// commits, else the filled cell of the count's bucket.
pub open spec fn cell_text(
    s: YearSection,
    k: int,
    thresholds: Seq<u64>,
    colors: Seq<Seq<char>>,
    use_color: bool,
) -> Seq<char> {
    let dn = day_number(s.visible_start) + k;
    if dn < day_number(s.range_start) || dn > day_number(s.range_end) {
        seq![' ']
    } else if s.day_counts@[k] == 0 {
        EMPTY_GLYPH@
    } else {
        let bucket = spec_bucket(thresholds, s.day_counts@[k]);
        let ci = if bucket >= 1 {
            bucket - 1
        } else {
            0
        };
        filled_cell_spec(bucket as nat, thresholds.len(), colors[ci], use_color)
    }
}

/// The cells of the first `n` weeks of a row.
pub open spec fn row_cells(
    s: YearSection,
    row: int,
    cell_width: int,
    thresholds: Seq<u64>,
    colors: Seq<Seq<char>>,
    use_color: bool,
    n: int,
) -> Seq<char>
    decreases n,
{
    if n <= 0 {
        seq![]
    } else {
        row_cells(s, row, cell_width, thresholds, colors, use_color, n - 1) + cell_text(
            s,
            (n - 1) * 7 + row,
            thresholds,
            colors,
            use_color,
        ) + if cell_width == 2 {
            seq![' ']
        } else {
            seq![]
        }
    }
}

/// Each week adds one cell to a row. A day outside the section's range,
/// before its start or after its end, is a single blank; a day in the range
/// without commits is the empty glyph; a day in the range with commits is
/// a filled cell, neither blank nor the empty glyph.
pub proof fn law_row_cells_by_range(
    s: YearSection,
    row: int,
    cell_width: int,
    thresholds: Seq<u64>,
    colors: Seq<Seq<char>>,
    use_color: bool,
    w: int,
)
    requires
        0 <= row < 7,
        0 <= w,
        thresholds.len() > 0,
    ensures
        ({
            let dn = day_number(s.visible_start) + w * 7 + row;
            let pad = if cell_width == 2 {
                seq![' ']
            } else {
                seq![]
            };
            let before = row_cells(s, row, cell_width, thresholds, colors, use_color, w);
            let after = row_cells(s, row, cell_width, thresholds, colors, use_color, w + 1);
            let cell = cell_text(s, w * 7 + row, thresholds, colors, use_color);
            &&& after == before + cell + pad
            &&& (dn < day_number(s.range_start) || dn > day_number(s.range_end)) ==> cell
                == seq![' ']
            &&& (day_number(s.range_start) <= dn <= day_number(s.range_end) && s.day_counts@[w * 7
                + row] == 0) ==> cell == EMPTY_GLYPH@
            &&& (day_number(s.range_start) <= dn <= day_number(s.range_end) && s.day_counts@[w * 7
                + row] > 0) ==> cell != seq![' '] && cell != EMPTY_GLYPH@
        }),
{
    let dn = day_number(s.visible_start) + w * 7 + row;
    let k = w * 7 + row;
    assert((w + 1 - 1) * 7 + row == k);
    let cell = cell_text(s, k, thresholds, colors, use_color);
    if day_number(s.range_start) <= dn <= day_number(s.range_end) && s.day_counts@[k] > 0 {
        let v = s.day_counts@[k];
        lemma_bucket_position(thresholds, v);
        let bucket = spec_bucket(thresholds, v);
        reveal_strlit("\u{b7}");
        reveal_strlit("\u{25a0}");
        reveal_strlit("\u{25ab}");
        reveal_strlit("\u{25aa}");
        reveal_strlit("\u{25fe}");
        reveal_strlit("\x1b[38;2;");
        if use_color {
            let ci = bucket - 1;
            let t = truecolor_spec(FILLED_GLYPH@, colors[ci]);
            assert(cell == t);
            assert(t[0] == '\x1b');
            assert(EMPTY_GLYPH@[0] == '\u{b7}');
        } else {
            let g = fallback_glyph_spec(bucket as nat, thresholds.len());
            assert(cell == g);
            if thresholds.len() <= 1 {
                assert(g == FILLED_GLYPH@);
            } else {
                let index = (((bucket - 1) * 4) / thresholds.len() as int) as int;
                let idx = if index < 3 { index } else { 3 };
                assert(0 <= idx <= 3) by (nonlinear_arith)
                    requires
                        bucket >= 1,
                        thresholds.len() >= 2,
                        index == (((bucket - 1) * 4) / thresholds.len() as int) as int,
                        idx == if index < 3 { index } else { 3 },
                ;
                assert(g == MONO_GLYPHS[idx]@);
            }
            assert(g.len() == 1 && g[0] != ' ' && g[0] != '\u{b7}');
        }
    }
}

/// One row of a section: its label, then every week's cell.
pub open spec fn row_spec(
    s: YearSection,
    row: u8,
    cell_width: int,
    thresholds: Seq<u64>,
    colors: Seq<Seq<char>>,
    use_color: bool,
) -> Seq<char> {
    row_prefix_spec(row) + row_cells(
        s,
        row as int,
        cell_width,
        thresholds,
        colors,
        use_color,
        s.week_count as int,
    )
}

/// What rendering a row needs of its colors: one for every bucket, in the
/// form the escape codes read when color is on.
pub open spec fn colors_ok(thresholds: Seq<u64>, colors: Seq<String>, use_color: bool) -> bool {
    &&& colors.len() >= 1
    &&& colors.len() >= thresholds.len()
    &&& thresholds.len() < usize::MAX / 32
    &&& use_color ==> forall|i: int| 0 <= i < colors.len() ==> hex_input_ok(#[trigger] colors[i]@)
}

/// Render one cell of a section's grid.
fn render_cell(
    section: &YearSection,
    k: usize,
    thresholds: &[u64],
    colors: &[String],
    use_color: bool,
) -> (r: String)
    requires
        section_wf(*section),
        k < section.week_count * 7,
        colors_ok(thresholds@, colors@, use_color),
    ensures
        r@ == cell_text(*section, k as int, thresholds@, views(colors@), use_color),
{
    let cell_date = add_days(section.visible_start, k as i64);
    let before_start = days_between(cell_date, section.range_start) < 0;
    let after_end = days_between(cell_date, section.range_end) > 0;
    proof {
        reveal_strlit(" ");
    }
    if before_start || after_end {
        string_of(" ")
    } else {
        let count = section.day_counts[k];
        if count == 0 {
            string_of(EMPTY_GLYPH)
        } else {
            let bucket = bucket_for_value(thresholds, count);
            let ci = if bucket >= 1 {
                bucket - 1
            } else {
                0
            };
            render_filled_cell(bucket, thresholds.len(), colors[ci].as_str(), use_color)
        }
    }
}

/// Render one row of a section.
#[verifier::rlimit(30)]
pub fn render_row(
    section: &YearSection,
    row: u8,
    cell_width: usize,
    thresholds: &[u64],
    colors: &[String],
    use_color: bool,
) -> (r: String)
    requires
        section_wf(*section),
        row < 7,
        colors_ok(thresholds@, colors@, use_color),
    ensures
        r@ == row_spec(*section, row, cell_width as int, thresholds@, views(colors@), use_color),
{
    let mut line = string_of(row_prefix(row));
    let mut col: u32 = 0;
    while col < section.week_count
        invariant
            section_wf(*section),
            row < 7,
            colors_ok(thresholds@, colors@, use_color),
            0 <= col <= section.week_count,
            line@ == row_prefix_spec(row) + row_cells(
                *section,
                row as int,
                cell_width as int,
                thresholds@,
                views(colors@),
                use_color,
                col as int,
            ),
        decreases section.week_count - col,
    {
        let k: usize = col as usize * 7 + row as usize;
        let rendered = render_cell(section, k, thresholds, colors, use_color);
        line.append(rendered.as_str());
        if cell_width == 2 {
            push_char(&mut line, ' ');
        }
        proof {
            let ghost prev = row_cells(
                *section,
                row as int,
                cell_width as int,
                thresholds@,
                views(colors@),
                use_color,
                col as int,
            );
            assert(row_cells(
                *section,
                row as int,
                cell_width as int,
                thresholds@,
                views(colors@),
                use_color,
                col + 1,
            ) == prev + cell_text(*section, k as int, thresholds@, views(colors@), use_color) + if cell_width == 2 {
                seq![' ']
            } else {
                seq![]
            });
        }
        col += 1;
    }
    line
}

/// The message when the terminal is narrower than the grid.
pub open spec fn too_narrow_message(required: nat) -> Seq<char> {
    "Terminal is too narrow for a text hitmap (need at least "@ + decimal(required)
        + " columns; text mode keeps a fixed cell width)"@
}

/// The width the grid needs: the row labels and every week's cell.
pub open spec fn required_width(max_weeks: u32) -> nat {
    (ROW_LABEL_WIDTH + max_weeks * TEXT_CELL_WIDTH) as nat
}

/// Check that the grid fits the width limit (the requested width, else the
/// terminal's) and return the width it takes.
pub fn resolve_layout_width(max_weeks: u32, requested_width: Option<u32>, tty_width: usize) -> (r:
    Result<usize, String>)
    requires
        required_width(max_weeks) <= usize::MAX,
    ensures
        ({
            let limit = match requested_width {
                Some(v) => v as int,
                None => tty_width as int,
            };
            if required_width(max_weeks) <= limit {
                r == Ok::<usize, String>(required_width(max_weeks) as usize)
            } else {
                r is Err && r->Err_0@ == too_narrow_message(required_width(max_weeks))
            }
        }),
{
    let width_limit: usize = match requested_width {
        Some(v) => v as usize,
        None => tty_width,
    };
    let required: usize = ROW_LABEL_WIDTH + max_weeks as usize * TEXT_CELL_WIDTH;
    if required <= width_limit {
        Ok(required)
    } else {
        let mut msg = string_of("Terminal is too narrow for a text hitmap (need at least ");
        push_decimal(&mut msg, required as u64);
        msg.append(" columns; text mode keeps a fixed cell width)");
        Err(msg)
    }
}

/// The largest week count of the sections.
pub open spec fn max_week_count(sections: Seq<YearSection>) -> u32
    decreases sections.len(),
{
    if sections.len() == 0 {
        0
    } else {
        let rest = max_week_count(sections.drop_last());
        if sections.last().week_count > rest {
            sections.last().week_count
        } else {
            rest
        }
    }
}

/// The lines of one section: its label, its month line and its seven rows.
pub open spec fn section_lines(
    s: YearSection,
    thresholds: Seq<u64>,
    colors: Seq<Seq<char>>,
    use_color: bool,
) -> Seq<Seq<char>> {
    seq![s.label@, month_line_spec(s, TEXT_CELL_WIDTH as int)] + section_rows(
        s,
        thresholds,
        colors,
        use_color,
        7,
    )
}

/// The first `n` rows of a section.
pub open spec fn section_rows(
    s: YearSection,
    thresholds: Seq<u64>,
    colors: Seq<Seq<char>>,
    use_color: bool,
    n: nat,
) -> Seq<Seq<char>> {
    Seq::new(n, |r: int| row_spec(s, r as u8, TEXT_CELL_WIDTH as int, thresholds, colors, use_color))
}

/// The lines of all sections, a blank line between two sections.
pub open spec fn all_section_lines(
    sections: Seq<YearSection>,
    thresholds: Seq<u64>,
    colors: Seq<Seq<char>>,
    use_color: bool,
) -> Seq<Seq<char>>
    decreases sections.len(),
{
    if sections.len() == 0 {
        seq![]
    } else {
        all_section_lines(sections.drop_last(), thresholds, colors, use_color) + if sections.len()
            > 1 {
            seq![Seq::<char>::empty()]
        } else {
            seq![]
        } + section_lines(sections.last(), thresholds, colors, use_color)
    }
}

/// What the text renderer needs of a section: its shape, and columns that
/// fit in `usize`.
pub open spec fn text_section_ok(s: YearSection) -> bool {
    &&& section_wf(s)
    &&& ROW_LABEL_WIDTH + s.week_count * TEXT_CELL_WIDTH <= usize::MAX
    &&& forall|j: int|
        0 <= j < s.month_labels@.len() ==> ROW_LABEL_WIDTH + (#[trigger] s.month_labels@[j]).0
            * TEXT_CELL_WIDTH <= usize::MAX
}

/// The whole text rendering: the sections, a blank line and the legend.
pub open spec fn hitmap_text_spec(
    sections: Seq<YearSection>,
    thresholds: Seq<u64>,
    colors: Seq<Seq<char>>,
    use_color: bool,
    layout_width: nat,
) -> Seq<char> {
    seq_join(
        all_section_lines(sections, thresholds, colors, use_color) + seq![
            Seq::<char>::empty(),
            legend_spec(thresholds, colors, use_color, layout_width),
        ],
        "\n"@,
    )
}

/// Render the hitmap as text; `tty_width` is the terminal's width in
/// columns and `use_color` whether escape codes may be written.
pub fn render_hitmap_text(
    sections: &[YearSection],
    thresholds: &[u64],
    color_profile: &str,
    dark_mode: bool,
    max_width_cells: Option<u32>,
    tty_width: usize,
    use_color: bool,
) -> (r: Result<String, String>)
    requires
        forall|i: int| 0 <= i < sections@.len() ==> text_section_ok(#[trigger] sections@[i]),
        thresholds@.len() < usize::MAX / 32,
    ensures
        sections@.len() == 0 ==> r is Err && r->Err_0@ == "No hitmap sections were generated"@,
        sections@.len() > 0 && thresholds@.len() == 0 ==> r is Err && r->Err_0@
            == "Text renderer requires at least one threshold"@,
        sections@.len() > 0 && thresholds@.len() > 0 ==> ({
            let required = required_width(max_week_count(sections@));
            let limit = match max_width_cells {
                Some(v) => v as int,
                None => tty_width as int,
            };
            if required > limit {
                r is Err && r->Err_0@ == too_narrow_message(required)
            } else {
                match builtin_profile(canonical_profile_spec(color_profile@, dark_mode)) {
                    Some(p) => r matches Ok(text) && text@ == hitmap_text_spec(
                        sections@,
                        thresholds@,
                        padded_cells(theme_of(p, dark_mode).cells, thresholds@.len()),
                        use_color,
                        required,
                    ),
                    None => r is Err && r->Err_0@ == unknown_profile_message(color_profile@),
                }
            }
        }),
{
    if sections.len() == 0 {
        return Err(string_of("No hitmap sections were generated"));
    }
    if thresholds.len() == 0 {
        return Err(string_of("Text renderer requires at least one threshold"));
    }
    let mut max_weeks: u32 = 0;
    let mut i: usize = 0;
    while i < sections.len()
        invariant
            0 <= i <= sections@.len(),
            max_weeks == max_week_count(sections@.take(i as int)),
            forall|k: int| 0 <= k < sections@.len() ==> text_section_ok(#[trigger] sections@[k]),
            max_weeks == 0 || exists|k: int| 0 <= k < i && sections@[k].week_count == max_weeks,
        decreases sections@.len() - i,
    {
        assert(sections@.take(i + 1).drop_last() =~= sections@.take(i as int));
        if sections[i].week_count > max_weeks {
            max_weeks = sections[i].week_count;
        }
        i += 1;
    }
    assert(sections@.take(sections@.len() as int) =~= sections@);
    proof {
        if max_weeks > 0 {
            let k = choose|k: int| 0 <= k < sections@.len() && sections@[k].week_count == max_weeks;
            assert(text_section_ok(sections@[k]));
        }
    }
    let layout_width = match resolve_layout_width(max_weeks, max_width_cells, tty_width) {
        Ok(w) => w,
        Err(e) => {
            return Err(e);
        },
    };
    let colors = match resolve_text_colors(dark_mode, thresholds.len(), color_profile) {
        Ok(c) => c,
        Err(e) => {
            return Err(e);
        },
    };
    let ghost cells = views(colors@);
    proof {
        let p = builtin_profile(canonical_profile_spec(color_profile@, dark_mode)).unwrap();
        lemma_builtin_colors_ascii(canonical_profile_spec(color_profile@, dark_mode), dark_mode);
        assert forall|i: int| 0 <= i < colors@.len() implies hex_input_ok(#[trigger] colors@[i]@) by {
            let t = theme_of(p, dark_mode);
            if i < 5 {
                assert(theme_colors(t)[4 + i] == t.cells[i]@);
                lemma_ascii_hex_input_ok(theme_colors(t)[4 + i]);
            } else {
                assert(theme_colors(t)[8] == t.cells[4]@);
                lemma_ascii_hex_input_ok(theme_colors(t)[8]);
            }
        }
        assert(cells =~= padded_cells(theme_of(p, dark_mode).cells, thresholds@.len()));
    }
    let mut lines: Vec<String> = Vec::new();
    let mut index: usize = 0;
    while index < sections.len()
        invariant
            0 <= index <= sections@.len(),
            forall|k: int| 0 <= k < sections@.len() ==> text_section_ok(#[trigger] sections@[k]),
            colors_ok(thresholds@, colors@, use_color),
            cells == views(colors@),
            views(lines@) == all_section_lines(
                sections@.take(index as int),
                thresholds@,
                cells,
                use_color,
            ),
        decreases sections@.len() - index,
    {
        let section = &sections[index];
        let ghost before = views(lines@);
        if index > 0 {
            lines.push(String::new());
        }
        lines.push(section.label.clone());
        lines.push(month_line(section, TEXT_CELL_WIDTH));
        let mut row: u8 = 0;
        while row < 7
            invariant
                0 <= row <= 7,
                text_section_ok(*section),
                colors_ok(thresholds@, colors@, use_color),
                cells == views(colors@),
                views(lines@) == before + (if index > 0 {
                    seq![Seq::<char>::empty()]
                } else {
                    seq![]
                }) + seq![section.label@, month_line_spec(*section, TEXT_CELL_WIDTH as int)]
                    + section_rows(*section, thresholds@, cells, use_color, row as nat),
            decreases 7 - row,
        {
            let ghost prev = views(lines@);
            let line = render_row(section, row, TEXT_CELL_WIDTH, thresholds, colors.as_slice(), use_color);
            lines.push(line);
            proof {
                assert(views(lines@) =~= prev.push(line@));
                assert(section_rows(*section, thresholds@, cells, use_color, (row + 1) as nat)
                    =~= section_rows(*section, thresholds@, cells, use_color, row as nat).push(
                    row_spec(*section, row, TEXT_CELL_WIDTH as int, thresholds@, cells, use_color),
                ));
            }
            row += 1;
        }
        proof {
            let secs = sections@.take(index + 1);
            assert(secs.drop_last() =~= sections@.take(index as int));
            assert(secs.last() == sections@[index as int]);
            assert(views(lines@) =~= all_section_lines(secs, thresholds@, cells, use_color));
        }
        index += 1;
    }
    assert(sections@.take(sections@.len() as int) =~= sections@);
    lines.push(String::new());
    lines.push(render_legend(thresholds, colors.as_slice(), use_color, layout_width));
    let out = crate::strings::join(lines.as_slice(), "\n");
    proof {
        assert(views(lines@) =~= all_section_lines(sections@, thresholds@, cells, use_color) + seq![
            Seq::<char>::empty(),
            legend_spec(thresholds@, cells, use_color, layout_width as nat),
        ]);
    }
    Ok(out)
}

/// Whether every section has the shape the text renderer needs, computed.
pub fn text_sections_ok(sections: &[YearSection]) -> (r: bool)
    ensures
        r == forall|i: int| 0 <= i < sections@.len() ==> text_section_ok(#[trigger] sections@[i]),
{
    let (_, highest) = day_number_bounds();
    let mut i: usize = 0;
    while i < sections.len()
        invariant
            0 <= i <= sections@.len(),
            highest == max_day_number(),
            forall|k: int| 0 <= k < i ==> text_section_ok(#[trigger] sections@[k]),
        decreases sections@.len() - i,
    {
        let s = &sections[i];
        if !(is_valid_date(&s.visible_start) && is_valid_date(&s.range_start) && is_valid_date(
            &s.range_end,
        )) {
            return false;
        }
        let weeks = s.week_count as usize;
        if weeks > (usize::MAX - ROW_LABEL_WIDTH) / TEXT_CELL_WIDTH || s.day_counts.len() / 7
            != weeks || s.day_counts.len() % 7 != 0 {
            return false;
        }
        if day_number_of(s.visible_start) + s.week_count as i64 * 7 > highest + 1 {
            return false;
        }
        let mut j: usize = 0;
        while j < s.month_labels.len()
            invariant
                0 <= i < sections@.len(),
                *s == sections@[i as int],
                0 <= j <= s.month_labels@.len(),
                forall|k: int|
                    0 <= k < j ==> ROW_LABEL_WIDTH + (#[trigger] s.month_labels@[k]).0
                        * TEXT_CELL_WIDTH <= usize::MAX,
            decreases s.month_labels@.len() - j,
        {
            if s.month_labels[j].0 as usize > (usize::MAX - ROW_LABEL_WIDTH) / TEXT_CELL_WIDTH {
                assert(!text_section_ok(sections@[i as int]));
                return false;
            }
            j += 1;
        }
        i += 1;
    }
    true
}

} // verus!
