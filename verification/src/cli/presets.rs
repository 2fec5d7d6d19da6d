//! `avz presets`: the listing of every preset, and one preset's parameter
//! table in aligned columns.

use vstd::prelude::*;
use crate::registry::PresetInfo;
use crate::text::{push_char, push_str, string_from};

verus! {

/// Two spaces between columns: enough to read, not enough to scan past.
pub const GUTTER: usize = 2;

/// `n` spaces.
pub open spec fn blanks(n: int) -> Seq<char> {
    Seq::new(if n > 0 { n as nat } else { 0 }, |i: int| ' ')
}

/// `s` padded with spaces to `width` characters.
pub open spec fn pad(s: Seq<char>, width: int) -> Seq<char> {
    s + blanks(width - s.len())
}

fn push_padded_text(out: &mut String, s: &str, width: usize)
    ensures
        final(out)@ == old(out)@ + pad(s@, width as int),
{
    let ghost start = out@;
    push_str(out, s);
    let n = s.unicode_len();
    let mut k = n;
    let ghost mid = out@;
    assert(blanks(0) =~= Seq::<char>::empty());
    while k < width
        invariant
            n == s@.len(),
            n <= k,
            k <= width || k == n,
            out@ == mid + blanks(k - n),
        decreases width - k,
    {
        push_char(out, ' ');
        assert(out@ =~= mid + blanks(k + 1 - n));
        k = k + 1;
    }
    assert(out@ =~= start + pad(s@, width as int));
}

/// The widest name among `presets`.
pub open spec fn widest(names: Seq<Seq<char>>) -> nat
    decreases names.len(),
{
    if names.len() == 0 {
        0
    } else if names.last().len() > widest(names.drop_last()) {
        names.last().len()
    } else {
        widest(names.drop_last())
    }
}

pub open spec fn listing_rows(rows: Seq<(Seq<char>, Seq<char>)>, width: int) -> Seq<char>
    decreases rows.len(),
{
    if rows.len() == 0 {
        Seq::empty()
    } else {
        listing_rows(rows.drop_last(), width) + pad(rows.last().0, width) + blanks(GUTTER as int)
            + rows.last().1 + "\n"@
    }
}

/// Every preset, one per line, name and description in aligned columns.
pub open spec fn listing(rows: Seq<(Seq<char>, Seq<char>)>) -> Seq<char> {
    listing_rows(rows, widest(rows.map_values(|r: (Seq<char>, Seq<char>)| r.0)) as int)
        + "\nRun `avz presets <name>` for a preset's parameters.\n"@
}

/// Every preset, one per line, name and description in aligned columns.
pub fn list(presets: &Vec<PresetInfo>) -> (s: String)
    ensures
        s@ == listing(presets@.map_values(|p: PresetInfo| (p.name@, p.description@))),
{
    let ghost rows = presets@.map_values(|p: PresetInfo| (p.name@, p.description@));
    let ghost names = rows.map_values(|r: (Seq<char>, Seq<char>)| r.0);
    let mut width: usize = 0;
    let mut i: usize = 0;
    assert(names.subrange(0, 0) =~= Seq::<Seq<char>>::empty());
    while i < presets.len()
        invariant
            i <= presets@.len(),
            rows == presets@.map_values(|p: PresetInfo| (p.name@, p.description@)),
            names == rows.map_values(|r: (Seq<char>, Seq<char>)| r.0),
            width == widest(names.subrange(0, i as int)),
        decreases presets.len() - i,
    {
        let n = presets[i].name.unicode_len();
        assert(names.subrange(0, i + 1).drop_last() =~= names.subrange(0, i as int));
        assert(names[i as int] == presets@[i as int].name@);
        if n > width {
            width = n;
        }
        i = i + 1;
    }
    assert(names.subrange(0, presets@.len() as int) =~= names);
    let mut out = String::new();
    let mut j: usize = 0;
    assert(rows.subrange(0, 0) =~= Seq::<(Seq<char>, Seq<char>)>::empty());
    while j < presets.len()
        invariant
            j <= presets@.len(),
            rows == presets@.map_values(|p: PresetInfo| (p.name@, p.description@)),
            out@ == listing_rows(rows.subrange(0, j as int), width as int),
        decreases presets.len() - j,
    {
        assert(rows.subrange(0, j + 1).drop_last() =~= rows.subrange(0, j as int));
        assert(rows[j as int] == (presets@[j as int].name@, presets@[j as int].description@));
        push_padded_text(&mut out, presets[j].name, width);
        push_str(&mut out, "  ");
        assert(blanks(GUTTER as int) =~= "  "@) by {
            reveal_strlit("  ");
        }
        push_str(&mut out, presets[j].description);
        push_str(&mut out, "\n");
        j = j + 1;
    }
    assert(rows.subrange(0, presets@.len() as int) =~= rows);
    push_str(&mut out, "\nRun `avz presets <name>` for a preset's parameters.\n");
    out
}

/// One parameter of a preset's schema, as its table row shows it.
#[derive(Debug, Clone, PartialEq, Eq)]
pub struct ParamRow {
    /// The name `--set` takes.
    pub name: String,
    /// `float`, `int`, `bool`, `enum`, or `color`.
    pub kind: String,
    /// The default, as the config file spells it.
    pub default: String,
    /// The accepted range, such as `0..4` or `true|false`.
    pub range: String,
    /// What it does, in one line.
    pub description: String,
}

/// A preset's parameter table.
#[derive(Debug, Clone, PartialEq, Eq)]
pub struct SchemaTable {
    /// A warning about what the preset costs on a software rasterizer.
    pub perf_hint: Option<String>,
    /// The parameters, in schema order.
    pub params: Vec<ParamRow>,
}

/// The cells of a row, left to right.
pub open spec fn cells(r: ParamRow) -> Seq<Seq<char>> {
    seq![r.name@, r.kind@, r.default@, r.range@]
}

pub open spec fn header() -> Seq<Seq<char>> {
    seq!["PARAMETER"@, "TYPE"@, "DEFAULT"@, "RANGE"@]
}

/// The width of column `c`: its header or its widest cell.
pub open spec fn column_width(rows: Seq<ParamRow>, c: int) -> nat
    decreases rows.len(),
{
    if rows.len() == 0 {
        header()[c].len()
    } else if cells(rows.last())[c].len() > column_width(rows.drop_last(), c) {
        cells(rows.last())[c].len()
    } else {
        column_width(rows.drop_last(), c)
    }
}

/// Four cells, each padded to its column, with a gutter after each.
pub open spec fn table_line(cs: Seq<Seq<char>>, rows: Seq<ParamRow>) -> Seq<char> {
    pad(cs[0], column_width(rows, 0) as int) + "  "@ + pad(cs[1], column_width(rows, 1) as int)
        + "  "@ + pad(cs[2], column_width(rows, 2) as int) + "  "@ + pad(
        cs[3],
        column_width(rows, 3) as int,
    ) + "  "@
}

pub open spec fn table_rows(rows: Seq<ParamRow>, all: Seq<ParamRow>) -> Seq<char>
    decreases rows.len(),
{
    if rows.len() == 0 {
        Seq::empty()
    } else {
        table_rows(rows.drop_last(), all) + table_line(cells(rows.last()), all)
            + rows.last().description@ + "\n"@
    }
}

/// One preset's schema, as `avz presets <name>` prints it.
pub open spec fn schema_text(name: Seq<char>, description: Seq<char>, schema: SchemaTable) -> Seq<char> {
    let rows = schema.params@;
    name + " — "@ + description + "\n"@ + (match schema.perf_hint {
        Some(h) => "\nperformance: "@ + h@ + "\n"@,
        None => Seq::empty(),
    }) + "\n"@ + table_line(header(), rows) + "DESCRIPTION\n"@ + table_rows(rows, rows)
        + "\nSet one with `--set "@ + (if rows.len() > 0 {
        rows[0].name@
    } else {
        "<name>"@
    }) + "=<value>`, or under `[visual.params]` in a config file.\n"@
}

fn width_of(rows: &Vec<ParamRow>, c: usize, head: &str) -> (w: usize)
    requires
        c < 4,
        head@ == header()[c as int],
    ensures
        w == column_width(rows@, c as int),
{
    let mut w = head.unicode_len();
    let mut i: usize = 0;
    while i < rows.len()
        invariant
            c < 4,
            i <= rows@.len(),
            w == column_width(rows@.subrange(0, i as int), c as int),
        decreases rows.len() - i,
    {
        assert(rows@.subrange(0, i + 1).drop_last() =~= rows@.subrange(0, i as int));
        let r = &rows[i];
        let n = if c == 0 {
            r.name.unicode_len()
        } else if c == 1 {
            r.kind.unicode_len()
        } else if c == 2 {
            r.default.unicode_len()
        } else {
            r.range.unicode_len()
        };
        assert(n == cells(rows@[i as int])[c as int].len());
        if n > w {
            w = n;
        }
        i = i + 1;
    }
    assert(rows@.subrange(0, rows@.len() as int) =~= rows@);
    w
}

fn push_line(out: &mut String, a: &str, b: &str, c: &str, d: &str, widths: &[usize; 4], rows: Ghost<Seq<ParamRow>>)
    requires
        forall|k: int| 0 <= k < 4 ==> widths@[k] == column_width(rows@, k),
    ensures
        final(out)@ == old(out)@ + table_line(seq![a@, b@, c@, d@], rows@),
{
    let ghost start = out@;
    push_padded_text(out, a, widths[0]);
    push_str(out, "  ");
    push_padded_text(out, b, widths[1]);
    push_str(out, "  ");
    push_padded_text(out, c, widths[2]);
    push_str(out, "  ");
    push_padded_text(out, d, widths[3]);
    push_str(out, "  ");
    assert(out@ =~= start + table_line(seq![a@, b@, c@, d@], rows@));
}

/// One preset's schema, as `avz presets <name>` prints it.
pub fn describe(preset: &PresetInfo, schema: &SchemaTable) -> (s: String)
    ensures
        s@ == schema_text(preset.name@, preset.description@, *schema),
{
    let rows = &schema.params;
    let mut out = string_from(preset.name);
    push_str(&mut out, " — ");
    push_str(&mut out, preset.description);
    push_str(&mut out, "\n");
    match &schema.perf_hint {
        Some(h) => {
            push_str(&mut out, "\nperformance: ");
            push_str(&mut out, h.as_str());
            push_str(&mut out, "\n");
        },
        None => {},
    }
    let widths: [usize; 4] = [
        width_of(rows, 0, "PARAMETER"),
        width_of(rows, 1, "TYPE"),
        width_of(rows, 2, "DEFAULT"),
        width_of(rows, 3, "RANGE"),
    ];
    push_str(&mut out, "\n");
    push_line(&mut out, "PARAMETER", "TYPE", "DEFAULT", "RANGE", &widths, Ghost(rows@));
    assert(seq!["PARAMETER"@, "TYPE"@, "DEFAULT"@, "RANGE"@] =~= header());
    push_str(&mut out, "DESCRIPTION\n");
    let ghost before = out@;
    let mut i: usize = 0;
    assert(rows@.subrange(0, 0) =~= Seq::<ParamRow>::empty());
    while i < rows.len()
        invariant
            i <= rows@.len(),
            forall|k: int| 0 <= k < 4 ==> widths@[k] == column_width(rows@, k),
            out@ == before + table_rows(rows@.subrange(0, i as int), rows@),
        decreases rows.len() - i,
    {
        let r = &rows[i];
        assert(rows@.subrange(0, i + 1).drop_last() =~= rows@.subrange(0, i as int));
        push_line(&mut out, r.name.as_str(), r.kind.as_str(), r.default.as_str(), r.range.as_str(), &widths, Ghost(rows@));
        assert(seq![r.name@, r.kind@, r.default@, r.range@] =~= cells(*r));
        push_str(&mut out, r.description.as_str());
        push_str(&mut out, "\n");
        i = i + 1;
    }
    assert(rows@.subrange(0, rows@.len() as int) =~= rows@);
    push_str(&mut out, "\nSet one with `--set ");
    if rows.len() > 0 {
        push_str(&mut out, rows[0].name.as_str());
    } else {
        push_str(&mut out, "<name>");
    }
    push_str(&mut out, "=<value>`, or under `[visual.params]` in a config file.\n");
    out
}

/// The columns line up: every padded cell of a column is exactly the
/// column's width, so each column starts at the same offset on every line.
pub proof fn law_every_cell_fills_its_column(rows: Seq<ParamRow>, i: int, c: int)
    requires
        0 <= i < rows.len(),
        0 <= c < 4,
    ensures
        pad(cells(rows[i])[c], column_width(rows, c) as int).len() == column_width(rows, c),
        pad(header()[c], column_width(rows, c) as int).len() == column_width(rows, c),
    decreases rows.len(),
{
    lemma_column_width_bounds(rows, c);
    assert(cells(rows[i])[c].len() <= column_width(rows, c)) by {
        lemma_cell_within_column(rows, i, c);
    }
}

proof fn lemma_column_width_bounds(rows: Seq<ParamRow>, c: int)
    requires
        0 <= c < 4,
    ensures
        column_width(rows, c) >= header()[c].len(),
    decreases rows.len(),
{
    if rows.len() > 0 {
        lemma_column_width_bounds(rows.drop_last(), c);
    }
}

proof fn lemma_cell_within_column(rows: Seq<ParamRow>, i: int, c: int)
    requires
        0 <= i < rows.len(),
        0 <= c < 4,
    ensures
        cells(rows[i])[c].len() <= column_width(rows, c),
    decreases rows.len(),
{
    if i < rows.len() - 1 {
        lemma_cell_within_column(rows.drop_last(), i, c);
        assert(rows.drop_last()[i] == rows[i]);
    }
}

} // verus!
