//! Report rendering.
//!
//! The update report is a fixed-width table: a count line, a header row and
//! a separator row, then one row per update. Column widths are the maximum
//! string length observed per column across the full result set; the header
//! and separator rows reuse the same widths. An empty result set renders the
//! header and a count of zero.

use vstd::prelude::*;

use crate::reconcile::{RequiredUpdate, RequiredUpdateView};

verus! {

/// The decimal digit characters.
pub open spec fn digit_char(d: nat) -> char {
    if d == 0 {
        '0'
    } else if d == 1 {
        '1'
    } else if d == 2 {
        '2'
    } else if d == 3 {
        '3'
    } else if d == 4 {
        '4'
    } else if d == 5 {
        '5'
    } else if d == 6 {
        '6'
    } else if d == 7 {
        '7'
    } else if d == 8 {
        '8'
    } else {
        '9'
    }
}

/// The decimal rendering of a number, most significant digit first, with no
/// leading zeros (zero itself rendering as one digit).
pub open spec fn spec_udigits(n: nat) -> Seq<char>
    decreases n,
{
    if n < 10 {
        seq![digit_char(n)]
    } else {
        spec_udigits(n / 10).push(digit_char(n % 10))
    }
}

/// One decimal digit as a string.
fn digit_str(d: u64) -> (r: &'static str)
    requires
        d < 10,
    ensures
        r@ == seq![digit_char(d as nat)],
{
    let r: &'static str = if d == 0 {
        "0"
    } else if d == 1 {
        "1"
    } else if d == 2 {
        "2"
    } else if d == 3 {
        "3"
    } else if d == 4 {
        "4"
    } else if d == 5 {
        "5"
    } else if d == 6 {
        "6"
    } else if d == 7 {
        "7"
    } else if d == 8 {
        "8"
    } else {
        "9"
    };
    proof {
        reveal_strlit("0");
        reveal_strlit("1");
        reveal_strlit("2");
        reveal_strlit("3");
        reveal_strlit("4");
        reveal_strlit("5");
        reveal_strlit("6");
        reveal_strlit("7");
        reveal_strlit("8");
        reveal_strlit("9");
        assert(r@ =~= seq![digit_char(d as nat)]);
    }
    r
}

/// Renders a number in decimal.
pub fn u64_to_string(n: u64) -> (s: String)
    ensures
        s@ == spec_udigits(n as nat),
    decreases n,
{
    if n < 10 {
        String::from_str(digit_str(n))
    } else {
        let mut s = u64_to_string(n / 10);
        s.append(digit_str(n % 10));
        proof {
            assert(s@ =~= spec_udigits((n / 10) as nat).push(digit_char((n % 10) as nat)));
        }
        s
    }
}

/// `k` spaces.
pub open spec fn spec_spaces(k: nat) -> Seq<char> {
    Seq::new(k, |i: int| ' ')
}

/// `k` dashes.
pub open spec fn spec_dashes(k: nat) -> Seq<char> {
    Seq::new(k, |i: int| '-')
}

fn spaces(k: usize) -> (s: String)
    ensures
        s@ == spec_spaces(k as nat),
{
    let mut s = String::new();
    let mut i: usize = 0;
    proof {
        assert(s@ =~= spec_spaces(0));
    }
    while i < k
        invariant
            0 <= i <= k,
            s@ == spec_spaces(i as nat),
        decreases k - i,
    {
        s.append(" ");
        i += 1;
        proof {
            reveal_strlit(" ");
            assert(s@ =~= spec_spaces(i as nat));
        }
    }
    s
}

fn dashes(k: usize) -> (s: String)
    ensures
        s@ == spec_dashes(k as nat),
{
    let mut s = String::new();
    let mut i: usize = 0;
    proof {
        assert(s@ =~= spec_dashes(0));
    }
    while i < k
        invariant
            0 <= i <= k,
            s@ == spec_dashes(i as nat),
        decreases k - i,
    {
        s.append("-");
        i += 1;
        proof {
            reveal_strlit("-");
            assert(s@ =~= spec_dashes(i as nat));
        }
    }
    s
}

/// A cell padded on the right to width `w` with spaces; content wider than
/// `w` is kept whole, never truncated.
pub open spec fn spec_pad(s: Seq<char>, w: nat) -> Seq<char> {
    if s.len() >= w {
        s
    } else {
        s + spec_spaces((w - s.len()) as nat)
    }
}

fn pad_cell(s: &str, w: usize) -> (r: String)
    ensures
        r@ == spec_pad(s@, w as nat),
{
    let len = s.unicode_len();
    let mut out = String::from_str(s);
    if len < w {
        let fill = spaces(w - len);
        out.append(fill.as_str());
    }
    out
}

/// The source column of the report.
pub open spec fn col_sources(us: Seq<RequiredUpdateView>) -> Seq<Seq<char>> {
    us.map_values(|u: RequiredUpdateView| u.source)
}

/// The current-version column of the report.
pub open spec fn col_currents(us: Seq<RequiredUpdateView>) -> Seq<Seq<char>> {
    us.map_values(|u: RequiredUpdateView| u.current_version)
}

/// The latest-version column of the report.
pub open spec fn col_latests(us: Seq<RequiredUpdateView>) -> Seq<Seq<char>> {
    us.map_values(|u: RequiredUpdateView| u.latest_version)
}

/// The width of a column: the maximum length of its cells, 0 for an empty
/// result set.
pub open spec fn spec_max_width(col: Seq<Seq<char>>) -> nat
    decreases col.len(),
{
    if col.len() == 0 {
        0
    } else {
        let rest = spec_max_width(col.drop_last());
        if col.last().len() > rest {
            col.last().len()
        } else {
            rest
        }
    }
}

/// One rendered row: the three cells padded to the column widths, separated
/// by single spaces.
pub open spec fn spec_row(u: RequiredUpdateView, ws: nat, wc: nat, wl: nat) -> Seq<char> {
    spec_pad(u.source, ws) + " "@ + spec_pad(u.current_version, wc) + " "@ + spec_pad(
        u.latest_version,
        wl,
    ) + "\n"@
}

/// The rendered rows, one per update, in order.
pub open spec fn spec_rows(us: Seq<RequiredUpdateView>, ws: nat, wc: nat, wl: nat) -> Seq<char>
    decreases us.len(),
{
    if us.len() == 0 {
        Seq::empty()
    } else {
        spec_rows(us.drop_last(), ws, wc, wl) + spec_row(us.last(), ws, wc, wl)
    }
}

/// The full report: a count line, the header and separator rows at the
/// computed column widths, then one row per update.
pub open spec fn spec_report(us: Seq<RequiredUpdateView>) -> Seq<char> {
    let ws = spec_max_width(col_sources(us));
    let wc = spec_max_width(col_currents(us));
    let wl = spec_max_width(col_latests(us));
    "\nTotal packages to update: "@ + spec_udigits(us.len()) + "\n\n"@ + spec_pad("Package"@, ws)
        + " "@ + spec_pad("Current"@, wc) + " "@ + spec_pad("Latest"@, wl) + "\n"@ + spec_dashes(
        ws,
    ) + " "@ + spec_dashes(wc) + " "@ + spec_dashes(wl) + "\n"@ + spec_rows(us, ws, wc, wl)
}

/// The three column widths of the report for `updates`.
fn column_widths(updates: &Vec<RequiredUpdate>) -> (w: (usize, usize, usize))
    ensures
        w.0 as nat == spec_max_width(col_sources(updates.deep_view())),
        w.1 as nat == spec_max_width(col_currents(updates.deep_view())),
        w.2 as nat == spec_max_width(col_latests(updates.deep_view())),
{
    let ghost udv = updates.deep_view();
    let mut ws: usize = 0;
    let mut wc: usize = 0;
    let mut wl: usize = 0;
    let n = updates.len();
    let mut i: usize = 0;
    proof {
        assert(udv.take(0) =~= Seq::<RequiredUpdateView>::empty());
        assert(col_sources(udv.take(0)) =~= Seq::<Seq<char>>::empty());
        assert(col_currents(udv.take(0)) =~= Seq::<Seq<char>>::empty());
        assert(col_latests(udv.take(0)) =~= Seq::<Seq<char>>::empty());
    }
    while i < n
        invariant
            0 <= i <= n,
            n == updates@.len(),
            udv == updates.deep_view(),
            udv.len() == n,
            ws as nat == spec_max_width(col_sources(udv.take(i as int))),
            wc as nat == spec_max_width(col_currents(udv.take(i as int))),
            wl as nat == spec_max_width(col_latests(udv.take(i as int))),
        decreases n - i,
    {
        proof {
            assert(udv[i as int] == updates@[i as int].deep_view());
        }
        let ls = updates[i].source.as_str().unicode_len();
        let lc = updates[i].current_version.as_str().unicode_len();
        let ll = updates[i].latest_version.as_str().unicode_len();
        if ls > ws {
            ws = ls;
        }
        if lc > wc {
            wc = lc;
        }
        if ll > wl {
            wl = ll;
        }
        i += 1;
        proof {
            assert(col_sources(udv.take(i as int)).drop_last() =~= col_sources(udv.take(i - 1)));
            assert(col_sources(udv.take(i as int)).last() == udv[i - 1].source);
            assert(col_currents(udv.take(i as int)).drop_last() =~= col_currents(udv.take(i - 1)));
            assert(col_currents(udv.take(i as int)).last() == udv[i - 1].current_version);
            assert(col_latests(udv.take(i as int)).drop_last() =~= col_latests(udv.take(i - 1)));
            assert(col_latests(udv.take(i as int)).last() == udv[i - 1].latest_version);
        }
    }
    proof {
        assert(udv.take(n as int) =~= udv);
    }
    (ws, wc, wl)
}

/// Renders the update report.
pub fn render(updates: &Vec<RequiredUpdate>) -> (r: String)
    ensures
        r@ == spec_report(updates.deep_view()),
{
    let ghost udv = updates.deep_view();
    let (ws, wc, wl) = column_widths(updates);
    let mut out = String::from_str("\nTotal packages to update: ");
    let count = u64_to_string(updates.len() as u64);
    out.append(count.as_str());
    out.append("\n\n");
    let cell = pad_cell("Package", ws);
    out.append(cell.as_str());
    out.append(" ");
    let cell = pad_cell("Current", wc);
    out.append(cell.as_str());
    out.append(" ");
    let cell = pad_cell("Latest", wl);
    out.append(cell.as_str());
    out.append("\n");
    let sep = dashes(ws);
    out.append(sep.as_str());
    out.append(" ");
    let sep = dashes(wc);
    out.append(sep.as_str());
    out.append(" ");
    let sep = dashes(wl);
    out.append(sep.as_str());
    out.append("\n");
    let ghost head = out@;
    proof {
        assert(udv.len() == updates@.len());
        assert(spec_rows(udv.take(0), ws as nat, wc as nat, wl as nat) =~= Seq::<char>::empty());
        assert(out@ =~= head + spec_rows(udv.take(0), ws as nat, wc as nat, wl as nat));
    }
    let n = updates.len();
    let mut i: usize = 0;
    while i < n
        invariant
            0 <= i <= n,
            n == updates@.len(),
            udv == updates.deep_view(),
            udv.len() == n,
            out@ == head + spec_rows(udv.take(i as int), ws as nat, wc as nat, wl as nat),
        decreases n - i,
    {
        proof {
            assert(udv[i as int] == updates@[i as int].deep_view());
        }
        let cell = pad_cell(updates[i].source.as_str(), ws);
        out.append(cell.as_str());
        out.append(" ");
        let cell = pad_cell(updates[i].current_version.as_str(), wc);
        out.append(cell.as_str());
        out.append(" ");
        let cell = pad_cell(updates[i].latest_version.as_str(), wl);
        out.append(cell.as_str());
        out.append("\n");
        i += 1;
        proof {
            assert(udv.take(i as int).drop_last() =~= udv.take(i - 1));
            assert(udv.take(i as int).last() == udv[i - 1]);
            assert(out@ =~= head + spec_rows(udv.take(i as int), ws as nat, wc as nat, wl as nat));
        }
    }
    proof {
        assert(udv.take(n as int) =~= udv);
        assert(out@ =~= spec_report(udv));
    }
    out
}

} // verus!
