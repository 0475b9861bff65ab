//! The diffstat: one row per file with a proportional bar of `+` and `-`,
//! and a summary line.
use vstd::prelude::*;
use crate::data::{CommitInfo, DeltaInfo, DeltaStatus};
use crate::escape::{xml_escaped, xmlencode};
use crate::text::{decimal, push_char, push_decimal, push_repeat, repeat};

verus! {

/// The display budget of a diffstat bar, in symbols.
pub const DIFFSTAT_WIDTH: u64 = 80;

/// The one-letter code of a delta's status.
pub open spec fn status_char(s: DeltaStatus) -> char {
    match s {
        DeltaStatus::Added => 'A',
        DeltaStatus::Copied => 'C',
        DeltaStatus::Deleted => 'D',
        DeltaStatus::Modified => 'M',
        DeltaStatus::Renamed => 'R',
        DeltaStatus::Typechange => 'T',
        DeltaStatus::Unclassified => ' ',
    }
}

/// The one-letter code of a delta's status.
pub fn status_code(s: DeltaStatus) -> (c: char)
    ensures
        c == status_char(s),
{
    match s {
        DeltaStatus::Added => 'A',
        DeltaStatus::Copied => 'C',
        DeltaStatus::Deleted => 'D',
        DeltaStatus::Modified => 'M',
        DeltaStatus::Renamed => 'R',
        DeltaStatus::Typechange => 'T',
        DeltaStatus::Unclassified => ' ',
    }
}

/// How many symbols stand for `count` of `changed` lines within `width`:
/// all of them when the file fits, else the proportional share rounded
/// down plus one, and none for a zero count.
pub open spec fn scaled(count: int, changed: int, width: int) -> int {
    if changed <= width {
        count
    } else if count > 0 {
        count * width / changed + 1
    } else {
        0
    }
}

/// The bar of a file with these counts.
pub open spec fn bar(added: int, deleted: int, width: int) -> Seq<char> {
    repeat('+', scaled(added, added + deleted, width) as nat) + repeat(
        '-',
        scaled(deleted, added + deleted, width) as nat,
    )
}

/// The number of `+` and `-` symbols in the bar of a file with these counts.
pub fn scale_bar(added: u64, deleted: u64, width: u64) -> (r: (u128, u128))
    ensures
        r.0 == scaled(added as int, added + deleted, width as int),
        r.1 == scaled(deleted as int, added + deleted, width as int),
{
    let changed: u128 = added as u128 + deleted as u128;
    if changed <= width as u128 {
        (added as u128, deleted as u128)
    } else {
        proof {
            assert(added * width <= u64::MAX * u64::MAX) by (nonlinear_arith)
                requires
                    added <= u64::MAX,
                    width <= u64::MAX,
            ;
            assert(deleted * width <= u64::MAX * u64::MAX) by (nonlinear_arith)
                requires
                    deleted <= u64::MAX,
                    width <= u64::MAX,
            ;
            assert(u64::MAX * u64::MAX < u128::MAX) by (nonlinear_arith);
        }
        let a: u128 = if added > 0 {
            proof {
                assert((added * width) as int / changed as int <= (added * width) as int)
                    by (nonlinear_arith)
                    requires
                        changed > 0,
                        added * width >= 0,
                ;
            }
            added as u128 * width as u128 / changed + 1
        } else {
            0
        };
        let d: u128 = if deleted > 0 {
            proof {
                assert((deleted * width) as int / changed as int <= (deleted * width) as int)
                    by (nonlinear_arith)
                    requires
                        changed > 0,
                        deleted * width >= 0,
                ;
            }
            deleted as u128 * width as u128 / changed + 1
        } else {
            0
        };
        (a, d)
    }
}

/// The plural suffix for a count.
pub open spec fn plural(n: int) -> Seq<char> {
    if n == 1 {
        ""@
    } else {
        "s"@
    }
}

/// `N files changed, A insertions(+), D deletions(-)`, singular where a
/// count is exactly one, and a line feed.
pub open spec fn summary_text(files: int, added: int, deleted: int) -> Seq<char> {
    decimal(files as nat) + " file"@ + plural(files) + " changed, "@ + decimal(added as nat)
        + " insertion"@ + plural(added) + "(+), "@ + decimal(deleted as nat) + " deletion"@
        + plural(deleted) + "(-)\n"@
}

fn push_plural(out: &mut String, n: u128)
    ensures
        final(out)@ == old(out)@ + plural(n as int),
{
    if n == 1 {
        out.append("");
    } else {
        out.append("s");
    }
}

/// The summary line of a diffstat.
pub fn diffstat_summary(files: u128, added: u128, deleted: u128) -> (r: String)
    ensures
        r@ == summary_text(files as int, added as int, deleted as int),
{
    let mut out = String::new();
    push_decimal(&mut out, files);
    out.append(" file");
    push_plural(&mut out, files);
    out.append(" changed, ");
    push_decimal(&mut out, added);
    out.append(" insertion");
    push_plural(&mut out, added);
    out.append("(+), ");
    push_decimal(&mut out, deleted);
    out.append(" deletion");
    push_plural(&mut out, deleted);
    out.append("(-)\n");
    assert(out@ =~= summary_text(files as int, added as int, deleted as int));
    out
}

/// The shown path: the old one, and `-> new` where the path changed.
pub open spec fn shown_path(old_path: Seq<char>, new_path: Seq<char>) -> Seq<char> {
    if old_path == new_path {
        xml_escaped(old_path)
    } else {
        xml_escaped(old_path) + " -> "@ + xml_escaped(new_path)
    }
}

/// The opening cell of a row, tagged with the status code.
pub open spec fn status_cell(c: char) -> Seq<char> {
    if c == ' ' {
        "<tr><td>"@ + seq![c]
    } else {
        "<tr><td class=\""@ + seq![c] + "\">"@ + seq![c]
    }
}

/// The row of the file at index `i`.
pub open spec fn row(i: int, d: DeltaInfo) -> Seq<char> {
    let delta = d.patch.delta;
    status_cell(status_char(delta.status)) + "</td><td><a href=\"#h"@ + decimal(i as nat)
        + "\">"@ + shown_path(delta.old_path@, delta.new_path@) + "</a>"@
        + "</td><td> | </td>"@ + "<td class=\"num\">"@ + decimal(
        (d.add_count + d.del_count) as nat,
    ) + "</td>"@ + "<td><span class=\"i\">"@ + repeat(
        '+',
        scaled(d.add_count as int, d.add_count + d.del_count, DIFFSTAT_WIDTH as int) as nat,
    ) + "</span><span class=\"d\">"@ + repeat(
        '-',
        scaled(d.del_count as int, d.add_count + d.del_count, DIFFSTAT_WIDTH as int) as nat,
    )
        + "</span></td></tr>\n"@
}

/// The rows of all files, in order.
pub open spec fn rows(d: Seq<DeltaInfo>) -> Seq<char>
    decreases d.len(),
{
    if d.len() == 0 {
        Seq::empty()
    } else {
        rows(d.drop_last()) + row(d.len() - 1, d.last())
    }
}

/// The whole diffstat of a commit.
pub open spec fn diffstat_text(ci: CommitInfo) -> Seq<char> {
    "<b>Diffstat:</b>\n"@ + "<table>"@ + rows(ci.deltas@) + "</table></pre>"@ + "<pre>"@
        + summary_text(ci.deltas@.len() as int, ci.add_count as int, ci.del_count as int)
        + "<hr/>"@
}

fn push_status_cell(out: &mut String, c: char)
    ensures
        final(out)@ == old(out)@ + status_cell(c),
{
    if c == ' ' {
        out.append("<tr><td>");
        push_char(out, c);
    } else {
        out.append("<tr><td class=\"");
        push_char(out, c);
        out.append("\">");
        push_char(out, c);
    }
    assert(final(out)@ =~= old(out)@ + status_cell(c));
}

fn push_row(out: &mut String, i: usize, d: &DeltaInfo)
    ensures
        final(out)@ == old(out)@ + row(i as int, *d),
{
    let delta = &d.patch.delta;
    push_status_cell(out, status_code(delta.status));
    out.append("</td><td><a href=\"#h");
    push_decimal(out, i as u128);
    out.append("\">");
    let old_path = xmlencode(delta.old_path.as_str());
    out.append(old_path.as_str());
    if !(delta.old_path == delta.new_path) {
        out.append(" -> ");
        let new_path = xmlencode(delta.new_path.as_str());
        out.append(new_path.as_str());
    }
    out.append("</a>");
    let (a, r) = scale_bar(d.add_count, d.del_count, DIFFSTAT_WIDTH);
    out.append("</td><td> | </td>");
    out.append("<td class=\"num\">");
    push_decimal(out, d.add_count as u128 + d.del_count as u128);
    out.append("</td>");
    out.append("<td><span class=\"i\">");
    push_repeat(out, '+', a);
    out.append("</span><span class=\"d\">");
    push_repeat(out, '-', r);
    out.append("</span></td></tr>\n");
    assert(final(out)@ =~= old(out)@ + row(i as int, *d));
}

/// How often `c` occurs in `s`.
pub open spec fn count_char(s: Seq<char>, c: char) -> int
    decreases s.len(),
{
    if s.len() == 0 {
        0
    } else {
        count_char(s.drop_last(), c) + if s.last() == c {
            1int
        } else {
            0int
        }
    }
}

proof fn lemma_count_concat(s: Seq<char>, t: Seq<char>, c: char)
    ensures
        count_char(s + t, c) == count_char(s, c) + count_char(t, c),
    decreases t.len(),
{
    if t.len() > 0 {
        assert((s + t).drop_last() =~= s + t.drop_last());
        lemma_count_concat(s, t.drop_last(), c);
    } else {
        assert(s + t =~= s);
    }
}

proof fn lemma_count_repeat(c: char, n: nat, x: char)
    ensures
        count_char(repeat(c, n), x) == if c == x {
            n as int
        } else {
            0
        },
    decreases n,
{
    if n > 0 {
        assert(repeat(c, n).drop_last() =~= repeat(c, (n - 1) as nat));
        lemma_count_repeat(c, (n - 1) as nat, x);
    }
}

proof fn lemma_bar_counts(added: int, deleted: int, width: int)
    requires
        added >= 0,
        deleted >= 0,
        width >= 0,
    ensures
        count_char(bar(added, deleted, width), '+') == scaled(added, added + deleted, width),
        count_char(bar(added, deleted, width), '-') == scaled(deleted, added + deleted, width),
{
    let sa = scaled(added, added + deleted, width);
    let sd = scaled(deleted, added + deleted, width);
    assert(sa >= 0 && sd >= 0) by (nonlinear_arith)
        requires
            sa == scaled(added, added + deleted, width),
            sd == scaled(deleted, added + deleted, width),
            added >= 0,
            deleted >= 0,
            width >= 0,
    ;
    lemma_count_concat(repeat('+', sa as nat), repeat('-', sd as nat), '+');
    lemma_count_concat(repeat('+', sa as nat), repeat('-', sd as nat), '-');
    lemma_count_repeat('+', sa as nat, '+');
    lemma_count_repeat('+', sa as nat, '-');
    lemma_count_repeat('-', sd as nat, '+');
    lemma_count_repeat('-', sd as nat, '-');
}

/// A file whose changed lines fit the display budget gets one symbol per
/// changed line: its added lines as `+`, its deleted lines as `-`.
pub proof fn lemma_unscaled_bar(added: u64, deleted: u64)
    requires
        added + deleted <= DIFFSTAT_WIDTH,
    ensures
        bar(added as int, deleted as int, DIFFSTAT_WIDTH as int).len() == added + deleted,
        count_char(bar(added as int, deleted as int, DIFFSTAT_WIDTH as int), '+') == added,
        count_char(bar(added as int, deleted as int, DIFFSTAT_WIDTH as int), '-') == deleted,
{
    lemma_bar_counts(added as int, deleted as int, DIFFSTAT_WIDTH as int);
}

/// A file whose changed lines exceed the display budget gets, for each
/// nonzero side, its proportional share of the budget rounded down plus
/// one symbol, and no symbol for a zero side.
pub proof fn lemma_scaled_bar(added: u64, deleted: u64)
    requires
        added + deleted > DIFFSTAT_WIDTH,
    ensures
        count_char(bar(added as int, deleted as int, DIFFSTAT_WIDTH as int), '+') == if added > 0 {
            added * 80 / (added + deleted) + 1
        } else {
            0
        },
        count_char(bar(added as int, deleted as int, DIFFSTAT_WIDTH as int), '-') == if deleted
            > 0 {
            deleted * 80 / (added + deleted) + 1
        } else {
            0
        },
{
    lemma_bar_counts(added as int, deleted as int, DIFFSTAT_WIDTH as int);
}

/// Renders the diffstat of a commit: a table row per file, in delta order,
/// then the summary line.
pub fn print_diffstat(ci: &CommitInfo) -> (r: String)
    ensures
        r@ == diffstat_text(*ci),
{
    let mut out = String::new();
    out.append("<b>Diffstat:</b>\n");
    out.append("<table>");
    let ghost head = out@;
    let n = ci.deltas.len();
    let mut i: usize = 0;
    while i < n
        invariant
            n == ci.deltas@.len(),
            i <= n,
            out@ == head + rows(ci.deltas@.take(i as int)),
        decreases n - i,
    {
        push_row(&mut out, i, &ci.deltas[i]);
        proof {
            let t = ci.deltas@.take(i + 1);
            assert(t.drop_last() =~= ci.deltas@.take(i as int));
        }
        i = i + 1;
    }
    assert(ci.deltas@.take(n as int) =~= ci.deltas@);
    out.append("</table></pre>");
    out.append("<pre>");
    let summary = diffstat_summary(n as u128, ci.add_count, ci.del_count);
    out.append(summary.as_str());
    out.append("<hr/>");
    assert(out@ =~= diffstat_text(*ci));
    out
}

} // verus!
