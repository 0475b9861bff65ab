//! The anchored patch: every file, hunk and changed line carries an id that
//! other views can link to.
use vstd::prelude::*;
use crate::data::{CommitInfo, DeltaInfo, FileDelta, Hunk, Line, Patch};
use crate::escape::{xml_escaped, xml_escaped_line, xmlencode, xmlencodeline};
use crate::text::{decimal, decode_lossy, digit_char, lossy_utf8, push_decimal};

verus! {

/// The anchor id of file `i`.
pub open spec fn file_id(i: int) -> Seq<char> {
    "h"@ + decimal(i as nat)
}

/// The anchor id of hunk `j` of file `i`.
pub open spec fn hunk_id(i: int, j: int) -> Seq<char> {
    file_id(i) + "-"@ + decimal(j as nat)
}

/// The anchor id of line `k` of hunk `j` of file `i`.
pub open spec fn line_id(i: int, j: int, k: int) -> Seq<char> {
    hunk_id(i, j) + "-"@ + decimal(k as nat)
}

/// The header naming both sides of file `i`, the old one carrying the
/// file's anchor.
pub open spec fn file_header(i: int, d: FileDelta) -> Seq<char> {
    "<b>diff --git a/<a id=\""@ + file_id(i) + "\" href=\"../tree/"@ + xml_escaped(d.old_path@)
        + "\">"@ + xml_escaped(d.old_path@) + "</a>"@ + " b/<a href=\"../tree/"@ + xml_escaped(
        d.new_path@,
    ) + "\">"@ + xml_escaped(d.new_path@) + "</a></b>\n"@
}

/// A line is an addition when it has no old line number, a deletion when
/// it has no new one, and context otherwise.
pub open spec fn line_text(i: int, j: int, k: int, l: Line) -> Seq<char> {
    let content = xml_escaped_line(lossy_utf8(l.content@));
    if l.old_lineno is None {
        "<a href=\"#"@ + line_id(i, j, k) + "\" id=\""@ + line_id(i, j, k) + "\" class=\"i\">+"@
            + content + "\n"@ + "</a>"@
    } else if l.new_lineno is None {
        "<a href=\"#"@ + line_id(i, j, k) + "\" id=\""@ + line_id(i, j, k) + "\" class=\"d\">-"@
            + content + "\n"@ + "</a>"@
    } else {
        " "@ + content + "\n"@
    }
}

/// The lines of hunk `j` of file `i`, in order.
pub open spec fn lines_text(i: int, j: int, ls: Seq<Line>) -> Seq<char>
    decreases ls.len(),
{
    if ls.len() == 0 {
        Seq::empty()
    } else {
        lines_text(i, j, ls.drop_last()) + line_text(i, j, ls.len() - 1, ls.last())
    }
}

/// Hunk `j` of file `i`: its header as a link to itself, then its lines.
pub open spec fn hunk_text(i: int, j: int, h: Hunk) -> Seq<char> {
    "<a href=\"#"@ + hunk_id(i, j) + "\" id=\""@ + hunk_id(i, j) + "\" class=\"h\">"@
        + xml_escaped(lossy_utf8(h.header@)) + "</a>"@ + lines_text(i, j, h.lines@)
}

/// The hunks of file `i`, in order.
pub open spec fn hunks_text(i: int, hs: Seq<Hunk>) -> Seq<char>
    decreases hs.len(),
{
    if hs.len() == 0 {
        Seq::empty()
    } else {
        hunks_text(i, hs.drop_last()) + hunk_text(i, hs.len() - 1, hs.last())
    }
}

/// The marker that stands for the content of a binary file.
pub open spec fn binary_marker() -> Seq<char> {
    "Binary files differ\n"@
}

/// File `i`: its header, then the binary marker or its hunks.
pub open spec fn file_text(i: int, p: Patch) -> Seq<char> {
    file_header(i, p.delta) + if p.delta.binary {
        binary_marker()
    } else {
        hunks_text(i, p.hunks@)
    }
}

/// All files of a commit, in delta order.
pub open spec fn files_text(ds: Seq<DeltaInfo>) -> Seq<char>
    decreases ds.len(),
{
    if ds.len() == 0 {
        Seq::empty()
    } else {
        files_text(ds.drop_last()) + file_text(ds.len() - 1, ds.last().patch)
    }
}

fn push_hunk_id(out: &mut String, i: usize, j: usize)
    ensures
        final(out)@ == old(out)@ + hunk_id(i as int, j as int),
{
    out.append("h");
    push_decimal(out, i as u128);
    out.append("-");
    push_decimal(out, j as u128);
    assert(final(out)@ =~= old(out)@ + hunk_id(i as int, j as int));
}

fn push_line_id(out: &mut String, i: usize, j: usize, k: usize)
    ensures
        final(out)@ == old(out)@ + line_id(i as int, j as int, k as int),
{
    push_hunk_id(out, i, j);
    out.append("-");
    push_decimal(out, k as u128);
    assert(final(out)@ =~= old(out)@ + line_id(i as int, j as int, k as int));
}

fn push_line(out: &mut String, i: usize, j: usize, k: usize, l: &Line)
    ensures
        final(out)@ == old(out)@ + line_text(i as int, j as int, k as int, *l),
{
    let decoded = decode_lossy(l.content.as_slice());
    let content = xmlencodeline(decoded.as_str());
    let changed = l.old_lineno.is_none() || l.new_lineno.is_none();
    if l.old_lineno.is_none() {
        out.append("<a href=\"#");
        push_line_id(out, i, j, k);
        out.append("\" id=\"");
        push_line_id(out, i, j, k);
        out.append("\" class=\"i\">+");
    } else if l.new_lineno.is_none() {
        out.append("<a href=\"#");
        push_line_id(out, i, j, k);
        out.append("\" id=\"");
        push_line_id(out, i, j, k);
        out.append("\" class=\"d\">-");
    } else {
        out.append(" ");
    }
    out.append(content.as_str());
    out.append("\n");
    if changed {
        out.append("</a>");
    }
    assert(final(out)@ =~= old(out)@ + line_text(i as int, j as int, k as int, *l));
}

fn push_hunk(out: &mut String, i: usize, j: usize, h: &Hunk)
    ensures
        final(out)@ == old(out)@ + hunk_text(i as int, j as int, *h),
{
    out.append("<a href=\"#");
    push_hunk_id(out, i, j);
    out.append("\" id=\"");
    push_hunk_id(out, i, j);
    out.append("\" class=\"h\">");
    let decoded = decode_lossy(h.header.as_slice());
    let header = xmlencode(decoded.as_str());
    out.append(header.as_str());
    out.append("</a>");
    let ghost head = out@;
    let n = h.lines.len();
    let mut k: usize = 0;
    while k < n
        invariant
            n == h.lines@.len(),
            k <= n,
            out@ == head + lines_text(i as int, j as int, h.lines@.take(k as int)),
        decreases n - k,
    {
        push_line(out, i, j, k, &h.lines[k]);
        proof {
            assert(h.lines@.take(k + 1).drop_last() =~= h.lines@.take(k as int));
        }
        k = k + 1;
    }
    assert(h.lines@.take(n as int) =~= h.lines@);
    assert(final(out)@ =~= old(out)@ + hunk_text(i as int, j as int, *h));
}

fn push_file_header(out: &mut String, i: usize, d: &FileDelta)
    ensures
        final(out)@ == old(out)@ + file_header(i as int, *d),
{
    let old_file = xmlencode(d.old_path.as_str());
    let new_file = xmlencode(d.new_path.as_str());
    out.append("<b>diff --git a/<a id=\"");
    out.append("h");
    push_decimal(out, i as u128);
    out.append("\" href=\"../tree/");
    out.append(old_file.as_str());
    out.append("\">");
    out.append(old_file.as_str());
    out.append("</a>");
    out.append(" b/<a href=\"../tree/");
    out.append(new_file.as_str());
    out.append("\">");
    out.append(new_file.as_str());
    out.append("</a></b>\n");
    assert(final(out)@ =~= old(out)@ + file_header(i as int, *d));
}

fn push_file(out: &mut String, i: usize, p: &Patch)
    ensures
        final(out)@ == old(out)@ + file_text(i as int, *p),
{
    push_file_header(out, i, &p.delta);
    let ghost head = out@;
    if p.delta.binary {
        out.append("Binary files differ\n");
    } else {
        let n = p.hunks.len();
        let mut j: usize = 0;
        while j < n
            invariant
                n == p.hunks@.len(),
                j <= n,
                out@ == head + hunks_text(i as int, p.hunks@.take(j as int)),
            decreases n - j,
        {
            push_hunk(out, i, j, &p.hunks[j]);
            proof {
                assert(p.hunks@.take(j + 1).drop_last() =~= p.hunks@.take(j as int));
            }
            j = j + 1;
        }
        assert(p.hunks@.take(n as int) =~= p.hunks@);
    }
    assert(final(out)@ =~= old(out)@ + file_text(i as int, *p));
}

/// Renders the patch of a commit: for each delta, in order, its header and
/// either the binary marker or its hunks and lines, with anchors `h{i}`,
/// `h{i}-{j}` and `h{i}-{j}-{k}`.
pub fn print_diff(ci: &CommitInfo) -> (r: String)
    ensures
        r@ == files_text(ci.deltas@),
{
    let mut out = String::new();
    let n = ci.deltas.len();
    let mut i: usize = 0;
    while i < n
        invariant
            n == ci.deltas@.len(),
            i <= n,
            out@ == files_text(ci.deltas@.take(i as int)),
        decreases n - i,
    {
        push_file(&mut out, i, &ci.deltas[i].patch);
        proof {
            assert(ci.deltas@.take(i + 1).drop_last() =~= ci.deltas@.take(i as int));
        }
        i = i + 1;
    }
    assert(ci.deltas@.take(n as int) =~= ci.deltas@);
    out
}

/// A binary file shows its header and the binary marker, whatever its
/// hunks hold: no hunk or line anchor comes from it.
pub proof fn lemma_binary_file(i: int, p: Patch, q: Patch)
    requires
        p.delta.binary,
        q.delta == p.delta,
    ensures
        file_text(i, p) == file_header(i, p.delta) + binary_marker(),
        file_text(i, p) == file_text(i, q),
{
}

proof fn lemma_decimal_digits(n: nat)
    ensures
        decimal(n).len() >= 1,
        n >= 10 ==> decimal(n).len() >= 2,
        forall|k: int| 0 <= k < decimal(n).len() ==> decimal(n)[k] != '-',
    decreases n,
{
    if n >= 10 {
        lemma_decimal_digits(n / 10);
        let d = decimal(n / 10);
        assert(decimal(n) == d.push(digit_char(n % 10)));
        assert forall|k: int| 0 <= k < decimal(n).len() implies decimal(n)[k] != '-' by {
            if k < d.len() {
                assert(decimal(n)[k] == d[k]);
            }
        }
    }
}

proof fn lemma_digit_injective(a: nat, b: nat)
    requires
        a < 10,
        b < 10,
        digit_char(a) == digit_char(b),
    ensures
        a == b,
{
}

proof fn lemma_decimal_injective(n: nat, m: nat)
    requires
        decimal(n) == decimal(m),
    ensures
        n == m,
    decreases n,
{
    lemma_decimal_digits(n);
    lemma_decimal_digits(m);
    if n >= 10 && m >= 10 {
        assert(decimal(n) == decimal(n / 10).push(digit_char(n % 10)));
        assert(decimal(m) == decimal(m / 10).push(digit_char(m % 10)));
        assert(decimal(n).drop_last() =~= decimal(n / 10));
        assert(decimal(m).drop_last() =~= decimal(m / 10));
        assert(decimal(n).last() == digit_char(n % 10));
        assert(decimal(m).last() == digit_char(m % 10));
        lemma_digit_injective(n % 10, m % 10);
        lemma_decimal_injective(n / 10, m / 10);
        assert(n == 10 * (n / 10) + n % 10);
        assert(m == 10 * (m / 10) + m % 10);
    } else if n < 10 && m < 10 {
        assert(decimal(n)[0] == digit_char(n));
        assert(decimal(m)[0] == digit_char(m));
    }
}

/// Splitting `a + "-" + b` at its first `-` gives back `a` and `b` when `a`
/// holds no `-`.
proof fn lemma_split_at_dash(a: Seq<char>, b: Seq<char>, c: Seq<char>, d: Seq<char>)
    requires
        a + "-"@ + b == c + "-"@ + d,
        forall|k: int| 0 <= k < a.len() ==> a[k] != '-',
        forall|k: int| 0 <= k < c.len() ==> c[k] != '-',
    ensures
        a == c,
        b == d,
{
    reveal_strlit("-");
    let s = a + "-"@ + b;
    let t = c + "-"@ + d;
    if a.len() < c.len() {
        assert(s[a.len() as int] == '-');
        assert(t[a.len() as int] == c[a.len() as int]);
    } else if c.len() < a.len() {
        assert(t[c.len() as int] == '-');
        assert(s[c.len() as int] == a[c.len() as int]);
    }
    assert(a =~= s.subrange(0, a.len() as int));
    assert(c =~= t.subrange(0, c.len() as int));
    assert(b =~= s.subrange(a.len() as int + 1, s.len() as int));
    assert(d =~= t.subrange(c.len() as int + 1, t.len() as int));
}

proof fn lemma_no_dash_in_file_id(i: nat)
    ensures
        forall|k: int| 0 <= k < file_id(i as int).len() ==> file_id(i as int)[k] != '-',
{
    reveal_strlit("h");
    lemma_decimal_digits(i);
    assert forall|k: int| 0 <= k < file_id(i as int).len() implies file_id(i as int)[k] != '-' by {
        if k > 0 {
            assert(file_id(i as int)[k] == decimal(i)[k - 1]);
        }
    }
}

/// Anchor ids are pairwise distinct: files, hunks and lines each have ids
/// that differ for different indices, and no id of one kind is an id of
/// another kind.
pub proof fn lemma_anchor_ids_distinct(i: nat, j: nat, k: nat, i2: nat, j2: nat, k2: nat)
    ensures
        file_id(i as int) == file_id(i2 as int) ==> i == i2,
        hunk_id(i as int, j as int) == hunk_id(i2 as int, j2 as int) ==> i == i2 && j == j2,
        line_id(i as int, j as int, k as int) == line_id(i2 as int, j2 as int, k2 as int) ==> i
            == i2 && j == j2 && k == k2,
        file_id(i as int) != hunk_id(i2 as int, j2 as int),
        file_id(i as int) != line_id(i2 as int, j2 as int, k2 as int),
        hunk_id(i as int, j as int) != line_id(i2 as int, j2 as int, k2 as int),
{
    reveal_strlit("h");
    reveal_strlit("-");
    lemma_no_dash_in_file_id(i);
    lemma_no_dash_in_file_id(i2);
    lemma_decimal_digits(j);
    lemma_decimal_digits(j2);
    lemma_decimal_digits(k);
    lemma_decimal_digits(k2);
    if file_id(i as int) == file_id(i2 as int) {
        assert(decimal(i) =~= file_id(i as int).drop_first());
        assert(decimal(i2) =~= file_id(i2 as int).drop_first());
        lemma_decimal_injective(i, i2);
    }
    if hunk_id(i as int, j as int) == hunk_id(i2 as int, j2 as int) {
        lemma_split_at_dash(file_id(i as int), decimal(j), file_id(i2 as int), decimal(j2));
        assert(decimal(i) =~= file_id(i as int).drop_first());
        assert(decimal(i2) =~= file_id(i2 as int).drop_first());
        lemma_decimal_injective(i, i2);
        lemma_decimal_injective(j, j2);
    }
    if line_id(i as int, j as int, k as int) == line_id(i2 as int, j2 as int, k2 as int) {
        assert(line_id(i as int, j as int, k as int) =~= file_id(i as int) + "-"@ + (decimal(j)
            + "-"@ + decimal(k)));
        assert(line_id(i2 as int, j2 as int, k2 as int) =~= file_id(i2 as int) + "-"@ + (decimal(
            j2,
        ) + "-"@ + decimal(k2)));
        lemma_split_at_dash(
            file_id(i as int),
            decimal(j) + "-"@ + decimal(k),
            file_id(i2 as int),
            decimal(j2) + "-"@ + decimal(k2),
        );
        lemma_split_at_dash(decimal(j), decimal(k), decimal(j2), decimal(k2));
        assert(decimal(i) =~= file_id(i as int).drop_first());
        assert(decimal(i2) =~= file_id(i2 as int).drop_first());
        lemma_decimal_injective(i, i2);
        lemma_decimal_injective(j, j2);
        lemma_decimal_injective(k, k2);
    }
    let f = file_id(i as int);
    let h = hunk_id(i2 as int, j2 as int);
    let l = line_id(i2 as int, j2 as int, k2 as int);
    let f2 = file_id(i2 as int);
    assert(h[f2.len() as int] == '-');
    assert(l[f2.len() as int] == '-');
    if f == h {
        assert(f[f2.len() as int] == '-');
    }
    if f == l {
        assert(f[f2.len() as int] == '-');
    }
    let hh = hunk_id(i as int, j as int);
    let f1 = file_id(i as int);
    if hh == l {
        let dj = decimal(j);
        let dj2 = decimal(j2);
        assert(hh =~= f1 + "-"@ + dj);
        assert(l =~= f2 + "-"@ + (dj2 + "-"@ + decimal(k2)));
        lemma_split_at_dash(f1, dj, f2, dj2 + "-"@ + decimal(k2));
        assert(dj[dj2.len() as int] == '-');
    }
}

/// The position of an anchor: file `i`, then one more than the hunk index
/// (zero for the file's own anchor), then one more than the line index
/// (zero for a hunk's own anchor).
pub type AnchorKey = (nat, nat, nat);

/// The id of the anchor at a position.
pub open spec fn key_id(key: AnchorKey) -> Seq<char> {
    if key.1 == 0 {
        file_id(key.0 as int)
    } else if key.2 == 0 {
        hunk_id(key.0 as int, key.1 - 1)
    } else {
        line_id(key.0 as int, key.1 - 1, key.2 - 1)
    }
}

/// Whether a line is an addition or a deletion, and so carries an anchor.
pub open spec fn is_changed(l: Line) -> bool {
    l.old_lineno is None || l.new_lineno is None
}

/// The anchors of the lines of hunk `j` of file `i`, in order.
pub open spec fn line_keys(i: nat, j: nat, ls: Seq<Line>) -> Seq<AnchorKey>
    decreases ls.len(),
{
    if ls.len() == 0 {
        Seq::empty()
    } else {
        line_keys(i, j, ls.drop_last()) + if is_changed(ls.last()) {
            seq![(i, j + 1, ls.len())]
        } else {
            Seq::empty()
        }
    }
}

/// The anchors of the hunks of file `i` and of their lines, in order.
pub open spec fn hunk_keys(i: nat, hs: Seq<Hunk>) -> Seq<AnchorKey>
    decreases hs.len(),
{
    if hs.len() == 0 {
        Seq::empty()
    } else {
        hunk_keys(i, hs.drop_last()) + seq![(i, hs.len(), 0nat)] + line_keys(
            i,
            (hs.len() - 1) as nat,
            hs.last().lines@,
        )
    }
}

/// The anchors of file `i`: its own, then, unless it is binary, those of
/// its hunks and lines.
pub open spec fn file_keys(i: nat, p: Patch) -> Seq<AnchorKey> {
    seq![(i, 0nat, 0nat)] + if p.delta.binary {
        Seq::empty()
    } else {
        hunk_keys(i, p.hunks@)
    }
}

/// The anchors of all files, in the order the patch text places them.
pub open spec fn anchor_keys(ds: Seq<DeltaInfo>) -> Seq<AnchorKey>
    decreases ds.len(),
{
    if ds.len() == 0 {
        Seq::empty()
    } else {
        anchor_keys(ds.drop_last()) + file_keys((ds.len() - 1) as nat, ds.last().patch)
    }
}

/// The ids of the anchors of the patch text, in order: `h{i}` for each
/// file, then `h{i}-{j}` for each hunk of a file that is not binary,
/// followed by `h{i}-{j}-{k}` for each added or deleted line `k` of it.
pub open spec fn anchor_ids(ds: Seq<DeltaInfo>) -> Seq<Seq<char>> {
    anchor_keys(ds).map_values(|key: AnchorKey| key_id(key))
}

/// Anchor positions in text order.
pub open spec fn key_lt(a: AnchorKey, b: AnchorKey) -> bool {
    a.0 < b.0 || (a.0 == b.0 && (a.1 < b.1 || (a.1 == b.1 && a.2 < b.2)))
}

/// Each position comes after those before it.
pub open spec fn increasing(s: Seq<AnchorKey>) -> bool {
    forall|a: int, b: int| 0 <= a < b < s.len() ==> key_lt(s[a], s[b])
}

proof fn lemma_increasing_concat(x: Seq<AnchorKey>, y: Seq<AnchorKey>)
    requires
        increasing(x),
        increasing(y),
        forall|a: int, b: int| 0 <= a < x.len() && 0 <= b < y.len() ==> key_lt(x[a], y[b]),
    ensures
        increasing(x + y),
{
    assert forall|a: int, b: int| 0 <= a < b < (x + y).len() implies key_lt((x + y)[a], (x + y)[b]) by {
        if b < x.len() {
        } else if a >= x.len() {
            assert(key_lt(y[a - x.len()], y[b - x.len()]));
        } else {
            assert(key_lt(x[a], y[b - x.len()]));
        }
    }
}

proof fn lemma_line_keys(i: nat, j: nat, ls: Seq<Line>)
    ensures
        increasing(line_keys(i, j, ls)),
        forall|a: int| 0 <= a < line_keys(i, j, ls).len() ==> {
            let key = #[trigger] line_keys(i, j, ls)[a];
            key.0 == i && key.1 == j + 1 && 1 <= key.2 <= ls.len()
        },
    decreases ls.len(),
{
    if ls.len() > 0 {
        lemma_line_keys(i, j, ls.drop_last());
        let x = line_keys(i, j, ls.drop_last());
        let y: Seq<AnchorKey> = if is_changed(ls.last()) {
            seq![(i, j + 1, ls.len())]
        } else {
            Seq::empty()
        };
        lemma_increasing_concat(x, y);
        assert(line_keys(i, j, ls) == x + y);
        assert forall|a: int| 0 <= a < (x + y).len() implies {
            let key = #[trigger] (x + y)[a];
            key.0 == i && key.1 == j + 1 && 1 <= key.2 <= ls.len()
        } by {
            if a < x.len() {
                assert((x + y)[a] == x[a]);
            }
        }
    }
}

proof fn lemma_hunk_keys(i: nat, hs: Seq<Hunk>)
    ensures
        increasing(hunk_keys(i, hs)),
        forall|a: int| 0 <= a < hunk_keys(i, hs).len() ==> {
            let key = #[trigger] hunk_keys(i, hs)[a];
            key.0 == i && 1 <= key.1 <= hs.len()
        },
    decreases hs.len(),
{
    if hs.len() > 0 {
        lemma_hunk_keys(i, hs.drop_last());
        let n = hs.len();
        let x = hunk_keys(i, hs.drop_last());
        let m: Seq<AnchorKey> = seq![(i, n, 0nat)];
        let y = line_keys(i, (n - 1) as nat, hs.last().lines@);
        lemma_line_keys(i, (n - 1) as nat, hs.last().lines@);
        lemma_increasing_concat(x, m);
        assert forall|a: int, b: int| 0 <= a < (x + m).len() && 0 <= b < y.len() implies key_lt(
            (x + m)[a],
            y[b],
        ) by {
            if a < x.len() {
                assert((x + m)[a] == x[a]);
            }
            assert(y[b].2 >= 1);
        }
        lemma_increasing_concat(x + m, y);
        assert(hunk_keys(i, hs) == x + m + y);
        assert forall|a: int| 0 <= a < (x + m + y).len() implies {
            let key = #[trigger] (x + m + y)[a];
            key.0 == i && 1 <= key.1 <= hs.len()
        } by {
            if a < x.len() {
                assert((x + m + y)[a] == x[a]);
            } else if a < x.len() + 1 {
                assert((x + m + y)[a] == m[a - x.len()]);
            } else {
                assert((x + m + y)[a] == y[a - x.len() - 1]);
            }
        }
    }
}

proof fn lemma_anchor_keys(ds: Seq<DeltaInfo>)
    ensures
        increasing(anchor_keys(ds)),
        forall|a: int| 0 <= a < anchor_keys(ds).len() ==> (#[trigger] anchor_keys(ds)[a]).0
            < ds.len() && (anchor_keys(ds)[a].1 == 0 ==> anchor_keys(ds)[a].2 == 0),
    decreases ds.len(),
{
    if ds.len() > 0 {
        lemma_anchor_keys(ds.drop_last());
        let i = (ds.len() - 1) as nat;
        let p = ds.last().patch;
        let x = anchor_keys(ds.drop_last());
        let f: Seq<AnchorKey> = seq![(i, 0nat, 0nat)];
        let h: Seq<AnchorKey> = if p.delta.binary {
            Seq::empty()
        } else {
            hunk_keys(i, p.hunks@)
        };
        lemma_hunk_keys(i, p.hunks@);
        lemma_increasing_concat(f, h);
        assert(file_keys(i, p) == f + h);
        assert forall|b: int| 0 <= b < (f + h).len() implies (#[trigger] (f + h)[b]).0 == i && (
        (f + h)[b].1 == 0 ==> (f + h)[b].2 == 0) by {
            if b >= 1 {
                assert((f + h)[b] == h[b - 1]);
            }
        }
        lemma_increasing_concat(x, f + h);
        assert forall|a: int| 0 <= a < (x + (f + h)).len() implies (#[trigger] (x + (f
            + h))[a]).0 < ds.len() && ((x + (f + h))[a].1 == 0 ==> (x + (f + h))[a].2 == 0) by {
            if a < x.len() {
                assert((x + (f + h))[a] == x[a]);
            } else {
                assert((x + (f + h))[a] == (f + h)[a - x.len()]);
            }
        }
    }
}

/// The anchor ids of a patch text are pairwise distinct: no two files,
/// hunks or lines share an id.
pub proof fn lemma_anchor_ids_unique(ds: Seq<DeltaInfo>)
    ensures
        forall|a: int, b: int|
            0 <= a < b < anchor_ids(ds).len() ==> anchor_ids(ds)[a] != anchor_ids(ds)[b],
{
    lemma_anchor_keys(ds);
    let ks = anchor_keys(ds);
    assert forall|a: int, b: int| 0 <= a < b < anchor_ids(ds).len() implies anchor_ids(ds)[a]
        != anchor_ids(ds)[b] by {
        assert(anchor_ids(ds)[a] == key_id(ks[a]));
        assert(anchor_ids(ds)[b] == key_id(ks[b]));
        assert(key_lt(ks[a], ks[b]));
        lemma_key_id_injective(ks[a], ks[b]);
    }
}

proof fn lemma_key_id_injective(x: AnchorKey, y: AnchorKey)
    requires
        x != y,
        x.1 == 0 ==> x.2 == 0,
        y.1 == 0 ==> y.2 == 0,
    ensures
        key_id(x) != key_id(y),
{
    let jx: nat = if x.1 > 0 { (x.1 - 1) as nat } else { 0 };
    let jy: nat = if y.1 > 0 { (y.1 - 1) as nat } else { 0 };
    let kx: nat = if x.2 > 0 { (x.2 - 1) as nat } else { 0 };
    let ky: nat = if y.2 > 0 { (y.2 - 1) as nat } else { 0 };
    lemma_anchor_ids_distinct(x.0, jx, kx, y.0, jy, ky);
    lemma_anchor_ids_distinct(y.0, jy, ky, x.0, jx, kx);
}

} // verus!
