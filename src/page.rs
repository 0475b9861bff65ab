//! The page chrome and the listings around the commit views: repositories,
//! tree entries and file contents.
use vstd::prelude::*;
use crate::escape::{xml_escaped, xmlencode};
use crate::text::{decimal, decode_lossy, lossy_utf8, octal, push_decimal, push_octal};

verus! {

/// The opening of every page, up to the start of its body.
pub fn header() -> (r: String)
    ensures
        r@ == page_header(),
{
    String::from_str(
        "<!DOCTYPE html><html> <head> <link rel=\"stylesheet\" type=\"text/css\" href=\"/static/style.css\" />\n  <link rel=\"icon\" type=\"image/x-icon\" href=\"/static/favicon.ico\">\n  </head> <body>",
    )
}

/// The opening of every page.
pub open spec fn page_header() -> Seq<char> {
    "<!DOCTYPE html><html> <head> <link rel=\"stylesheet\" type=\"text/css\" href=\"/static/style.css\" />\n  <link rel=\"icon\" type=\"image/x-icon\" href=\"/static/favicon.ico\">\n  </head> <body>"@
}

/// The closing of every page.
pub fn footer() -> (r: &'static str)
    ensures
        r@ == "</body></html>"@,
{
    "</body></html>"
}

/// What follows the last `sep` in `s`; all of `s` where there is none.
pub open spec fn after_last(s: Seq<char>, sep: char) -> Seq<char>
    decreases s.len(),
{
    if s.len() == 0 {
        Seq::empty()
    } else if s.last() == sep {
        Seq::empty()
    } else {
        after_last(s.drop_last(), sep).push(s.last())
    }
}

/// The last component of a path.
pub fn basename(path: &str, sep: char) -> (r: &str)
    ensures
        r@ == after_last(path@, sep),
{
    let len = path.unicode_len();
    let mut start: usize = 0;
    let mut n: usize = 0;
    for c in it: path.chars()
        invariant
            it.seq() == path@,
            path@.len() == len,
            n == it.index(),
            start <= n,
            path@.subrange(start as int, n as int) == after_last(path@.take(n as int), sep),
    {
        proof {
            let t = path@.take(n + 1);
            assert(t.drop_last() =~= path@.take(n as int));
        }
        n = n + 1;
        if c == sep {
            start = n;
            assert(path@.subrange(start as int, n as int) =~= Seq::<char>::empty());
        } else {
            assert(path@.subrange(start as int, n as int) =~= path@.subrange(
                start as int,
                n - 1,
            ).push(c));
        }
    }
    assert(path@.take(n as int) =~= path@);
    path.substring_char(start, n)
}

/// The title, clone line and navigation at the top of a repository's pages.
pub open spec fn repo_nav_text(repo: Seq<char>) -> Seq<char> {
    "<h1>"@ + repo + "</h1>"@ + "<span>git clone git://"@ + repo + ".git</span>"@
        + "<span>\n    <a href=\"/"@ + repo + "/log\">Log</a>\n    <a href=\"/"@ + repo
        + "/tree\">Tree</a>\n    <a href=\"/"@ + repo + "/refs\">Refs</a>\n            </span>"@
        + "<hr/>"@
}

/// The title, clone line and navigation at the top of a repository's pages.
pub fn repo_nav(repo: &str) -> (r: String)
    ensures
        r@ == repo_nav_text(repo@),
{
    let mut out = String::new();
    out.append("<h1>");
    out.append(repo);
    out.append("</h1>");
    out.append("<span>git clone git://");
    out.append(repo);
    out.append(".git</span>");
    out.append("<span>\n    <a href=\"/");
    out.append(repo);
    out.append("/log\">Log</a>\n    <a href=\"/");
    out.append(repo);
    out.append("/tree\">Tree</a>\n    <a href=\"/");
    out.append(repo);
    out.append("/refs\">Refs</a>\n            </span>");
    out.append("<hr/>");
    assert(out@ =~= repo_nav_text(repo@));
    out
}

/// The row of one repository in the list of repositories.
pub open spec fn repo_row(path: Seq<char>) -> Seq<char> {
    "<tr><td>"@ + "<a href=/"@ + after_last(path, '/') + ">"@ + after_last(path, '/') + "</a>"@
        + "</td></td>"@
}

/// The rows of the repositories, in order.
pub open spec fn repo_rows(paths: Seq<String>) -> Seq<char>
    decreases paths.len(),
{
    if paths.len() == 0 {
        Seq::empty()
    } else {
        repo_rows(paths.drop_last()) + repo_row(paths.last()@)
    }
}

/// The body of the front page: a table of the repositories, each named by
/// the last component of its path, in the order given.
pub fn repo_list(paths: &Vec<String>) -> (r: String)
    ensures
        r@ == "<span>Repositories</span>"@ + "<hr/>"@ + "<table>"@
            + "<thead><tr><td><b>Name</b></td></tr></thread>"@ + repo_rows(paths@) + "</table>"@,
{
    let mut out = String::new();
    out.append("<span>Repositories</span>");
    out.append("<hr/>");
    out.append("<table>");
    out.append("<thead><tr><td><b>Name</b></td></tr></thread>");
    let ghost head = out@;
    let n = paths.len();
    let mut i: usize = 0;
    while i < n
        invariant
            n == paths@.len(),
            i <= n,
            out@ == head + repo_rows(paths@.take(i as int)),
        decreases n - i,
    {
        let repo = basename(paths[i].as_str(), '/');
        out.append("<tr><td>");
        out.append("<a href=/");
        out.append(repo);
        out.append(">");
        out.append(repo);
        out.append("</a>");
        out.append("</td></td>");
        proof {
            assert(paths@.take(i + 1).drop_last() =~= paths@.take(i as int));
        }
        i = i + 1;
        assert(out@ =~= head + repo_rows(paths@.take(i as int)));
    }
    assert(paths@.take(n as int) =~= paths@);
    out.append("</table>");
    out
}

/// One entry of a tree: its file mode, its name, and the size of the blob
/// it names (zero for a subtree, none for anything else).
#[derive(Clone, Debug)]
pub struct TreeEntry {
    pub mode: u32,
    pub name: String,
    pub size: Option<u64>,
}

/// The row of one tree entry.
pub open spec fn entry_row(e: TreeEntry) -> Seq<char> {
    "<tr>"@ + "<td>"@ + octal(e.mode as nat) + "</td>"@ + "<td><a href="@ + e.name@ + "/>"@
        + e.name@ + "</a></td>"@ + match e.size {
        Some(n) => "<td>"@ + decimal(n as nat) + "</td>"@,
        None => Seq::empty(),
    } + "</tr>"@
}

/// The rows of the entries, in order.
pub open spec fn entry_rows(es: Seq<TreeEntry>) -> Seq<char>
    decreases es.len(),
{
    if es.len() == 0 {
        Seq::empty()
    } else {
        entry_rows(es.drop_last()) + entry_row(es.last())
    }
}

/// The opening of a tree listing.
pub open spec fn files_head() -> Seq<char> {
    "<table>"@
        + "<thead><tr>\n        <td><b>Mode</b></td>\n        <td><b>Name</b></td>\n        <td><b>Size</b></td>\n        </tr></thread>"@
}

fn push_entry_row(out: &mut String, e: &TreeEntry)
    ensures
        final(out)@ == old(out)@ + entry_row(*e),
{
    out.append("<tr>");
    out.append("<td>");
    push_octal(out, e.mode);
    out.append("</td>");
    out.append("<td><a href=");
    out.append(e.name.as_str());
    out.append("/>");
    out.append(e.name.as_str());
    out.append("</a></td>");
    match e.size {
        Some(sz) => {
            out.append("<td>");
            push_decimal(out, sz as u128);
            out.append("</td>");
        },
        None => {},
    }
    out.append("</tr>");
    assert(final(out)@ =~= old(out)@ + entry_row(*e));
}

/// The table of a tree's entries, in order.
pub fn write_files(entries: &Vec<TreeEntry>) -> (r: String)
    ensures
        r@ == files_head() + entry_rows(entries@) + "</table>"@,
{
    let mut out = String::new();
    out.append("<table>");
    out.append(
        "<thead><tr>\n        <td><b>Mode</b></td>\n        <td><b>Name</b></td>\n        <td><b>Size</b></td>\n        </tr></thread>",
    );
    let ghost head = out@;
    let n = entries.len();
    let mut i: usize = 0;
    while i < n
        invariant
            n == entries@.len(),
            i <= n,
            out@ == head + entry_rows(entries@.take(i as int)),
        decreases n - i,
    {
        push_entry_row(&mut out, &entries[i]);
        proof {
            assert(entries@.take(i + 1).drop_last() =~= entries@.take(i as int));
        }
        i = i + 1;
        assert(out@ =~= head + entry_rows(entries@.take(i as int)));
    }
    assert(entries@.take(n as int) =~= entries@);
    out.append("</table>");
    assert(out@ =~= files_head() + entry_rows(entries@) + "</table>"@);
    out
}

/// The view of one file: its name and size, then its escaped content, or a
/// note where it is binary.
pub open spec fn blob_text(path: Seq<char>, size: int, binary: bool, content: Seq<u8>) -> Seq<
    char,
> {
    "<p>"@ + after_last(path, '/') + " ("@ + decimal(size as nat) + "B)</p>"@ + "<hr>"@ + if binary {
        "<p>Binary file.</p>"@
    } else {
        "<pre>"@ + xml_escaped(lossy_utf8(content)) + "</pre>"@
    }
}

/// The view of one file of a tree.
pub fn write_blob(path: &str, size: u64, binary: bool, content: &[u8]) -> (r: String)
    ensures
        r@ == blob_text(path@, size as int, binary, content@),
{
    let mut out = String::new();
    let filename = basename(path, '/');
    out.append("<p>");
    out.append(filename);
    out.append(" (");
    push_decimal(&mut out, size as u128);
    out.append("B)</p>");
    out.append("<hr>");
    if binary {
        out.append("<p>Binary file.</p>");
    } else {
        let text = decode_lossy(content);
        let escaped = xmlencode(text.as_str());
        out.append("<pre>");
        out.append(escaped.as_str());
        out.append("</pre>");
    }
    assert(out@ =~= blob_text(path@, size as int, binary, content@));
    out
}

} // verus!
