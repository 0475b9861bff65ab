//! The list of branches and tags.
use vstd::prelude::*;
use core::cmp::Ordering;
use crate::escape::{xml_escaped, xmlencode};
use crate::time::{print_time_short, short_form, timestamp_in_range, Time, TimeError};

verus! {

/// A branch or tag, with the commit it points at.
#[derive(Clone, Debug)]
pub struct RefEntry {
    /// The short name (`main`, `v1.0`).
    pub name: String,
    pub is_tag: bool,
    /// When the commit it points at was authored.
    pub when: Time,
    /// Who authored that commit.
    pub author_name: String,
}

/// Lexicographic order of characters, which is the byte order of their
/// UTF-8 encodings.
pub open spec fn lex_order(a: Seq<char>, b: Seq<char>) -> Ordering
    decreases a.len(),
{
    if a.len() == 0 {
        if b.len() == 0 {
            Ordering::Equal
        } else {
            Ordering::Less
        }
    } else if b.len() == 0 {
        Ordering::Greater
    } else if a[0] < b[0] {
        Ordering::Less
    } else if a[0] > b[0] {
        Ordering::Greater
    } else {
        lex_order(a.drop_first(), b.drop_first())
    }
}

/// Branches before tags; then the most recent commit first, by seconds and
/// then by offset; then by name.
pub open spec fn ref_order(a: RefEntry, b: RefEntry) -> Ordering {
    if a.is_tag != b.is_tag {
        if !a.is_tag {
            Ordering::Less
        } else {
            Ordering::Greater
        }
    } else if a.when.seconds != b.when.seconds {
        if b.when.seconds < a.when.seconds {
            Ordering::Less
        } else {
            Ordering::Greater
        }
    } else if a.when.offset_minutes != b.when.offset_minutes {
        if b.when.offset_minutes < a.when.offset_minutes {
            Ordering::Less
        } else {
            Ordering::Greater
        }
    } else {
        lex_order(a.name@, b.name@)
    }
}

fn cmp_names(a: &str, b: &str) -> (r: Ordering)
    ensures
        r == lex_order(a@, b@),
{
    let la = a.unicode_len();
    let lb = b.unicode_len();
    let mut i: usize = 0;
    assert(a@.skip(0) =~= a@ && b@.skip(0) =~= b@);
    while i < la && i < lb
        invariant
            la == a@.len(),
            lb == b@.len(),
            i <= la,
            i <= lb,
            lex_order(a@, b@) == lex_order(a@.skip(i as int), b@.skip(i as int)),
        decreases la - i,
    {
        let ca = a.get_char(i);
        let cb = b.get_char(i);
        proof {
            assert(a@.skip(i as int)[0] == ca);
            assert(b@.skip(i as int)[0] == cb);
        }
        if ca < cb {
            return Ordering::Less;
        } else if ca > cb {
            return Ordering::Greater;
        }
        proof {
            assert(a@.skip(i as int).drop_first() =~= a@.skip(i + 1));
            assert(b@.skip(i as int).drop_first() =~= b@.skip(i + 1));
        }
        i = i + 1;
    }
    if i < la {
        Ordering::Greater
    } else if i < lb {
        Ordering::Less
    } else {
        Ordering::Equal
    }
}

/// The order of the refs list.
pub fn refs_cmp(a: &RefEntry, b: &RefEntry) -> (r: Ordering)
    ensures
        r == ref_order(*a, *b),
{
    if a.is_tag != b.is_tag {
        if !a.is_tag {
            Ordering::Less
        } else {
            Ordering::Greater
        }
    } else if a.when.seconds != b.when.seconds {
        if b.when.seconds < a.when.seconds {
            Ordering::Less
        } else {
            Ordering::Greater
        }
    } else if a.when.offset_minutes != b.when.offset_minutes {
        if b.when.offset_minutes < a.when.offset_minutes {
            Ordering::Less
        } else {
            Ordering::Greater
        }
    } else {
        cmp_names(a.name.as_str(), b.name.as_str())
    }
}

/// The title and table head of the branch or the tag section.
pub open spec fn section_head(tags: bool) -> Seq<char> {
    "<h2>"@ + (if tags {
        "Tags"@
    } else {
        "Branches"@
    }) + "</h2>\n                   <table id=\""@ + (if tags {
        "tags"@
    } else {
        "branches"@
    })
        + "\">\n                   <thead>\n<tr>\n                   <td><b>Name</b></td>\n                   <td><b>Last commit date</b></td>\n                   <td><b>Author</b></td>\n                   </tr></thead>\n                   <tbody>"@
}

/// The row of one ref.
pub open spec fn ref_row(r: RefEntry) -> Seq<char> {
    "<tr><td>"@ + xml_escaped(r.name@) + "</td><td>"@ + short_form(r.when.seconds as int)
        + "</td><td>"@ + xml_escaped(r.author_name@) + "</td></tr>\n"@
}

/// After the given refs: the text so far, whether the tag section has
/// begun, and whether a table is open.
pub open spec fn refs_fold(rs: Seq<RefEntry>) -> (Seq<char>, bool, bool)
    decreases rs.len(),
{
    if rs.len() == 0 {
        (Seq::empty(), false, false)
    } else {
        let (t, tags, open) = refs_fold(rs.drop_last());
        let r = rs.last();
        let switch = !tags && r.is_tag;
        let t1 = if switch && open {
            t + "</tbody></table><br/>\n"@
        } else {
            t
        };
        let open1 = open && !switch;
        let tags1 = tags || r.is_tag;
        let t2 = if !open1 {
            t1 + section_head(tags1)
        } else {
            t1
        };
        (t2 + ref_row(r), tags1, true)
    }
}

/// The refs list: a table of branches, then one of tags, each present only
/// where it has an entry, rows in the order given.
pub open spec fn refs_text(rs: Seq<RefEntry>) -> Seq<char> {
    refs_fold(rs).0 + if refs_fold(rs).2 {
        "</tbody></table>"@
    } else {
        Seq::empty()
    }
}

fn push_section_head(out: &mut String, tags: bool)
    ensures
        final(out)@ == old(out)@ + section_head(tags),
{
    out.append("<h2>");
    if tags {
        out.append("Tags");
    } else {
        out.append("Branches");
    }
    out.append("</h2>\n                   <table id=\"");
    if tags {
        out.append("tags");
    } else {
        out.append("branches");
    }
    out.append(
        "\">\n                   <thead>\n<tr>\n                   <td><b>Name</b></td>\n                   <td><b>Last commit date</b></td>\n                   <td><b>Author</b></td>\n                   </tr></thead>\n                   <tbody>",
    );
    assert(final(out)@ =~= old(out)@ + section_head(tags));
}

fn push_ref_row(out: &mut String, r: &RefEntry) -> (res: Result<(), TimeError>)
    ensures
        timestamp_in_range(r.when.seconds as int) <==> res is Ok,
        res is Ok ==> final(out)@ == old(out)@ + ref_row(*r),
        res is Err ==> res == Err::<(), TimeError>(TimeError::SecondsOutOfRange),
{
    let date = match print_time_short(r.when) {
        Ok(d) => d,
        Err(e) => return Err(e),
    };
    let name = xmlencode(r.name.as_str());
    let author = xmlencode(r.author_name.as_str());
    out.append("<tr><td>");
    out.append(name.as_str());
    out.append("</td><td>");
    out.append(date.as_str());
    out.append("</td><td>");
    out.append(author.as_str());
    out.append("</td></tr>\n");
    assert(final(out)@ =~= old(out)@ + ref_row(*r));
    Ok(())
}

/// The branches and tags of a repository, in the order given (see
/// `refs_cmp`), with their last commit's date and author.
pub fn write_refs(refs: &Vec<RefEntry>) -> (r: Result<String, TimeError>)
    ensures
        (forall|i: int| 0 <= i < refs@.len() ==> timestamp_in_range(refs@[i].when.seconds as int))
            <==> r is Ok,
        r matches Ok(s) ==> s@ == refs_text(refs@),
        r is Err ==> r == Err::<String, TimeError>(TimeError::SecondsOutOfRange),
{
    let mut out = String::new();
    let mut tags = false;
    let mut open = false;
    let n = refs.len();
    let mut i: usize = 0;
    while i < n
        invariant
            n == refs@.len(),
            i <= n,
            refs_fold(refs@.take(i as int)) == (out@, tags, open),
            forall|j: int| 0 <= j < i ==> timestamp_in_range(refs@[j].when.seconds as int),
        decreases n - i,
    {
        let r = &refs[i];
        proof {
            assert(refs@.take(i + 1).drop_last() =~= refs@.take(i as int));
        }
        if !tags && r.is_tag {
            if open {
                out.append("</tbody></table><br/>\n");
            }
            open = false;
            tags = true;
        }
        if !open {
            open = true;
            push_section_head(&mut out, tags);
        }
        match push_ref_row(&mut out, r) {
            Ok(()) => {},
            Err(e) => return Err(e),
        }
        i = i + 1;
    }
    assert(refs@.take(n as int) =~= refs@);
    if open {
        out.append("</tbody></table>");
    }
    Ok(out)
}

} // verus!
