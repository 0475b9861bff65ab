//! One row of the commit log.
use vstd::prelude::*;
use crate::data::CommitInfo;
use crate::escape::{xml_escaped, xmlencode};
use crate::text::{decimal, push_decimal};
use crate::time::{print_time_short, short_form, timestamp_in_range, TimeError};

verus! {

/// The log row of a commit: date, summary linking to the commit, author,
/// and its file, insertion and deletion counts.
pub open spec fn log_line_text(relpath: Seq<char>, ci: CommitInfo) -> Seq<char> {
    "<tr><td>"@ + short_form(ci.author.when.seconds as int) + "</td><td>"@ + match ci.summary {
        Some(s) => "<a href=\"/"@ + relpath + "/commit/"@ + ci.oid@ + "/\">"@ + xml_escaped(s@) + "</a>"@,
        None => Seq::empty(),
    } + "</td><td>"@ + xml_escaped(ci.author.name@) + "</td><td class=\"num\" align=\"right\">"@ + decimal(
        ci.file_count as nat,
    ) + "</td><td class=\"num\" align=\"right\">"@ + "+"@ + decimal(ci.add_count as nat)
        + "</td><td class=\"num\" align=\"right\">"@ + "-"@ + decimal(ci.del_count as nat)
        + "</td></tr>\n"@
}

/// The log row of a commit, under the repository path `relpath`.
pub fn print_log_line(relpath: &str, ci: &CommitInfo) -> (r: Result<String, TimeError>)
    ensures
        timestamp_in_range(ci.author.when.seconds as int) <==> r is Ok,
        r matches Ok(s) ==> s@ == log_line_text(relpath@, *ci),
        r is Err ==> r == Err::<String, TimeError>(TimeError::SecondsOutOfRange),
{
    let mut out = String::new();
    out.append("<tr><td>");
    let date = match print_time_short(ci.author.when) {
        Ok(d) => d,
        Err(e) => return Err(e),
    };
    out.append(date.as_str());
    out.append("</td><td>");
    match &ci.summary {
        Some(s) => {
            out.append("<a href=\"/");
            out.append(relpath);
            out.append("/commit/");
            out.append(ci.oid.as_str());
            out.append("/\">");
            let summary = xmlencode(s.as_str());
            out.append(summary.as_str());
            out.append("</a>");
        },
        None => {},
    }
    out.append("</td><td>");
    let name = xmlencode(ci.author.name.as_str());
    out.append(name.as_str());
    out.append("</td><td class=\"num\" align=\"right\">");
    push_decimal(&mut out, ci.file_count as u128);
    out.append("</td><td class=\"num\" align=\"right\">");
    out.append("+");
    push_decimal(&mut out, ci.add_count);
    out.append("</td><td class=\"num\" align=\"right\">");
    out.append("-");
    push_decimal(&mut out, ci.del_count);
    out.append("</td></tr>\n");
    assert(out@ =~= log_line_text(relpath@, *ci));
    Ok(out)
}

} // verus!
