//! The head of a commit page: ids, author, date and message.
use vstd::prelude::*;
use crate::data::CommitInfo;
use crate::escape::{xml_escaped, xmlencode};
use crate::time::{long_form, long_form_error, print_time, TimeError};

verus! {

/// A link to a commit, named by its id.
pub open spec fn commit_link(oid: Seq<char>) -> Seq<char> {
    "<a href=\"../commit/"@ + oid + "\">"@ + oid + "</a>\n"@
}

/// What precedes the date: the commit, its parent if any, and the author.
pub open spec fn commit_head(ci: CommitInfo) -> Seq<char> {
    "<b>commit</b> "@ + commit_link(ci.oid@) + match ci.parentoid {
        Some(p) => "<b>parent</b> "@ + commit_link(p@),
        None => Seq::empty(),
    } + "<b>Author:</b> "@ + xml_escaped(ci.author.name@) + " <<a href=\"mailto:"@
        + xml_escaped(ci.author.email@) + "\">"@ + xml_escaped(ci.author.email@) + "</a>>\n"@
        + "<b>Date:</b>   "@
}

/// What follows the date: the message, if any.
pub open spec fn commit_tail(ci: CommitInfo) -> Seq<char> {
    "\n"@ + match ci.msg {
        Some(m) => "\n"@ + xml_escaped(m@) + "\n"@,
        None => Seq::empty(),
    }
}

fn push_commit_link(out: &mut String, oid: &str)
    ensures
        final(out)@ == old(out)@ + commit_link(oid@),
{
    out.append("<a href=\"../commit/");
    out.append(oid);
    out.append("\">");
    out.append(oid);
    out.append("</a>\n");
    assert(final(out)@ =~= old(out)@ + commit_link(oid@));
}

/// The head of a commit page; the date is its author's, in long form.
pub fn print_commit(ci: &CommitInfo) -> (r: Result<String, TimeError>)
    ensures
        long_form_error(ci.author.when) is None <==> r is Ok,
        long_form_error(ci.author.when) matches Some(e) ==> r == Err::<String, TimeError>(e),
        r matches Ok(s) ==> s@ == commit_head(*ci) + long_form(
            ci.author.when.seconds as int,
            ci.author.when.offset_minutes * 60,
        ) + commit_tail(*ci),
{
    let mut out = String::new();
    out.append("<b>commit</b> ");
    push_commit_link(&mut out, ci.oid.as_str());
    match &ci.parentoid {
        Some(p) => {
            out.append("<b>parent</b> ");
            push_commit_link(&mut out, p.as_str());
        },
        None => {},
    }
    out.append("<b>Author:</b> ");
    let name = xmlencode(ci.author.name.as_str());
    out.append(name.as_str());
    let email = xmlencode(ci.author.email.as_str());
    out.append(" <<a href=\"mailto:");
    out.append(email.as_str());
    out.append("\">");
    out.append(email.as_str());
    out.append("</a>>\n");
    out.append("<b>Date:</b>   ");
    assert(out@ =~= commit_head(*ci));
    let date = match print_time(ci.author.when) {
        Ok(d) => d,
        Err(e) => return Err(e),
    };
    out.append(date.as_str());
    out.append("\n");
    match &ci.msg {
        Some(m) => {
            let msg = xmlencode(m.as_str());
            out.append("\n");
            out.append(msg.as_str());
            out.append("\n");
        },
        None => {},
    }
    assert(out@ =~= commit_head(*ci) + date@ + commit_tail(*ci));
    Ok(out)
}

} // verus!
