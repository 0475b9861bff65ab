//! Escaping of markup-significant characters.
use vstd::prelude::*;
use crate::text::push_char;

verus! {

/// What one character becomes in escaped text.
pub open spec fn escape_char(c: char) -> Seq<char> {
    if c == '<' {
        "&lt;"@
    } else if c == '>' {
        "&gt;"@
    } else if c == '\'' {
        "&#39;"@
    } else if c == '&' {
        "&amp;"@
    } else if c == '"' {
        "&quot;"@
    } else {
        seq![c]
    }
}

/// Text with every markup-significant character escaped.
pub open spec fn xml_escaped(s: Seq<char>) -> Seq<char>
    decreases s.len(),
{
    if s.len() == 0 {
        Seq::empty()
    } else {
        xml_escaped(s.drop_last()) + escape_char(s.last())
    }
}

/// Like `xml_escaped`, but line feeds and carriage returns are dropped.
pub open spec fn xml_escaped_line(s: Seq<char>) -> Seq<char>
    decreases s.len(),
{
    if s.len() == 0 {
        Seq::empty()
    } else if s.last() == '\r' || s.last() == '\n' {
        xml_escaped_line(s.drop_last())
    } else {
        xml_escaped_line(s.drop_last()) + escape_char(s.last())
    }
}

fn push_escaped(result: &mut String, c: char)
    ensures
        final(result)@ == old(result)@ + escape_char(c),
{
    if c == '<' {
        result.append("&lt;");
    } else if c == '>' {
        result.append("&gt;");
    } else if c == '\'' {
        result.append("&#39;");
    } else if c == '&' {
        result.append("&amp;");
    } else if c == '"' {
        result.append("&quot;");
    } else {
        push_char(result, c);
        assert(old(result)@.push(c) =~= old(result)@ + seq![c]);
    }
}

/// Escape characters below as HTML 2.0 / XML 1.0
pub fn xmlencode(input: &str) -> (r: String)
    ensures
        r@ == xml_escaped(input@),
{
    let mut result = String::new();
    for c in it: input.chars()
        invariant
            it.seq() == input@,
            result@ == xml_escaped(input@.take(it.index() as int)),
    {
        proof {
            let k = it.index() as int;
            assert(input@.take(k + 1).drop_last() =~= input@.take(k));
        }
        push_escaped(&mut result, c);
    }
    assert(input@.take(input@.len() as int) =~= input@);
    result
}

/// Escape characters below as HTML 2.0 / XML 1.0, ignoring '\n' and '\r'
pub fn xmlencodeline(input: &str) -> (r: String)
    ensures
        r@ == xml_escaped_line(input@),
{
    let mut result = String::new();
    for c in it: input.chars()
        invariant
            it.seq() == input@,
            result@ == xml_escaped_line(input@.take(it.index() as int)),
    {
        proof {
            let k = it.index() as int;
            assert(input@.take(k + 1).drop_last() =~= input@.take(k));
        }
        if c != '\r' && c != '\n' {
            push_escaped(&mut result, c);
        }
    }
    assert(input@.take(input@.len() as int) =~= input@);
    result
}

/// The text with its line feeds and carriage returns removed.
pub open spec fn strip_line_ends(s: Seq<char>) -> Seq<char>
    decreases s.len(),
{
    if s.len() == 0 {
        Seq::empty()
    } else if s.last() == '\r' || s.last() == '\n' {
        strip_line_ends(s.drop_last())
    } else {
        strip_line_ends(s.drop_last()).push(s.last())
    }
}

/// Escaping distributes over concatenation.
pub proof fn lemma_escape_concat(a: Seq<char>, b: Seq<char>)
    ensures
        xml_escaped(a + b) == xml_escaped(a) + xml_escaped(b),
    decreases b.len(),
{
    if b.len() == 0 {
        assert(a + b =~= a);
        assert(xml_escaped(a) + xml_escaped(b) =~= xml_escaped(a));
    } else {
        assert((a + b).drop_last() =~= a + b.drop_last());
        lemma_escape_concat(a, b.drop_last());
        assert(xml_escaped(a + b) =~= xml_escaped(a) + xml_escaped(b));
    }
}

/// The line sanitizer drops exactly the line feeds and carriage returns
/// and escapes everything else as the plain sanitizer does.
pub proof fn lemma_line_escape_strips(s: Seq<char>)
    ensures
        xml_escaped_line(s) == xml_escaped(strip_line_ends(s)),
    decreases s.len(),
{
    if s.len() > 0 {
        lemma_line_escape_strips(s.drop_last());
        let t = strip_line_ends(s.drop_last());
        assert(t.push(s.last()).drop_last() =~= t);
    }
}

/// The plain sanitizer keeps line feeds and carriage returns where they
/// stand.
pub proof fn lemma_escape_keeps_line_ends(a: Seq<char>, b: Seq<char>)
    ensures
        xml_escaped(a + "\r\n"@ + b) == xml_escaped(a) + "\r\n"@ + xml_escaped(b),
{
    reveal_strlit("\r\n");
    lemma_escape_concat(a + "\r\n"@, b);
    lemma_escape_concat(a, "\r\n"@);
    let crlf = "\r\n"@;
    assert(crlf.len() == 2 && crlf[0] == '\r' && crlf[1] == '\n');
    let cr = crlf.drop_last();
    assert(cr.drop_last() =~= Seq::<char>::empty());
    assert(xml_escaped(cr.drop_last()) =~= Seq::<char>::empty());
    assert(cr.last() == '\r');
    assert(escape_char('\r') =~= seq!['\r']);
    assert(xml_escaped(cr) =~= seq!['\r']);
    assert(escape_char('\n') =~= seq!['\n']);
    assert(xml_escaped(crlf) =~= crlf);
}

} // verus!
