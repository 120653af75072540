//! Escaping of text for inclusion in markup, and the document shown when a
//! page cannot be loaded.

use vstd::prelude::*;
use vstd::string::StringExecFns;

verus! {

/// What one character becomes when escaped.
pub open spec fn escape_char(c: char) -> Seq<char> {
    if c == '&' {
        seq!['&', 'a', 'm', 'p', ';']
    } else if c == '<' {
        seq!['&', 'l', 't', ';']
    } else if c == '>' {
        seq!['&', 'g', 't', ';']
    } else if c == '"' {
        seq!['&', 'q', 'u', 'o', 't', ';']
    } else {
        seq![c]
    }
}

/// The escaped form of a text: each character replaced by `escape_char`.
pub open spec fn escaped(s: Seq<char>) -> Seq<char>
    decreases s.len(),
{
    if s.len() == 0 {
        Seq::empty()
    } else {
        escaped(s.drop_last()) + escape_char(s.last())
    }
}

/// The markup that opens the failure document.
pub open spec fn failure_head() -> Seq<char> {
    "<html><body><h1>Failed to load</h1><p>"@
}

/// The markup between the address and the cause in the failure document.
pub open spec fn failure_middle() -> Seq<char> {
    "</p><p>"@
}

/// The markup that closes the failure document.
pub open spec fn failure_tail() -> Seq<char> {
    "</p></body></html>"@
}

/// The minimal document loaded into a view whose page could not be fetched.
pub open spec fn failure_document(url: Seq<char>, cause: Seq<char>) -> Seq<char> {
    failure_head() + escaped(url) + failure_middle() + escaped(cause) + failure_tail()
}

/// Escaped text holds no angle bracket and no double quote, whatever the input.
pub proof fn lemma_escaped_is_inert(s: Seq<char>)
    ensures
        forall|i: int|
            0 <= i < escaped(s).len() ==> escaped(s)[i] != '<' && escaped(s)[i] != '>' && escaped(
                s,
            )[i] != '"',
    decreases s.len(),
{
    if s.len() > 0 {
        lemma_escaped_is_inert(s.drop_last());
        let head = escaped(s.drop_last());
        let tail = escape_char(s.last());
        assert forall|i: int| 0 <= i < escaped(s).len() implies escaped(s)[i] != '<' && escaped(
            s,
        )[i] != '>' && escaped(s)[i] != '"' by {
            if i < head.len() {
                assert(escaped(s)[i] == head[i]);
            } else {
                assert(escaped(s)[i] == tail[i - head.len()]);
            }
        }
    }
}

/// Text without a character that needs escaping is left as it is.
pub proof fn lemma_escaped_plain(s: Seq<char>)
    requires
        forall|i: int|
            0 <= i < s.len() ==> s[i] != '&' && s[i] != '<' && s[i] != '>' && s[i] != '"',
    ensures
        escaped(s) == s,
    decreases s.len(),
{
    if s.len() > 0 {
        lemma_escaped_plain(s.drop_last());
        assert(s.drop_last() + seq![s.last()] =~= s);
    } else {
        assert(s =~= Seq::<char>::empty());
    }
}

/// Escapes `&`, `<`, `>` and `"` so that `s` can stand as text in markup.
pub fn html_escape(s: &str) -> (out: String)
    ensures
        out@ == escaped(s@),
{
    let mut out = String::new();
    for c in it: s.chars()
        invariant
            out@ == escaped(it.seq().take(it.index() as int)),
            it.seq() == s@,
    {
        let ghost before = it.seq().take(it.index() as int);
        let ghost after = it.seq().take(it.index() + 1);
        proof {
            assert(after.drop_last() =~= before);
            assert(after.last() == c);
        }
        if c == '&' {
            out.append("&amp;");
            proof {
                reveal_strlit("&amp;");
                assert("&amp;"@ =~= escape_char(c));
            }
        } else if c == '<' {
            out.append("&lt;");
            proof {
                reveal_strlit("&lt;");
                assert("&lt;"@ =~= escape_char(c));
            }
        } else if c == '>' {
            out.append("&gt;");
            proof {
                reveal_strlit("&gt;");
                assert("&gt;"@ =~= escape_char(c));
            }
        } else if c == '"' {
            out.append("&quot;");
            proof {
                reveal_strlit("&quot;");
                assert("&quot;"@ =~= escape_char(c));
            }
        } else {
            out.push(c);
            assert(before.push(c) =~= before + seq![c]);
            assert(escaped(before).push(c) =~= escaped(before) + seq![c]);
        }
    }
    assert(s@.take(s@.len() as int) =~= s@);
    out
}

/// Builds the document that reports a failed page load: the address and the
/// cause, both escaped, inside a fixed frame.
pub fn error_document(url: &str, cause: &str) -> (out: String)
    ensures
        out@ == failure_document(url@, cause@),
{
    let mut out = String::from_str("<html><body><h1>Failed to load</h1><p>");
    let u = html_escape(url);
    out.append(u.as_str());
    out.append("</p><p>");
    let m = html_escape(cause);
    out.append(m.as_str());
    out.append("</p></body></html>");
    out
}

} // verus!
