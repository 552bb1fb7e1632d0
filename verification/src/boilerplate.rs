//! The boilerplate splicer: header and footer fragments wrapped around
//! the document body. The splicer never sees metadata; macro expansion
//! runs after it.

use vstd::prelude::*;

use crate::strutil::push_char;

verus! {

/// `header`, a newline, the body, a newline, `footer`.
pub open spec fn spec_splice(header: Seq<char>, body: Seq<char>, footer: Seq<char>) -> Seq<
    char,
> {
    header + seq!['\n'] + body + seq!['\n'] + footer
}

/// Wrap the document text with the header and footer fragments.
pub fn add_header_footer(html: &mut String, header: &str, footer: &str)
    ensures
        final(html)@ == spec_splice(header@, old(html)@, footer@),
{
    let mut out = String::from_str(header);
    push_char(&mut out, '\n');
    out.append(html.as_str());
    push_char(&mut out, '\n');
    out.append(footer);
    proof {
        assert(out@ =~= spec_splice(header@, old(html)@, footer@));
    }
    *html = out;
}

} // verus!
