use vstd::prelude::*;
use vstd::string::StringExecFns;

verus! {

/// `s` without its leading and trailing whitespace.
pub uninterp spec fn trimmed(s: Seq<char>) -> Seq<char>;

/// Relies on `str::trim`: the text with leading and trailing white space
/// removed, which depends on the text alone.
#[verifier::external_body]
fn trim_text<'a>(s: &'a str) -> (r: &'a str)
    ensures
        r@ == trimmed(s@),
{
    s.trim()
}

/// The message of an already trimmed line: nothing when it is empty.
pub fn message_of_trimmed(t: &str) -> (r: Option<String>)
    ensures
        t@.len() == 0 ==> r is None,
        t@.len() > 0 ==> (r matches Some(m) && m@ == t@),
{
    if t.is_empty() {
        None
    } else {
        Some(String::from_str(t))
    }
}

/// The message carried by one line of the broker's input stream: the line
/// without surrounding whitespace, or nothing for a blank line.
pub fn line_message(line: &str) -> (r: Option<String>)
    ensures
        trimmed(line@).len() == 0 ==> r is None,
        trimmed(line@).len() > 0 ==> (r matches Some(m) && m@ == trimmed(line@)),
{
    message_of_trimmed(trim_text(line))
}

} // verus!
