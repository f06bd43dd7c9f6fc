use vstd::prelude::*;
use vstd::string::StringExecFns;

verus! {

/// Relies on `String::push`: the character is appended at the end.
#[verifier::external_body]
fn push_char(s: &mut String, ch: char)
    ensures
        final(s)@ == old(s)@.push(ch),
{
    s.push(ch)
}

/// Text collected for one screen refresh.
pub struct EditorContents {
    content: String,
}

impl EditorContents {
    /// The text collected so far.
    pub closed spec fn text(&self) -> Seq<char> {
        self.content@
    }

    pub fn new() -> (r: EditorContents)
        ensures
            r.text() == Seq::<char>::empty(),
    {
        EditorContents { content: String::new() }
    }

    pub fn push(&mut self, ch: char)
        ensures
            final(self).text() == old(self).text().push(ch),
    {
        push_char(&mut self.content, ch)
    }

    pub fn push_str(&mut self, string: &str)
        ensures
            final(self).text() == old(self).text() + string@,
    {
        self.content.append(string)
    }

    pub fn as_str(&self) -> (r: &str)
        ensures
            r@ == self.text(),
    {
        self.content.as_str()
    }
}

} // verus!
