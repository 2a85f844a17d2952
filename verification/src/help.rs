//! Help text: a usage line followed by titled sections, written as UTF-8 bytes.
use vstd::prelude::*;
use vstd::string::*;
use vstd::utf8::*;

verus! {

/// The standard library's I/O error, returned by the writing functions of this crate.
#[verifier::external_type_specification]
#[verifier::external_body]
pub struct ExIoError(std::io::Error);

/// A titled block of help text: a heading line, then a body.
#[derive(Debug, Clone, Copy, PartialEq, Eq)]
pub struct Section<'a> {
    heading: &'a str,
    body: &'a str,
}

/// Help for a program: its usage line and its sections.
#[derive(Debug, Clone, Copy, PartialEq, Eq)]
pub struct Help<'a> {
    usage: &'a str,
    sections: &'a [Section<'a>],
}

impl<'a> View for Section<'a> {
    type V = (Seq<char>, Seq<char>);

    closed spec fn view(&self) -> (Seq<char>, Seq<char>) {
        (self.heading@, self.body@)
    }
}

impl<'a> View for Help<'a> {
    type V = (Seq<char>, Seq<(Seq<char>, Seq<char>)>);

    closed spec fn view(&self) -> (Seq<char>, Seq<(Seq<char>, Seq<char>)>) {
        (self.usage@, self.sections@.map_values(|s: Section<'a>| s@))
    }
}

/// The text of one section: its heading and its body, each followed by a line break.
pub open spec fn section_text(s: (Seq<char>, Seq<char>)) -> Seq<char> {
    s.0 + seq!['\n'] + s.1 + seq!['\n']
}

/// The text of a list of sections, each preceded by an empty line.
pub open spec fn sections_text(ss: Seq<(Seq<char>, Seq<char>)>) -> Seq<char>
    decreases ss.len(),
{
    if ss.len() == 0 {
        seq![]
    } else {
        sections_text(ss.drop_last()) + seq!['\n'] + section_text(ss.last())
    }
}

/// The text of a help: `usage: ` and the usage line, a line break, then the sections.
pub open spec fn help_text(h: (Seq<char>, Seq<(Seq<char>, Seq<char>)>)) -> Seq<char> {
    seq!['u', 's', 'a', 'g', 'e', ':', ' '] + h.0 + seq!['\n'] + sections_text(h.1)
}

impl<'a> Section<'a> {
    /// A section with the given heading and body.
    pub fn new(heading: &'a str, body: &'a str) -> (s: Section<'a>)
        ensures
            s@ == (heading@, body@),
    {
        Section { heading, body }
    }

    /// The heading of this section.
    pub fn heading(&self) -> (r: &'a str)
        ensures
            r@ == self@.0,
    {
        self.heading
    }

    /// The body of this section.
    pub fn body(&self) -> (r: &'a str)
        ensures
            r@ == self@.1,
    {
        self.body
    }

    /// The text of this section, as [`section_text`] describes it.
    pub(crate) fn render(&self) -> (r: String)
        ensures
            r@ == section_text(self@),
    {
        let mut r = self.heading.to_owned();
        r.append("\n");
        r.append(self.body);
        r.append("\n");
        proof {
            reveal_strlit("\n");
            assert(r@ =~= section_text(self@));
        }
        r
    }
}

impl<'a> Help<'a> {
    /// A help with the given usage line and sections.
    pub fn new(usage: &'a str, sections: &'a [Section<'a>]) -> (h: Help<'a>)
        ensures
            h@ == (usage@, sections@.map_values(|s: Section<'a>| s@)),
    {
        Help { usage, sections }
    }

    /// The usage line.
    pub fn usage(&self) -> (r: &'a str)
        ensures
            r@ == self@.0,
    {
        self.usage
    }

    /// The sections.
    pub fn sections(&self) -> (r: &'a [Section<'a>])
        ensures
            r@.map_values(|s: Section<'a>| s@) == self@.1,
    {
        self.sections
    }

    /// The text of this help, as [`help_text`] describes it.
    pub(crate) fn render(&self) -> (r: String)
        ensures
            r@ == help_text(self@),
    {
        let mut r = "usage: ".to_owned();
        r.append(self.usage);
        r.append("\n");
        proof {
            reveal_strlit("usage: ");
            reveal_strlit("\n");
            assert(self@.1.take(0) =~= Seq::<(Seq<char>, Seq<char>)>::empty());
            assert(r@ =~= seq!['u', 's', 'a', 'g', 'e', ':', ' '] + self@.0 + seq!['\n']
                + sections_text(self@.1.take(0)));
        }
        let mut i: usize = 0;
        while i < self.sections.len()
            invariant
                i <= self@.1.len(),
                self@.1.len() == self.sections@.len(),
                self@.1 == self.sections@.map_values(|s: Section<'a>| s@),
                r@ =~= seq!['u', 's', 'a', 'g', 'e', ':', ' '] + self@.0 + seq!['\n']
                    + sections_text(self@.1.take(i as int)),
            decreases self@.1.len() - i,
        {
            let piece = self.sections[i].render();
            r.append("\n");
            r.append(piece.as_str());
            proof {
                reveal_strlit("\n");
                assert(self@.1.take(i + 1).drop_last() =~= self@.1.take(i as int));
                assert(self@.1.take(i + 1).last() == self.sections@[i as int]@);
            }
            i = i + 1;
        }
        proof {
            assert(self@.1.take(i as int) =~= self@.1);
        }
        r
    }

    /// Appends the UTF-8 bytes of this help's text to `out`.
    pub fn write(&self, out: &mut Vec<u8>) -> (r: Result<(), std::io::Error>)
        ensures
            r is Ok,
            final(out)@ == old(out)@ + encode_utf8(help_text(self@)),
    {
        let text = self.render();
        out.extend_from_slice(text.as_str().as_bytes());
        Ok(())
    }
}

/// Appends the UTF-8 bytes of one section's text to `out`.
pub fn write_section(out: &mut Vec<u8>, section: Section) -> (r: Result<(), std::io::Error>)
    ensures
        r is Ok,
        final(out)@ == old(out)@ + encode_utf8(section_text(section@)),
{
    let text = section.render();
    out.extend_from_slice(text.as_str().as_bytes());
    Ok(())
}

} // verus!
