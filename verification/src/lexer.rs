//! The lexemes of an XML document.

use vstd::prelude::*;

verus! {

/// A single lexeme of an XML document.
#[derive(Copy, Clone, PartialEq, Eq, Debug)]
pub enum Token<'a> {
    /// `<?`
    ProcessingInstructionStart,
    /// `?>`
    ProcessingInstructionEnd,
    /// `<!DOCTYPE`
    DoctypeStart,
    /// `<`
    OpeningTagStart,
    /// `</`
    ClosingTagStart,
    /// `>`
    TagEnd,
    /// `/>`
    EmptyTagEnd,
    /// `<!--`
    CommentStart,
    /// `-->`
    CommentEnd,
    /// `=`
    EqualsSign,
    /// `'`
    SingleQuote,
    /// `"`
    DoubleQuote,
    /// `<![CDATA[`
    CDataStart,
    /// `]]>`
    CDataEnd,
    /// `&`
    ReferenceStart,
    /// `;`
    ReferenceEnd,
    /// `<!`, as it opens the declaration of an entity
    MarkupDeclarationStart,
    /// The end of the document.
    Eof,
    /// A name.
    Name(&'a str),
    /// A name token.
    Nmtoken(&'a str),
    /// White space.
    S(&'a str),
}

impl<'a> Token<'a> {
    /// The text that the token is written with: its fixed text, or the
    /// text that it holds. The end of the document is written with
    /// nothing.
    pub open spec fn spec_text(&self) -> Seq<char> {
        match *self {
            Token::OpeningTagStart => "<"@,
            Token::ProcessingInstructionStart => "<?"@,
            Token::DoctypeStart => "<!DOCTYPE"@,
            Token::ClosingTagStart => "</"@,
            Token::CommentStart => "<!--"@,
            Token::CDataStart => "<![CDATA["@,
            Token::TagEnd => ">"@,
            Token::EmptyTagEnd => "/>"@,
            Token::ProcessingInstructionEnd => "?>"@,
            Token::CommentEnd => "-->"@,
            Token::CDataEnd => "]]>"@,
            Token::ReferenceStart => "&"@,
            Token::ReferenceEnd => ";"@,
            Token::EqualsSign => "="@,
            Token::SingleQuote => "'"@,
            Token::DoubleQuote => "\""@,
            Token::MarkupDeclarationStart => "<!"@,
            Token::Name(v) => v@,
            Token::Nmtoken(v) => v@,
            Token::S(v) => v@,
            Token::Eof => Seq::empty(),
        }
    }

    /// Returns the text that the token is written with. The end of the
    /// document has no text and is not to be asked for one.
    pub fn text(&self) -> (t: &'a str)
        requires
            !(*self is Eof),
        ensures
            t@ == self.spec_text(),
    {
        match *self {
            Token::OpeningTagStart => "<",
            Token::ProcessingInstructionStart => "<?",
            Token::DoctypeStart => "<!DOCTYPE",
            Token::ClosingTagStart => "</",
            Token::CommentStart => "<!--",
            Token::CDataStart => "<![CDATA[",
            Token::TagEnd => ">",
            Token::EmptyTagEnd => "/>",
            Token::ProcessingInstructionEnd => "?>",
            Token::CommentEnd => "-->",
            Token::CDataEnd => "]]>",
            Token::ReferenceStart => "&",
            Token::ReferenceEnd => ";",
            Token::EqualsSign => "=",
            Token::SingleQuote => "'",
            Token::DoubleQuote => "\"",
            Token::MarkupDeclarationStart => "<!",
            Token::Name(v) => v,
            Token::Nmtoken(v) => v,
            Token::S(v) => v,
            Token::Eof => "",
        }
    }
}

} // verus!
