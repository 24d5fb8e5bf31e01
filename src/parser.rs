//! Splits text into the tokens that the line breaking engine consumes.
use vstd::prelude::*;
use vstd::std_specs::iter::IteratorSpec;

verus! {

/// No-break space: part of a word, drawn as a space.
pub const SPEC_CHAR_NBSP: char = '\u{a0}';

/// Soft hyphen: a break opportunity that shows a hyphen when taken.
pub const SPEC_CHAR_SHY: char = '\u{ad}';

/// Zero width space: a break opportunity that shows nothing.
pub const SPEC_CHAR_ZWSP: char = '\u{200b}';

/// Starts an escape sequence.
pub const SPEC_CHAR_ESCAPE: char = '\u{1b}';

/// What an escape sequence asks for.
#[derive(Clone, Copy, Debug, PartialEq, Eq, Structural)]
pub enum EscapeKind {
    /// A change of the graphic rendition (colors, underline and the like).
    Graphics,
    /// Move the cursor forward by this many characters.
    Forward(u32),
    /// Move the cursor back by this many characters.
    Backward(u32),
    /// Anything else; ignored.
    Other,
}

/// An escape sequence: the characters `start..end` of the text, and its kind.
#[derive(Clone, Copy, Debug, PartialEq, Eq, Structural)]
pub struct Escape {
    pub start: usize,
    pub end: usize,
    pub kind: EscapeKind,
}

/// A lexical token. Words refer to the text by character indices.
#[derive(Clone, Copy, Debug, PartialEq, Eq, Structural)]
pub enum Token {
    /// The characters `start..end` of the text.
    Word(usize, usize),
    /// A run of this many spaces.
    Whitespace(u32),
    /// A break opportunity, with the character to show if the line breaks here.
    Break(Option<char>),
    /// A tab character.
    Tab,
    /// A line feed.
    NewLine,
    /// A carriage return.
    CarriageReturn,
    /// A character left over from the previous line.
    ExtraCharacter(char),
    /// An escape sequence.
    EscapeSequence(Escape),
}

/// A character that belongs to a word.
pub open spec fn is_word_char(c: char) -> bool {
    &&& c != ' '
    &&& c != '\t'
    &&& c != '\n'
    &&& c != '\r'
    &&& c != SPEC_CHAR_SHY
    &&& c != SPEC_CHAR_ZWSP
    &&& c != SPEC_CHAR_ESCAPE
}

/// A character of a run that starts at `i`: a space, or a word character.
pub open spec fn in_run(c: char, spaces: bool) -> bool {
    if spaces {
        c == ' '
    } else {
        is_word_char(c)
    }
}

/// The end of the run of spaces (or of word characters) that starts at `i`.
pub open spec fn run_end(text: Seq<char>, i: int, spaces: bool) -> int
    decreases text.len() - i,
{
    if 0 <= i < text.len() && in_run(text[i], spaces) {
        run_end(text, i + 1, spaces)
    } else {
        i
    }
}

/// What ansi_parser's `parse_escape` gives for a text that starts with an
/// escape character: the number of characters after the sequence, and its kind.
pub uninterp spec fn ansi_escape(s: Seq<char>) -> Option<(usize, EscapeKind)>;

/// Where the escape sequence at `i` ends, and its kind. A sequence that the
/// escape parser does not take is the escape character alone, and is ignored.
pub open spec fn escape_at(text: Seq<char>, i: int) -> (int, EscapeKind) {
    match ansi_escape(text.subrange(i, text.len() as int)) {
        Some((rest, kind)) => if rest < text.len() - i {
            (text.len() - rest, kind)
        } else {
            (i + 1, EscapeKind::Other)
        },
        None => (i + 1, EscapeKind::Other),
    }
}

/// The token that starts at `i`, and where the next one starts.
pub open spec fn lex(text: Seq<char>, i: int) -> Option<(Token, int)> {
    if i < 0 || i >= text.len() {
        None
    } else {
        let c = text[i];
        if c == '\n' {
            Some((Token::NewLine, i + 1))
        } else if c == '\r' {
            Some((Token::CarriageReturn, i + 1))
        } else if c == '\t' {
            Some((Token::Tab, i + 1))
        } else if c == SPEC_CHAR_SHY {
            Some((Token::Break(Some('-')), i + 1))
        } else if c == SPEC_CHAR_ZWSP {
            Some((Token::Break(None), i + 1))
        } else if c == ' ' {
            let e = run_end(text, i, true);
            Some((Token::Whitespace((e - i) as u32), e))
        } else if c == SPEC_CHAR_ESCAPE {
            let (e, kind) = escape_at(text, i);
            Some((Token::EscapeSequence(Escape { start: i as usize, end: e as usize, kind }), e))
        } else {
            let e = run_end(text, i, false);
            Some((Token::Word(i as usize, e as usize), e))
        }
    }
}

/// A run ends within the text, after its start; every character before its
/// end belongs to it.
pub proof fn lemma_run_end(text: Seq<char>, i: int, spaces: bool)
    requires
        0 <= i <= text.len(),
    ensures
        i <= run_end(text, i, spaces) <= text.len(),
        i < text.len() && in_run(text[i], spaces) ==> i < run_end(text, i, spaces),
        forall|j: int| i <= j < run_end(text, i, spaces) ==> in_run(#[trigger] text[j], spaces),
        run_end(text, i, spaces) < text.len() ==> !in_run(text[run_end(text, i, spaces)], spaces),
    decreases text.len() - i,
{
    if i < text.len() && in_run(text[i], spaces) {
        lemma_run_end(text, i + 1, spaces);
    }
}

/// Every token takes at least one character and ends within the text.
pub proof fn lemma_lex_progress(text: Seq<char>, i: int)
    requires
        0 <= i <= text.len(),
        text.len() <= u32::MAX,
    ensures
        lex(text, i) is None <==> i == text.len(),
        lex(text, i) matches Some((_, e)) ==> i < e <= text.len(),
        lex(text, i) matches Some((Token::Word(a, b), e)) ==> a == i && b == e,
{
    if i < text.len() {
        lemma_run_end(text, i, true);
        lemma_run_end(text, i, false);
    }
}

/// The text, and the index of the next character to read.
#[derive(Debug)]
pub struct Parser {
    pub text: Vec<char>,
    pub pos: usize,
}

impl Parser {
    /// The text's length fits in `u32`, and the position lies within it.
    pub open spec fn wf(&self) -> bool {
        &&& self.text@.len() <= u32::MAX
        &&& self.pos <= self.text@.len()
    }

    /// A parser at the start of `text`.
    pub fn parse(text: &str) -> (r: Parser)
        requires
            text@.len() <= u32::MAX,
        ensures
            r.text@ == text@,
            r.pos == 0,
            r.wf(),
    {
        Parser { text: chars_of(text), pos: 0 }
    }

    /// Whether every character was read.
    pub fn is_empty(&self) -> (r: bool)
        requires
            self.wf(),
        ensures
            r == (self.pos == self.text@.len()),
    {
        self.pos == self.text.len()
    }

    /// Reads the next token.
    pub fn next(&mut self) -> (r: Option<Token>)
        requires
            old(self).wf(),
        ensures
            final(self).wf(),
            final(self).text == old(self).text,
            match lex(old(self).text@, old(self).pos as int) {
                Some((t, e)) => r == Some(t) && final(self).pos == e,
                None => r is None && final(self).pos == old(self).pos,
            },
    {
        match lex_at(&self.text, self.pos) {
            Some((t, e)) => {
                self.pos = e;
                Some(t)
            },
            None => None,
        }
    }
}

/// The token that starts at `i` of `text`, and where the next one starts.
pub fn lex_at(text: &Vec<char>, i: usize) -> (r: Option<(Token, usize)>)
    requires
        text@.len() <= u32::MAX,
        i <= text@.len(),
    ensures
        match lex(text@, i as int) {
            Some((t, e)) => r == Some((t, e as usize)) && i < e <= text@.len(),
            None => r is None,
        },
{
    proof {
        lemma_lex_progress(text@, i as int);
    }
    if i >= text.len() {
        return None;
    }
    let c = text[i];
    if c == '\n' {
        Some((Token::NewLine, i + 1))
    } else if c == '\r' {
        Some((Token::CarriageReturn, i + 1))
    } else if c == '\t' {
        Some((Token::Tab, i + 1))
    } else if c == SPEC_CHAR_SHY {
        Some((Token::Break(Some('-')), i + 1))
    } else if c == SPEC_CHAR_ZWSP {
        Some((Token::Break(None), i + 1))
    } else if c == ' ' {
        let e = scan_run(text, i, true);
        Some((Token::Whitespace((e - i) as u32), e))
    } else if c == SPEC_CHAR_ESCAPE {
        let (e, kind) = match parse_escape_at(text, i) {
            Some((rest, kind)) => if rest < text.len() - i {
                (text.len() - rest, kind)
            } else {
                (i + 1, EscapeKind::Other)
            },
            None => (i + 1, EscapeKind::Other),
        };
        Some((Token::EscapeSequence(Escape { start: i, end: e, kind }), e))
    } else {
        let e = scan_run(text, i, false);
        Some((Token::Word(i, e), e))
    }
}

/// The end of the run that starts at `i`.
fn scan_run(text: &Vec<char>, i: usize, spaces: bool) -> (e: usize)
    requires
        i <= text@.len(),
    ensures
        e == run_end(text@, i as int, spaces),
{
    let mut e = i;
    while e < text.len() && char_in_run(text[e], spaces)
        invariant
            i <= e <= text@.len(),
            run_end(text@, i as int, spaces) == run_end(text@, e as int, spaces),
        decreases text@.len() - e,
    {
        e = e + 1;
    }
    e
}

/// Whether `c` continues a run of spaces, or of word characters.
fn char_in_run(c: char, spaces: bool) -> (r: bool)
    ensures
        r == in_run(c, spaces),
{
    if spaces {
        c == ' '
    } else {
        char_in_word(c)
    }
}

/// Whether `c` belongs to a word.
pub fn char_in_word(c: char) -> (r: bool)
    ensures
        r == is_word_char(c),
{
    c != ' ' && c != '\t' && c != '\n' && c != '\r' && c != SPEC_CHAR_SHY && c != SPEC_CHAR_ZWSP
        && c != SPEC_CHAR_ESCAPE
}

/// The characters of the string, in order.
fn chars_of(s: &str) -> (r: Vec<char>)
    ensures
        r@ == s@,
{
    broadcast use vstd::string::axiom_spec_iter, vstd::string::next_postcondition;

    let mut chars = s.chars();
    let mut out: Vec<char> = Vec::new();
    loop
        invariant
            out@ + IteratorSpec::remaining(&chars) == s@,
            IteratorSpec::decrease(&chars) is Some,
        ensures
            out@ == s@,
        decreases IteratorSpec::decrease(&chars)->0,
    {
        match chars.next() {
            Some(c) => {
                proof {
                    assert(out@.push(c) + IteratorSpec::remaining(&chars) =~= s@);
                }
                out.push(c);
            },
            None => {
                proof {
                    assert(out@ =~= s@);
                }
                break ;
            },
        }
    }
    out
}

/// Relies on ansi_parser's `parse_escape` on the text from `start` on: the
/// number of characters that remain after the sequence it recognised, and the
/// sequence's kind; `None` where it recognises none. Its result depends on the
/// text alone.
#[verifier::external_body]
fn parse_escape_at(text: &Vec<char>, start: usize) -> (r: Option<(usize, EscapeKind)>)
    requires
        start <= text@.len(),
    ensures
        r == ansi_escape(text@.subrange(start as int, text@.len() as int)),
{
    let s: String = text[start..].iter().collect();
    match ansi_parser::parse_escape(&s) {
        Ok((rest, seq)) => {
            let kind = match seq {
                ansi_parser::AnsiSequence::SetGraphicsMode(_) => EscapeKind::Graphics,
                ansi_parser::AnsiSequence::CursorForward(n) => EscapeKind::Forward(n),
                ansi_parser::AnsiSequence::CursorBackward(n) => EscapeKind::Backward(n),
                _ => EscapeKind::Other,
            };
            Some((rest.chars().count(), kind))
        },
        Err(_) => None,
    }
}

} // verus!
