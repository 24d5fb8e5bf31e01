//! Lays out one line: turns tokens into render elements while they fit, and
//! hands on the token that the next line starts with.
use vstd::prelude::*;
use crate::cursor::{Cursor, LineCursor};
use crate::geometry::Point;
use crate::parser::{lex, lemma_lex_progress, lex_at, EscapeKind, Parser, Token, SPEC_CHAR_NBSP};
use crate::space_config::SpaceConfig;

verus! {

/// What to draw.
#[derive(Clone, Copy, Debug, PartialEq, Eq, Structural)]
pub enum RenderElement {
    /// A block of whitespace with the given width; the count of spaces it
    /// stands for, or 0 for a move that is not whitespace (a tab, a cursor move).
    Space(u32, u32),
    /// The given character.
    PrintedCharacter(char),
    /// A change of style, by the escape sequence at these character indices.
    StyleChange(usize, usize),
}

/// The width that an element takes in the line.
pub open spec fn element_width(e: RenderElement, font: MonoMetrics) -> int {
    match e {
        RenderElement::Space(w, _) => w as int,
        RenderElement::PrintedCharacter(_) => font.advance(),
        RenderElement::StyleChange(_, _) => 0,
    }
}

/// The sum of the widths of the elements.
pub open spec fn total_width(es: Seq<RenderElement>, font: MonoMetrics) -> int
    decreases es.len(),
{
    if es.len() == 0 {
        0
    } else {
        element_width(es[0], font) + total_width(es.drop_first(), font)
    }
}

/// The number of spaces that the elements stand for.
pub open spec fn space_total(es: Seq<RenderElement>) -> int
    decreases es.len(),
{
    if es.len() == 0 {
        0
    } else {
        (match es[0] {
            RenderElement::Space(_, k) => k as int,
            _ => 0,
        }) + space_total(es.drop_first())
    }
}

/// A line that carries `t` ended because the next token did not fit, not at
/// a line break or at the end of the text.
pub open spec fn ends_by_wrap(t: Option<Token>) -> bool {
    match t {
        Some(tok) => tok != Token::NewLine && tok != Token::CarriageReturn,
        None => false,
    }
}

/// The size of a line, found without drawing it.
#[derive(Clone, Copy, Debug, PartialEq, Eq, Structural)]
pub struct LineSize {
    /// The sum of the widths of its elements.
    pub width: u64,
    /// The number of spaces its elements stand for.
    pub spaces: u64,
    /// It ends because the next token did not fit.
    pub wrapped: bool,
}

/// `v` held at `u64::MAX`.
pub open spec fn saturate(v: int) -> int {
    if v > u64::MAX {
        u64::MAX as int
    } else {
        v
    }
}

/// No width and no count of spaces is negative.
pub proof fn lemma_total_width_nonneg(es: Seq<RenderElement>, font: MonoMetrics)
    ensures
        total_width(es, font) >= 0,
        space_total(es) >= 0,
    decreases es.len(),
{
    if es.len() > 0 {
        lemma_total_width_nonneg(es.drop_first(), font);
    }
}

/// The width of a sequence that starts with `x`.
pub proof fn lemma_total_width_cons(x: RenderElement, rest: Seq<RenderElement>, font: MonoMetrics)
    ensures
        total_width(seq![x] + rest, font) == element_width(x, font) + total_width(rest, font),
        space_total(seq![x] + rest) == (match x {
            RenderElement::Space(_, k) => k as int,
            _ => 0,
        }) + space_total(rest),
{
    assert((seq![x] + rest).drop_first() =~= rest);
}

/// Glyph metrics of a monospaced font.
#[derive(Clone, Copy, Debug, PartialEq, Eq, Structural)]
pub struct MonoMetrics {
    pub character_width: u32,
    pub character_spacing: u32,
}

impl MonoMetrics {
    /// The horizontal distance that one glyph takes.
    pub open spec fn advance(self) -> int {
        self.character_width + self.character_spacing
    }

    /// The distance of a cursor move by `n` characters.
    pub open spec fn move_distance(self, n: u32) -> int {
        n * self.character_width + self.character_spacing
    }
}

/// Which whitespace an alignment draws: at the start of a line, and before a
/// word that wraps to the next line.
#[derive(Clone, Copy, Debug, PartialEq, Eq, Structural)]
pub struct SpacePolicy {
    pub starting_spaces: bool,
    pub ending_spaces: bool,
}

/// What the iterator does next.
#[derive(Clone, Copy, Debug, PartialEq, Eq, Structural)]
pub enum State {
    /// Decide what to do with a token.
    ProcessToken(Token),
    /// Draw the characters `start..end` of a word.
    Word(usize, usize),
    /// The line is finished.
    Done,
}

/// The number of characters that the words from `p` on take, up to the first
/// token that is neither a word nor an escape sequence; a break with a
/// fallback character adds one and ends the scan. `None` where no word and no
/// such break comes first.
pub open spec fn lookahead(text: Seq<char>, p: int, acc: Option<nat>) -> Option<nat>
    decreases text.len() - p,
{
    match lex(text, p) {
        Some((Token::Word(a, b), e)) => if p < e <= text.len() {
            lookahead(text, e, Some(acc.unwrap_or(0) + (b - a) as nat))
        } else {
            acc
        },
        Some((Token::Break(Some(_)), _)) => Some(acc.unwrap_or(0) + 1),
        Some((Token::EscapeSequence(_), e)) => if p < e <= text.len() {
            lookahead(text, e, acc)
        } else {
            acc
        },
        _ => acc,
    }
}

/// `o` with its value widened.
pub open spec fn nat_of(o: Option<u64>) -> Option<nat> {
    match o {
        Some(k) => Some(k as nat),
        None => None,
    }
}

/// The scan never counts more characters than it passes.
pub proof fn lemma_lookahead_bound(text: Seq<char>, p: int, acc: Option<nat>)
    requires
        0 <= p <= text.len() <= u32::MAX,
    ensures
        lookahead(text, p, acc) matches Some(k) ==> k <= acc.unwrap_or(0) + text.len() - p,
    decreases text.len() - p,
{
    lemma_lex_progress(text, p);
    match lex(text, p) {
        Some((Token::Word(a, b), e)) => {
            lemma_lookahead_bound(text, e, Some(acc.unwrap_or(0) + (b - a) as nat));
        },
        Some((Token::EscapeSequence(_), e)) => {
            lemma_lookahead_bound(text, e, acc);
        },
        _ => {},
    }
}

/// The number of spaces, counting up from `k` to at most `n`, while the width
/// of one more space still fits in `avail`.
pub open spec fn spaces_fit<SP: SpaceConfig>(config: SP, k: nat, n: nat, avail: int) -> nat
    decreases n - k,
{
    if k < n && config.width_of(k + 1) <= avail {
        spaces_fit(config, k + 1, n, avail)
    } else {
        k
    }
}

/// The count found lies between the start and `n`, and above the start only
/// where that many spaces fit in `avail`.
pub proof fn lemma_spaces_fit<SP: SpaceConfig>(config: SP, k: nat, n: nat, avail: int)
    requires
        k <= n,
    ensures
        k <= spaces_fit(config, k, n, avail) <= n,
        spaces_fit(config, k, n, avail) > k ==> config.width_of(spaces_fit(config, k, n, avail))
            <= avail,
    decreases n - k,
{
    if k < n && config.width_of(k + 1) <= avail {
        lemma_spaces_fit(config, k + 1, n, avail);
    }
}

/// `lemma_spaces_fit` for a run of `n` spaces, drawn whole or but one.
pub proof fn lemma_spaces_fit_run<SP: SpaceConfig>(config: SP, n: u32, avail: int)
    ensures
        spaces_fit(config, 0, n as nat, avail) <= n,
        spaces_fit(config, 0, n as nat, avail) > 0 ==> config.width_of(
            spaces_fit(config, 0, n as nat, avail),
        ) <= avail,
        n > 0 ==> spaces_fit(config, 0, (n - 1) as nat, avail) <= n - 1,
        n > 0 && spaces_fit(config, 0, (n - 1) as nat, avail) > 0 ==> config.width_of(
            spaces_fit(config, 0, (n - 1) as nat, avail),
        ) <= avail,
{
    lemma_spaces_fit(config, 0, n as nat, avail);
    if n > 0 {
        lemma_spaces_fit(config, 0, (n - 1) as nat, avail);
    }
}

/// The token spans of a state lie within a text of length `len`.
pub open spec fn token_in_text(t: Token, len: int) -> bool {
    match t {
        Token::Word(a, b) => a <= b <= len,
        _ => true,
    }
}

/// A token that a line does not start with: it ended the previous one.
pub open spec fn ends_line(t: Token) -> bool {
    t == Token::NewLine || t == Token::CarriageReturn || t == Token::Break(None)
}

/// The iterator that lays out one line.
pub struct LineElementIterator<SP> {
    /// The text and the reading position.
    pub parser: Parser,
    /// The vertical position.
    pub cursor: Cursor,
    /// The position within the line.
    pub line: LineCursor,
    /// Where the last element was placed within the line.
    pub pos: u32,
    /// What happens next.
    pub state: State,
    /// The widths of spaces.
    pub config: SP,
    /// Nothing was placed on the line yet.
    pub first_word: bool,
    /// Which whitespace is drawn.
    pub policy: SpacePolicy,
    /// Glyph metrics.
    pub font: MonoMetrics,
    /// The token that the next line starts with, once this one is done.
    pub carried: Option<Token>,
}

impl<SP: SpaceConfig> LineElementIterator<SP> {
    pub open spec fn text(self) -> Seq<char> {
        self.parser.text@
    }

    /// The room left in the line.
    pub open spec fn space(self) -> int {
        self.line.width - self.line.position
    }

    /// The state's spans lie within the text, the cursors are within their
    /// bounds, and tab stops are apart.
    pub open spec fn wf(self) -> bool {
        &&& self.parser.wf()
        &&& self.line.wf()
        &&& self.line.tab_width > 0
        &&& self.cursor.tab_width > 0
        &&& match self.state {
            State::ProcessToken(t) => token_in_text(t, self.text().len() as int),
            State::Word(a, b) => a <= b <= self.text().len(),
            State::Done => true,
        }
        &&& self.carried matches Some(t) ==> token_in_text(t, self.text().len() as int)
    }

    /// The measure that every step decreases: characters left to read, ...
    pub open spec fn unread(self) -> nat {
        (self.text().len() - self.parser.pos) as nat
    }

    /// ... then the kind of state, ...
    pub open spec fn rank(self) -> nat {
        match self.state {
            State::ProcessToken(_) => 2,
            State::Word(_, _) => 1,
            State::Done => 0,
        }
    }

    /// ... then the characters of the word left to draw.
    pub open spec fn word_left(self) -> nat {
        match self.state {
            State::Word(a, b) => if a < b {
                (b - a) as nat
            } else {
                0
            },
            _ => 0,
        }
    }

    /// The line is finished.
    pub open spec fn is_done(self) -> bool {
        self.state is Done
    }

    /// The parts that no step changes: the text, the policy, the font and
    /// the line's width.
    pub open spec fn frame_eq(self, other: Self) -> bool {
        &&& self.parser.text == other.parser.text
        &&& self.policy == other.policy
        &&& self.font == other.font
        &&& self.line.width == other.line.width
    }

    /// Two states that end a line alike: same reading position, vertical
    /// position, space widths and carried token.
    pub open spec fn ends_alike(self, other: Self) -> bool {
        &&& self.parser == other.parser
        &&& self.cursor == other.cursor
        &&& self.config == other.config
        &&& self.carried == other.carried
    }

    /// `other` comes strictly before `self` in the order of the measure.
    pub open spec fn measure_gt(self, other: Self) -> bool {
        ||| other.unread() < self.unread()
        ||| other.unread() == self.unread() && other.rank() < self.rank()
        ||| other.unread() == self.unread() && other.rank() == self.rank() && other.word_left()
            < self.word_left()
    }

    pub open spec fn with_position(self, p: int) -> Self {
        LineElementIterator { line: LineCursor { position: p as u32, ..self.line }, ..self }
    }

    /// Reads the next token; the line is done when none is left.
    pub open spec fn next_token_spec(self) -> Self {
        match lex(self.text(), self.parser.pos as int) {
            Some((t, e)) => LineElementIterator {
                parser: Parser { pos: e as usize, ..self.parser },
                state: State::ProcessToken(t),
                ..self
            },
            None => LineElementIterator { state: State::Done, ..self },
        }
    }

    /// Ends the line, carrying `t` to the next one. A carriage return keeps
    /// the vertical position; any other token moves to the next line.
    pub open spec fn finish_spec(self, t: Token) -> Self {
        LineElementIterator {
            cursor: if t == Token::CarriageReturn {
                self.cursor
            } else {
                Cursor { y: self.cursor.next_line_y(), ..self.cursor }
            },
            line: LineCursor { position: 0, ..self.line },
            carried: Some(t),
            state: State::Done,
            ..self
        }
    }

    /// Ends the line where the text wraps.
    pub open spec fn wrap_spec(self) -> Self {
        self.finish_spec(Token::Break(None))
    }

    /// The number of characters of the upcoming words (see `lookahead`).
    pub open spec fn word_cells(self) -> Option<nat> {
        lookahead(self.text(), self.parser.pos as int, None)
    }

    /// The width of the upcoming words, if any come.
    pub open spec fn next_word_width_spec(self) -> Option<int> {
        match self.word_cells() {
            Some(k) => Some(k * self.font.advance()),
            None => None,
        }
    }

    /// A run of `n` spaces.
    pub open spec fn whitespace_step(self, n: u32) -> (Self, Option<RenderElement>) {
        let render = if self.first_word {
            self.policy.starting_spaces
        } else {
            match self.next_word_width_spec() {
                Some(w) => self.policy.ending_spaces || self.config.width_of(n as nat) + w
                    <= self.space(),
                None => self.policy.ending_spaces,
            }
        };
        let would_wrap = !self.first_word && match self.next_word_width_spec() {
            Some(w) => self.config.width_of(n as nat) + w > self.space(),
            None => false,
        };
        let me = if self.first_word && self.policy.starting_spaces {
            LineElementIterator { first_word: false, ..self }
        } else {
            self
        };
        if render {
            let m: nat = if would_wrap && n > 0 {
                (n - 1) as nat
            } else {
                n as nat
            };
            let k = spaces_fit(self.config, 0, m, self.space());
            if k > 0 {
                let w = self.config.width_of(k);
                let drawn = LineElementIterator {
                    config: self.config.after(k),
                    ..me.with_position(self.line.position + w)
                };
                let next = if m == k {
                    drawn.next_token_spec()
                } else {
                    drawn.finish_spec(Token::Whitespace((m - k) as u32))
                };
                (next, Some(RenderElement::Space(w as u32, k as u32)))
            } else if m > 1 {
                (me.finish_spec(Token::Whitespace((m - 1) as u32)), None)
            } else {
                (me.wrap_spec(), None)
            }
        } else if would_wrap {
            (me.wrap_spec(), None)
        } else {
            (me.next_token_spec(), None)
        }
    }

    /// A break opportunity, with an optional fallback character.
    pub open spec fn break_step(self, c: Option<char>) -> (Self, Option<RenderElement>) {
        let fits = match self.next_word_width_spec() {
            Some(w) => w <= self.space(),
            None => true,
        };
        if fits {
            (self.next_token_spec(), None)
        } else {
            match c {
                Some(ch) => if self.font.advance() <= self.space() {
                    (self.wrap_spec(), Some(RenderElement::PrintedCharacter(ch)))
                } else {
                    (self.finish_spec(Token::ExtraCharacter(ch)), None)
                },
                None => (self.wrap_spec(), None),
            }
        }
    }

    /// A tab: up to the next tab stop, or to the end of the line, which then wraps.
    pub open spec fn tab_step(self) -> (Self, Option<RenderElement>) {
        let d = self.line.tab_distance();
        if d <= self.space() {
            (
                self.with_position(self.line.position + d).next_token_spec(),
                Some(RenderElement::Space(d as u32, 0)),
            )
        } else {
            (self.wrap_spec(), Some(RenderElement::Space(self.space() as u32, 0)))
        }
    }

    /// An escape sequence: a style change, a cursor move held within the
    /// line, or nothing.
    pub open spec fn escape_step(self, start: usize, end: usize, kind: EscapeKind) -> (
        Self,
        Option<RenderElement>,
    ) {
        let s = self.next_token_spec();
        match kind {
            EscapeKind::Graphics => (s, Some(RenderElement::StyleChange(start, end))),
            EscapeKind::Forward(n) => {
                let d = self.font.move_distance(n);
                if d <= self.space() {
                    (s.with_position(self.line.position + d), Some(RenderElement::Space(d as u32, 0)))
                } else {
                    (
                        s.with_position(self.line.width as int),
                        Some(RenderElement::Space(self.space() as u32, 0)),
                    )
                }
            },
            EscapeKind::Backward(n) => {
                let d = self.font.move_distance(n);
                if d <= self.line.position {
                    (s.with_position(self.line.position - d), None)
                } else {
                    (s.with_position(0), None)
                }
            },
            EscapeKind::Other => (s, None),
        }
    }

    /// Decides what to do with a token.
    pub open spec fn process_step(self, t: Token) -> (Self, Option<RenderElement>) {
        match t {
            Token::Whitespace(n) => self.whitespace_step(n),
            Token::Break(c) => self.break_step(c),
            Token::ExtraCharacter(ch) => if self.font.advance() <= self.space() {
                (
                    self.with_position(self.line.position + self.font.advance()).next_token_spec(),
                    Some(RenderElement::PrintedCharacter(ch)),
                )
            } else {
                (LineElementIterator { state: State::Done, ..self }, None)
            },
            Token::Word(a, b) => if self.first_word {
                (LineElementIterator { first_word: false, state: State::Word(a, b), ..self }, None)
            } else if (b - a) * self.font.advance() <= self.space() {
                (LineElementIterator { state: State::Word(a, b), ..self }, None)
            } else {
                (self.finish_spec(t), None)
            },
            Token::Tab => self.tab_step(),
            Token::EscapeSequence(esc) => self.escape_step(esc.start, esc.end, esc.kind),
            Token::NewLine => (self.finish_spec(t), None),
            Token::CarriageReturn => (self.finish_spec(t), None),
        }
    }

    /// Draws the next character of a word, or carries what is left of it.
    pub open spec fn word_step(self, a: usize, b: usize) -> (Self, Option<RenderElement>) {
        if a >= b {
            (self.next_token_spec(), None)
        } else {
            let c = self.text()[a as int];
            let rest = State::Word((a + 1) as usize, b);
            let fail = if self.line.position > 0 {
                self.finish_spec(Token::Word(a, b))
            } else {
                LineElementIterator { state: State::Done, ..self }
            };
            if c == SPEC_CHAR_NBSP {
                let w = self.config.width_of(1);
                if w <= self.space() {
                    (
                        LineElementIterator {
                            config: self.config.after(1),
                            state: rest,
                            ..self.with_position(self.line.position + w)
                        },
                        Some(RenderElement::Space(w as u32, 1)),
                    )
                } else {
                    (fail, None)
                }
            } else if self.font.advance() <= self.space() {
                (
                    LineElementIterator {
                        state: rest,
                        ..self.with_position(self.line.position + self.font.advance())
                    },
                    Some(RenderElement::PrintedCharacter(c)),
                )
            } else {
                (fail, None)
            }
        }
    }

    /// One step of the iterator: the new state, and what it draws, if anything.
    /// Every step first records the position where an element would be placed.
    pub open spec fn step_spec(self) -> (Self, Option<RenderElement>) {
        let s = LineElementIterator { pos: self.line.position, ..self };
        match self.state {
            State::ProcessToken(t) => s.process_step(t),
            State::Word(a, b) => s.word_step(a, b),
            State::Done => (s, None),
        }
    }
}

impl<SP: SpaceConfig> LineElementIterator<SP> {
    /// Everything that the line draws from this state on, in order.
    pub open spec fn elements(self) -> Seq<RenderElement>
        decreases self.unread(), self.rank(), self.word_left(),
    {
        if !self.wf() || self.is_done() {
            seq![]
        } else {
            proof {
                self.lemma_step();
            }
            let (s, e) = self.step_spec();
            match e {
                Some(x) => seq![x] + s.elements(),
                None => s.elements(),
            }
        }
    }

    /// The state in which the line ends.
    pub open spec fn last_state(self) -> Self
        decreases self.unread(), self.rank(), self.word_left(),
    {
        if !self.wf() || self.is_done() {
            self
        } else {
            proof {
                self.lemma_step();
            }
            self.step_spec().0.last_state()
        }
    }

    /// The steps up to the next element drawn, or up to the end of the line:
    /// the state after them, and that element.
    pub open spec fn next_spec(self) -> (Self, Option<RenderElement>)
        decreases self.unread(), self.rank(), self.word_left(),
    {
        if !self.wf() || self.is_done() {
            self.step_spec()
        } else {
            proof {
                self.lemma_step();
            }
            let (s, e) = self.step_spec();
            match e {
                Some(x) => (s, e),
                None => s.next_spec(),
            }
        }
    }

    /// The state after `n` steps.
    pub open spec fn run(self, n: nat) -> Self
        decreases n,
    {
        if n == 0 {
            self
        } else {
            self.step_spec().0.run((n - 1) as nat)
        }
    }

    /// What `next_spec` returns is the first of the elements, and the rest
    /// follow from the state it leaves; a line that draws nothing more is done.
    pub proof fn lemma_next_spec(self)
        requires
            self.wf(),
        ensures
            self.next_spec().0.wf(),
            self.next_spec().0.frame_eq(self),
            self.next_spec().0.last_state().ends_alike(self.last_state()),
            match self.next_spec().1 {
                Some(e) => self.elements() == seq![e] + self.next_spec().0.elements()
                    && self.measure_gt(self.next_spec().0),
                None => self.elements() == Seq::<RenderElement>::empty()
                    && self.next_spec().0.is_done(),
            },
        decreases self.unread(), self.rank(), self.word_left(),
    {
        self.lemma_step();
        if !self.is_done() {
            let (s, e) = self.step_spec();
            if e is None {
                s.lemma_next_spec();
            }
        }
    }

    /// Every step keeps the state well formed, and every step of a line that
    /// is not done decreases the measure.
    pub proof fn lemma_step(self)
        requires
            self.wf(),
        ensures
            self.step_spec().0.wf(),
            !self.is_done() ==> self.measure_gt(self.step_spec().0),
            self.step_spec().0.frame_eq(self),
    {
        lemma_lex_progress(self.text(), self.parser.pos as int);
        if let State::ProcessToken(Token::Whitespace(n)) = self.state {
            lemma_spaces_fit_run(self.config, n, self.space());
        }
    }
}


impl<SP: SpaceConfig> LineElementIterator<SP> {
    /// The iterator for a line that starts with `carried` where that is
    /// given and does not merely end the previous line, else with the
    /// parser's next token.
    pub open spec fn new_spec(
        parser: Parser,
        cursor: Cursor,
        config: SP,
        carried: Option<Token>,
        policy: SpacePolicy,
        font: MonoMetrics,
    ) -> Self {
        let line = LineCursor {
            start: Point { x: cursor.bounds.top_left.x, y: cursor.y },
            width: cursor.bounds.size.width,
            position: 0,
            tab_width: cursor.tab_width,
        };
        let base = LineElementIterator {
            parser,
            cursor,
            line,
            pos: 0,
            state: State::Done,
            config,
            first_word: true,
            policy,
            font,
            carried: None,
        };
        match carried {
            Some(t) => if ends_line(t) {
                base.next_token_spec()
            } else {
                LineElementIterator { state: State::ProcessToken(t), ..base }
            },
            None => base.next_token_spec(),
        }
    }

    /// Creates the iterator for the line at the cursor.
    pub fn new(
        parser: Parser,
        cursor: Cursor,
        config: SP,
        carried: Option<Token>,
        policy: SpacePolicy,
        font: MonoMetrics,
    ) -> (r: Self)
        requires
            parser.wf(),
            cursor.tab_width > 0,
            carried matches Some(t) ==> token_in_text(t, parser.text@.len() as int),
        ensures
            r == Self::new_spec(parser, cursor, config, carried, policy, font),
            r.wf(),
    {
        let line = cursor.line();
        let mut it = LineElementIterator {
            parser,
            cursor,
            line,
            pos: 0,
            state: State::Done,
            config,
            first_word: true,
            policy,
            font,
            carried: None,
        };
        proof {
            lemma_lex_progress(it.text(), it.parser.pos as int);
        }
        match carried {
            Some(t) => {
                if t == Token::NewLine || t == Token::CarriageReturn || t == Token::Break(None) {
                    it.next_token();
                } else {
                    it.state = State::ProcessToken(t);
                }
            },
            None => it.next_token(),
        }
        it
    }

    /// The iterator for the line after this finished one: same text, cursor
    /// and settings, starting with the token that this line carried.
    pub fn next_line(self) -> (r: Self)
        requires
            self.wf(),
        ensures
            r == Self::new_spec(self.parser, self.cursor, self.config, self.carried, self.policy, self.font),
            r.wf(),
    {
        LineElementIterator::new(self.parser, self.cursor, self.config, self.carried, self.policy, self.font)
    }

    /// The token that the next line starts with, once this one is done.
    pub fn remaining_token(&self) -> (r: Option<Token>)
        ensures
            r == self.carried,
    {
        self.carried
    }

    /// The distance one glyph takes.
    fn char_advance(&self) -> (r: u64)
        ensures
            r == self.font.advance(),
    {
        self.font.character_width as u64 + self.font.character_spacing as u64
    }

    /// The distance of a cursor move by `n` characters.
    fn move_distance(&self, n: u32) -> (r: u64)
        ensures
            r == self.font.move_distance(n),
    {
        proof {
            let a = n as int;
            let b = self.font.character_width as int;
            assert(a * b <= u32::MAX * u32::MAX) by (nonlinear_arith)
                requires 0 <= a <= u32::MAX, 0 <= b <= u32::MAX;
        }
        n as u64 * self.font.character_width as u64 + self.font.character_spacing as u64
    }

    fn next_token(&mut self)
        requires
            old(self).parser.wf(),
        ensures
            *final(self) == old(self).next_token_spec(),
    {
        match self.parser.next() {
            Some(t) => self.state = State::ProcessToken(t),
            None => self.state = State::Done,
        }
    }

    fn finish(&mut self, t: Token)
        ensures
            *final(self) == old(self).finish_spec(t),
    {
        if t != Token::CarriageReturn {
            self.cursor.new_line();
        }
        self.line.carriage_return();
        self.carried = Some(t);
        self.state = State::Done;
    }

    fn finish_wrapped(&mut self)
        ensures
            *final(self) == old(self).wrap_spec(),
    {
        self.finish(Token::Break(None));
    }

    /// Scans a copy of the reading position for the characters of the
    /// upcoming words; the parser itself does not move.
    fn next_word_cells(&self) -> (r: Option<u64>)
        requires
            self.parser.wf(),
        ensures
            nat_of(r) == self.word_cells(),
            r matches Some(k) ==> k <= self.text().len(),
    {
        let text = &self.parser.text;
        let mut p = self.parser.pos;
        let mut acc: Option<u64> = None;
        proof {
            lemma_lookahead_bound(text@, p as int, None);
        }
        loop
            invariant
                self.parser.wf(),
                text == &self.parser.text,
                self.parser.pos <= p <= text@.len(),
                lookahead(text@, p as int, nat_of(acc)) == self.word_cells(),
                acc matches Some(k) ==> k <= p - self.parser.pos,
            decreases text@.len() - p,
        {
            proof {
                lemma_lex_progress(text@, p as int);
            }
            let sum: u64 = match acc {
                Some(k) => k,
                None => 0,
            };
            match lex_at(text, p) {
                Some((Token::Word(a, b), e)) => {
                    acc = Some(sum + (b - a) as u64);
                    p = e;
                },
                Some((Token::Break(Some(_)), e)) => {
                    return Some(sum + 1);
                },
                Some((Token::EscapeSequence(_), e)) => {
                    p = e;
                },
                _ => {
                    return acc;
                },
            }
        }
    }

    /// The width of the upcoming words, if any come.
    fn next_word_width(&self) -> (r: Option<u128>)
        requires
            self.parser.wf(),
        ensures
            match self.next_word_width_spec() {
                Some(w) => r == Some(w as u128) && 0 <= w <= u32::MAX * (2 * u32::MAX),
                None => r is None,
            },
    {
        match self.next_word_cells() {
            Some(k) => {
                let adv = self.char_advance();
                proof {
                    let a = k as int;
                    let b = adv as int;
                    assert(a * b <= u32::MAX * (2 * u32::MAX)) by (nonlinear_arith)
                        requires 0 <= a <= u32::MAX, 0 <= b <= 2 * u32::MAX;
                }
                Some(k as u128 * adv as u128)
            },
            None => None,
        }
    }

    /// Counts spaces forward, up to `n`, while one more still fits in the room left.
    fn count_widest_space_seq(&self, n: u32) -> (r: u32)
        requires
            self.line.wf(),
        ensures
            r == spaces_fit(self.config, 0, n as nat, self.space()),
    {
        let mut k: u32 = 0;
        let available = self.line.space();
        while k < n && self.config.peek_next_width(k + 1) <= available as u64
            invariant
                k <= n,
                available == self.space(),
                spaces_fit(self.config, 0, n as nat, self.space()) == spaces_fit(
                    self.config,
                    k as nat,
                    n as nat,
                    self.space(),
                ),
            decreases n - k,
        {
            k = k + 1;
        }
        k
    }

    fn whitespace(&mut self, n: u32) -> (r: Option<RenderElement>)
        requires
            old(self).wf(),
        ensures
            (*final(self), r) == old(self).whitespace_step(n),
    {
        let ghost start = *self;
        let mut would_wrap = false;
        let render = if self.first_word {
            if self.policy.starting_spaces {
                self.first_word = false;
            }
            self.policy.starting_spaces
        } else {
            match self.next_word_width() {
                Some(w) => {
                    let sw = self.config.peek_next_width(n);
                    let fits = sw as u128 + w <= self.line.space() as u128;
                    would_wrap = !fits;
                    self.policy.ending_spaces || fits
                },
                None => self.policy.ending_spaces,
            }
        };
        if render {
            let m = if would_wrap && n > 0 {
                n - 1
            } else {
                n
            };
            let k = self.count_widest_space_seq(m);
            if k > 0 {
                proof {
                    lemma_spaces_fit(start.config, 0, m as nat, start.space());
                }
                let w = self.config.consume(k);
                self.line.advance_unchecked(w as u32);
                if m == k {
                    self.next_token();
                } else {
                    self.finish(Token::Whitespace(m - k));
                }
                Some(RenderElement::Space(w as u32, k))
            } else if m > 1 {
                self.finish(Token::Whitespace(m - 1));
                None
            } else {
                self.finish_wrapped();
                None
            }
        } else if would_wrap {
            self.finish_wrapped();
            None
        } else {
            self.next_token();
            None
        }
    }

    fn break_opportunity(&mut self, c: Option<char>) -> (r: Option<RenderElement>)
        requires
            old(self).wf(),
        ensures
            (*final(self), r) == old(self).break_step(c),
    {
        let fits = match self.next_word_width() {
            Some(w) => w <= self.line.space() as u128,
            None => true,
        };
        if fits {
            self.next_token();
            None
        } else {
            match c {
                Some(ch) => {
                    let adv = self.char_advance();
                    if self.line.advance(adv) {
                        self.finish_wrapped();
                        Some(RenderElement::PrintedCharacter(ch))
                    } else {
                        self.finish(Token::ExtraCharacter(ch));
                        None
                    }
                },
                None => {
                    self.finish_wrapped();
                    None
                },
            }
        }
    }

    fn tab(&mut self) -> (r: Option<RenderElement>)
        requires
            old(self).wf(),
        ensures
            (*final(self), r) == old(self).tab_step(),
    {
        let d = self.line.next_tab_width();
        if self.line.advance(d as u64) {
            self.next_token();
            Some(RenderElement::Space(d, 0))
        } else {
            let available = self.line.space();
            self.finish_wrapped();
            Some(RenderElement::Space(available, 0))
        }
    }

    fn escape(&mut self, start: usize, end: usize, kind: EscapeKind) -> (r: Option<RenderElement>)
        requires
            old(self).wf(),
        ensures
            (*final(self), r) == old(self).escape_step(start, end, kind),
    {
        self.next_token();
        match kind {
            EscapeKind::Graphics => Some(RenderElement::StyleChange(start, end)),
            EscapeKind::Forward(n) => {
                let d = self.move_distance(n);
                if self.line.advance(d) {
                    Some(RenderElement::Space(d as u32, 0))
                } else {
                    let available = self.line.space();
                    self.line.advance_unchecked(available);
                    Some(RenderElement::Space(available, 0))
                }
            },
            EscapeKind::Backward(n) => {
                let d = self.move_distance(n);
                if !self.line.rewind(d) {
                    self.line.carriage_return();
                }
                None
            },
            EscapeKind::Other => None,
        }
    }

    fn word_token(&mut self, a: usize, b: usize) -> (r: Option<RenderElement>)
        requires
            old(self).wf(),
            old(self).state == State::ProcessToken(Token::Word(a, b)),
        ensures
            (*final(self), r) == old(self).process_step(Token::Word(a, b)),
    {
        if self.first_word {
            self.first_word = false;
            self.state = State::Word(a, b);
            return None;
        }
        let adv = self.char_advance();
        proof {
            let x = (b - a) as int;
            let y = adv as int;
            assert(x * y <= u32::MAX * (2 * u32::MAX)) by (nonlinear_arith)
                requires 0 <= x <= u32::MAX, 0 <= y <= 2 * u32::MAX;
        }
        if (b - a) as u128 * adv as u128 <= self.line.space() as u128 {
            self.state = State::Word(a, b);
        } else {
            self.finish(Token::Word(a, b));
        }
        None
    }

    fn extra_character(&mut self, ch: char) -> (r: Option<RenderElement>)
        requires
            old(self).wf(),
        ensures
            (*final(self), r) == old(self).process_step(Token::ExtraCharacter(ch)),
    {
        let adv = self.char_advance();
        if self.line.advance(adv) {
            self.next_token();
            Some(RenderElement::PrintedCharacter(ch))
        } else {
            self.state = State::Done;
            None
        }
    }

    fn word_char(&mut self, a: usize, b: usize) -> (r: Option<RenderElement>)
        requires
            old(self).wf(),
            old(self).state == State::Word(a, b),
        ensures
            (*final(self), r) == old(self).word_step(a, b),
    {
        if a >= b {
            self.next_token();
            return None;
        }
        let c = self.parser.text[a];
        if c == SPEC_CHAR_NBSP {
            let w = self.config.peek_next_width(1);
            if self.line.advance(w) {
                self.config.consume(1);
                self.state = State::Word(a + 1, b);
                return Some(RenderElement::Space(w as u32, 1));
            }
        } else {
            let adv = self.char_advance();
            if self.line.advance(adv) {
                self.state = State::Word(a + 1, b);
                return Some(RenderElement::PrintedCharacter(c));
            }
        }
        if self.line.position > 0 {
            self.finish(Token::Word(a, b));
        } else {
            self.state = State::Done;
        }
        None
    }

    /// Takes one step (see `step_spec`).
    pub fn step(&mut self) -> (r: Option<RenderElement>)
        requires
            old(self).wf(),
        ensures
            (*final(self), r) == old(self).step_spec(),
            final(self).wf(),
    {
        proof {
            self.lemma_step();
        }
        self.pos = self.line.position;
        match self.state {
            State::ProcessToken(t) => match t {
                Token::Whitespace(n) => self.whitespace(n),
                Token::Break(c) => self.break_opportunity(c),
                Token::ExtraCharacter(ch) => self.extra_character(ch),
                Token::Word(a, b) => self.word_token(a, b),
                Token::Tab => self.tab(),
                Token::EscapeSequence(esc) => self.escape(esc.start, esc.end, esc.kind),
                Token::NewLine => {
                    self.finish(t);
                    None
                },
                Token::CarriageReturn => {
                    self.finish(t);
                    None
                },
            },
            State::Word(a, b) => self.word_char(a, b),
            State::Done => None,
        }
    }

    /// Steps up to the next element drawn (see `next_spec`); `None` once the
    /// line is done.
    pub fn next(&mut self) -> (r: Option<RenderElement>)
        requires
            old(self).wf(),
        ensures
            (*final(self), r) == old(self).next_spec(),
            final(self).wf(),
            final(self).frame_eq(*old(self)),
    {
        let ghost start = *self;
        proof {
            start.lemma_next_spec();
        }
        loop
            invariant
                self.wf(),
                start == *old(self),
                start.next_spec().0.frame_eq(start),
                self.next_spec() == start.next_spec(),
            decreases self.unread(), self.rank(), self.word_left(),
        {
            let ghost before = *self;
            proof {
                before.lemma_step();
            }
            if let State::Done = self.state {
                return self.step();
            }
            let r = self.step();
            if r.is_some() {
                return r;
            }
        }
    }

    /// Draws the rest of the line and returns its elements in order.
    pub fn collect_line(&mut self) -> (r: Vec<RenderElement>)
        requires
            old(self).wf(),
        ensures
            r@ == old(self).elements(),
            final(self).wf(),
            final(self).is_done(),
            final(self).ends_alike(old(self).last_state()),
    {
        let ghost start = *self;
        let mut out: Vec<RenderElement> = Vec::new();
        loop
            invariant
                self.wf(),
                start == *old(self),
                out@ + self.elements() == start.elements(),
                self.last_state().ends_alike(start.last_state()),
            decreases self.unread(), self.rank(), self.word_left(),
        {
            let ghost before = *self;
            proof {
                before.lemma_next_spec();
            }
            match self.next() {
                Some(e) => {
                    proof {
                        assert(out@.push(e) + self.elements() =~= out@ + before.elements());
                    }
                    out.push(e);
                },
                None => {
                    proof {
                        assert(out@ =~= out@ + before.elements());
                    }
                    return out;
                },
            }
        }
    }

    /// Measures the line without drawing it: replays the very decisions that
    /// drawing makes, then restores the state. Gives the sum of the widths
    /// of the line's elements and the number of spaces they stand for, each
    /// held at `u64::MAX`, and whether the line ends by wrapping.
    pub fn measure_line(&mut self) -> (r: LineSize)
        requires
            old(self).wf(),
        ensures
            *final(self) == *old(self),
            r.width == saturate(total_width(old(self).elements(), old(self).font)),
            r.spaces == saturate(space_total(old(self).elements())),
            r.wrapped == ends_by_wrap(old(self).last_state().carried),
    {
        let ghost start = *self;
        let parser_pos = self.parser.pos;
        let cursor = self.cursor;
        let line = self.line;
        let pos = self.pos;
        let state = self.state;
        let config = self.config;
        let first_word = self.first_word;
        let carried = self.carried;
        let mut total: u64 = 0;
        let mut spaces: u64 = 0;
        proof {
            lemma_total_width_nonneg(start.elements(), start.font);
        }
        loop
            invariant
                self.wf(),
                start == *old(self),
                self.frame_eq(start),
                self.last_state().ends_alike(start.last_state()),
                saturate(total + total_width(self.elements(), self.font)) == saturate(
                    total_width(start.elements(), start.font),
                ),
                saturate(spaces + space_total(self.elements())) == saturate(
                    space_total(start.elements()),
                ),
            ensures
                start == *old(self),
                self.frame_eq(start),
                self.is_done(),
                self.ends_alike(start.last_state()),
                total == saturate(total_width(start.elements(), start.font)),
                spaces == saturate(space_total(start.elements())),
            decreases self.unread(), self.rank(), self.word_left(),
        {
            let ghost before = *self;
            proof {
                before.lemma_next_spec();
            }
            match self.next() {
                Some(e) => {
                    proof {
                        lemma_total_width_cons(e, self.elements(), self.font);
                        lemma_total_width_nonneg(self.elements(), self.font);
                    }
                    let (w, k): (u64, u64) = match e {
                        RenderElement::Space(w, k) => (w as u64, k as u64),
                        RenderElement::PrintedCharacter(_) => (self.char_advance(), 0),
                        RenderElement::StyleChange(_, _) => (0, 0),
                    };
                    total = total.saturating_add(w);
                    spaces = spaces.saturating_add(k);
                },
                None => {
                    break;
                },
            }
        }
        let wrapped = match self.carried {
            Some(t) => t != Token::NewLine && t != Token::CarriageReturn,
            None => false,
        };
        self.parser.pos = parser_pos;
        self.cursor = cursor;
        self.line = line;
        self.pos = pos;
        self.state = state;
        self.config = config;
        self.first_word = first_word;
        self.carried = carried;
        LineSize { width: total, spaces, wrapped }
    }

    /// The same line, with another policy for the widths of spaces.
    pub fn with_config<SP2: SpaceConfig>(self, config: SP2) -> (r: LineElementIterator<SP2>)
        requires
            self.wf(),
        ensures
            r == (LineElementIterator {
                parser: self.parser,
                cursor: self.cursor,
                line: self.line,
                pos: self.pos,
                state: self.state,
                config,
                first_word: self.first_word,
                policy: self.policy,
                font: self.font,
                carried: self.carried,
            }),
            r.wf(),
    {
        LineElementIterator {
            parser: self.parser,
            cursor: self.cursor,
            line: self.line,
            pos: self.pos,
            state: self.state,
            config,
            first_word: self.first_word,
            policy: self.policy,
            font: self.font,
            carried: self.carried,
        }
    }
}

} // verus!
