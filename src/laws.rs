//! What holds of every line that the line iterator lays out.
use vstd::prelude::*;
use crate::cursor::{Cursor, LineCursor};
use crate::line_iter::{
    element_width, ends_line, lemma_spaces_fit_run, lemma_total_width_cons, lemma_total_width_nonneg,
    lookahead, saturate, token_in_text, total_width, LineElementIterator, MonoMetrics, RenderElement, SpacePolicy,
    State,
};
use crate::parser::{
    lemma_lex_progress, lex, run_end, Parser, Token, SPEC_CHAR_NBSP, SPEC_CHAR_SHY,
};
use crate::space_config::SpaceConfig;

verus! {

/// Every line ends: from any well formed state, some number of steps
/// reaches the end of the line, whatever the text and the line width.
pub proof fn lemma_line_terminates<SP: SpaceConfig>(it: LineElementIterator<SP>)
    requires
        it.wf(),
    ensures
        exists|n: nat| #[trigger] it.run(n).is_done(),
    decreases it.unread(), it.rank(), it.word_left(),
{
    if it.is_done() {
        assert(it.run(0).is_done());
    } else {
        it.lemma_step();
        let s = it.step_spec().0;
        lemma_line_terminates(s);
        let n = choose|n: nat| #[trigger] s.run(n).is_done();
        assert(it.run(n + 1) == s.run(n));
    }
}

/// Each element fits in the line at the place where it is drawn, and the
/// cursor never passes the end of the line.
pub proof fn lemma_element_fits<SP: SpaceConfig>(it: LineElementIterator<SP>)
    requires
        it.wf(),
    ensures
        it.step_spec().0.line.width == it.line.width,
        it.step_spec().0.line.position <= it.line.width,
        it.step_spec().1 matches Some(x) ==> it.step_spec().0.pos + element_width(x, it.font)
            <= it.line.width,
{
    it.lemma_step();
    if let State::ProcessToken(Token::Whitespace(n)) = it.state {
        lemma_spaces_fit_run(it.config, n, it.space());
    }
}

/// No step of the line from here to its end moves the cursor back (by a
/// backward cursor escape); what follows the line does not matter.
pub open spec fn no_rewind_in_line<SP: SpaceConfig>(it: LineElementIterator<SP>) -> bool
    decreases it.unread(), it.rank(), it.word_left(),
{
    if !it.wf() || it.is_done() {
        true
    } else {
        proof {
            it.lemma_step();
        }
        &&& !(it.state matches State::ProcessToken(Token::EscapeSequence(e)) && e.kind is Backward)
        &&& no_rewind_in_line(it.step_spec().0)
    }
}

/// Where no escape sequence of the line moves the cursor back, the widths
/// of all that the line draws add up to no more than the room left in it. This holds for
/// the first word of a line too: a word wider than the line is split.
pub proof fn lemma_width_bound<SP: SpaceConfig>(it: LineElementIterator<SP>)
    requires
        it.wf(),
        no_rewind_in_line(it),
    ensures
        it.line.position + total_width(it.elements(), it.font) <= it.line.width,
    decreases it.unread(), it.rank(), it.word_left(),
{
    if !it.is_done() {
        it.lemma_step();
        lemma_element_fits(it);
        lemma_lex_progress(it.text(), it.parser.pos as int);
        if let State::ProcessToken(Token::Whitespace(n)) = it.state {
            lemma_spaces_fit_run(it.config, n, it.space());
        }
        let (s, e) = it.step_spec();
        lemma_width_bound(s);
        match e {
            Some(x) => {
                lemma_total_width_cons(x, s.elements(), it.font);
                assert(s.is_done() || s.line.position == it.line.position + element_width(x, it.font));
            },
            None => {
                assert(s.is_done() || s.line.position >= it.line.position);
            },
        }
    }
}

/// Right alignment: a line laid out from its start, with no escape sequence
/// in it that moves the cursor back, measures a width `W` no larger than the box width `B`; so `B - W`
/// is the offset at which its first element starts, and its elements, drawn
/// from there, end exactly at the right edge.
pub proof fn lemma_right_alignment<SP: SpaceConfig>(it: LineElementIterator<SP>)
    requires
        it.wf(),
        no_rewind_in_line(it),
        it.line.position == 0,
    ensures
        0 <= total_width(it.elements(), it.font) <= it.line.width,
        saturate(total_width(it.elements(), it.font)) == total_width(it.elements(), it.font),
        ({
            let w = total_width(it.elements(), it.font);
            (it.line.width - w) + w == it.line.width
        }),
{
    lemma_width_bound(it);
    lemma_total_width_nonneg(it.elements(), it.font);
}

/// With leading spaces switched off, a line that opens with a run of spaces
/// followed by a word draws the word's first character first: the spaces
/// give no element.
pub proof fn lemma_leading_spaces_dropped<SP: SpaceConfig>(
    it: LineElementIterator<SP>,
    n: u32,
    a: usize,
    b: usize,
    e: int,
)
    requires
        it.wf(),
        it.first_word,
        !it.policy.starting_spaces,
        it.state == State::ProcessToken(Token::Whitespace(n)),
        lex(it.text(), it.parser.pos as int) == Some((Token::Word(a, b), e)),
        it.text()[a as int] != SPEC_CHAR_NBSP,
        it.font.advance() <= it.space(),
    ensures
        it.elements().len() > 0,
        it.elements()[0] == RenderElement::PrintedCharacter(it.text()[a as int]),
{
    lemma_lex_progress(it.text(), it.parser.pos as int);
    it.lemma_step();
    let s1 = it.step_spec().0;
    assert(it.step_spec().1 is None);
    s1.lemma_step();
    let s2 = s1.step_spec().0;
    assert(s1.step_spec().1 is None);
    s2.lemma_step();
    assert(s2.step_spec().1 == Some(RenderElement::PrintedCharacter(it.text()[a as int])));
    assert(it.elements() == s1.elements());
    assert(s1.elements() == s2.elements());
}

/// The `n` characters of `text` from `a` on, each as a printed character.
pub open spec fn printed(text: Seq<char>, a: int, n: nat) -> Seq<RenderElement>
    decreases n,
{
    if n == 0 {
        Seq::empty()
    } else {
        seq![RenderElement::PrintedCharacter(text[a])] + printed(text, a + 1, (n - 1) as nat)
    }
}

/// A word that fits the room left, with no no-break space in it, draws its
/// characters one by one and changes nothing else but the position.
proof fn lemma_draw_word<SP: SpaceConfig>(s: LineElementIterator<SP>, a: usize, b: usize, n: nat)
    requires
        s.wf(),
        s.state == State::Word(a, b),
        b - a == n,
        s.line.position + n * s.font.advance() <= s.line.width,
        forall|i: int| a <= i < b ==> s.text()[i] != SPEC_CHAR_NBSP,
    ensures
        ({
            let u = s.run(n);
            &&& u.wf()
            &&& u.state == State::Word(b, b)
            &&& u.line == (LineCursor {
                position: (s.line.position + n * s.font.advance()) as u32,
                ..s.line
            })
            &&& u.parser == s.parser
            &&& u.cursor == s.cursor
            &&& u.config == s.config
            &&& u.first_word == s.first_word
            &&& u.policy == s.policy
            &&& u.font == s.font
            &&& u.carried == s.carried
            &&& s.elements() == printed(s.text(), a as int, n) + u.elements()
            &&& s.last_state() == u.last_state()
        }),
    decreases n,
{
    let adv = s.font.advance();
    if n == 0 {
        assert(printed(s.text(), a as int, n) =~= Seq::<RenderElement>::empty());
        assert(Seq::<RenderElement>::empty() + s.elements() =~= s.elements());
    } else {
        assert(n * adv == adv + (n - 1) * adv) by (nonlinear_arith);
        assert((n - 1) * adv >= 0) by (nonlinear_arith)
            requires n >= 1, adv >= 0;
        s.lemma_step();
        let s1 = s.step_spec().0;
        assert(s.step_spec().1 == Some(RenderElement::PrintedCharacter(s.text()[a as int])));
        lemma_draw_word(s1, (a + 1) as usize, b, (n - 1) as nat);
        assert(s.run(n) == s1.run((n - 1) as nat));
        let head = seq![RenderElement::PrintedCharacter(s.text()[a as int])];
        let rest = printed(s.text(), a + 1, (n - 1) as nat);
        assert(s.elements() == head + s1.elements());
        assert(head + (rest + s.run(n).elements()) =~= (head + rest) + s.run(n).elements());
    }
}

/// With trailing spaces switched off, a line that opens with a word that
/// fits, then a run of spaces, then a word too wide for the room left,
/// draws exactly the first word's characters and no space, and ends
/// wrapped, having read up to the second word; the next line starts by
/// drawing the second word's first character.
pub proof fn lemma_word_then_too_wide_word<SP: SpaceConfig>(
    it: LineElementIterator<SP>,
    a: usize,
    b: usize,
    k: u32,
    e: int,
    a2: usize,
    b2: usize,
    e2: int,
)
    requires
        it.wf(),
        it.first_word,
        it.line.position == 0,
        !it.policy.ending_spaces,
        it.state == State::ProcessToken(Token::Word(a, b)),
        a < b,
        it.parser.pos == b,
        (b - a) * it.font.advance() <= it.line.width,
        forall|i: int| a <= i < b ==> it.text()[i] != SPEC_CHAR_NBSP,
        lex(it.text(), b as int) == Some((Token::Whitespace(k), e)),
        lex(it.text(), e) == Some((Token::Word(a2, b2), e2)),
        match lookahead(it.text(), e, None) {
            Some(c) => it.config.width_of(k as nat) + c * it.font.advance() > it.line.width - (b
                - a) * it.font.advance(),
            None => false,
        },
        it.text()[a2 as int] != SPEC_CHAR_NBSP,
        it.font.advance() <= it.cursor.bounds.size.width,
    ensures
        it.elements() == printed(it.text(), a as int, (b - a) as nat),
        it.last_state().carried == Some(Token::Break(None)),
        it.last_state().parser.pos == e,
        ({
            let l = it.last_state();
            let next = LineElementIterator::new_spec(
                l.parser,
                l.cursor,
                l.config,
                l.carried,
                l.policy,
                l.font,
            );
            next.elements().len() > 0 && next.elements()[0] == RenderElement::PrintedCharacter(
                it.text()[a2 as int],
            )
        }),
{
    let n = (b - a) as nat;
    it.lemma_step();
    let s1 = it.step_spec().0;
    assert(it.elements() == s1.elements());
    lemma_draw_word(s1, a, b, n);
    let u = s1.run(n);
    lemma_lex_progress(it.text(), b as int);
    u.lemma_step();
    let s2 = u.step_spec().0;
    assert(u.elements() == s2.elements());
    lemma_lex_progress(it.text(), e);
    s2.lemma_step();
    let s3 = s2.step_spec().0;
    assert(s2.step_spec().1 is None);
    assert(s3.is_done());
    assert(s2.elements() == s3.elements());
    assert(s3.elements() == Seq::<RenderElement>::empty());
    assert(printed(it.text(), a as int, n) + Seq::<RenderElement>::empty() =~= printed(
        it.text(),
        a as int,
        n,
    ));
    assert(it.last_state() == s1.last_state());
    assert(u.last_state() == s2.last_state());
    assert(s2.last_state() == s3.last_state());
    assert(s3.last_state() == s3);
    let next = LineElementIterator::new_spec(s3.parser, s3.cursor, s3.config, s3.carried, s3.policy, s3.font);
    assert(next.wf());
    next.lemma_step();
    let t1 = next.step_spec().0;
    t1.lemma_step();
    let t2 = t1.step_spec().0;
    assert(t1.step_spec().1 == Some(RenderElement::PrintedCharacter(it.text()[a2 as int])));
    assert(next.elements() == t1.elements());
}

/// With trailing spaces switched off, a run of spaces after the first word,
/// before a word too wide for the room left, draws nothing and ends the
/// line; the wrap is carried to the next line, which starts with that word.
pub proof fn lemma_wrap_drops_trailing_spaces<SP: SpaceConfig>(it: LineElementIterator<SP>, n: u32)
    requires
        it.wf(),
        !it.first_word,
        !it.policy.ending_spaces,
        it.state == State::ProcessToken(Token::Whitespace(n)),
        it.next_word_width_spec() matches Some(w) && it.config.width_of(n as nat) + w > it.space(),
    ensures
        it.step_spec().1 is None,
        it.step_spec().0.is_done(),
        it.step_spec().0.carried == Some(Token::Break(None)),
        it.step_spec().0.parser == it.parser,
        it.elements() == Seq::<RenderElement>::empty(),
{
    it.lemma_step();
    assert(it.step_spec().0.elements() == Seq::<RenderElement>::empty());
}

/// A tab advances to the next multiple of the tab width; where that lies
/// beyond the line, it takes the rest of the line and the line wraps: the
/// cursor goes back to the line start, moves down by the line spacing (held
/// at the largest `i32`), and the line draws nothing more.
pub proof fn lemma_tab_stop<SP: SpaceConfig>(it: LineElementIterator<SP>)
    requires
        it.wf(),
        it.state == State::ProcessToken(Token::Tab),
    ensures
        ({
            let p = it.line.position as int;
            let t = it.line.tab_width as int;
            let stop = (p / t + 1) * t;
            let (s, e) = it.step_spec();
            if stop <= it.line.width {
                &&& e == Some(RenderElement::Space((stop - p) as u32, 0))
                &&& s.line.position == stop
                &&& (s.line.position as int) % t == 0
            } else {
                &&& e == Some(RenderElement::Space(it.space() as u32, 0))
                &&& s.is_done()
                &&& s.carried == Some(Token::Break(None))
                &&& s.line.position == 0
                &&& s.cursor.y == it.cursor.next_line_y()
                &&& (i32::MIN <= it.cursor.y + it.cursor.line_spacing <= i32::MAX ==> s.cursor.y
                    == it.cursor.y + it.cursor.line_spacing)
                &&& s.next_spec().1 is None
            }
        }),
{
    let p = it.line.position as int;
    let t = it.line.tab_width as int;
    assert(p + (t - p % t) == (p / t + 1) * t) by (nonlinear_arith)
        requires t > 0;
    assert(((p / t + 1) * t) % t == 0) by (nonlinear_arith)
        requires t > 0;
    lemma_lex_progress(it.text(), it.parser.pos as int);
    let s = it.step_spec().0;
    if s.is_done() {
        assert(s.next_spec() == s.step_spec());
    }
}

/// A token agrees with the text that ends at `pos`: a word is the end part
/// of a word of the text that ends there, and a run of spaces the end part of
/// a run of spaces that ends there.
pub open spec fn token_anchored(text: Seq<char>, t: Token, pos: int) -> bool {
    match t {
        Token::Word(a, b) => a < b && b == pos && run_end(text, a as int, false) == pos,
        Token::Whitespace(k) => k == 0 || (k <= pos && run_end(text, pos - k, true) == pos),
        Token::Break(Some(c)) => 1 <= pos <= text.len() && text[pos - 1] == SPEC_CHAR_SHY && c == '-',
        Token::ExtraCharacter(c) => 1 <= pos <= text.len() && text[pos - 1] == SPEC_CHAR_SHY && c
            == '-',
        _ => true,
    }
}

/// The tokens that a line can end by carrying: a line break or a wrap
/// marker, part of a word, part of a run of spaces, or the hyphen of a soft
/// hyphen that did not fit.
pub open spec fn carriable(t: Token) -> bool {
    match t {
        Token::NewLine | Token::CarriageReturn | Token::Break(None) => true,
        Token::Word(_, _) => true,
        Token::Whitespace(k) => k > 0,
        Token::ExtraCharacter(c) => c == '-',
        _ => false,
    }
}

/// The tokens of the state and the carried token agree with the text at the
/// reading position; nothing is carried before the line is done.
pub open spec fn anchored<SP: SpaceConfig>(it: LineElementIterator<SP>) -> bool {
    let pos = it.parser.pos as int;
    &&& match it.state {
        State::ProcessToken(t) => token_anchored(it.text(), t, pos),
        State::Word(a, b) => a <= b && b == pos && (a < b ==> run_end(it.text(), a as int, false)
            == pos),
        State::Done => true,
    }
    &&& match it.carried {
        Some(t) => token_anchored(it.text(), t, pos) && carriable(t),
        None => true,
    }
    &&& !it.is_done() ==> it.carried is None
}

/// A run seen from a later start within it ends at the same place.
proof fn lemma_run_suffix(text: Seq<char>, i: int, j: int, spaces: bool)
    requires
        0 <= i <= j <= run_end(text, i, spaces),
    ensures
        run_end(text, j, spaces) == run_end(text, i, spaces),
    decreases j - i,
{
    if i < j {
        lemma_run_suffix(text, i + 1, j, spaces);
    }
}

/// Reading a token from a state that carries nothing anchors the new token.
proof fn lemma_next_token_anchored<SP: SpaceConfig>(it: LineElementIterator<SP>)
    requires
        it.parser.wf(),
        it.carried is None,
    ensures
        anchored(it.next_token_spec()),
{
    lemma_lex_progress(it.text(), it.parser.pos as int);
}

/// Every step keeps the state anchored.
pub proof fn lemma_step_anchored<SP: SpaceConfig>(it: LineElementIterator<SP>)
    requires
        it.wf(),
        anchored(it),
    ensures
        anchored(it.step_spec().0),
{
    let pos = it.parser.pos as int;
    if !it.is_done() {
        let s = LineElementIterator { pos: it.line.position, ..it };
        lemma_next_token_anchored(s);
        match it.state {
            State::ProcessToken(Token::Whitespace(n)) => {
                lemma_spaces_fit_run(it.config, n, it.space());
                if n > 0 {
                    assert forall|j: int| pos - n <= j <= pos implies run_end(it.text(), j, true)
                        == pos by {
                        lemma_run_suffix(it.text(), pos - n, j, true);
                    }
                }
                lemma_lex_progress(it.text(), pos);
            },
            State::Word(a, b) => {
                if a < b {
                    lemma_run_suffix(it.text(), a as int, a + 1, false);
                }
            },
            _ => {},
        }
    }
}

/// Every state that a line reaches from an anchored one is anchored.
pub proof fn lemma_run_anchored<SP: SpaceConfig>(it: LineElementIterator<SP>, n: nat)
    requires
        it.wf(),
        anchored(it),
    ensures
        it.run(n).wf(),
        anchored(it.run(n)),
    decreases n,
{
    if n > 0 {
        it.lemma_step();
        lemma_step_anchored(it);
        lemma_run_anchored(it.step_spec().0, (n - 1) as nat);
    }
}

/// The iterator for the line after the finished line `it`.
pub open spec fn following_line<SP: SpaceConfig>(it: LineElementIterator<SP>) -> LineElementIterator<SP> {
    let l = it.last_state();
    LineElementIterator::new_spec(l.parser, l.cursor, l.config, l.carried, l.policy, l.font)
}

/// The elements of `lines` successive lines, from `it` on, each line built
/// from the one before: one uninterrupted layout pass.
pub open spec fn pass<SP: SpaceConfig>(it: LineElementIterator<SP>, lines: nat) -> Seq<RenderElement>
    decreases lines,
{
    if lines == 0 {
        Seq::empty()
    } else {
        it.elements() + pass(following_line(it), (lines - 1) as nat)
    }
}

/// Laying out line A to its end, then line B built from what A leaves,
/// gives, concatenated, the first two lines of one uninterrupted pass; and
/// every later line follows on the same way.
pub proof fn lemma_pass_concatenates<SP: SpaceConfig>(a: LineElementIterator<SP>, lines: nat)
    ensures
        a.elements() + following_line(a).elements() == pass(a, 2),
        pass(a, lines + 1) == a.elements() + pass(following_line(a), lines),
{
    let b = following_line(a);
    assert(pass(b, 1) == b.elements() + pass(following_line(b), 0));
    assert(b.elements() + Seq::<RenderElement>::empty() =~= b.elements());
}

/// The line carries part of a word or of a run of spaces.
pub open spec fn carries_part<SP: SpaceConfig>(it: LineElementIterator<SP>) -> bool {
    match it.carried {
        Some(Token::Word(_, _)) => true,
        Some(Token::Whitespace(k)) => k > 0,
        _ => false,
    }
}

/// The line carries nothing, or only a line break or a wrap marker.
pub open spec fn carries_break<SP: SpaceConfig>(it: LineElementIterator<SP>) -> bool {
    match it.carried {
        Some(t) => ends_line(t),
        None => true,
    }
}

/// Where the carried part of a word or of a run of spaces begins in the text.
pub open spec fn resume_point<SP: SpaceConfig>(it: LineElementIterator<SP>) -> int {
    match it.carried {
        Some(Token::Word(a, _)) => a as int,
        Some(Token::Whitespace(k)) => it.parser.pos - k,
        _ => it.parser.pos as int,
    }
}

/// Lay out a line afresh to its end, then build the next line from what it
/// leaves. Nothing is lost or repeated at the boundary:
/// - it carries a line break, a wrap marker or nothing, and the next line is
///   the line laid out afresh from the reading position;
/// - it carries part of a word or of a run of spaces, and the next line is
///   exactly the line laid out afresh from where that part begins;
/// - it carries a hyphen, and that is the one of the soft hyphen just before
///   the reading position, which did not fit: the next line starts with it,
///   then reads on from the same position.
/// No other token is ever carried.
pub proof fn lemma_carry_round_trip<SP: SpaceConfig>(
    parser: Parser,
    cursor: Cursor,
    config: SP,
    policy: SpacePolicy,
    font: MonoMetrics,
    n: nat,
    next_cursor: Cursor,
    next_config: SP,
)
    requires
        parser.wf(),
        cursor.tab_width > 0,
        next_cursor.tab_width > 0,
    ensures
        ({
            let a = LineElementIterator::new_spec(parser, cursor, config, None, policy, font).run(n);
            let resumed = LineElementIterator::new_spec(
                a.parser,
                next_cursor,
                next_config,
                a.carried,
                policy,
                font,
            );
            let afresh = LineElementIterator::new_spec(
                Parser { pos: resume_point(a) as usize, ..a.parser },
                next_cursor,
                next_config,
                None,
                policy,
                font,
            );
            a.is_done() ==> {
                &&& a.carried matches Some(t) ==> carriable(t)
                &&& carries_break(a) ==> resumed == afresh
                &&& carries_part(a) ==> resumed == afresh && resumed.elements() == afresh.elements()
                &&& a.carried matches Some(Token::ExtraCharacter(_)) ==> {
                    &&& a.carried == Some(Token::ExtraCharacter('-'))
                    &&& a.parser.pos >= 1
                    &&& a.text()[a.parser.pos - 1] == SPEC_CHAR_SHY
                    &&& resumed.parser == a.parser
                    &&& resumed.state == State::ProcessToken(Token::ExtraCharacter('-'))
                    &&& resumed.first_word
                    &&& resumed.carried is None
                }
            }
        }),
{
    let start = LineElementIterator::new_spec(parser, cursor, config, None, policy, font);
    let base = LineElementIterator {
        parser,
        cursor,
        line: start.line,
        pos: 0,
        state: State::Done,
        config,
        first_word: true,
        policy,
        font,
        carried: None,
    };
    lemma_lex_progress(parser.text@, parser.pos as int);
    lemma_next_token_anchored(base);
    lemma_run_anchored(start, n);
    let a = start.run(n);
    lemma_lex_progress(a.text(), resume_point(a));
}

/// How much of a token a line can still carry on: none for a token that
/// merely ended the previous line, else one more than the characters or
/// spaces left, and two for a break that may leave its fallback character.
pub open spec fn token_weight(t: Option<Token>) -> nat {
    match t {
        Some(tok) => if ends_line(tok) {
            0
        } else {
            match tok {
                Token::Word(a, b) => if a <= b {
                    (b - a + 1) as nat
                } else {
                    1
                },
                Token::Whitespace(k) => (k + 1) as nat,
                Token::Break(_) => 2,
                _ => 1,
            }
        },
        None => 0,
    }
}

/// Holds on the way through a line that started with the carried token `t`
/// while `u0` characters were unread.
pub open spec fn line_progress<SP: SpaceConfig>(it: LineElementIterator<SP>, u0: nat, t: Token) -> bool {
    ||| it.unread() < u0
    ||| it.unread() == u0 && it.is_done() && token_weight(it.carried) < token_weight(Some(t))
    ||| it.unread() == u0 && it.carried is None && it.state == State::ProcessToken(t)
        && it.first_word && it.line.position == 0
    ||| it.unread() == u0 && it.carried is None && match (it.state, t) {
        (State::Word(a2, b2), Token::Word(a, b)) => b2 == b && a <= a2 && (it.line.position > 0
            ==> a < a2),
        _ => false,
    }
}

proof fn lemma_line_progress_step<SP: SpaceConfig>(it: LineElementIterator<SP>, u0: nat, t: Token)
    requires
        it.wf(),
        !ends_line(t),
        line_progress(it, u0, t),
    ensures
        line_progress(it.step_spec().0, u0, t),
{
    it.lemma_step();
    lemma_lex_progress(it.text(), it.parser.pos as int);
    if let State::ProcessToken(Token::Whitespace(n)) = it.state {
        lemma_spaces_fit_run(it.config, n, it.space());
    }
}

proof fn lemma_line_progress_run<SP: SpaceConfig>(it: LineElementIterator<SP>, u0: nat, t: Token, n: nat)
    requires
        it.wf(),
        !ends_line(t),
        line_progress(it, u0, t),
    ensures
        line_progress(it.run(n), u0, t),
    decreases n,
{
    if n > 0 {
        lemma_line_progress_step(it, u0, t);
        it.lemma_step();
        lemma_line_progress_run(it.step_spec().0, u0, t, (n - 1) as nat);
    }
}

/// Once done, a line stays done.
proof fn lemma_run_done<SP: SpaceConfig>(it: LineElementIterator<SP>, n: nat)
    requires
        it.is_done(),
    ensures
        it.run(n).is_done(),
        it.run(n).carried == it.carried,
        it.run(n).parser == it.parser,
    decreases n,
{
    if n > 0 {
        lemma_run_done(it.step_spec().0, (n - 1) as nat);
    }
}

/// Line after line, layout makes progress: a line either reads further into
/// the text than where it started, or ends carrying strictly less of a token
/// than it started with. A line that starts with the whole text read and
/// nothing to carry on ends at once, drawing and carrying nothing. So, for
/// any text and any box width, building each line from the one before ends
/// after finitely many lines.
pub proof fn lemma_lines_progress<SP: SpaceConfig>(
    parser: Parser,
    cursor: Cursor,
    config: SP,
    carried: Option<Token>,
    policy: SpacePolicy,
    font: MonoMetrics,
    n: nat,
)
    requires
        parser.wf(),
        cursor.tab_width > 0,
        carried matches Some(t) ==> token_in_text(t, parser.text@.len() as int),
    ensures
        ({
            let start = LineElementIterator::new_spec(parser, cursor, config, carried, policy, font);
            let u0 = (parser.text@.len() - parser.pos) as nat;
            let a = start.run(n);
            a.is_done() ==> if u0 == 0 && token_weight(carried) == 0 {
                &&& a.carried is None
                &&& start.elements() == Seq::<RenderElement>::empty()
            } else {
                ||| a.unread() < u0
                ||| a.unread() == u0 && token_weight(a.carried) < token_weight(carried)
            }
        }),
{
    let start = LineElementIterator::new_spec(parser, cursor, config, carried, policy, font);
    let u0 = (parser.text@.len() - parser.pos) as nat;
    lemma_lex_progress(parser.text@, parser.pos as int);
    match carried {
        Some(t) => {
            if !ends_line(t) {
                assert(line_progress(start, u0, t));
                lemma_line_progress_run(start, u0, t, n);
            } else if start.is_done() {
                lemma_run_done(start, n);
            } else {
                start.lemma_step();
                lemma_run_unread(start, n);
            }
        },
        None => {
            if start.is_done() {
                lemma_run_done(start, n);
            } else {
                lemma_run_unread(start, n);
            }
        },
    }
}

/// No step reads back: the unread part never grows.
proof fn lemma_run_unread<SP: SpaceConfig>(it: LineElementIterator<SP>, n: nat)
    requires
        it.wf(),
    ensures
        it.run(n).unread() <= it.unread(),
    decreases n,
{
    if n > 0 {
        it.lemma_step();
        lemma_run_unread(it.step_spec().0, (n - 1) as nat);
    }
}

} // verus!
