use embedded_text::alignment::{CenterAligned, Justified, LeftAligned, LineMeasurement, RightAligned, TopAligned};
use embedded_text::cursor::{Cursor, LineCursor};
use embedded_text::geometry::{LineHeight, Point, Rectangle, Size};
use embedded_text::line_iter::{LineElementIterator, MonoMetrics, RenderElement, SpacePolicy};
use embedded_text::parser::{Escape, EscapeKind, Parser, Token};
use embedded_text::space_config::{JustifiedSpaceConfig, SpaceConfig, UniformSpaceConfig};

const FONT: MonoMetrics = MonoMetrics {
    character_width: 6,
    character_spacing: 0,
};

fn cursor(width: u32) -> Cursor {
    Cursor::new(
        Rectangle::new(Point::zero(), Size::new(width, 64)),
        8,
        LineHeight::Percent(100),
        24,
    )
}

fn line(parser: Parser, width: u32, policy: SpacePolicy) -> LineElementIterator<UniformSpaceConfig> {
    LineElementIterator::new(parser, cursor(width), UniformSpaceConfig::new(6), None, policy, FONT)
}

fn next_line(prev: LineElementIterator<UniformSpaceConfig>) -> LineElementIterator<UniformSpaceConfig> {
    prev.next_line()
}

fn chars(s: &str) -> Vec<RenderElement> {
    s.chars().map(RenderElement::PrintedCharacter).collect()
}

fn width_of(elements: &[RenderElement]) -> u32 {
    elements
        .iter()
        .map(|e| match e {
            RenderElement::Space(w, _) => *w,
            RenderElement::PrintedCharacter(_) => 6,
            RenderElement::StyleChange(_, _) => 0,
        })
        .sum()
}

#[test]
fn leading_spaces_are_dropped_when_disabled() {
    let mut it = line(Parser::parse("   word"), 60, RightAligned.space_policy());
    assert_eq!(it.collect_line(), chars("word"));
}

#[test]
fn leading_spaces_are_kept_when_enabled() {
    let mut it = line(Parser::parse("  ab"), 60, LeftAligned.space_policy());
    let mut expected = vec![RenderElement::Space(12, 2)];
    expected.extend(chars("ab"));
    assert_eq!(it.collect_line(), expected);
}

#[test]
fn wrap_drops_trailing_spaces_when_disabled() {
    let mut first = line(Parser::parse("word   longword"), 60, RightAligned.space_policy());
    assert_eq!(first.collect_line(), chars("word"));
    assert_eq!(first.remaining_token(), Some(Token::Break(None)));
    let mut second = next_line(first);
    assert_eq!(second.collect_line(), chars("longword"));
}

#[test]
fn wrap_keeps_all_but_one_trailing_space_when_enabled() {
    let mut first = line(Parser::parse("word   longword"), 60, LeftAligned.space_policy());
    let mut expected = chars("word");
    expected.push(RenderElement::Space(12, 2));
    assert_eq!(first.collect_line(), expected);
    assert_eq!(first.remaining_token(), Some(Token::Word(7, 15)));
    let mut second = next_line(first);
    assert_eq!(second.collect_line(), chars("longword"));
}

#[test]
fn tab_that_does_not_fit_takes_the_rest_of_the_line() {
    let mut first = line(Parser::parse("abcde\tx"), 36, LeftAligned.space_policy());
    let mut expected = chars("abcde");
    expected.push(RenderElement::Space(6, 0));
    assert_eq!(first.collect_line(), expected);
    assert_eq!(first.remaining_token(), Some(Token::Break(None)));
    let mut second = next_line(first);
    assert_eq!(second.collect_line(), chars("x"));
}

#[test]
fn tab_advances_to_the_next_stop() {
    let mut it = line(Parser::parse("ab\tc"), 96, LeftAligned.space_policy());
    let mut expected = chars("ab");
    expected.push(RenderElement::Space(12, 0));
    expected.extend(chars("c"));
    assert_eq!(it.collect_line(), expected);
}

#[test]
fn carried_spaces_resume_like_a_fresh_start() {
    let text = "ab     ";
    let mut first = line(Parser::parse(text), 36, LeftAligned.space_policy());
    let mut expected = chars("ab");
    expected.push(RenderElement::Space(24, 4));
    assert_eq!(first.collect_line(), expected);
    assert_eq!(first.remaining_token(), Some(Token::Whitespace(1)));
    let mut resumed = next_line(first);
    let fresh_parser = Parser {
        text: text.chars().collect(),
        pos: 6,
    };
    let mut fresh = line(fresh_parser, 36, LeftAligned.space_policy());
    let resumed_elements = resumed.collect_line();
    assert_eq!(resumed_elements, vec![RenderElement::Space(6, 1)]);
    assert_eq!(resumed_elements, fresh.collect_line());
}

#[test]
fn carried_word_resumes_like_a_fresh_start() {
    let text = "abcdefgh";
    let mut first = line(Parser::parse(text), 30, LeftAligned.space_policy());
    assert_eq!(first.collect_line(), chars("abcde"));
    assert_eq!(first.remaining_token(), Some(Token::Word(5, 8)));
    let mut resumed = next_line(first);
    let mut fresh = line(
        Parser {
            text: text.chars().collect(),
            pos: 5,
        },
        30,
        LeftAligned.space_policy(),
    );
    let resumed_elements = resumed.collect_line();
    assert_eq!(resumed_elements, chars("fgh"));
    assert_eq!(resumed_elements, fresh.collect_line());
}

#[test]
fn lines_never_exceed_the_box() {
    let mut it = line(Parser::parse("aaa bbb ccc ddd eeeeeeeeeeee f"), 40, LeftAligned.space_policy());
    let mut lines = 0;
    loop {
        let elements = it.collect_line();
        assert!(width_of(&elements) <= 40);
        lines += 1;
        assert!(lines < 100);
        if it.parser.is_empty() && it.remaining_token().is_none() {
            break;
        }
        it = next_line(it);
    }
    assert!(lines > 1);
}

#[test]
fn zero_width_box_terminates() {
    let mut it = line(Parser::parse("hello world\tx"), 0, LeftAligned.space_policy());
    let mut lines = 0;
    loop {
        let elements = it.collect_line();
        assert!(width_of(&elements) == 0);
        lines += 1;
        assert!(lines < 100);
        if it.parser.is_empty() && it.remaining_token().is_none() {
            break;
        }
        it = next_line(it);
    }
}

#[test]
fn right_alignment_offset() {
    let (offset, config) = RightAligned.place_line(
        LineMeasurement {
            max_line_width: 60,
            width: 24,
        },
        6,
    );
    assert_eq!(offset, 36);
    assert_eq!(config, UniformSpaceConfig::new(6));
}

#[test]
fn center_and_left_alignment_offsets() {
    let m = LineMeasurement {
        max_line_width: 61,
        width: 24,
    };
    assert_eq!(CenterAligned.place_line(m, 6).0, 18);
    assert_eq!(LeftAligned.place_line(m, 6).0, 0);
}

#[test]
fn top_alignment_keeps_the_cursor() {
    let mut c = cursor(60);
    let before = c;
    TopAligned.apply_vertical_alignment(&mut c);
    assert_eq!(c, before);
}

#[test]
fn cursor_forward_escape_moves_and_is_clamped() {
    let mut it = line(Parser::parse("a\x1b[2Cb"), 60, LeftAligned.space_policy());
    let mut expected = chars("a");
    expected.push(RenderElement::Space(12, 0));
    expected.extend(chars("b"));
    assert_eq!(it.collect_line(), expected);

    let mut it = line(Parser::parse("a\x1b[20Cb"), 30, LeftAligned.space_policy());
    assert_eq!(
        it.collect_line(),
        vec![RenderElement::PrintedCharacter('a'), RenderElement::Space(24, 0)]
    );
}

#[test]
fn cursor_backward_escape_moves_back() {
    let mut it = line(Parser::parse("ab\x1b[1Dc"), 60, LeftAligned.space_policy());
    assert_eq!(it.next(), Some(RenderElement::PrintedCharacter('a')));
    assert_eq!(it.next(), Some(RenderElement::PrintedCharacter('b')));
    assert_eq!(it.next(), Some(RenderElement::PrintedCharacter('c')));
    assert_eq!(it.pos, 6);
    assert_eq!(it.next(), None);
}

#[test]
fn unknown_escapes_are_ignored() {
    let mut it = line(Parser::parse("a\x1b[2Jb\x1bzc"), 60, LeftAligned.space_policy());
    assert_eq!(it.collect_line(), chars("abzc"));
}

#[test]
fn carriage_return_keeps_the_line() {
    let mut first = line(Parser::parse("O\rX"), 18, RightAligned.space_policy());
    assert_eq!(first.collect_line(), chars("O"));
    assert_eq!(first.remaining_token(), Some(Token::CarriageReturn));
    assert_eq!(first.cursor.y, 0);
    let mut second = next_line(first);
    assert_eq!(second.collect_line(), chars("X"));
}

#[test]
fn new_line_moves_down() {
    let mut first = line(Parser::parse("a\nb"), 18, LeftAligned.space_policy());
    assert_eq!(first.collect_line(), chars("a"));
    assert_eq!(first.remaining_token(), Some(Token::NewLine));
    assert_eq!(first.cursor.y, 8);
}

#[test]
fn tokenizer_splits_text() {
    let mut p = Parser::parse("ab  c\t\n\r\u{ad}\u{200b}\u{a0}x\x1b[92m");
    assert_eq!(p.next(), Some(Token::Word(0, 2)));
    assert_eq!(p.next(), Some(Token::Whitespace(2)));
    assert_eq!(p.next(), Some(Token::Word(4, 5)));
    assert_eq!(p.next(), Some(Token::Tab));
    assert_eq!(p.next(), Some(Token::NewLine));
    assert_eq!(p.next(), Some(Token::CarriageReturn));
    assert_eq!(p.next(), Some(Token::Break(Some('-'))));
    assert_eq!(p.next(), Some(Token::Break(None)));
    assert_eq!(p.next(), Some(Token::Word(10, 12)));
    assert_eq!(
        p.next(),
        Some(Token::EscapeSequence(Escape {
            start: 12,
            end: 17,
            kind: EscapeKind::Graphics
        }))
    );
    assert_eq!(p.next(), None);
    assert!(p.is_empty());
}

#[test]
fn tokenizer_reads_cursor_moves() {
    let mut p = Parser::parse("\x1b[3C\x1b[D");
    assert_eq!(
        p.next(),
        Some(Token::EscapeSequence(Escape {
            start: 0,
            end: 4,
            kind: EscapeKind::Forward(3)
        }))
    );
    assert_eq!(
        p.next(),
        Some(Token::EscapeSequence(Escape {
            start: 4,
            end: 7,
            kind: EscapeKind::Backward(1)
        }))
    );
}

#[test]
fn line_cursor_moves() {
    let mut c = LineCursor::new(30, 24);
    assert_eq!(c.move_cursor(10), Ok(10));
    assert_eq!(c.space(), 20);
    assert_eq!(c.move_cursor(30), Err(20));
    assert_eq!(c.move_cursor(-5), Ok(-5));
    assert_eq!(c.move_cursor(-10), Err(-5));
    assert_eq!(c.position, 5);
    assert_eq!(c.next_tab_width(), 19);
    assert!(c.fits_in_line(25));
    assert!(!c.fits_in_line(26));
    assert!(c.advance(25));
    assert!(!c.advance(1));
    assert!(c.rewind(30));
    assert_eq!(c.pos(), Point::new(0, 0));
    assert_eq!(c.line_width(), 30);
    c.advance_unchecked(7);
    c.carriage_return();
    assert_eq!(c.position, 0);
}

#[test]
fn cursor_line_spacing_and_display_area() {
    let mut c = Cursor::new(
        Rectangle::new(Point::new(0, 0), Size::new(10, 50)),
        20,
        LineHeight::Percent(150),
        24,
    );
    assert_eq!(c.line_spacing, 30);
    assert_eq!(c.line_height(), 20);
    assert!(c.in_display_area());
    c.new_line();
    assert_eq!(c.y, 30);
    assert!(c.in_display_area());
    c.new_line();
    assert!(!c.in_display_area());
    assert_eq!(c.line().start, Point::new(0, 60));
    assert_eq!(c.line_width(), 10);
    assert_eq!(c.top_left(), Point::new(0, 0));
}

#[test]
fn absolute_line_heights() {
    assert_eq!(LineHeight::Percent(150).to_absolute(20), 30);
    assert_eq!(LineHeight::Pixels(7).to_absolute(20), 7);
}

#[test]
fn bottom_right_corner() {
    let r = Rectangle::new(Point::new(2, 3), Size::new(10, 20));
    assert_eq!(r.bottom_right(), Some(Point::new(11, 22)));
    let empty = Rectangle::new(Point::new(2, 3), Size::new(0, 20));
    assert_eq!(empty.bottom_right(), None);
    let c = Cursor::new(empty, 8, LineHeight::Pixels(8), 24);
    assert_eq!(c.bottom_right(), Point::new(2, 3));
}

#[test]
fn uniform_space_widths() {
    let mut config = UniformSpaceConfig::new(6);
    assert_eq!(config.peek_next_width(3), 18);
    assert_eq!(config.consume(3), 18);
    assert_eq!(config.peek_next_width(0), 0);
}

#[test]
fn long_first_word_is_split_over_lines() {
    let mut first = line(Parser::parse("somereallylongword"), 54, RightAligned.space_policy());
    assert_eq!(first.collect_line(), chars("somereall"));
    let mut second = next_line(first);
    assert_eq!(second.collect_line(), chars("ylongword"));
}

fn right_aligned_lines(text: &str, width: u32) -> Vec<(u32, Vec<RenderElement>)> {
    let mut it = line(Parser::parse(text), width, RightAligned.space_policy());
    let mut out = Vec::new();
    loop {
        let measured = it.measure_line().width as u32;
        let (offset, _) = RightAligned.place_line(
            LineMeasurement {
                max_line_width: width,
                width: measured,
            },
            6,
        );
        let elements = it.collect_line();
        assert_eq!(width_of(&elements), measured);
        out.push((offset, elements));
        if it.parser.is_empty() && it.remaining_token().is_none() {
            break;
        }
        it = next_line(it);
    }
    out
}

#[test]
fn right_aligned_single_word_offset() {
    assert_eq!(right_aligned_lines("word", 36), vec![(12, chars("word"))]);
}

#[test]
fn right_aligned_wrapped_words_offsets() {
    assert_eq!(
        right_aligned_lines("word wrapping", 54),
        vec![(30, chars("word")), (6, chars("wrapping"))]
    );
}

#[test]
fn right_aligned_long_word_offsets() {
    assert_eq!(
        right_aligned_lines("word  somereallylongword", 54),
        vec![(30, chars("word")), (0, chars("somereall")), (0, chars("ylongword"))]
    );
}

#[test]
fn right_aligned_soft_hyphen_offsets() {
    assert_eq!(
        right_aligned_lines("soft\u{AD}hyphen", 36),
        vec![(6, chars("soft-")), (0, chars("hyphen"))]
    );
}

#[test]
fn measuring_leaves_the_line_unchanged() {
    let mut it = line(Parser::parse("ab cd"), 60, LeftAligned.space_policy());
    let size = it.measure_line();
    assert_eq!(size.width, 30);
    assert_eq!(size.spaces, 1);
    assert!(!size.wrapped);
    assert_eq!(it.measure_line(), size);
    let mut expected = chars("ab");
    expected.push(RenderElement::Space(6, 1));
    expected.extend(chars("cd"));
    assert_eq!(it.collect_line(), expected);
}

#[test]
fn measuring_reports_a_wrap() {
    let mut it = line(Parser::parse("ab cd ef"), 30, RightAligned.space_policy());
    let size = it.measure_line();
    assert_eq!(size.width, 30);
    assert_eq!(size.spaces, 1);
    assert!(size.wrapped);
}

#[test]
fn justified_space_widths() {
    let mut config = JustifiedSpaceConfig::new(6, 2);
    assert_eq!(config.peek_next_width(3), 20);
    assert_eq!(config.consume(1), 7);
    assert_eq!(config, JustifiedSpaceConfig::new(6, 1));
    assert_eq!(config.peek_next_width(2), 13);
    assert_eq!(config.consume(2), 13);
    assert_eq!(config.peek_next_width(2), 12);
}

#[test]
fn justified_placement_fills_the_line() {
    let m = LineMeasurement {
        max_line_width: 60,
        width: 45,
    };
    let (offset, config) = Justified.place_line(m, 6, 2, true);
    assert_eq!(offset, 0);
    assert_eq!(config, JustifiedSpaceConfig::new(13, 1));
    assert_eq!(45 - 12 + config.peek_next_width(2), 60);
    let (_, last) = Justified.place_line(m, 6, 2, false);
    assert_eq!(last, JustifiedSpaceConfig::new(6, 0));
}

#[test]
fn justified_lines_fill_the_box() {
    let width = 60;
    let mut it = line(Parser::parse("aa bb cc dd"), width, Justified.space_policy());
    let mut lines = Vec::new();
    loop {
        let size = it.measure_line();
        let (_, config) = Justified.place_line(
            LineMeasurement {
                max_line_width: width,
                width: size.width as u32,
            },
            6,
            size.spaces as u32,
            size.wrapped,
        );
        let mut justified = it.with_config(config);
        lines.push(justified.collect_line());
        if justified.parser.is_empty() && justified.remaining_token().is_none() {
            break;
        }
        it = justified.with_config(UniformSpaceConfig::new(6)).next_line();
    }
    let mut first = chars("aa");
    first.push(RenderElement::Space(12, 1));
    first.extend(chars("bb"));
    first.push(RenderElement::Space(12, 1));
    first.extend(chars("cc"));
    assert_eq!(width_of(&first), 60);
    assert_eq!(lines, vec![first, chars("dd")]);
}

#[test]
fn soft_hyphen_in_a_box_exactly_wide_enough() {
    let mut first = line(Parser::parse("sam\u{00AD}ple"), 4 * 6, LeftAligned.space_policy());
    assert_eq!(first.collect_line(), chars("sam-"));
    let mut second = next_line(first);
    assert_eq!(second.collect_line(), chars("ple"));
}

#[test]
fn spaces_that_exactly_fill_the_line_are_drawn() {
    let mut it = line(Parser::parse("ab  "), 24, LeftAligned.space_policy());
    let mut expected = chars("ab");
    expected.push(RenderElement::Space(12, 2));
    assert_eq!(it.collect_line(), expected);
    assert_eq!(it.remaining_token(), None);
}
