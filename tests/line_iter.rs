use embedded_text::alignment::LeftAligned;
use embedded_text::cursor::Cursor;
use embedded_text::geometry::{LineHeight, Point, Rectangle, Size};
use embedded_text::line_iter::{LineElementIterator, MonoMetrics, RenderElement};
use embedded_text::parser::Parser;
use embedded_text::space_config::UniformSpaceConfig;

const FONT_6X8: MonoMetrics = MonoMetrics {
    character_width: 6,
    character_spacing: 0,
};

fn cursor(width: u32, height: u32) -> Cursor {
    Cursor::new(
        Rectangle::new(Point::zero(), Size::new(width, height)),
        8,
        LineHeight::Percent(100),
        4 * 6,
    )
}

fn first_line(text: &str, width: u32, height: u32) -> LineElementIterator<UniformSpaceConfig> {
    LineElementIterator::new(
        Parser::parse(text),
        cursor(width, height),
        UniformSpaceConfig::new(6),
        None,
        LeftAligned.space_policy(),
        FONT_6X8,
    )
}

fn next_line(
    prev: LineElementIterator<UniformSpaceConfig>,
) -> LineElementIterator<UniformSpaceConfig> {
    LineElementIterator::new(
        prev.parser,
        prev.cursor,
        prev.config,
        prev.carried,
        prev.policy,
        prev.font,
    )
}

#[test]
fn soft_hyphen_no_wrapping() {
    let mut iter = first_line("sam\u{00AD}ple", 6 * 6, 8);

    assert_eq!(
        iter.collect_line(),
        vec![
            RenderElement::PrintedCharacter('s'),
            RenderElement::PrintedCharacter('a'),
            RenderElement::PrintedCharacter('m'),
            RenderElement::PrintedCharacter('p'),
            RenderElement::PrintedCharacter('l'),
            RenderElement::PrintedCharacter('e'),
        ]
    );
}

#[test]
fn soft_hyphen() {
    let mut line1 = first_line("sam\u{00AD}ple", 6 * 6 - 1, 16);

    assert_eq!(
        line1.collect_line(),
        vec![
            RenderElement::PrintedCharacter('s'),
            RenderElement::PrintedCharacter('a'),
            RenderElement::PrintedCharacter('m'),
            RenderElement::PrintedCharacter('-'),
        ]
    );

    assert_eq!(
        Point::new(line1.line.position as i32, line1.cursor.y),
        Point::new(0, 8)
    );

    let mut line2 = next_line(line1);

    assert_eq!(
        line2.collect_line(),
        vec![
            RenderElement::PrintedCharacter('p'),
            RenderElement::PrintedCharacter('l'),
            RenderElement::PrintedCharacter('e'),
        ]
    );
}

#[test]
fn soft_hyphen_issue_42() {
    let mut line1 = first_line(
        "super\u{AD}cali\u{AD}fragi\u{AD}listic\u{AD}espeali\u{AD}docious",
        5 * 6,
        16,
    );

    assert_eq!(
        line1.collect_line(),
        vec![
            RenderElement::PrintedCharacter('s'),
            RenderElement::PrintedCharacter('u'),
            RenderElement::PrintedCharacter('p'),
            RenderElement::PrintedCharacter('e'),
            RenderElement::PrintedCharacter('r'),
        ]
    );

    assert_eq!(
        Point::new(line1.line.position as i32, line1.cursor.y),
        Point::new(0, 8)
    );

    let mut line2 = next_line(line1);

    assert_eq!(
        line2.collect_line(),
        vec![
            RenderElement::PrintedCharacter('-'),
            RenderElement::PrintedCharacter('c'),
            RenderElement::PrintedCharacter('a'),
            RenderElement::PrintedCharacter('l'),
            RenderElement::PrintedCharacter('i'),
        ]
    );
}

#[test]
fn nbsp_is_rendered_as_space() {
    let text = "glued\u{a0}words";
    let mut line = first_line(text, text.chars().count() as u32 * 6, 16);

    assert_eq!(
        line.collect_line(),
        vec![
            RenderElement::PrintedCharacter('g'),
            RenderElement::PrintedCharacter('l'),
            RenderElement::PrintedCharacter('u'),
            RenderElement::PrintedCharacter('e'),
            RenderElement::PrintedCharacter('d'),
            RenderElement::Space(6, 1),
            RenderElement::PrintedCharacter('w'),
            RenderElement::PrintedCharacter('o'),
            RenderElement::PrintedCharacter('r'),
            RenderElement::PrintedCharacter('d'),
            RenderElement::PrintedCharacter('s'),
        ]
    );
}

#[test]
fn tabs() {
    let text = "a\tword\nand\t\tanother\t";
    let mut line = first_line(text, 16 * 6, 16);

    assert_eq!(
        line.collect_line(),
        vec![
            RenderElement::PrintedCharacter('a'),
            RenderElement::Space(6 * 3, 0),
            RenderElement::PrintedCharacter('w'),
            RenderElement::PrintedCharacter('o'),
            RenderElement::PrintedCharacter('r'),
            RenderElement::PrintedCharacter('d'),
        ]
    );

    let mut line = next_line(line);

    assert_eq!(
        line.collect_line(),
        vec![
            RenderElement::PrintedCharacter('a'),
            RenderElement::PrintedCharacter('n'),
            RenderElement::PrintedCharacter('d'),
            RenderElement::Space(6, 0),
            RenderElement::Space(6 * 4, 0),
            RenderElement::PrintedCharacter('a'),
            RenderElement::PrintedCharacter('n'),
            RenderElement::PrintedCharacter('o'),
            RenderElement::PrintedCharacter('t'),
            RenderElement::PrintedCharacter('h'),
            RenderElement::PrintedCharacter('e'),
            RenderElement::PrintedCharacter('r'),
            RenderElement::Space(6, 0),
        ]
    );
}

#[test]
fn colors() {
    let text = "Lorem \x1b[92mIpsum";
    let mut line1 = first_line(text, 100 * 6, 16);

    assert_eq!(
        line1.collect_line(),
        vec![
            RenderElement::PrintedCharacter('L'),
            RenderElement::PrintedCharacter('o'),
            RenderElement::PrintedCharacter('r'),
            RenderElement::PrintedCharacter('e'),
            RenderElement::PrintedCharacter('m'),
            RenderElement::Space(6, 1),
            RenderElement::StyleChange(6, 11),
            RenderElement::PrintedCharacter('I'),
            RenderElement::PrintedCharacter('p'),
            RenderElement::PrintedCharacter('s'),
            RenderElement::PrintedCharacter('u'),
            RenderElement::PrintedCharacter('m'),
        ]
    );
}

#[test]
fn ansi_code_does_not_break_word() {
    let text = "Lorem foo\x1b[92mbarum";
    let mut line = first_line(text, 8 * 6, 16);

    assert_eq!(
        line.collect_line(),
        vec![
            RenderElement::PrintedCharacter('L'),
            RenderElement::PrintedCharacter('o'),
            RenderElement::PrintedCharacter('r'),
            RenderElement::PrintedCharacter('e'),
            RenderElement::PrintedCharacter('m'),
        ]
    );

    let mut line = next_line(line);

    assert_eq!(
        line.collect_line(),
        vec![
            RenderElement::PrintedCharacter('f'),
            RenderElement::PrintedCharacter('o'),
            RenderElement::PrintedCharacter('o'),
            RenderElement::StyleChange(9, 14),
            RenderElement::PrintedCharacter('b'),
            RenderElement::PrintedCharacter('a'),
            RenderElement::PrintedCharacter('r'),
            RenderElement::PrintedCharacter('u'),
            RenderElement::PrintedCharacter('m'),
        ]
    );
}
