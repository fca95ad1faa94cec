use granite::boxes::{pad_bg, render_box, BoxStyle, StyledLine, StyledSpan, TextStyle, PAD};
use ratatui::style::Color;

fn plain() -> TextStyle<Color> {
    TextStyle { fg: None, bg: None, add_modifier: 0, sub_modifier: 0 }
}

fn texts(line: &StyledLine<Color>) -> Vec<String> {
    line.spans.iter().map(|s| s.text.clone()).collect()
}

fn style(title: Option<&str>) -> BoxStyle<Color> {
    BoxStyle { border_color: Color::Blue, bg: Color::Black, title: title.map(|t| t.to_string()) }
}

#[test]
fn empty_box_has_borders_and_blank_line() {
    let lines = render_box(Vec::new(), &style(Some("t")), 20);
    assert_eq!(lines.len(), 3);
    assert_eq!(texts(&lines[0]), vec![PAD.to_string(), "┌─ t ─".to_string(), " ".repeat(7)]);
    assert_eq!(texts(&lines[1]), vec![PAD.to_string(), "└─".to_string(), " ".repeat(11)]);
    assert!(lines[2].spans.is_empty());
    let border = TextStyle { fg: Some(Color::Blue), bg: Some(Color::Black), add_modifier: 0, sub_modifier: 0 };
    assert_eq!(lines[0].spans[1].style, border);
    assert_eq!(lines[0].spans[2].style, TextStyle { bg: Some(Color::Black), ..plain() });
}

#[test]
fn body_lines_get_border_and_background() {
    let body = vec![StyledLine {
        spans: vec![StyledSpan {
            text: "hi".to_string(),
            style: TextStyle { fg: Some(Color::Red), bg: None, add_modifier: 1, sub_modifier: 0 },
        }],
    }];
    let lines = render_box(body, &style(None), 20);
    assert_eq!(lines.len(), 4);
    assert_eq!(texts(&lines[0]), vec![PAD.to_string(), "┌─".to_string(), " ".repeat(11)]);
    assert_eq!(texts(&lines[1]), vec![PAD.to_string(), "│ ".to_string(), "hi".to_string(), " ".repeat(9)]);
    assert_eq!(
        lines[1].spans[2].style,
        TextStyle { fg: Some(Color::Red), bg: Some(Color::Black), add_modifier: 1, sub_modifier: 0 }
    );
}

#[test]
fn narrow_box_is_not_padded() {
    let lines = render_box(Vec::new(), &style(None), 5);
    assert_eq!(texts(&lines[0]), vec![PAD.to_string(), "┌─".to_string()]);
    let line = pad_bg(StyledLine { spans: vec![StyledSpan { text: "abc".to_string(), style: plain() }] }, 2, Color::Black);
    assert_eq!(texts(&line), vec!["abc".to_string()]);
}

#[test]
fn wide_characters_count_double() {
    let line = pad_bg(StyledLine { spans: vec![StyledSpan { text: "日本".to_string(), style: plain() }] }, 10, Color::Black);
    assert_eq!(texts(&line), vec!["日本".to_string(), " ".repeat(3)]);
}

#[test]
fn every_framed_line_fills_the_box_width() {
    let body = vec![
        StyledLine { spans: vec![StyledSpan { text: "short".to_string(), style: plain() }] },
        StyledLine { spans: vec![StyledSpan { text: "日本語".to_string(), style: plain() }] },
    ];
    let lines = render_box(body, &style(Some("tool")), 30);
    assert_eq!(lines.len(), 5);
    for line in &lines[..4] {
        let width: usize = line.spans.iter().map(|s| ratatui::text::Span::raw(s.text.as_str()).width()).sum();
        assert_eq!(width, 27);
    }
}
