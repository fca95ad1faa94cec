use granite::chat::{HistoryEntry, Speaker};
use granite::screen::{checked_height, entry_line_count, height, history_line_count, history_scroll, text_lines};
use granite::tools::{ConfirmRequest, ToolRisk};

fn entry(speaker: Speaker, text: &str) -> HistoryEntry {
    HistoryEntry { speaker, text: text.to_string() }
}

#[test]
fn plain_lines_are_counted_like_str_lines() {
    for s in ["", "a", "a\n", "a\nb", "a\n\nb\n", "\n", "\n\n", "x\r\ny"] {
        assert_eq!(text_lines(s), s.lines().count(), "{s:?}");
    }
}

#[test]
fn entries_take_header_body_and_blank_line() {
    assert_eq!(entry_line_count(&entry(Speaker::User, "hi")), 3);
    assert_eq!(entry_line_count(&entry(Speaker::Error, "a\nb")), 4);
    assert_eq!(entry_line_count(&entry(Speaker::Info, "")), 2);
    let md = "# Heading\n\ntext";
    let rendered = tui_markdown::from_str(md).lines.len();
    assert_eq!(entry_line_count(&entry(Speaker::Agent, md)), rendered + 2);
}

#[test]
fn history_lines_add_up() {
    let h = vec![entry(Speaker::User, "hi"), entry(Speaker::Error, "a\nb")];
    assert_eq!(history_line_count(&h), 7);
    assert_eq!(history_line_count(&[]), 0);
}

#[test]
fn scroll_follows_the_bottom() {
    assert_eq!(history_scroll(30, 10, 0), 20);
    assert_eq!(history_scroll(30, 10, 5), 15);
    assert_eq!(history_scroll(30, 10, 50), 0);
    assert_eq!(history_scroll(5, 10, 0), 0);
}

#[test]
fn confirm_box_height_is_capped() {
    let request = ConfirmRequest {
        tool_name: "bash".to_string(),
        risk: ToolRisk::Dangerous,
        detail: "rm -rf build".to_string(),
    };
    let md = tui_markdown::from_str("rm -rf build").lines.len() as u16;
    assert_eq!(height(&request, 80, 100), md + 4);
    assert_eq!(height(&request, 80, 3), 3);
    assert_eq!(checked_height(&request, 80, 100), Some(md + 4));
}

#[test]
fn confirm_box_height_grows_with_the_allowance_and_ignores_width() {
    let request = ConfirmRequest {
        tool_name: "write_file".to_string(),
        risk: ToolRisk::Mutating,
        detail: "line one\n\nline two".to_string(),
    };
    let full = height(&request, 80, u16::MAX);
    for m in 0..full + 3 {
        assert!(height(&request, 80, m) <= m);
        assert!(height(&request, 80, m) <= height(&request, 80, m + 1));
        assert_eq!(height(&request, 0, m), height(&request, 200, m));
    }
}
