use desk_todo::launch::{open_data_folder, open_in_editor, Argument, Desktop, Launch};
use desk_todo::notify::{escape_applescript, send_notification, TOAST_SCRIPT};
use desk_todo::text::{
    collapse, is_before, is_whitespace, number, padded_number, starts_with, to_ascii_lowercase, trim,
    truncate_chars,
};

#[test]
fn white_space_is_what_the_standard_library_takes_for_it() {
    for code in 0..=0x10ffffu32 {
        if let Some(c) = char::from_u32(code) {
            assert_eq!(is_whitespace(c), c.is_whitespace(), "{code:x}");
        }
    }
}

#[test]
fn texts_are_trimmed_and_collapsed() {
    for text in ["", " ", "a", "  a  b\t\nc ", "\u{3000}你 好\u{3000}", "x\u{a0}y"] {
        assert_eq!(trim(text), text.trim());
        assert_eq!(collapse(text), text.split_whitespace().collect::<Vec<_>>().join(" "));
        assert_eq!(to_ascii_lowercase(text), text.to_ascii_lowercase());
    }
    assert_eq!(to_ascii_lowercase("ÄB中Z"), "ÄB中Z".to_ascii_lowercase());
}

#[test]
fn texts_are_compared_as_the_standard_library_does() {
    let texts = ["", "2024-01-01", "2024-01-10", "2024-1", "a", "ab", "b", "中", "\u{10000}", "\u{ffff}"];
    for a in texts {
        for b in texts {
            assert_eq!(is_before(a, b), a < b);
            assert_eq!(starts_with(a, b), a.starts_with(b));
        }
    }
}

#[test]
fn small_numbers_have_texts() {
    for n in 0..100u32 {
        assert_eq!(padded_number(n), format!("{n:02}"));
        assert_eq!(number(n), n.to_string());
    }
    assert_eq!(padded_number(100), "");
    assert_eq!(number(100), "");
}

#[test]
fn long_texts_are_cut() {
    assert_eq!(truncate_chars("一二三", 3), "一二三");
    assert_eq!(truncate_chars("一二三四", 3), "一二三…");
    assert_eq!(truncate_chars("", 0), "");
    assert_eq!(truncate_chars("a", 0), "…");
}

#[test]
fn quotes_and_backslashes_are_escaped() {
    for text in ["", "a", "\"", "\\", "say \"hi\" \\ bye", "\\\"", "中\n"] {
        let expected = text.replace('\\', "\\\\").replace('"', "\\\"");
        assert_eq!(escape_applescript(text), expected);
    }
}

fn unescaped(text: &str) -> Option<String> {
    let mut plain = String::new();
    let mut chars = text.chars();
    while let Some(c) = chars.next() {
        match c {
            '"' => return None,
            '\\' => plain.push(chars.next()?),
            _ => plain.push(c),
        }
    }
    Some(plain)
}

#[test]
fn escaped_texts_read_back() {
    for text in ["", "\"", "\\", "\\\"\\", "a \"b\" c\\", "\" & x & \""] {
        assert_eq!(unescaped(&escape_applescript(text)).as_deref(), Some(text));
    }
}

fn shown(launch: &Launch) -> Vec<String> {
    launch
        .args
        .iter()
        .map(|a| match a {
            Argument::Text(t) => t.clone(),
            Argument::File => "<file>".to_string(),
        })
        .collect()
}

#[test]
fn linux_is_notified_with_notify_send() {
    let launch = send_notification(Desktop::Linux, "标题", "内容", true).unwrap();
    assert_eq!(launch.program, "notify-send");
    assert_eq!(
        shown(&launch),
        ["-a", "deskTodo", "-t", "10000", "-i", "<file>", "标题", "内容"]
    );
    assert!(launch.env.is_empty());
    let launch = send_notification(Desktop::Linux, "t", "b", false).unwrap();
    assert_eq!(shown(&launch), ["-a", "deskTodo", "-t", "10000", "t", "b"]);
}

#[test]
fn windows_is_notified_with_a_script() {
    let launch = send_notification(Desktop::Windows, "t", "b", true).unwrap();
    assert_eq!(launch.program, "powershell");
    assert_eq!(
        shown(&launch),
        ["-NoProfile", "-NonInteractive", "-ExecutionPolicy", "Bypass", "-Command", TOAST_SCRIPT]
    );
    let names: Vec<&str> = launch.env.iter().map(|v| v.name.as_str()).collect();
    assert_eq!(names, ["DESKTODO_TITLE", "DESKTODO_BODY", "DESKTODO_ICON"]);
    assert!(matches!(&launch.env[0].value, Argument::Text(t) if t == "t"));
    assert!(matches!(&launch.env[1].value, Argument::Text(t) if t == "b"));
    assert!(matches!(launch.env[2].value, Argument::File));
    assert_eq!(send_notification(Desktop::Windows, "t", "b", false).unwrap().env.len(), 2);
    assert!(TOAST_SCRIPT.contains("-Name 'IconUri'"));
}

#[test]
fn macos_is_notified_with_a_script() {
    let launch = send_notification(Desktop::Macos, "say \"x\"", "a\\b", true).unwrap();
    assert_eq!(launch.program, "osascript");
    assert_eq!(
        shown(&launch),
        ["-e", "display notification \"a\\\\b\" with title \"say \\\"x\\\"\""]
    );
    assert!(send_notification(Desktop::Other, "t", "b", true).is_none());
}

#[test]
fn files_and_folders_are_opened_by_the_desktop() {
    let programs: Vec<String> = [Desktop::Windows, Desktop::Macos, Desktop::Linux, Desktop::Other]
        .into_iter()
        .map(|d| open_data_folder(d).program)
        .collect();
    assert_eq!(programs, ["explorer", "open", "xdg-open", "xdg-open"]);
    assert_eq!(open_in_editor(Desktop::Windows).program, "notepad");
    assert_eq!(shown(&open_in_editor(Desktop::Macos)), ["-t", "<file>"]);
    assert_eq!(open_in_editor(Desktop::Linux).program, "xdg-open");
    assert_eq!(shown(&open_data_folder(Desktop::Linux)), ["<file>"]);
}
