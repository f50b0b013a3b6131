use clipboard_tray::{tray_menu_layout, Bookmark, TrayMenuEntry};

fn header(entry: &TrayMenuEntry) -> Option<&str> {
    match entry {
        TrayMenuEntry::Header { text } => Some(text.as_str()),
        _ => None,
    }
}

fn bookmark(entry: &TrayMenuEntry) -> Option<(&str, &str)> {
    match entry {
        TrayMenuEntry::Bookmark { id, text } => Some((id.as_str(), text.as_str())),
        _ => None,
    }
}

fn history(entry: &TrayMenuEntry) -> Option<(&str, &str)> {
    match entry {
        TrayMenuEntry::History { id, text } => Some((id.as_str(), text.as_str())),
        _ => None,
    }
}

fn command(entry: &TrayMenuEntry) -> Option<(&str, &str)> {
    match entry {
        TrayMenuEntry::Command { id, text } => Some((id.as_str(), text.as_str())),
        _ => None,
    }
}

fn is_separator(entry: &TrayMenuEntry) -> bool {
    matches!(entry, TrayMenuEntry::Separator)
}

#[test]
fn menu_without_entries_has_its_six_fixed_lines() {
    let menu = tray_menu_layout(&Vec::new(), &Vec::new());
    assert_eq!(menu.len(), 6);
    assert_eq!(header(&menu[0]), Some("BOOKMARKS"));
    assert!(is_separator(&menu[1]));
    assert_eq!(header(&menu[2]), Some("CLIPBOARD"));
    assert!(is_separator(&menu[3]));
    assert_eq!(command(&menu[4]), Some(("show", "Settings")));
    assert_eq!(command(&menu[5]), Some(("quit", "Quit")));
}

#[test]
fn menu_with_bookmarks_and_history() {
    let pinned = vec![
        Bookmark { content: String::from("x") },
        Bookmark { content: String::from("a pinned text of more than thirty characters") },
    ];
    let recent = vec![
        String::from("hello"),
        String::from("this is a very long clipboard entry that exceeds thirty chars"),
        String::from("third"),
    ];
    let menu = tray_menu_layout(&pinned, &recent);
    assert_eq!(menu.len(), 2 + 3 + 6);
    assert_eq!(header(&menu[0]), Some("BOOKMARKS"));
    assert_eq!(bookmark(&menu[1]), Some(("item_bm_0", "x")));
    assert_eq!(bookmark(&menu[2]), Some(("item_bm_1", "a pinned text of more than thi...")));
    assert!(is_separator(&menu[3]));
    assert_eq!(header(&menu[4]), Some("CLIPBOARD"));
    assert_eq!(history(&menu[5]), Some(("item_0", "hello")));
    assert_eq!(history(&menu[6]), Some(("item_1", "this is a very long clipboard ...")));
    assert_eq!(history(&menu[7]), Some(("item_2", "third")));
    assert!(is_separator(&menu[8]));
    assert_eq!(command(&menu[9]), Some(("show", "Settings")));
    assert_eq!(command(&menu[10]), Some(("quit", "Quit")));
}

#[test]
fn menu_of_a_new_tray_shows_bookmarks_only() {
    let pinned = vec![Bookmark { content: String::from("kept") }];
    let menu = tray_menu_layout(&pinned, &Vec::new());
    assert_eq!(menu.len(), 7);
    assert_eq!(bookmark(&menu[1]), Some(("item_bm_0", "kept")));
    assert!(is_separator(&menu[2]));
    assert_eq!(header(&menu[3]), Some("CLIPBOARD"));
    assert!(is_separator(&menu[4]));
}

#[test]
fn sections_have_one_line_for_each_entry() {
    let pinned: Vec<Bookmark> =
        (0..13).map(|i| Bookmark { content: format!("pin {}", i) }).collect();
    let recent: Vec<String> = (0..21).map(|i| format!("copy {}", i)).collect();
    let menu = tray_menu_layout(&pinned, &recent);
    assert_eq!(menu.len(), 13 + 21 + 6);
    for i in 0..13 {
        let id = format!("item_bm_{}", i);
        let text = format!("pin {}", i);
        assert_eq!(bookmark(&menu[1 + i]), Some((id.as_str(), text.as_str())));
    }
    for i in 0..21 {
        let id = format!("item_{}", i);
        let text = format!("copy {}", i);
        assert_eq!(history(&menu[13 + 3 + i]), Some((id.as_str(), text.as_str())));
    }
}

#[test]
fn menu_of_one_bookmark_and_one_capture() {
    let pinned = vec![Bookmark { content: String::from("x") }];
    let recent = vec![String::from("hello")];
    assert_eq!(
        tray_menu_layout(&pinned, &recent),
        vec![
            TrayMenuEntry::Header { text: String::from("BOOKMARKS") },
            TrayMenuEntry::Bookmark { id: String::from("item_bm_0"), text: String::from("x") },
            TrayMenuEntry::Separator,
            TrayMenuEntry::Header { text: String::from("CLIPBOARD") },
            TrayMenuEntry::History { id: String::from("item_0"), text: String::from("hello") },
            TrayMenuEntry::Separator,
            TrayMenuEntry::Command { id: String::from("show"), text: String::from("Settings") },
            TrayMenuEntry::Command { id: String::from("quit"), text: String::from("Quit") },
        ]
    );
}
