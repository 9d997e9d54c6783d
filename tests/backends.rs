use native_menu::app_menu::{app_menu_entries, item_state, menu_item, AppMenuEntry, Modifiers, SystemAction};
use native_menu::menu::Menu;
use native_menu::win32::{dropdown_flags, entry_flags, item_flags, separator_flags, wide_text};

#[test]
fn item_flag_words() {
    assert_eq!(item_flags(None, true), 0);
    assert_eq!(item_flags(None, false), 1);
    assert_eq!(item_flags(Some(true), true), 8);
    assert_eq!(item_flags(Some(true), false), 9);
    assert_eq!(item_flags(Some(false), true), 0);
}

#[test]
fn dropdown_and_separator_flag_words() {
    assert_eq!(dropdown_flags(true), 0x10);
    assert_eq!(dropdown_flags(false), 0x11);
    assert_eq!(separator_flags(), 0x800);
}

#[test]
fn entry_flag_words() {
    let mut m = Menu::new();
    m.add_item(1, "Open", None, true);
    m.add_separator();
    m.add_item(2, "Exit", Some(true), false);
    m.add_dropdown(Menu::new_for_popup(), "More", false);
    let flags: Vec<u32> = m.entries().iter().map(entry_flags).collect();
    assert_eq!(flags, vec![0, 0x800, 9, 0x11]);
}

#[test]
fn wide_text_ascii() {
    assert_eq!(wide_text("Open"), vec![0x4F, 0x70, 0x65, 0x6E, 0]);
    assert_eq!(wide_text(""), vec![0]);
}

#[test]
fn wide_text_surrogate_pair() {
    assert_eq!(wide_text("é\u{1F600}"), vec![0xE9, 0xD83D, 0xDE00, 0]);
}

fn command(e: &AppMenuEntry) -> (&str, SystemAction, Option<(&str, Option<Modifiers>)>) {
    match e {
        AppMenuEntry::Command(c) => (
            c.title.as_str(),
            c.action,
            c.key_equivalent.as_ref().map(|k| (k.key.as_str(), k.masks)),
        ),
        AppMenuEntry::Separator => panic!("not a command"),
    }
}

#[test]
fn application_menu_layout() {
    let v = app_menu_entries("Demo");
    assert_eq!(v.len(), 7);
    assert_eq!(command(&v[0]), ("About Demo", SystemAction::About, None));
    assert!(matches!(v[1], AppMenuEntry::Separator));
    assert_eq!(command(&v[2]), ("Hide Demo", SystemAction::Hide, Some(("h", None))));
    assert_eq!(
        command(&v[3]),
        (
            "Hide Others",
            SystemAction::HideOthers,
            Some(("h", Some(Modifiers { alternate: true, command: true })))
        )
    );
    assert_eq!(command(&v[4]), ("Show All", SystemAction::ShowAll, None));
    assert!(matches!(v[5], AppMenuEntry::Separator));
    assert_eq!(command(&v[6]), ("Quit Demo", SystemAction::Quit, Some(("q", None))));
}

#[test]
fn selector_names() {
    assert_eq!(SystemAction::About.selector_name(), "orderFrontStandardAboutPanel:");
    assert_eq!(SystemAction::Hide.selector_name(), "hide:");
    assert_eq!(SystemAction::HideOthers.selector_name(), "hideOtherApplications:");
    assert_eq!(SystemAction::ShowAll.selector_name(), "unhideAllApplications:");
    assert_eq!(SystemAction::Quit.selector_name(), "terminate:");
}

#[test]
fn single_command_entry() {
    let e = menu_item("Go".to_string(), SystemAction::ShowAll, Some(("g", None)));
    assert_eq!(command(&e), ("Go", SystemAction::ShowAll, Some(("g", None))));
}

#[test]
fn check_mark_states() {
    assert_eq!(item_state(Some(true)), 1);
    assert_eq!(item_state(Some(false)), 0);
    assert_eq!(item_state(None), 0);
}
