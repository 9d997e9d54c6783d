use native_menu::accel::Accel;
use native_menu::menu::{Menu, MenuEntry};

fn item_of(e: &MenuEntry) -> (u32, &str, Option<bool>, bool) {
    match e {
        MenuEntry::Item(it) => (it.id, it.text.as_str(), it.selected, it.enabled),
        _ => panic!("not an item"),
    }
}

#[test]
fn new_menus_are_empty() {
    let a = Menu::new();
    let b = Menu::new_for_popup();
    let c = Menu::default();
    assert_eq!(a.len(), 0);
    assert_eq!(b.len(), 0);
    assert_eq!(c.len(), 0);
    assert!(!a.is_popup());
    assert!(b.is_popup());
    assert!(!c.is_popup());
    assert!(a.accels().is_none());
    assert!(b.accels().is_none());
}

#[test]
fn new_menus_accept_every_operation() {
    for mut m in [Menu::new(), Menu::new_for_popup()] {
        m.add_item(1, "a", None, true);
        m.add_separator();
        m.add_dropdown(Menu::new_for_popup(), "sub", true);
        m.add_accel(Accel { fvirt: 1, key: 0x41, cmd: 1 });
        assert_eq!(m.len(), 3);
        assert_eq!(m.accels().unwrap().len(), 1);
    }
}

#[test]
fn items_and_separator_in_order() {
    let mut a = Menu::new();
    a.add_item(1, "Open", None, true);
    a.add_separator();
    a.add_item(2, "Exit", None, false);
    let es = a.entries();
    assert_eq!(es.len(), 3);
    assert_eq!(item_of(&es[0]), (1, "Open", None, true));
    assert!(matches!(es[1], MenuEntry::Separator));
    assert_eq!(item_of(&es[2]), (2, "Exit", None, false));
}

#[test]
fn order_kept_without_dedup() {
    let mut m = Menu::new();
    m.add_item(7, "x", None, true);
    m.add_item(7, "x", None, true);
    m.add_separator();
    m.add_separator();
    m.add_dropdown(Menu::new(), "d", false);
    m.add_item(3, "y", Some(false), true);
    let es = m.entries();
    assert_eq!(es.len(), 6);
    assert_eq!(item_of(&es[0]), (7, "x", None, true));
    assert_eq!(item_of(&es[1]), (7, "x", None, true));
    assert!(matches!(es[2], MenuEntry::Separator));
    assert!(matches!(es[3], MenuEntry::Separator));
    match &es[4] {
        MenuEntry::Dropdown(s) => {
            assert_eq!(s.title, "d");
            assert!(!s.enabled);
            assert_eq!(s.menu.len(), 0);
        }
        _ => panic!("expected a submenu"),
    }
    assert_eq!(item_of(&es[5]), (3, "y", Some(false), true));
}

#[test]
fn dropdown_holds_checked_item() {
    let mut b = Menu::new();
    b.add_item(5, "Checked", Some(true), true);
    let mut parent = Menu::new();
    parent.add_dropdown(b, "File", true);
    let es = parent.entries();
    assert_eq!(es.len(), 1);
    match &es[0] {
        MenuEntry::Dropdown(s) => {
            assert_eq!(s.title, "File");
            assert!(s.enabled);
            let inner = s.menu.entries();
            assert_eq!(inner.len(), 1);
            let (id, _, selected, enabled) = item_of(&inner[0]);
            assert_eq!(id, 5);
            assert_eq!(selected, Some(true));
            assert!(enabled);
        }
        _ => panic!("expected a submenu"),
    }
}

#[test]
fn sibling_accels_gathered_at_root() {
    let a1 = Accel { fvirt: 0x09, key: 0x4F, cmd: 10 };
    let a2 = Accel { fvirt: 0x09, key: 0x53, cmd: 11 };
    let mut s1 = Menu::new_for_popup();
    s1.add_item(10, "Open", None, true);
    s1.add_accel(a1);
    let mut s2 = Menu::new_for_popup();
    s2.add_item(11, "Save", None, true);
    s2.add_accel(a2);
    let mut root = Menu::new();
    root.add_dropdown(s1, "File", true);
    root.add_dropdown(s2, "Edit", true);
    let mut got = root.accels().expect("two records");
    got.sort_by_key(|a| a.cmd);
    assert_eq!(got, vec![a1, a2]);
    match &root.entries()[0] {
        MenuEntry::Dropdown(s) => assert!(s.menu.accels().is_none()),
        _ => panic!("expected a submenu"),
    }
}

#[test]
fn nested_accels_reach_root() {
    let deep = Accel { fvirt: 1, key: 0x51, cmd: 3 };
    let mut leaf = Menu::new_for_popup();
    leaf.add_accel(deep);
    let mut mid = Menu::new_for_popup();
    mid.add_dropdown(leaf, "Leaf", true);
    let mut root = Menu::new();
    assert!(root.accels().is_none());
    root.add_dropdown(mid, "Mid", true);
    assert_eq!(root.accels(), Some(vec![deep]));
}

#[test]
fn empty_children_leave_no_table() {
    let mut root = Menu::new();
    root.add_dropdown(Menu::new(), "A", true);
    root.add_dropdown(Menu::new_for_popup(), "B", true);
    assert!(root.accels().is_none());
}

#[test]
fn child_accel_replaces_same_command() {
    let mut root = Menu::new();
    root.add_accel(Accel { fvirt: 1, key: 0x41, cmd: 4 });
    root.add_accel(Accel { fvirt: 1, key: 0x42, cmd: 8 });
    let mut child = Menu::new();
    let newer = Accel { fvirt: 5, key: 0x43, cmd: 4 };
    child.add_accel(newer);
    root.add_dropdown(child, "C", true);
    let mut got = root.accels().unwrap();
    got.sort_by_key(|a| a.cmd);
    assert_eq!(got, vec![newer, Accel { fvirt: 1, key: 0x42, cmd: 8 }]);
}

#[test]
fn add_accel_replaces_record() {
    let mut m = Menu::new();
    m.add_accel(Accel { fvirt: 1, key: 0x41, cmd: 2 });
    m.add_accel(Accel { fvirt: 3, key: 0x44, cmd: 2 });
    assert_eq!(m.accels(), Some(vec![Accel { fvirt: 3, key: 0x44, cmd: 2 }]));
}
