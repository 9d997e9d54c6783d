//! The conventional application menu (About, Hide, Hide Others, Show All,
//! Quit) built from the process name, for backends that install one.
use vstd::prelude::*;
use vstd::string::StringExecFns;

verus! {

/// A standard command that the platform performs itself.
#[derive(Clone, Copy, Debug, PartialEq, Eq, Structural)]
pub enum SystemAction {
    About,
    Hide,
    HideOthers,
    ShowAll,
    Quit,
}

impl SystemAction {
    /// The name of the platform action selector that performs this command.
    pub open spec fn selector_spec(self) -> &'static str {
        match self {
            SystemAction::About => "orderFrontStandardAboutPanel:",
            SystemAction::Hide => "hide:",
            SystemAction::HideOthers => "hideOtherApplications:",
            SystemAction::ShowAll => "unhideAllApplications:",
            SystemAction::Quit => "terminate:",
        }
    }

    /// The name of the platform action selector that performs this command.
    pub fn selector_name(&self) -> (r: &'static str)
        ensures
            r == self.selector_spec(),
    {
        match self {
            SystemAction::About => "orderFrontStandardAboutPanel:",
            SystemAction::Hide => "hide:",
            SystemAction::HideOthers => "hideOtherApplications:",
            SystemAction::ShowAll => "unhideAllApplications:",
            SystemAction::Quit => "terminate:",
        }
    }
}

/// Modifier keys that replace the platform's default (Command alone).
#[derive(Clone, Copy, Debug, PartialEq, Eq, Structural)]
pub struct Modifiers {
    pub alternate: bool,
    pub command: bool,
}

/// A key equivalent: the key, and the modifiers when not the default.
pub struct KeyEquivalent {
    pub key: String,
    pub masks: Option<Modifiers>,
}

/// A command entry of the application menu.
pub struct AppCommand {
    pub title: String,
    pub action: SystemAction,
    pub key_equivalent: Option<KeyEquivalent>,
}

/// One entry of the application menu.
pub enum AppMenuEntry {
    Command(AppCommand),
    Separator,
}

/// An application-menu entry with its strings as character sequences; a key
/// equivalent is a key and the modifiers that replace the default.
pub enum AppEntrySpec {
    Command { title: Seq<char>, action: SystemAction, key: Option<(Seq<char>, Option<Modifiers>)> },
    Separator,
}

impl View for AppMenuEntry {
    type V = AppEntrySpec;

    open spec fn view(&self) -> AppEntrySpec {
        match self {
            AppMenuEntry::Command(c) => AppEntrySpec::Command {
                title: c.title@,
                action: c.action,
                key: match c.key_equivalent {
                    Some(k) => Some((k.key@, k.masks)),
                    None => None,
                },
            },
            AppMenuEntry::Separator => AppEntrySpec::Separator,
        }
    }
}

/// The abstract form of an entry, as a function for `map_values`.
pub open spec fn app_entry_view(e: AppMenuEntry) -> AppEntrySpec {
    e@
}

/// The application menu for a process named `name`, top to bottom.
pub open spec fn app_menu_spec(name: Seq<char>) -> Seq<AppEntrySpec> {
    seq![
        AppEntrySpec::Command { title: "About "@ + name, action: SystemAction::About, key: None },
        AppEntrySpec::Separator,
        AppEntrySpec::Command {
            title: "Hide "@ + name,
            action: SystemAction::Hide,
            key: Some(("h"@, None)),
        },
        AppEntrySpec::Command {
            title: "Hide Others"@,
            action: SystemAction::HideOthers,
            key: Some(("h"@, Some(Modifiers { alternate: true, command: true }))),
        },
        AppEntrySpec::Command { title: "Show All"@, action: SystemAction::ShowAll, key: None },
        AppEntrySpec::Separator,
        AppEntrySpec::Command {
            title: "Quit "@ + name,
            action: SystemAction::Quit,
            key: Some(("q"@, None)),
        },
    ]
}

/// The check-mark state of an item in an AppKit menu: on (1) for a check
/// state of `Some(true)`, off (0) otherwise.
pub fn item_state(selected: Option<bool>) -> (r: isize)
    ensures
        r == (if selected == Some(true) { 1isize } else { 0isize }),
{
    match selected {
        Some(true) => 1,
        _ => 0,
    }
}

/// A command entry bound to `action`, with an optional key equivalent.
pub fn menu_item(title: String, action: SystemAction, key: Option<(&str, Option<Modifiers>)>) -> (r:
    AppMenuEntry)
    ensures
        r@ == (AppEntrySpec::Command {
            title: title@,
            action,
            key: match key {
                Some((k, m)) => Some((k@, m)),
                None => None,
            },
        }),
{
    let key_equivalent = match key {
        Some((k, masks)) => Some(KeyEquivalent { key: k.to_owned(), masks }),
        None => None,
    };
    AppMenuEntry::Command(AppCommand { title, action, key_equivalent })
}

/// `prefix` followed by `name`.
fn titled(prefix: &str, name: &str) -> (r: String)
    ensures
        r@ == prefix@ + name@,
{
    let mut t = prefix.to_owned();
    t.append(name);
    t
}

/// The entries of the application menu of a process named `process_name`.
pub fn app_menu_entries(process_name: &str) -> (r: Vec<AppMenuEntry>)
    ensures
        r@.map_values(|e: AppMenuEntry| app_entry_view(e)) == app_menu_spec(process_name@),
{
    let mut v: Vec<AppMenuEntry> = Vec::new();
    v.push(menu_item(titled("About ", process_name), SystemAction::About, None));
    v.push(AppMenuEntry::Separator);
    v.push(menu_item(titled("Hide ", process_name), SystemAction::Hide, Some(("h", None))));
    v.push(
        menu_item(
            "Hide Others".to_owned(),
            SystemAction::HideOthers,
            Some(("h", Some(Modifiers { alternate: true, command: true }))),
        ),
    );
    v.push(menu_item("Show All".to_owned(), SystemAction::ShowAll, None));
    v.push(AppMenuEntry::Separator);
    v.push(menu_item(titled("Quit ", process_name), SystemAction::Quit, Some(("q", None))));
    assert(v@.map_values(|e: AppMenuEntry| app_entry_view(e)) =~= app_menu_spec(process_name@));
    v
}

} // verus!
