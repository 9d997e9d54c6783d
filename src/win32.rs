//! What the Win32 backend hands to `AppendMenuW`: the flag word of each
//! entry and its label as a NUL-terminated UTF-16 string.
use vstd::prelude::*;

use crate::menu::{EntrySpec, MenuEntry};

verus! {

/// Relies on windows_sys's `MF_STRING`: the flag of a plain text entry (0).
#[verifier::external_body]
fn mf_string() -> (r: u32)
    ensures
        r == 0,
{
    windows_sys::Win32::UI::WindowsAndMessaging::MF_STRING
}

/// Relies on windows_sys's `MF_GRAYED`: the flag that shows an entry disabled (1).
#[verifier::external_body]
fn mf_grayed() -> (r: u32)
    ensures
        r == 1,
{
    windows_sys::Win32::UI::WindowsAndMessaging::MF_GRAYED
}

/// Relies on windows_sys's `MF_CHECKED`: the flag that shows a check mark (8).
#[verifier::external_body]
fn mf_checked() -> (r: u32)
    ensures
        r == 8,
{
    windows_sys::Win32::UI::WindowsAndMessaging::MF_CHECKED
}

/// Relies on windows_sys's `MF_POPUP`: the flag of an entry that opens a submenu (16).
#[verifier::external_body]
fn mf_popup() -> (r: u32)
    ensures
        r == 16,
{
    windows_sys::Win32::UI::WindowsAndMessaging::MF_POPUP
}

/// Relies on windows_sys's `MF_SEPARATOR`: the flag of a divider (0x800).
#[verifier::external_body]
fn mf_separator() -> (r: u32)
    ensures
        r == 0x800,
{
    windows_sys::Win32::UI::WindowsAndMessaging::MF_SEPARATOR
}

/// The UTF-16 code units of one character.
pub open spec fn utf16_units(c: char) -> Seq<u16> {
    let v = c as u32;
    if v < 0x10000 {
        seq![v as u16]
    } else {
        let w = (v - 0x10000) as int;
        seq![(0xD800 + w / 0x400) as u16, (0xDC00 + w % 0x400) as u16]
    }
}

/// A character sequence encoded as UTF-16.
pub open spec fn utf16_of(s: Seq<char>) -> Seq<u16>
    decreases s.len(),
{
    if s.len() == 0 {
        Seq::empty()
    } else {
        utf16_of(s.drop_last()) + utf16_units(s.last())
    }
}

/// Relies on `str::encode_utf16`: the string's UTF-16 encoding, unit by unit.
#[verifier::external_body]
fn encode_utf16(s: &str) -> (r: Vec<u16>)
    ensures
        r@ == utf16_of(s@),
{
    s.encode_utf16().collect()
}

/// A label as the window system takes it: UTF-16 followed by a NUL unit.
pub fn wide_text(s: &str) -> (r: Vec<u16>)
    ensures
        r@ == utf16_of(s@).push(0),
{
    let mut r = encode_utf16(s);
    r.push(0);
    r
}

/// The flag word of a leaf entry: disabled entries are grayed, and a check
/// state of `Some(true)` shows a check mark.
pub open spec fn item_flags_spec(selected: Option<bool>, enabled: bool) -> u32 {
    (if enabled { 0u32 } else { 1u32 }) | (if selected == Some(true) { 8u32 } else { 0u32 })
}

/// The flag word of an entry that opens a submenu.
pub open spec fn dropdown_flags_spec(enabled: bool) -> u32 {
    16u32 | (if enabled { 0u32 } else { 1u32 })
}

/// The flag word of each kind of entry.
pub open spec fn entry_flags_spec(e: EntrySpec) -> u32 {
    match e {
        EntrySpec::Item { selected, enabled, .. } => item_flags_spec(selected, enabled),
        EntrySpec::Separator => 0x800u32,
        EntrySpec::Dropdown { enabled, .. } => dropdown_flags_spec(enabled),
    }
}

/// The flags with which a leaf entry is appended.
pub fn item_flags(selected: Option<bool>, enabled: bool) -> (r: u32)
    ensures
        r == item_flags_spec(selected, enabled),
{
    let mut flags = mf_string();
    if !enabled {
        flags = flags | mf_grayed();
    }
    if let Some(true) = selected {
        flags = flags | mf_checked();
    }
    assert(0u32 | 0u32 == 0u32 && 0u32 | 1u32 == 1u32 && 0u32 | 8u32 == 8u32 && 1u32 | 0u32 == 1u32
        && 0u32 | 0u32 | 8u32 == 0u32 | 8u32 && 0u32 | 1u32 | 8u32 == 1u32 | 8u32) by (bit_vector);
    flags
}

/// The flags with which an entry that opens a submenu is appended.
pub fn dropdown_flags(enabled: bool) -> (r: u32)
    ensures
        r == dropdown_flags_spec(enabled),
{
    let mut flags = mf_popup();
    if !enabled {
        flags = flags | mf_grayed();
    }
    assert(16u32 | 0u32 == 16u32) by (bit_vector);
    flags
}

/// The flags with which a divider is appended.
pub fn separator_flags() -> (r: u32)
    ensures
        r == 0x800,
{
    mf_separator()
}

/// The flags with which `e` is appended.
pub fn entry_flags(e: &MenuEntry) -> (r: u32)
    ensures
        r == entry_flags_spec(e@),
{
    match e {
        MenuEntry::Item(it) => item_flags(it.selected, it.enabled),
        MenuEntry::Separator => separator_flags(),
        MenuEntry::Dropdown(s) => dropdown_flags(s.enabled),
    }
}

} // verus!
