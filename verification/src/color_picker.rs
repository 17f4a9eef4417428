//! The highlight colour picker: its palette and which entry is chosen,
//! with the popup's open state.

use vstd::prelude::*;

verus! {

/// The palette, in display order: each entry's name and its colour as
/// `0xRRGGBB`.
pub open spec fn palette() -> Seq<(Seq<char>, u32)> {
    seq![
        ("Crimson"@, 0xE53935u32),
        ("Orange"@, 0xFB8C00u32),
        ("Amber"@, 0xFDD835u32),
        ("Lime"@, 0xC0CA33u32),
        ("Emerald"@, 0x43A047u32),
        ("Cyan"@, 0x00ACC1u32),
        ("Azure"@, 0x1E88E5u32),
        ("Violet"@, 0x8E24AAu32),
        ("Magenta"@, 0xD81B60u32),
    ]
}

/// The palette the picker offers.
pub fn color_options() -> (res: Vec<(&'static str, u32)>)
    ensures
        res@.len() == palette().len(),
        forall|k: int| 0 <= k < res@.len() ==> (#[trigger] res@[k]).0@ == palette()[k].0 && res@[k].1
            == palette()[k].1,
{
    let res = vec![
        ("Crimson", 0xE53935u32),
        ("Orange", 0xFB8C00u32),
        ("Amber", 0xFDD835u32),
        ("Lime", 0xC0CA33u32),
        ("Emerald", 0x43A047u32),
        ("Cyan", 0x00ACC1u32),
        ("Azure", 0x1E88E5u32),
        ("Violet", 0x8E24AAu32),
        ("Magenta", 0xD81B60u32),
    ];
    assert(res@.len() == 9);
    res
}

/// The colour of entry `index`, or of the first entry past the end.
pub open spec fn color_at(index: usize) -> u32 {
    if index < palette().len() {
        palette()[index as int].1
    } else {
        palette()[0].1
    }
}

/// The picker's state: open or not, the chosen entry, and whether it can
/// be used at all.
#[derive(Clone, Copy, Debug, PartialEq, Eq, Structural)]
pub struct ColorPicker {
    pub open: bool,
    pub selected: usize,
    pub enabled: bool,
}

impl ColorPicker {
    /// A closed, disabled picker on the first colour; also that colour.
    pub fn new() -> (res: (ColorPicker, u32))
        ensures
            res.0 == (ColorPicker { open: false, selected: 0, enabled: false }),
            res.1 == palette()[0].1,
    {
        let picker = ColorPicker { open: false, selected: 0, enabled: false };
        (picker, picker.selected_color())
    }

    /// The chosen colour; the first one when the choice is out of range.
    pub fn selected_color(&self) -> (res: u32)
        ensures
            res == color_at(self.selected),
    {
        let options = color_options();
        if self.selected < options.len() {
            options[self.selected].1
        } else {
            options[0].1
        }
    }

    /// Chooses entry `index`; returns the colour to publish when the
    /// choice changed.
    pub fn set_selected(&mut self, index: usize) -> (res: Option<u32>)
        ensures
            index == old(self).selected ==> res is None && *final(self) == *old(self),
            index != old(self).selected ==> res == Some(color_at(index))
                && *final(self) == (ColorPicker { selected: index, ..*old(self) }),
    {
        if self.selected == index {
            return None;
        }
        self.selected = index;
        Some(self.selected_color())
    }

    /// Opens or closes the popup; a disabled picker stays as it is.
    pub fn toggle_open(&mut self)
        ensures
            *final(self) == (if old(self).enabled {
                ColorPicker { open: !old(self).open, ..*old(self) }
            } else {
                *old(self)
            }),
    {
        if !self.enabled {
            return;
        }
        self.open = !self.open;
    }

    /// Enables or disables the picker; disabling closes the popup.
    pub fn set_enabled(&mut self, enabled: bool)
        ensures
            *final(self) == (if old(self).enabled == enabled {
                *old(self)
            } else if !enabled {
                ColorPicker { enabled, open: false, ..*old(self) }
            } else {
                ColorPicker { enabled, ..*old(self) }
            }),
    {
        if self.enabled == enabled {
            return;
        }
        self.enabled = enabled;
        if !self.enabled {
            self.open = false;
        }
    }

    /// Closes the popup.
    pub fn close(&mut self)
        ensures
            *final(self) == (ColorPicker { open: false, ..*old(self) }),
    {
        if self.open {
            self.open = false;
        }
    }

    /// Picks entry `index` from the popup, which then closes; returns the
    /// colour to publish when the choice changed.
    pub fn select(&mut self, index: usize) -> (res: Option<u32>)
        ensures
            *final(self) == (ColorPicker { open: false, selected: index, ..*old(self) }),
            res == (if index == old(self).selected {
                None
            } else {
                Some(color_at(index))
            }),
    {
        let published = self.set_selected(index);
        self.close();
        published
    }
}

} // verus!
