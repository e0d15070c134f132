//! The windows.
use vstd::prelude::*;

verus! {

/// The mark of a window that lets the mouse through.
pub const WS_EX_TRANSPARENT: u64 = 0x0000_0020;

/// The mark of a layered window, which letting the mouse through needs.
pub const WS_EX_LAYERED: u64 = 0x0008_0000;

/// The style of the indicator window that lets the mouse through, or does not.
pub open spec fn style_with(style: u64, click_through: bool) -> u64 {
    if click_through {
        style | WS_EX_TRANSPARENT | WS_EX_LAYERED
    } else {
        (style | WS_EX_LAYERED) & !WS_EX_TRANSPARENT
    }
}

/// The style of the indicator window that lets the mouse through, or does not.
pub fn indicator_style(style: u64, click_through: bool) -> (r: u64)
    ensures
        r == style_with(style, click_through),
{
    if click_through {
        style | WS_EX_TRANSPARENT | WS_EX_LAYERED
    } else {
        (style | WS_EX_LAYERED) & !WS_EX_TRANSPARENT
    }
}

/// The window lets the mouse through exactly where it is to, it is layered, and nothing else
/// about it changes.
pub proof fn law_style_changes_two_marks(style: u64, click_through: bool)
    ensures
        (style_with(style, click_through) & WS_EX_TRANSPARENT != 0) == click_through,
        style_with(style, click_through) & WS_EX_LAYERED != 0,
        style_with(style, click_through) & !(WS_EX_TRANSPARENT | WS_EX_LAYERED) == style & !(
        WS_EX_TRANSPARENT | WS_EX_LAYERED),
{
    assert(((style | 0x20 | 0x80000) & 0x20 != 0) && (style | 0x20 | 0x80000) & 0x80000 != 0
        && (style | 0x20 | 0x80000) & !(0x20u64 | 0x80000u64) == style & !(0x20u64 | 0x80000u64))
        by (bit_vector);
    assert((((style | 0x80000) & !0x20u64) & 0x20 == 0) && ((style | 0x80000) & !0x20u64) & 0x80000
        != 0 && ((style | 0x80000) & !0x20u64) & !(0x20u64 | 0x80000u64) == style & !(0x20u64
        | 0x80000u64)) by (bit_vector);
}

/// A step of showing or hiding the indicator window.
#[derive(Clone, Copy, Debug, PartialEq, Eq, Structural)]
pub enum WindowStep {
    /// Give the window its small size.
    Collapse,
    /// Let the mouse through, or do not.
    ClickThrough(bool),
    /// Show the window without giving it the focus.
    Show,
    Hide,
}

/// The steps of showing the indicator window: it takes the mouse before it is seen.
pub fn show_indicator_steps() -> (r: Vec<WindowStep>)
    ensures
        r@ == seq![WindowStep::Collapse, WindowStep::ClickThrough(false), WindowStep::Show],
{
    let mut out: Vec<WindowStep> = Vec::new();
    out.push(WindowStep::Collapse);
    out.push(WindowStep::ClickThrough(false));
    out.push(WindowStep::Show);
    out
}

/// The steps of hiding the indicator window: it lets the mouse through before it goes.
pub fn hide_indicator_steps() -> (r: Vec<WindowStep>)
    ensures
        r@ == seq![WindowStep::ClickThrough(true), WindowStep::Hide],
{
    let mut out: Vec<WindowStep> = Vec::new();
    out.push(WindowStep::ClickThrough(true));
    out.push(WindowStep::Hide);
    out
}

} // verus!
