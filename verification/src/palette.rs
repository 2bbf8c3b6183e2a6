//! Official Attacca dark-mode color palette.

use vstd::prelude::*;

verus! {

/// A color: its red, green and blue.
pub type Color = (u8, u8, u8);

/// Background.
pub const BG: Color = (20, 16, 14);

/// Card background.
pub const CARD: Color = (29, 23, 21);

/// Popover background.
pub const POPOVER: Color = (37, 30, 27);

/// Foreground.
pub const TEXT: Color = (236, 231, 229);

/// Muted foreground.
pub const DIM: Color = (158, 142, 137);

/// Primary.
pub const P: Color = (204, 109, 92);

/// Primary foreground.
pub const P_FG: Color = (13, 9, 8);

/// Primary, dimmed.
pub const P_DIM: Color = (180, 85, 70);

/// Accent background.
pub const ACCENT_BG: Color = (62, 39, 35);

/// Destructive.
pub const DESTRUCTIVE: Color = (232, 88, 84);

/// Border: white at a low opacity over the background.
pub const BORDER: Color = (45, 42, 39);

pub const GREEN: Color = (90, 180, 115);

pub const YELLOW: Color = (220, 175, 65);

/// How many columns the sidebar takes.
pub const SIDEW: u16 = 28;

} // verus!
