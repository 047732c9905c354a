//! Color palettes of the interface themes.
use vstd::prelude::*;
use crate::config::ThemeName;

verus! {

/// A 24-bit color.
#[derive(Debug, Clone, Copy, PartialEq, Eq, Structural)]
pub struct Rgb(pub u8, pub u8, pub u8);

/// A complete color palette used throughout the TUI.
#[derive(Debug, Clone, Copy, PartialEq, Eq, Structural)]
pub struct Theme {
    pub bg: Rgb,
    pub bg2: Rgb,
    pub bg3: Rgb,
    pub bg_sel: Rgb,
    pub bright: Rgb,
    pub mid: Rgb,
    pub dim: Rgb,
    pub vdim: Rgb,
    pub accent: Rgb,
    pub accent2: Rgb,
    pub accent3: Rgb,
    pub green: Rgb,
    pub blue: Rgb,
    pub red: Rgb,
    pub yellow: Rgb,
    pub purple: Rgb,
    pub cyan: Rgb,
    pub orange: Rgb,
    pub teal: Rgb,
    pub pink: Rgb,
    pub match_hl: Rgb,
}

/// The `amber` palette.
pub open spec fn amber_palette() -> Theme {
    Theme {
        bg: Rgb(11, 11, 14),
        bg2: Rgb(16, 16, 22),
        bg3: Rgb(22, 22, 30),
        bg_sel: Rgb(18, 24, 42),
        bright: Rgb(226, 232, 240),
        mid: Rgb(148, 163, 184),
        dim: Rgb(71, 71, 90),
        vdim: Rgb(30, 30, 46),
        accent: Rgb(245, 158, 11),
        accent2: Rgb(180, 110, 5),
        accent3: Rgb(80, 48, 2),
        green: Rgb(74, 222, 128),
        blue: Rgb(96, 165, 250),
        red: Rgb(248, 113, 113),
        yellow: Rgb(250, 204, 21),
        purple: Rgb(167, 139, 250),
        cyan: Rgb(103, 232, 249),
        orange: Rgb(249, 115, 22),
        teal: Rgb(52, 211, 153),
        pink: Rgb(244, 114, 182),
        match_hl: Rgb(245, 158, 11),
    }
}

fn amber() -> (t: Theme)
    ensures
        t == amber_palette(),
{
    Theme {
        bg: Rgb(11, 11, 14),
        bg2: Rgb(16, 16, 22),
        bg3: Rgb(22, 22, 30),
        bg_sel: Rgb(18, 24, 42),
        bright: Rgb(226, 232, 240),
        mid: Rgb(148, 163, 184),
        dim: Rgb(71, 71, 90),
        vdim: Rgb(30, 30, 46),
        accent: Rgb(245, 158, 11),
        accent2: Rgb(180, 110, 5),
        accent3: Rgb(80, 48, 2),
        green: Rgb(74, 222, 128),
        blue: Rgb(96, 165, 250),
        red: Rgb(248, 113, 113),
        yellow: Rgb(250, 204, 21),
        purple: Rgb(167, 139, 250),
        cyan: Rgb(103, 232, 249),
        orange: Rgb(249, 115, 22),
        teal: Rgb(52, 211, 153),
        pink: Rgb(244, 114, 182),
        match_hl: Rgb(245, 158, 11),
    }
}

/// The `dracula` palette.
pub open spec fn dracula_palette() -> Theme {
    Theme {
        bg: Rgb(40, 42, 54),
        bg2: Rgb(33, 34, 44),
        bg3: Rgb(68, 71, 90),
        bg_sel: Rgb(68, 71, 90),
        bright: Rgb(248, 248, 242),
        mid: Rgb(191, 193, 202),
        dim: Rgb(130, 132, 145),
        vdim: Rgb(68, 71, 90),
        accent: Rgb(255, 121, 198),
        accent2: Rgb(189, 87, 158),
        accent3: Rgb(80, 30, 60),
        green: Rgb(80, 250, 123),
        blue: Rgb(102, 217, 239),
        red: Rgb(255, 85, 85),
        yellow: Rgb(241, 250, 140),
        purple: Rgb(189, 147, 249),
        cyan: Rgb(139, 233, 253),
        orange: Rgb(255, 184, 84),
        teal: Rgb(80, 250, 123),
        pink: Rgb(255, 121, 198),
        match_hl: Rgb(255, 184, 84),
    }
}

fn dracula() -> (t: Theme)
    ensures
        t == dracula_palette(),
{
    Theme {
        bg: Rgb(40, 42, 54),
        bg2: Rgb(33, 34, 44),
        bg3: Rgb(68, 71, 90),
        bg_sel: Rgb(68, 71, 90),
        bright: Rgb(248, 248, 242),
        mid: Rgb(191, 193, 202),
        dim: Rgb(130, 132, 145),
        vdim: Rgb(68, 71, 90),
        accent: Rgb(255, 121, 198),
        accent2: Rgb(189, 87, 158),
        accent3: Rgb(80, 30, 60),
        green: Rgb(80, 250, 123),
        blue: Rgb(102, 217, 239),
        red: Rgb(255, 85, 85),
        yellow: Rgb(241, 250, 140),
        purple: Rgb(189, 147, 249),
        cyan: Rgb(139, 233, 253),
        orange: Rgb(255, 184, 84),
        teal: Rgb(80, 250, 123),
        pink: Rgb(255, 121, 198),
        match_hl: Rgb(255, 184, 84),
    }
}

/// The `nord` palette.
pub open spec fn nord_palette() -> Theme {
    Theme {
        bg: Rgb(46, 52, 64),
        bg2: Rgb(59, 66, 82),
        bg3: Rgb(67, 76, 94),
        bg_sel: Rgb(76, 86, 106),
        bright: Rgb(236, 239, 244),
        mid: Rgb(216, 222, 233),
        dim: Rgb(129, 161, 193),
        vdim: Rgb(76, 86, 106),
        accent: Rgb(136, 192, 208),
        accent2: Rgb(94, 129, 172),
        accent3: Rgb(59, 66, 82),
        green: Rgb(163, 190, 140),
        blue: Rgb(129, 161, 193),
        red: Rgb(191, 97, 106),
        yellow: Rgb(235, 203, 139),
        purple: Rgb(180, 142, 173),
        cyan: Rgb(143, 188, 187),
        orange: Rgb(208, 135, 112),
        teal: Rgb(143, 188, 187),
        pink: Rgb(180, 142, 173),
        match_hl: Rgb(235, 203, 139),
    }
}

fn nord() -> (t: Theme)
    ensures
        t == nord_palette(),
{
    Theme {
        bg: Rgb(46, 52, 64),
        bg2: Rgb(59, 66, 82),
        bg3: Rgb(67, 76, 94),
        bg_sel: Rgb(76, 86, 106),
        bright: Rgb(236, 239, 244),
        mid: Rgb(216, 222, 233),
        dim: Rgb(129, 161, 193),
        vdim: Rgb(76, 86, 106),
        accent: Rgb(136, 192, 208),
        accent2: Rgb(94, 129, 172),
        accent3: Rgb(59, 66, 82),
        green: Rgb(163, 190, 140),
        blue: Rgb(129, 161, 193),
        red: Rgb(191, 97, 106),
        yellow: Rgb(235, 203, 139),
        purple: Rgb(180, 142, 173),
        cyan: Rgb(143, 188, 187),
        orange: Rgb(208, 135, 112),
        teal: Rgb(143, 188, 187),
        pink: Rgb(180, 142, 173),
        match_hl: Rgb(235, 203, 139),
    }
}

/// The `gruvbox` palette.
pub open spec fn gruvbox_palette() -> Theme {
    Theme {
        bg: Rgb(29, 32, 33),
        bg2: Rgb(40, 40, 40),
        bg3: Rgb(60, 56, 54),
        bg_sel: Rgb(80, 73, 69),
        bright: Rgb(235, 219, 178),
        mid: Rgb(168, 153, 132),
        dim: Rgb(102, 92, 84),
        vdim: Rgb(80, 73, 69),
        accent: Rgb(250, 189, 47),
        accent2: Rgb(215, 153, 33),
        accent3: Rgb(100, 70, 10),
        green: Rgb(184, 187, 38),
        blue: Rgb(131, 165, 152),
        red: Rgb(251, 73, 52),
        yellow: Rgb(250, 189, 47),
        purple: Rgb(211, 134, 155),
        cyan: Rgb(142, 192, 124),
        orange: Rgb(254, 128, 25),
        teal: Rgb(142, 192, 124),
        pink: Rgb(211, 134, 155),
        match_hl: Rgb(254, 128, 25),
    }
}

fn gruvbox() -> (t: Theme)
    ensures
        t == gruvbox_palette(),
{
    Theme {
        bg: Rgb(29, 32, 33),
        bg2: Rgb(40, 40, 40),
        bg3: Rgb(60, 56, 54),
        bg_sel: Rgb(80, 73, 69),
        bright: Rgb(235, 219, 178),
        mid: Rgb(168, 153, 132),
        dim: Rgb(102, 92, 84),
        vdim: Rgb(80, 73, 69),
        accent: Rgb(250, 189, 47),
        accent2: Rgb(215, 153, 33),
        accent3: Rgb(100, 70, 10),
        green: Rgb(184, 187, 38),
        blue: Rgb(131, 165, 152),
        red: Rgb(251, 73, 52),
        yellow: Rgb(250, 189, 47),
        purple: Rgb(211, 134, 155),
        cyan: Rgb(142, 192, 124),
        orange: Rgb(254, 128, 25),
        teal: Rgb(142, 192, 124),
        pink: Rgb(211, 134, 155),
        match_hl: Rgb(254, 128, 25),
    }
}

/// The `catppuccin` palette.
pub open spec fn catppuccin_palette() -> Theme {
    Theme {
        bg: Rgb(30, 30, 46),
        bg2: Rgb(24, 24, 37),
        bg3: Rgb(49, 50, 68),
        bg_sel: Rgb(69, 71, 90),
        bright: Rgb(205, 214, 244),
        mid: Rgb(166, 173, 200),
        dim: Rgb(108, 112, 134),
        vdim: Rgb(69, 71, 90),
        accent: Rgb(245, 194, 231),
        accent2: Rgb(203, 166, 247),
        accent3: Rgb(80, 50, 90),
        green: Rgb(166, 227, 161),
        blue: Rgb(137, 180, 250),
        red: Rgb(243, 139, 168),
        yellow: Rgb(249, 226, 175),
        purple: Rgb(203, 166, 247),
        cyan: Rgb(137, 220, 235),
        orange: Rgb(250, 179, 135),
        teal: Rgb(148, 226, 213),
        pink: Rgb(245, 194, 231),
        match_hl: Rgb(249, 226, 175),
    }
}

fn catppuccin() -> (t: Theme)
    ensures
        t == catppuccin_palette(),
{
    Theme {
        bg: Rgb(30, 30, 46),
        bg2: Rgb(24, 24, 37),
        bg3: Rgb(49, 50, 68),
        bg_sel: Rgb(69, 71, 90),
        bright: Rgb(205, 214, 244),
        mid: Rgb(166, 173, 200),
        dim: Rgb(108, 112, 134),
        vdim: Rgb(69, 71, 90),
        accent: Rgb(245, 194, 231),
        accent2: Rgb(203, 166, 247),
        accent3: Rgb(80, 50, 90),
        green: Rgb(166, 227, 161),
        blue: Rgb(137, 180, 250),
        red: Rgb(243, 139, 168),
        yellow: Rgb(249, 226, 175),
        purple: Rgb(203, 166, 247),
        cyan: Rgb(137, 220, 235),
        orange: Rgb(250, 179, 135),
        teal: Rgb(148, 226, 213),
        pink: Rgb(245, 194, 231),
        match_hl: Rgb(249, 226, 175),
    }
}

/// The `skyblue` palette.
pub open spec fn skyblue_palette() -> Theme {
    Theme {
        bg: Rgb(8, 18, 32),
        bg2: Rgb(10, 24, 44),
        bg3: Rgb(16, 36, 60),
        bg_sel: Rgb(20, 48, 80),
        bright: Rgb(220, 240, 255),
        mid: Rgb(140, 190, 230),
        dim: Rgb(60, 100, 150),
        vdim: Rgb(25, 50, 85),
        accent: Rgb(56, 189, 248),
        accent2: Rgb(14, 165, 233),
        accent3: Rgb(7, 89, 133),
        green: Rgb(52, 211, 153),
        blue: Rgb(96, 165, 250),
        red: Rgb(248, 113, 113),
        yellow: Rgb(250, 204, 21),
        purple: Rgb(167, 139, 250),
        cyan: Rgb(103, 232, 249),
        orange: Rgb(249, 115, 22),
        teal: Rgb(45, 212, 191),
        pink: Rgb(244, 114, 182),
        match_hl: Rgb(56, 189, 248),
    }
}

fn skyblue() -> (t: Theme)
    ensures
        t == skyblue_palette(),
{
    Theme {
        bg: Rgb(8, 18, 32),
        bg2: Rgb(10, 24, 44),
        bg3: Rgb(16, 36, 60),
        bg_sel: Rgb(20, 48, 80),
        bright: Rgb(220, 240, 255),
        mid: Rgb(140, 190, 230),
        dim: Rgb(60, 100, 150),
        vdim: Rgb(25, 50, 85),
        accent: Rgb(56, 189, 248),
        accent2: Rgb(14, 165, 233),
        accent3: Rgb(7, 89, 133),
        green: Rgb(52, 211, 153),
        blue: Rgb(96, 165, 250),
        red: Rgb(248, 113, 113),
        yellow: Rgb(250, 204, 21),
        purple: Rgb(167, 139, 250),
        cyan: Rgb(103, 232, 249),
        orange: Rgb(249, 115, 22),
        teal: Rgb(45, 212, 191),
        pink: Rgb(244, 114, 182),
        match_hl: Rgb(56, 189, 248),
    }
}

/// The `tokyonight` palette.
pub open spec fn tokyonight_palette() -> Theme {
    Theme {
        bg: Rgb(26, 27, 38),
        bg2: Rgb(16, 16, 28),
        bg3: Rgb(36, 40, 59),
        bg_sel: Rgb(41, 46, 66),
        bright: Rgb(192, 202, 245),
        mid: Rgb(122, 135, 180),
        dim: Rgb(65, 72, 104),
        vdim: Rgb(41, 46, 66),
        accent: Rgb(122, 162, 247),
        accent2: Rgb(187, 154, 247),
        accent3: Rgb(52, 60, 100),
        green: Rgb(158, 206, 106),
        blue: Rgb(122, 162, 247),
        red: Rgb(247, 118, 142),
        yellow: Rgb(224, 175, 104),
        purple: Rgb(187, 154, 247),
        cyan: Rgb(125, 207, 255),
        orange: Rgb(255, 158, 84),
        teal: Rgb(42, 195, 222),
        pink: Rgb(255, 117, 127),
        match_hl: Rgb(224, 175, 104),
    }
}

fn tokyonight() -> (t: Theme)
    ensures
        t == tokyonight_palette(),
{
    Theme {
        bg: Rgb(26, 27, 38),
        bg2: Rgb(16, 16, 28),
        bg3: Rgb(36, 40, 59),
        bg_sel: Rgb(41, 46, 66),
        bright: Rgb(192, 202, 245),
        mid: Rgb(122, 135, 180),
        dim: Rgb(65, 72, 104),
        vdim: Rgb(41, 46, 66),
        accent: Rgb(122, 162, 247),
        accent2: Rgb(187, 154, 247),
        accent3: Rgb(52, 60, 100),
        green: Rgb(158, 206, 106),
        blue: Rgb(122, 162, 247),
        red: Rgb(247, 118, 142),
        yellow: Rgb(224, 175, 104),
        purple: Rgb(187, 154, 247),
        cyan: Rgb(125, 207, 255),
        orange: Rgb(255, 158, 84),
        teal: Rgb(42, 195, 222),
        pink: Rgb(255, 117, 127),
        match_hl: Rgb(224, 175, 104),
    }
}

/// The `ayu` palette.
pub open spec fn ayu_palette() -> Theme {
    Theme {
        bg: Rgb(13, 17, 23),
        bg2: Rgb(10, 14, 20),
        bg3: Rgb(21, 28, 38),
        bg_sel: Rgb(30, 42, 58),
        bright: Rgb(200, 213, 230),
        mid: Rgb(125, 150, 175),
        dim: Rgb(55, 76, 100),
        vdim: Rgb(25, 38, 55),
        accent: Rgb(229, 181, 69),
        accent2: Rgb(255, 140, 61),
        accent3: Rgb(90, 60, 15),
        green: Rgb(149, 230, 203),
        blue: Rgb(83, 154, 252),
        red: Rgb(255, 106, 106),
        yellow: Rgb(229, 181, 69),
        purple: Rgb(167, 130, 250),
        cyan: Rgb(80, 213, 255),
        orange: Rgb(255, 140, 61),
        teal: Rgb(149, 230, 203),
        pink: Rgb(255, 128, 160),
        match_hl: Rgb(229, 181, 69),
    }
}

fn ayu() -> (t: Theme)
    ensures
        t == ayu_palette(),
{
    Theme {
        bg: Rgb(13, 17, 23),
        bg2: Rgb(10, 14, 20),
        bg3: Rgb(21, 28, 38),
        bg_sel: Rgb(30, 42, 58),
        bright: Rgb(200, 213, 230),
        mid: Rgb(125, 150, 175),
        dim: Rgb(55, 76, 100),
        vdim: Rgb(25, 38, 55),
        accent: Rgb(229, 181, 69),
        accent2: Rgb(255, 140, 61),
        accent3: Rgb(90, 60, 15),
        green: Rgb(149, 230, 203),
        blue: Rgb(83, 154, 252),
        red: Rgb(255, 106, 106),
        yellow: Rgb(229, 181, 69),
        purple: Rgb(167, 130, 250),
        cyan: Rgb(80, 213, 255),
        orange: Rgb(255, 140, 61),
        teal: Rgb(149, 230, 203),
        pink: Rgb(255, 128, 160),
        match_hl: Rgb(229, 181, 69),
    }
}

/// The palette of a theme.
pub open spec fn palette(name: ThemeName) -> Theme {
    match name {
        ThemeName::Amber => amber_palette(),
        ThemeName::Dracula => dracula_palette(),
        ThemeName::Nord => nord_palette(),
        ThemeName::Gruvbox => gruvbox_palette(),
        ThemeName::Catppuccin => catppuccin_palette(),
        ThemeName::SkyBlue => skyblue_palette(),
        ThemeName::TokyoNight => tokyonight_palette(),
        ThemeName::Ayu => ayu_palette(),
    }
}

impl Theme {
    pub fn get(name: &ThemeName) -> (t: Theme)
        ensures
            t == palette(*name),
    {
        match name {
            ThemeName::Amber => amber(),
            ThemeName::Dracula => dracula(),
            ThemeName::Nord => nord(),
            ThemeName::Gruvbox => gruvbox(),
            ThemeName::Catppuccin => catppuccin(),
            ThemeName::SkyBlue => skyblue(),
            ThemeName::TokyoNight => tokyonight(),
            ThemeName::Ayu => ayu(),
        }
    }
}

} // verus!
