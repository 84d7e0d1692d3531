//! The named colors of the editor, and the theme that turns each into a
//! terminal color command.
use vstd::prelude::*;

use crate::ansi::{decimal, push_all, push_decimal, ESC};

verus! {

/// A named color for use in the editor.
#[derive(Clone, Copy, Eq, PartialEq, Debug, Structural)]
pub enum Color {
    Default,
    DebugRed,
    DebugBlue,
    DebugYellow,
    DebugGreen,
    Reset,
    ClearColor,
    ExitMessage,
    Header,
    HeaderFilename,
    HeaderModeEdit,
    HeaderModeCmd,
    HeaderHelp,
    HeaderHelpBinding,
    ExitRequest,
    ExitRequestBinding,
    EditorContent,
    EditorGutter,
    EditorGutterCursor,
    EditorDetail,
    EditorSelection,
    Footer,
    FooterStatusInfo,
    FooterStatusInfoContent,
    FooterStatusError,
    FooterStatusErrorContent,
}

/// A color as red, green and blue.
#[derive(Clone, Copy, Eq, PartialEq, Debug, Structural)]
pub struct ColorRGB {
    pub r: u8,
    pub g: u8,
    pub b: u8,
}

impl ColorRGB {
    pub fn new(r: u8, g: u8, b: u8) -> (c: Self)
        ensures
            c == (ColorRGB { r, g, b }),
    {
        Self { r, g, b }
    }
}

pub open spec fn rgb(r: u8, g: u8, b: u8) -> ColorRGB {
    ColorRGB { r, g, b }
}

/// The theme: the foreground and background of each color. `Reset` and
/// `Default` do not use theirs, as they reset the terminal's colors instead.
pub open spec fn theme(c: Color) -> (ColorRGB, ColorRGB) {
    let pure_black = rgb(0, 0, 0);
    let gray0 = rgb(25, 25, 25);
    let gray3 = rgb(55, 55, 55);
    let gray4 = rgb(130, 130, 130);
    let gray5 = rgb(180, 180, 180);
    let pure_white = rgb(255, 255, 255);
    let purple = rgb(127, 32, 176);
    let blue = rgb(0, 90, 223);
    let yellow = rgb(229, 229, 16);
    let green = rgb(13, 188, 121);
    let red = rgb(205, 49, 49);
    let dark_cyan = rgb(75, 95, 90);
    let dark_yellow = rgb(55, 55, 45);
    let dark_blue = rgb(35, 40, 55);
    let white = rgb(220, 220, 220);
    match c {
        Color::Default => (pure_white, pure_black),
        Color::DebugBlue => (white, blue),
        Color::DebugGreen => (white, green),
        Color::DebugRed => (white, red),
        Color::DebugYellow => (white, yellow),
        Color::Reset => (white, gray0),
        Color::ClearColor => (white, gray0),
        Color::ExitMessage => (green, gray0),
        Color::Header => (gray4, gray0),
        Color::HeaderFilename => (white, purple),
        Color::HeaderModeCmd => (white, green),
        Color::HeaderModeEdit => (white, blue),
        Color::HeaderHelp => (gray4, gray0),
        Color::HeaderHelpBinding => (blue, gray0),
        Color::ExitRequest => (gray4, gray0),
        Color::ExitRequestBinding => (red, gray0),
        Color::EditorContent => (gray5, gray0),
        Color::EditorGutter => (gray3, gray0),
        Color::EditorGutterCursor => (dark_cyan, gray0),
        Color::EditorDetail => (dark_yellow, gray0),
        Color::EditorSelection => (white, dark_blue),
        Color::Footer => (white, gray0),
        Color::FooterStatusInfo => (white, blue),
        Color::FooterStatusError => (white, red),
        Color::FooterStatusInfoContent => (gray4, gray0),
        Color::FooterStatusErrorContent => (red, gray0),
    }
}

/// The three components of a color in decimal, separated by `;`.
pub open spec fn rgb_digits(c: ColorRGB) -> Seq<char> {
    decimal(c.r as nat) + seq![';'] + decimal(c.g as nat) + seq![';'] + decimal(c.b as nat)
}

/// The terminal command for a color: a reset for `Reset` and `Default`, else
/// the theme's foreground and background as 24-bit colors.
pub open spec fn color_cmd(c: Color) -> Seq<char> {
    if c == Color::Reset || c == Color::Default {
        seq![ESC, '[', '0', 'm']
    } else {
        let (fg, bg) = theme(c);
        seq![ESC, '[', '3', '8', ';', '2', ';'] + rgb_digits(fg) + seq![';', '4', '8', ';', '2', ';']
            + rgb_digits(bg) + seq!['m']
    }
}

/// Appends the three components of a color in decimal, separated by `;`.
fn push_rgb(out: &mut Vec<char>, c: ColorRGB)
    ensures
        final(out)@ == old(out)@ + rgb_digits(c),
{
    push_decimal(out, c.r as u128);
    out.push(';');
    push_decimal(out, c.g as u128);
    out.push(';');
    push_decimal(out, c.b as u128);
    assert(out@ =~= old(out)@ + rgb_digits(c));
}

impl Color {
    /// The foreground and background that the theme gives this color.
    pub fn get_colors(&self) -> (r: (ColorRGB, ColorRGB))
        ensures
            r == theme(*self),
    {
        let pure_black = ColorRGB::new(0, 0, 0);
        let gray0 = ColorRGB::new(25, 25, 25);
        let gray3 = ColorRGB::new(55, 55, 55);
        let gray4 = ColorRGB::new(130, 130, 130);
        let gray5 = ColorRGB::new(180, 180, 180);
        let pure_white = ColorRGB::new(255, 255, 255);
        let purple = ColorRGB::new(127, 32, 176);
        let blue = ColorRGB::new(0, 90, 223);
        let yellow = ColorRGB::new(229, 229, 16);
        let green = ColorRGB::new(13, 188, 121);
        let red = ColorRGB::new(205, 49, 49);
        let dark_cyan = ColorRGB::new(75, 95, 90);
        let dark_yellow = ColorRGB::new(55, 55, 45);
        let dark_blue = ColorRGB::new(35, 40, 55);
        let white = ColorRGB::new(220, 220, 220);
        match self {
            Color::Default => (pure_white, pure_black),
            Color::DebugBlue => (white, blue),
            Color::DebugGreen => (white, green),
            Color::DebugRed => (white, red),
            Color::DebugYellow => (white, yellow),
            Color::Reset => (white, gray0),
            Color::ClearColor => (white, gray0),
            Color::ExitMessage => (green, gray0),
            Color::Header => (gray4, gray0),
            Color::HeaderFilename => (white, purple),
            Color::HeaderModeCmd => (white, green),
            Color::HeaderModeEdit => (white, blue),
            Color::HeaderHelp => (gray4, gray0),
            Color::HeaderHelpBinding => (blue, gray0),
            Color::ExitRequest => (gray4, gray0),
            Color::ExitRequestBinding => (red, gray0),
            Color::EditorContent => (gray5, gray0),
            Color::EditorGutter => (gray3, gray0),
            Color::EditorGutterCursor => (dark_cyan, gray0),
            Color::EditorDetail => (dark_yellow, gray0),
            Color::EditorSelection => (white, dark_blue),
            Color::Footer => (white, gray0),
            Color::FooterStatusInfo => (white, blue),
            Color::FooterStatusError => (white, red),
            Color::FooterStatusInfoContent => (gray4, gray0),
            Color::FooterStatusErrorContent => (red, gray0),
        }
    }

    /// Appends the terminal command for this color.
    pub fn push_ansi_command(&self, out: &mut Vec<char>)
        ensures
            final(out)@ == old(out)@ + color_cmd(*self),
    {
        if matches!(self, Color::Reset) || matches!(self, Color::Default) {
            out.push(ESC);
            out.push('[');
            out.push('0');
            out.push('m');
            assert(out@ =~= old(out)@ + color_cmd(*self));
            return;
        }
        let (fg, bg) = self.get_colors();
        push_all(out, &[ESC, '[', '3', '8', ';', '2', ';']);
        push_rgb(out, fg);
        push_all(out, &[';', '4', '8', ';', '2', ';']);
        push_rgb(out, bg);
        out.push('m');
        assert(out@ =~= old(out)@ + color_cmd(*self));
    }

    /// The terminal command for this color.
    pub fn get_ansi_command(&self) -> (r: Vec<char>)
        ensures
            r@ == color_cmd(*self),
    {
        let mut r: Vec<char> = Vec::new();
        self.push_ansi_command(&mut r);
        assert(r@ =~= color_cmd(*self));
        r
    }
}

} // verus!
