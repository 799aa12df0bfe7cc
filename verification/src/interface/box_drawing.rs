use vstd::prelude::*;

verus! {

/// The line styles in which a box can be outlined.
#[derive(Copy, Clone, Debug, PartialEq, Eq, Structural)]
pub enum BoxDrawing {
    Light,
    Heavy,
    DoubleDashLight,
    DoubleDashHeavy,
    TripleDashLight,
    TripleDashHeavy,
    QuadrupleDashLight,
    QuadrupleDashHeavy,
    Double,
    Arc,
}

/// The six characters of a line style.
pub struct BoxChars {
    pub horizontal: char,
    pub vertical: char,
    pub lower_left: char,
    pub upper_left: char,
    pub lower_right: char,
    pub upper_right: char,
}

/// The characters of a light box: the three dashed light styles share its
/// corners.
pub open spec fn light_corners(horizontal: char, vertical: char) -> BoxChars {
    BoxChars {
        horizontal,
        vertical,
        lower_left: '└',
        upper_left: '┌',
        lower_right: '┘',
        upper_right: '┐',
    }
}

/// The characters of a heavy box: the three dashed heavy styles share its
/// corners.
pub open spec fn heavy_corners(horizontal: char, vertical: char) -> BoxChars {
    BoxChars {
        horizontal,
        vertical,
        lower_left: '┗',
        upper_left: '┏',
        lower_right: '┛',
        upper_right: '┓',
    }
}

/// The characters with which a style draws its lines and corners.
pub open spec fn box_chars(typ: BoxDrawing) -> BoxChars {
    match typ {
        BoxDrawing::Light => light_corners('─', '│'),
        BoxDrawing::Heavy => heavy_corners('━', '┃'),
        BoxDrawing::DoubleDashLight => light_corners('╌', '╎'),
        BoxDrawing::DoubleDashHeavy => heavy_corners('╍', '╏'),
        BoxDrawing::TripleDashLight => light_corners('┄', '┆'),
        BoxDrawing::TripleDashHeavy => heavy_corners('┅', '┇'),
        BoxDrawing::QuadrupleDashLight => light_corners('┈', '┊'),
        BoxDrawing::QuadrupleDashHeavy => heavy_corners('┉', '┋'),
        BoxDrawing::Double => BoxChars {
            horizontal: '═',
            vertical: '║',
            lower_left: '╚',
            upper_left: '╔',
            lower_right: '╝',
            upper_right: '╗',
        },
        BoxDrawing::Arc => BoxChars {
            horizontal: '─',
            vertical: '│',
            lower_left: '╰',
            upper_left: '╭',
            lower_right: '╯',
            upper_right: '╮',
        },
    }
}

impl BoxDrawing {
    /// The characters of a style, in the order horizontal line, vertical
    /// line, lower left, upper left, lower right and upper right corner.
    pub fn get_char(typ: BoxDrawing) -> (chars: (char, char, char, char, char, char))
        ensures
            chars.0 == box_chars(typ).horizontal,
            chars.1 == box_chars(typ).vertical,
            chars.2 == box_chars(typ).lower_left,
            chars.3 == box_chars(typ).upper_left,
            chars.4 == box_chars(typ).lower_right,
            chars.5 == box_chars(typ).upper_right,
    {
        match typ {
            BoxDrawing::Light => ('─', '│', '└', '┌', '┘', '┐'),
            BoxDrawing::Heavy => ('━', '┃', '┗', '┏', '┛', '┓'),
            BoxDrawing::DoubleDashLight => ('╌', '╎', '└', '┌', '┘', '┐'),
            BoxDrawing::DoubleDashHeavy => ('╍', '╏', '┗', '┏', '┛', '┓'),
            BoxDrawing::TripleDashLight => ('┄', '┆', '└', '┌', '┘', '┐'),
            BoxDrawing::TripleDashHeavy => ('┅', '┇', '┗', '┏', '┛', '┓'),
            BoxDrawing::QuadrupleDashLight => ('┈', '┊', '└', '┌', '┘', '┐'),
            BoxDrawing::QuadrupleDashHeavy => ('┉', '┋', '┗', '┏', '┛', '┓'),
            BoxDrawing::Double => ('═', '║', '╚', '╔', '╝', '╗'),
            BoxDrawing::Arc => ('─', '│', '╰', '╭', '╯', '╮'),
        }
    }
}

} // verus!
