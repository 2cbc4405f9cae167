//! Configuration of colors, icons and display geometry, and the color-name
//! parser with its silent fallback to white.

use vstd::prelude::*;

use crate::text::{fold_seq, fold_str, str_eq};

verus! {

/// The terminal colors a theme can name.
#[derive(Debug, Clone, Copy, PartialEq, Eq, Structural)]
pub enum Color {
    Black,
    Red,
    Green,
    Yellow,
    Blue,
    Magenta,
    Cyan,
    White,
    BrightBlack,
    BrightRed,
    BrightGreen,
    BrightYellow,
    BrightBlue,
    BrightMagenta,
    BrightCyan,
    BrightWhite,
}

/// The color a configured name denotes, case-insensitively; an unknown name
/// falls back to white.
pub open spec fn color_from_name(s: Seq<char>) -> Color {
    let f = fold_seq(s);
    if f == "black"@ {
        Color::Black
    } else if f == "red"@ {
        Color::Red
    } else if f == "green"@ {
        Color::Green
    } else if f == "yellow"@ {
        Color::Yellow
    } else if f == "blue"@ {
        Color::Blue
    } else if f == "magenta"@ {
        Color::Magenta
    } else if f == "cyan"@ {
        Color::Cyan
    } else if f == "white"@ {
        Color::White
    } else if f == "bright_black"@ {
        Color::BrightBlack
    } else if f == "bright_red"@ {
        Color::BrightRed
    } else if f == "bright_green"@ {
        Color::BrightGreen
    } else if f == "bright_yellow"@ {
        Color::BrightYellow
    } else if f == "bright_blue"@ {
        Color::BrightBlue
    } else if f == "bright_magenta"@ {
        Color::BrightMagenta
    } else if f == "bright_cyan"@ {
        Color::BrightCyan
    } else if f == "bright_white"@ {
        Color::BrightWhite
    } else {
        Color::White
    }
}

/// Parses a configured color name, case-insensitively; unknown names give
/// white rather than an error.
pub fn parse_color(color_str: &str) -> (c: Color)
    ensures
        c == color_from_name(color_str@),
{
    let folded = fold_str(color_str);
    let f = folded.as_str();
    if str_eq(f, "black") {
        Color::Black
    } else if str_eq(f, "red") {
        Color::Red
    } else if str_eq(f, "green") {
        Color::Green
    } else if str_eq(f, "yellow") {
        Color::Yellow
    } else if str_eq(f, "blue") {
        Color::Blue
    } else if str_eq(f, "magenta") {
        Color::Magenta
    } else if str_eq(f, "cyan") {
        Color::Cyan
    } else if str_eq(f, "white") {
        Color::White
    } else if str_eq(f, "bright_black") {
        Color::BrightBlack
    } else if str_eq(f, "bright_red") {
        Color::BrightRed
    } else if str_eq(f, "bright_green") {
        Color::BrightGreen
    } else if str_eq(f, "bright_yellow") {
        Color::BrightYellow
    } else if str_eq(f, "bright_blue") {
        Color::BrightBlue
    } else if str_eq(f, "bright_magenta") {
        Color::BrightMagenta
    } else if str_eq(f, "bright_cyan") {
        Color::BrightCyan
    } else if str_eq(f, "bright_white") {
        Color::BrightWhite
    } else {
        Color::White
    }
}

/// Label colors, one per file-type group, as configured names.
#[derive(Debug, Clone)]
pub struct ColorConfig {
    pub directory: String,
    pub executable: String,
    pub regular: String,
}

/// Icon colors, one per file-type group, as configured names.
#[derive(Debug, Clone)]
pub struct IconColorConfig {
    pub directory: String,
    pub executable: String,
    pub regular: String,
}

/// Icon glyphs, one per file-type group, with their own colors.
#[derive(Debug, Clone)]
pub struct IconConfig {
    pub directory: String,
    pub executable: String,
    pub regular: String,
    pub colors: IconColorConfig,
}

/// Display geometry: blanks between columns, and an optional hard cap on the
/// rows of a type group (zero means no cap); plus the recursive styles.
#[derive(Debug, Clone)]
pub struct DisplayConfig {
    pub column_spacing: usize,
    pub max_rows: usize,
    pub tree_style: String,
    pub recursive_style: String,
}

/// The whole configuration threaded through every renderer call.
#[derive(Debug, Clone)]
pub struct Config {
    pub colors: ColorConfig,
    pub icons: IconConfig,
    pub display: DisplayConfig,
}

/// Mathematical image of `ColorConfig`.
pub struct ColorConfigV {
    pub directory: Seq<char>,
    pub executable: Seq<char>,
    pub regular: Seq<char>,
}

/// Mathematical image of `IconColorConfig`.
pub struct IconColorConfigV {
    pub directory: Seq<char>,
    pub executable: Seq<char>,
    pub regular: Seq<char>,
}

/// Mathematical image of `IconConfig`.
pub struct IconConfigV {
    pub directory: Seq<char>,
    pub executable: Seq<char>,
    pub regular: Seq<char>,
    pub colors: IconColorConfigV,
}

/// Mathematical image of `DisplayConfig`.
pub struct DisplayConfigV {
    pub column_spacing: nat,
    pub max_rows: nat,
    pub tree_style: Seq<char>,
    pub recursive_style: Seq<char>,
}

/// Mathematical image of `Config`.
pub struct ConfigV {
    pub colors: ColorConfigV,
    pub icons: IconConfigV,
    pub display: DisplayConfigV,
}

impl View for ColorConfig {
    type V = ColorConfigV;

    open spec fn view(&self) -> ColorConfigV {
        ColorConfigV {
            directory: self.directory@,
            executable: self.executable@,
            regular: self.regular@,
        }
    }
}

impl View for IconColorConfig {
    type V = IconColorConfigV;

    open spec fn view(&self) -> IconColorConfigV {
        IconColorConfigV {
            directory: self.directory@,
            executable: self.executable@,
            regular: self.regular@,
        }
    }
}

impl View for IconConfig {
    type V = IconConfigV;

    open spec fn view(&self) -> IconConfigV {
        IconConfigV {
            directory: self.directory@,
            executable: self.executable@,
            regular: self.regular@,
            colors: self.colors@,
        }
    }
}

impl View for DisplayConfig {
    type V = DisplayConfigV;

    open spec fn view(&self) -> DisplayConfigV {
        DisplayConfigV {
            column_spacing: self.column_spacing as nat,
            max_rows: self.max_rows as nat,
            tree_style: self.tree_style@,
            recursive_style: self.recursive_style@,
        }
    }
}

impl View for Config {
    type V = ConfigV;

    open spec fn view(&self) -> ConfigV {
        ConfigV { colors: self.colors@, icons: self.icons@, display: self.display@ }
    }
}

/// The default label palette: directories blue, executables green, regular
/// files white.
pub open spec fn default_colors_v() -> ColorConfigV {
    ColorConfigV { directory: "blue"@, executable: "green"@, regular: "white"@ }
}

/// The default icon palette, the same as the labels'.
pub open spec fn default_icon_colors_v() -> IconColorConfigV {
    IconColorConfigV { directory: "blue"@, executable: "green"@, regular: "white"@ }
}

/// The built-in glyphs with the default icon palette.
pub open spec fn default_icons_v() -> IconConfigV {
    IconConfigV {
        directory: "\u{f114}"@,
        executable: "\u{f489}"@,
        regular: "\u{f4a5}"@,
        colors: default_icon_colors_v(),
    }
}

/// The default geometry: two blanks between columns, no row cap,
/// connector-style tree, nested recursive long format.
pub open spec fn default_display_v() -> DisplayConfigV {
    DisplayConfigV {
        column_spacing: 2,
        max_rows: 0,
        tree_style: "ascii"@,
        recursive_style: "nested"@,
    }
}

/// The whole default configuration.
pub open spec fn default_config_v() -> ConfigV {
    ConfigV { colors: default_colors_v(), icons: default_icons_v(), display: default_display_v() }
}

/// The default label color of directories.
pub fn default_directory_color() -> (s: String)
    ensures
        s@ == "blue"@,
{
    "blue".to_owned()
}

/// The default label color of executables.
pub fn default_executable_color() -> (s: String)
    ensures
        s@ == "green"@,
{
    "green".to_owned()
}

/// The default label color of regular files.
pub fn default_regular_color() -> (s: String)
    ensures
        s@ == "white"@,
{
    "white".to_owned()
}

/// The default number of blanks between adjacent columns.
pub fn default_column_spacing() -> (n: usize)
    ensures
        n == 2,
{
    2
}

/// The default row cap: zero, meaning no cap.
pub fn default_max_rows() -> (n: usize)
    ensures
        n == 0,
{
    0
}

impl ColorConfig {
    /// The label color configured for directories.
    pub fn get_directory_color(&self) -> (c: Color)
        ensures
            c == color_from_name(self@.directory),
    {
        parse_color(self.directory.as_str())
    }

    /// The label color configured for executables.
    pub fn get_executable_color(&self) -> (c: Color)
        ensures
            c == color_from_name(self@.executable),
    {
        parse_color(self.executable.as_str())
    }

    /// The label color configured for regular files.
    pub fn get_regular_color(&self) -> (c: Color)
        ensures
            c == color_from_name(self@.regular),
    {
        parse_color(self.regular.as_str())
    }
}

impl IconColorConfig {
    /// The icon color configured for directories.
    pub fn get_directory_color(&self) -> (c: Color)
        ensures
            c == color_from_name(self@.directory),
    {
        parse_color(self.directory.as_str())
    }

    /// The icon color configured for executables.
    pub fn get_executable_color(&self) -> (c: Color)
        ensures
            c == color_from_name(self@.executable),
    {
        parse_color(self.executable.as_str())
    }

    /// The icon color configured for regular files.
    pub fn get_regular_color(&self) -> (c: Color)
        ensures
            c == color_from_name(self@.regular),
    {
        parse_color(self.regular.as_str())
    }
}

impl IconConfig {
    /// The icon glyph configured for directories.
    pub fn get_directory_icon(&self) -> (s: String)
        ensures
            s@ == self@.directory,
    {
        self.directory.clone()
    }

    /// The icon glyph configured for executables.
    pub fn get_executable_icon(&self) -> (s: String)
        ensures
            s@ == self@.executable,
    {
        self.executable.clone()
    }

    /// The icon glyph configured for regular files.
    pub fn get_regular_icon(&self) -> (s: String)
        ensures
            s@ == self@.regular,
    {
        self.regular.clone()
    }
}

impl Default for ColorConfig {
    /// Directories blue, executables green, regular files white.
    fn default() -> (c: Self)
        ensures
            c@ == default_colors_v(),
    {
        ColorConfig {
            directory: default_directory_color(),
            executable: default_executable_color(),
            regular: default_regular_color(),
        }
    }
}

impl Default for IconColorConfig {
    /// Icon colors default to the same palette as the labels.
    fn default() -> (c: Self)
        ensures
            c@ == default_icon_colors_v(),
    {
        IconColorConfig {
            directory: default_directory_color(),
            executable: default_executable_color(),
            regular: default_regular_color(),
        }
    }
}

impl Default for IconConfig {
    /// The built-in glyphs with the default icon colors.
    fn default() -> (c: Self)
        ensures
            c@ == default_icons_v(),
    {
        IconConfig {
            directory: "\u{f114}".to_owned(),
            executable: "\u{f489}".to_owned(),
            regular: "\u{f4a5}".to_owned(),
            colors: IconColorConfig::default(),
        }
    }
}

impl Default for DisplayConfig {
    /// Two blanks between columns, no row cap, connector-style tree,
    /// nested recursive long format.
    fn default() -> (c: Self)
        ensures
            c@ == default_display_v(),
    {
        DisplayConfig {
            column_spacing: default_column_spacing(),
            max_rows: default_max_rows(),
            tree_style: "ascii".to_owned(),
            recursive_style: "nested".to_owned(),
        }
    }
}

impl Default for Config {
    /// All sections at their defaults.
    fn default() -> (c: Self)
        ensures
            c@ == default_config_v(),
    {
        Config {
            colors: ColorConfig::default(),
            icons: IconConfig::default(),
            display: DisplayConfig::default(),
        }
    }
}

} // verus!
