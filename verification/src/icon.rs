//! File-type icons and the colors the theme assigns to them.

use vstd::prelude::*;

use crate::config::{Color, ColorConfig, IconColorConfig, IconConfig, IconColorConfigV, IconConfigV,
    ColorConfigV, color_from_name};

verus! {

/// The icon attached to each file-type group.
#[derive(Debug, Clone, Copy, PartialEq, Eq, Structural)]
pub enum FileIcon {
    Directory,
    Executable,
    RegularFile,
}

/// The built-in glyph of an icon.
pub open spec fn default_glyph(i: FileIcon) -> Seq<char> {
    match i {
        FileIcon::Directory => "\u{f114}"@,
        FileIcon::Executable => "\u{f489}"@,
        FileIcon::RegularFile => "\u{f4a5}"@,
    }
}

/// The glyph a configuration assigns to an icon.
pub open spec fn custom_glyph(i: FileIcon, c: IconConfigV) -> Seq<char> {
    match i {
        FileIcon::Directory => c.directory,
        FileIcon::Executable => c.executable,
        FileIcon::RegularFile => c.regular,
    }
}

/// The label color a configuration assigns to an icon's file type.
pub open spec fn label_color(i: FileIcon, c: ColorConfigV) -> Color {
    match i {
        FileIcon::Directory => color_from_name(c.directory),
        FileIcon::Executable => color_from_name(c.executable),
        FileIcon::RegularFile => color_from_name(c.regular),
    }
}

/// The icon color a configuration assigns to an icon's file type.
pub open spec fn icon_color(i: FileIcon, c: IconColorConfigV) -> Color {
    match i {
        FileIcon::Directory => color_from_name(c.directory),
        FileIcon::Executable => color_from_name(c.executable),
        FileIcon::RegularFile => color_from_name(c.regular),
    }
}

impl FileIcon {
    /// The built-in glyph.
    pub fn as_str(&self) -> (r: &str)
        ensures
            r@ == default_glyph(*self),
    {
        match self {
            FileIcon::Directory => "\u{f114}",
            FileIcon::Executable => "\u{f489}",
            FileIcon::RegularFile => "\u{f4a5}",
        }
    }

    /// The configured glyph.
    pub fn as_str_custom(&self, config: &IconConfig) -> (r: String)
        ensures
            r@ == custom_glyph(*self, config@),
    {
        match self {
            FileIcon::Directory => config.get_directory_icon(),
            FileIcon::Executable => config.get_executable_icon(),
            FileIcon::RegularFile => config.get_regular_icon(),
        }
    }

    /// The configured label color for this icon's file type.
    pub fn get_color(&self, config: &ColorConfig) -> (c: Color)
        ensures
            c == label_color(*self, config@),
    {
        match self {
            FileIcon::Directory => config.get_directory_color(),
            FileIcon::Executable => config.get_executable_color(),
            FileIcon::RegularFile => config.get_regular_color(),
        }
    }

    /// The configured icon color for this icon's file type.
    pub fn get_icon_color(&self, config: &IconColorConfig) -> (c: Color)
        ensures
            c == icon_color(*self, config@),
    {
        match self {
            FileIcon::Directory => config.get_directory_color(),
            FileIcon::Executable => config.get_executable_color(),
            FileIcon::RegularFile => config.get_regular_color(),
        }
    }
}

} // verus!
