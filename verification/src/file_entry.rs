//! The entry record for one filesystem node, its classification, and the
//! pure renderers of its permission, size and timestamp fields.

use vstd::prelude::*;

use crate::config::{Color, ColorConfig, IconColorConfig, IconConfig};
use crate::icon::{FileIcon, custom_glyph, default_glyph, icon_color, label_color};
use crate::text::{dec_str, digit_char, push_char, u64_to_dec};

verus! {

/// Classification of a filesystem entry, in its fixed display order:
/// directories first, then executables, then regular files.
#[derive(Debug, Clone, Copy, PartialEq, Eq, Structural)]
pub enum FileType {
    Directory,
    Executable,
    RegularFile,
}

/// Position of a file type in the fixed display order.
pub open spec fn type_rank(t: FileType) -> int {
    match t {
        FileType::Directory => 0,
        FileType::Executable => 1,
        FileType::RegularFile => 2,
    }
}

/// Classification rule: a directory is always a Directory, whatever its
/// executable bits; otherwise the executable flag decides.
pub open spec fn classify(is_dir: bool, is_executable: bool) -> FileType {
    if is_dir {
        FileType::Directory
    } else if is_executable {
        FileType::Executable
    } else {
        FileType::RegularFile
    }
}

/// One filesystem node, with the metadata the renderers read. The modified
/// time is in whole seconds since the epoch; `None` stands for a time that
/// cannot be so expressed.
#[derive(Debug)]
pub struct FileEntry {
    pub name: String,
    pub is_dir: bool,
    pub is_executable: bool,
    pub mode: u32,
    pub size: u64,
    pub modified: Option<u64>,
    pub owner: String,
    pub group: String,
    pub nlink: u64,
}

/// Mathematical image of a `FileEntry`.
pub struct EntryV {
    pub name: Seq<char>,
    pub is_dir: bool,
    pub is_executable: bool,
    pub mode: u32,
    pub size: u64,
    pub modified: Option<u64>,
    pub owner: Seq<char>,
    pub group: Seq<char>,
    pub nlink: u64,
}

impl View for FileEntry {
    type V = EntryV;

    open spec fn view(&self) -> EntryV {
        EntryV {
            name: self.name@,
            is_dir: self.is_dir,
            is_executable: self.is_executable,
            mode: self.mode,
            size: self.size,
            modified: self.modified,
            owner: self.owner@,
            group: self.group@,
            nlink: self.nlink,
        }
    }
}

/// The file type of an entry's image.
pub open spec fn entry_type(e: EntryV) -> FileType {
    classify(e.is_dir, e.is_executable)
}

/// The ten-character permission string: type flag, then read, write and
/// execute for user, group and other, each bit tested independently.
pub open spec fn perm_text(is_dir: bool, mode: u32) -> Seq<char> {
    seq![
        if is_dir { 'd' } else { '-' },
        if mode & 0o400 != 0 { 'r' } else { '-' },
        if mode & 0o200 != 0 { 'w' } else { '-' },
        if mode & 0o100 != 0 { 'x' } else { '-' },
        if mode & 0o040 != 0 { 'r' } else { '-' },
        if mode & 0o020 != 0 { 'w' } else { '-' },
        if mode & 0o010 != 0 { 'x' } else { '-' },
        if mode & 0o004 != 0 { 'r' } else { '-' },
        if mode & 0o002 != 0 { 'w' } else { '-' },
        if mode & 0o001 != 0 { 'x' } else { '-' },
    ]
}

/// The human-scaled size: exact bytes with a `B` suffix below one
/// kibibyte, else one decimal place at the K, M or G binary tier.
pub open spec fn size_text(size: u64) -> Seq<char> {
    if size < 1024 {
        dec_str(size as nat) + seq!['B']
    } else {
        let div: u64 = if size < 1048576 {
            1024
        } else if size < 1073741824 {
            1048576
        } else {
            1073741824
        };
        let suffix: char = if size < 1048576 {
            'K'
        } else if size < 1073741824 {
            'M'
        } else {
            'G'
        };
        let whole = size as int / div as int;
        let frac = size as int % div as int;
        let tenth = (frac * 10 + div as int / 2) / div as int;
        let whole2 = if tenth == 10 { whole + 1 } else { whole };
        let tenth2: nat = if tenth == 10 { 0 } else { tenth as nat };
        dec_str(whole2 as nat) + seq!['.', digit_char(tenth2), suffix]
    }
}

/// The `%Y-%m-%d %H:%M:%S` rendering of a count of seconds since the epoch
/// in UTC, as the calendar library produces it.
pub uninterp spec fn utc_text(secs: int) -> Seq<char>;

/// Whether a count of seconds lies in the calendar library's representable
/// range — a fixed property of the count alone.
pub uninterp spec fn utc_in_range(secs: int) -> bool;

/// The largest seconds value of the year 9999; every count from the epoch
/// up to here is representable.
pub open spec fn utc_last_supported() -> int {
    253402300799
}

/// Relies on chrono's DateTime::from_timestamp and DateTime::format: the
/// `%Y-%m-%d %H:%M:%S` text of a UTC timestamp is a function of the seconds
/// value alone; from_timestamp returns None exactly when the seconds lie
/// outside chrono's representable range, which contains the years 1970
/// through 9999.
#[verifier::external_body]
fn utc_datetime_text(secs: i64) -> (r: Option<String>)
    ensures
        r matches Some(s) ==> s@ == utc_text(secs as int),
        r is Some <==> utc_in_range(secs as int),
        0 <= secs <= utc_last_supported() ==> r is Some,
{
    chrono::DateTime::from_timestamp(secs, 0).map(
        |dt: chrono::DateTime<chrono::Utc>| dt.format("%Y-%m-%d %H:%M:%S").to_string(),
    )
}

/// The text of a modification time: the UTC rendering of its seconds
/// count, and the literal `Unknown` when there is no count at all or the
/// count lies outside the calendar's representable range.
pub open spec fn modified_text(m: Option<u64>) -> Seq<char> {
    match m {
        None => "Unknown"@,
        Some(t) => if utc_in_range(t as i64 as int) {
            utc_text(t as i64 as int)
        } else {
            "Unknown"@
        },
    }
}

impl FileEntry {
    /// The icon for this entry's file type.
    pub fn get_file_icon(&self) -> (i: FileIcon)
        ensures
            i == file_icon_of(self@),
    {
        if self.is_dir {
            FileIcon::Directory
        } else if self.is_executable {
            FileIcon::Executable
        } else {
            FileIcon::RegularFile
        }
    }

    /// The built-in glyph for this entry's file type.
    pub fn get_icon(&self) -> (s: String)
        ensures
            s@ == default_glyph(file_icon_of(self@)),
    {
        self.get_file_icon().as_str().to_owned()
    }

    /// The configured glyph for this entry's file type.
    pub fn get_icon_custom(&self, config: &IconConfig) -> (s: String)
        ensures
            s@ == custom_glyph(file_icon_of(self@), config@),
    {
        self.get_file_icon().as_str_custom(config)
    }

    /// The configured label color for this entry's file type.
    pub fn get_color(&self, config: &ColorConfig) -> (c: Color)
        ensures
            c == label_color(file_icon_of(self@), config@),
    {
        self.get_file_icon().get_color(config)
    }

    /// The configured icon color for this entry's file type.
    pub fn get_icon_color(&self, config: &IconColorConfig) -> (c: Color)
        ensures
            c == icon_color(file_icon_of(self@), config@),
    {
        self.get_file_icon().get_icon_color(config)
    }

    /// This entry's classification.
    pub fn get_file_type(&self) -> (t: FileType)
        ensures
            t == entry_type(self@),
    {
        if self.is_dir {
            FileType::Directory
        } else if self.is_executable {
            FileType::Executable
        } else {
            FileType::RegularFile
        }
    }

    /// Renders the ten-character permission string.
    pub fn format_permissions(&self) -> (s: String)
        ensures
            s@ == perm_text(self.is_dir, self.mode),
    {
        let mode = self.mode;
        let mut s = String::new();
        push_char(&mut s, if self.is_dir { 'd' } else { '-' });
        push_char(&mut s, if mode & 0o400 != 0 { 'r' } else { '-' });
        push_char(&mut s, if mode & 0o200 != 0 { 'w' } else { '-' });
        push_char(&mut s, if mode & 0o100 != 0 { 'x' } else { '-' });
        push_char(&mut s, if mode & 0o040 != 0 { 'r' } else { '-' });
        push_char(&mut s, if mode & 0o020 != 0 { 'w' } else { '-' });
        push_char(&mut s, if mode & 0o010 != 0 { 'x' } else { '-' });
        push_char(&mut s, if mode & 0o004 != 0 { 'r' } else { '-' });
        push_char(&mut s, if mode & 0o002 != 0 { 'w' } else { '-' });
        push_char(&mut s, if mode & 0o001 != 0 { 'x' } else { '-' });
        proof {
            assert(s@ =~= perm_text(self.is_dir, self.mode));
        }
        s
    }

    /// Renders the human-scaled size.
    pub fn format_size(&self) -> (s: String)
        ensures
            s@ == size_text(self.size),
    {
        let size = self.size;
        if size < 1024 {
            let mut s = u64_to_dec(size);
            push_char(&mut s, 'B');
            proof {
                assert(s@ =~= size_text(size));
            }
            s
        } else {
            let div: u64 = if size < 1048576 {
                1024
            } else if size < 1073741824 {
                1048576
            } else {
                1073741824
            };
            let suffix: char = if size < 1048576 {
                'K'
            } else if size < 1073741824 {
                'M'
            } else {
                'G'
            };
            let whole = size / div;
            let frac = size % div;
            let tenth = (frac * 10 + div / 2) / div;
            proof {
                let d = div as int;
                let f = frac as int;
                assert(whole < size) by {
                    vstd::arithmetic::div_mod::lemma_div_decreases(size as int, d);
                }
                assert(tenth <= 10) by {
                    assert(f < d);
                    assert(f * 10 + d / 2 <= 11 * d - 1) by (nonlinear_arith)
                        requires
                            f < d,
                            d >= 2,
                    ;
                    assert((f * 10 + d / 2) / d <= (11 * d - 1) / d) by {
                        vstd::arithmetic::div_mod::lemma_div_is_ordered(
                            f * 10 + d / 2,
                            11 * d - 1,
                            d,
                        );
                    }
                    assert((11 * d - 1) / d == 10) by (nonlinear_arith)
                        requires
                            d >= 2,
                    ;
                }
            }
            let (whole2, tenth2): (u64, u64) = if tenth == 10 {
                (whole + 1, 0)
            } else {
                (whole, tenth)
            };
            let mut s = u64_to_dec(whole2);
            push_char(&mut s, '.');
            push_char(&mut s, ('0' as u8 + tenth2 as u8) as char);
            push_char(&mut s, suffix);
            proof {
                assert(s@ =~= size_text(size));
            }
            s
        }
    }

    /// Renders the modification time in UTC, or the literal `Unknown` when
    /// the time cannot be expressed as seconds since the epoch or falls
    /// outside the calendar's representable range.
    pub fn format_modified(&self) -> (s: String)
        ensures
            s@ == modified_text(self.modified),
            self.modified matches Some(t) ==> (t <= utc_last_supported() ==> s@ == utc_text(
                t as int,
            )),
    {
        match self.modified {
            None => "Unknown".to_owned(),
            Some(t) => {
                let secs: i64 = #[verifier::truncate] (t as i64);
                match utc_datetime_text(secs) {
                    Some(s) => s,
                    None => "Unknown".to_owned(),
                }
            },
        }
    }
}

/// The icon for an entry's file type.
pub open spec fn file_icon_of(e: EntryV) -> FileIcon {
    if e.is_dir {
        FileIcon::Directory
    } else if e.is_executable {
        FileIcon::Executable
    } else {
        FileIcon::RegularFile
    }
}

} // verus!
