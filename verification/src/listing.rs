//! Kinds of directory entries and the defaults of a directory listing.

use vstd::prelude::*;

verus! {

/// What kind of object a directory entry names.
#[derive(Debug, Clone, Copy, PartialEq, Eq, Structural)]
pub enum FileType {
    Unknown,
    Fifo,
    CharDev,
    Directory,
    BlockDev,
    Normal,
    SymbolicLink,
    Socket,
    Whiteout,
    ArgDirectory,
}

impl FileType {
    /// The character that a long listing shows for this kind of entry.
    pub open spec fn spec_letter(self) -> char {
        match self {
            FileType::Unknown => '?',
            FileType::Fifo => 'p',
            FileType::CharDev => 'c',
            FileType::Directory => 'd',
            FileType::BlockDev => 'b',
            FileType::Normal => '-',
            FileType::SymbolicLink => 'l',
            FileType::Socket => 's',
            FileType::Whiteout => 'w',
            FileType::ArgDirectory => 'd',
        }
    }

    /// The character that a long listing shows for this kind of entry.
    pub fn letter(&self) -> (c: char)
        ensures
            c == self.spec_letter(),
    {
        match self {
            FileType::Unknown => '?',
            FileType::Fifo => 'p',
            FileType::CharDev => 'c',
            FileType::Directory => 'd',
            FileType::BlockDev => 'b',
            FileType::Normal => '-',
            FileType::SymbolicLink => 'l',
            FileType::Socket => 's',
            FileType::Whiteout => 'w',
            FileType::ArgDirectory => 'd',
        }
    }
}

/// The program whose conventions a listing follows.
#[derive(Debug, Clone, Copy, PartialEq, Eq, Structural)]
pub enum LsMode {
    Ls,
    MultiCol,
    LongFormat,
}

/// How the entries of a listing are laid out.
#[derive(Debug, Clone, Copy, PartialEq, Eq, Structural)]
pub enum Format {
    LongFormat,
    OnePerLine,
    ManyPerLine,
    Horizontal,
    WithCommas,
}

/// By what the entries of a listing are ordered.
#[derive(Debug, Clone, Copy, PartialEq, Eq, Structural)]
pub enum SortType {
    Name,
    Extension,
    Size,
    Time,
    Unsorted,
}

/// Which of an entry's times a listing shows and sorts by.
#[derive(Debug, Clone, Copy, PartialEq, Eq, Structural)]
pub enum TimeType {
    Mtime,
    Ctime,
    Atime,
}

/// The options of a listing.
#[derive(Debug, Clone, Copy)]
pub struct Config {
    pub ls_mode: LsMode,
    pub format: Format,
    pub sort_type: SortType,
    pub sort_reverse: bool,
    pub time_type: TimeType,
    pub print_owner: bool,
    pub print_group: bool,
    pub print_inode: bool,
    pub print_block_size: bool,
    pub numeric_ids: bool,
    pub show_all: bool,
    pub show_almost_all: bool,
    pub recursive: bool,
    pub immediate_dirs: bool,
    pub long_format: bool,
    pub dereference: bool,
    pub show_hidden: bool,
    pub line_length: usize,
    pub color: bool,
}

impl Default for Config {
    /// A listing in columns, sorted by name, of the entries that are not
    /// hidden, 80 characters wide and without colour.
    fn default() -> (c: Self)
        ensures
            c == (Config {
                ls_mode: LsMode::Ls,
                format: Format::ManyPerLine,
                sort_type: SortType::Name,
                sort_reverse: false,
                time_type: TimeType::Mtime,
                print_owner: true,
                print_group: true,
                print_inode: false,
                print_block_size: false,
                numeric_ids: false,
                show_all: false,
                show_almost_all: false,
                recursive: false,
                immediate_dirs: false,
                long_format: false,
                dereference: false,
                show_hidden: false,
                line_length: 80,
                color: false,
            }),
    {
        Config {
            ls_mode: LsMode::Ls,
            format: Format::ManyPerLine,
            sort_type: SortType::Name,
            sort_reverse: false,
            time_type: TimeType::Mtime,
            print_owner: true,
            print_group: true,
            print_inode: false,
            print_block_size: false,
            numeric_ids: false,
            show_all: false,
            show_almost_all: false,
            recursive: false,
            immediate_dirs: false,
            long_format: false,
            dereference: false,
            show_hidden: false,
            line_length: 80,
            color: false,
        }
    }
}

} // verus!
