use device_monitor::listing::{Config, FileType, Format, SortType};

#[test]
fn test_file_type_detection() {
    assert_eq!(FileType::Normal.letter(), '-');
    assert_eq!(FileType::Directory.letter(), 'd');
    assert_eq!(FileType::SymbolicLink.letter(), 'l');
}

#[test]
fn test_config_defaults() {
    let config = Config::default();
    assert_eq!(config.format, Format::ManyPerLine);
    assert_eq!(config.sort_type, SortType::Name);
    assert!(!config.sort_reverse);
}

#[test]
fn file_type_letters_cover_every_kind() {
    assert_eq!(FileType::Unknown.letter(), '?');
    assert_eq!(FileType::Fifo.letter(), 'p');
    assert_eq!(FileType::CharDev.letter(), 'c');
    assert_eq!(FileType::BlockDev.letter(), 'b');
    assert_eq!(FileType::Socket.letter(), 's');
    assert_eq!(FileType::Whiteout.letter(), 'w');
    assert_eq!(FileType::ArgDirectory.letter(), 'd');
}

#[test]
fn config_defaults_are_plain() {
    let config = Config::default();
    assert_eq!(config.line_length, 80);
    assert!(config.print_owner);
    assert!(config.print_group);
    assert!(!config.color);
    assert!(!config.show_hidden);
}
