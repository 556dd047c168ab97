use groovebox::display::{sample_display_name, try_sample_display_name};

#[test]
fn windows_path_shows_file_part() {
    assert_eq!(sample_display_name("C:\\samples\\kick.wav"), "kick.wav");
}

#[test]
fn slash_path_shows_file_part() {
    assert_eq!(sample_display_name("samples/kick.wav"), "kick.wav");
    assert_eq!(sample_display_name("/home/me/samples/a_long_sample_name.ogg"), "...name.ogg");
}

#[test]
fn last_separator_of_either_kind_wins() {
    assert_eq!(sample_display_name("C:\\samples/drums\\kick.wav"), "kick.wav");
    assert_eq!(sample_display_name("C:\\samples\\drums/snare.wav"), "snare.wav");
}

#[test]
fn long_name_without_separator_is_cut() {
    assert_eq!(sample_display_name("my_kick_sample.wav"), "...mple.wav");
}

#[test]
fn long_file_name_keeps_last_eight_bytes() {
    assert_eq!(sample_display_name("C:\\x\\a_long_sample_name.ogg"), "...name.ogg");
}

#[test]
fn ten_bytes_are_shown_whole() {
    assert_eq!(sample_display_name("abcdefghij"), "abcdefghij");
    assert_eq!(sample_display_name("abcdefghijk"), "...defghijk");
}

#[test]
fn trailing_backslash_gives_empty_name() {
    assert_eq!(sample_display_name("dir\\"), "");
    assert_eq!(sample_display_name("dir/"), "");
    assert_eq!(sample_display_name(""), "");
}

#[test]
fn multibyte_name_cut_on_char_boundary() {
    // six two-byte letters and ".wav": sixteen bytes, the last eight start at a letter
    assert_eq!(sample_display_name("d\\\u{e9}\u{e9}\u{e9}\u{e9}\u{e9}\u{e9}.wav"), "...\u{e9}\u{e9}.wav");
    // five two-byte letters: short enough to show whole
    assert_eq!(sample_display_name("\u{e9}\u{e9}\u{e9}\u{e9}\u{e9}"), "\u{e9}\u{e9}\u{e9}\u{e9}\u{e9}");
}

#[test]
fn checked_label_refuses_a_cut_inside_a_character() {
    // seven two-byte letters and ".av": the last eight bytes start inside a letter
    assert_eq!(try_sample_display_name("x/\u{e9}\u{e9}\u{e9}\u{e9}\u{e9}\u{e9}\u{e9}.av"), None);
    assert_eq!(try_sample_display_name("x/kick.wav"), Some("kick.wav".to_string()));
    assert_eq!(try_sample_display_name("x\\a_long_sample_name.ogg"), Some("...name.ogg".to_string()));
}
