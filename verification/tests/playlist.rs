use grapevined::playlist::is_m3u_file;
use grapevined::playlist::parse_playlist;

#[test]
fn parse_keeps_lines_in_order_and_drops_header() {
    let items = parse_playlist("#EXTM3U\n\n/a.mp3\n/b.mp3\n");
    assert_eq!(items, vec!["/a.mp3".to_string(), "/b.mp3".to_string()]);
}

#[test]
fn parse_trims_whitespace_and_carriage_returns() {
    let items = parse_playlist("  /a.mp3  \r\n\t/b.mp3\r\n");
    assert_eq!(items, vec!["/a.mp3".to_string(), "/b.mp3".to_string()]);
}

#[test]
fn parse_skips_comments_even_after_leading_whitespace() {
    let items = parse_playlist("  # a comment\n/a.mp3\n#EXTINF:12,artist\n");
    assert_eq!(items, vec!["/a.mp3".to_string()]);
}

#[test]
fn parse_takes_a_final_line_without_newline() {
    let items = parse_playlist("/a.mp3\n/b.mp3");
    assert_eq!(items, vec!["/a.mp3".to_string(), "/b.mp3".to_string()]);
}

#[test]
fn parse_of_blank_text_yields_nothing() {
    assert!(parse_playlist("").is_empty());
    assert!(parse_playlist("\n\n  \n\t\r\n").is_empty());
}

#[test]
fn m3u_extension_is_recognized() {
    assert!(is_m3u_file("a.m3u"));
    assert!(is_m3u_file("dir/a.m3u"));
    assert!(is_m3u_file("a.b.m3u"));
}

#[test]
fn other_names_are_rejected() {
    assert!(!is_m3u_file("a.txt"));
    assert!(!is_m3u_file("a.m3u8"));
    assert!(!is_m3u_file("am3u"));
    assert!(!is_m3u_file("a.M3U"));
    // a hidden file named `.m3u` has no extension
    assert!(!is_m3u_file(".m3u"));
    assert!(!is_m3u_file("dir/.m3u"));
    assert!(!is_m3u_file(""));
}
