use ruel::log::{write_indented, Message};
use ruel::sys::Verbosity;

fn message(verbosity: Verbosity, text: &str) -> Message {
    Message { message: text.as_bytes().to_vec(), verbosity, file: "src/main.rs", line: 3, column: 5 }
}

#[test]
fn errors_are_written_in_red() {
    let text = message(Verbosity::Error, "boom").with_ansi_colors();
    assert_eq!(text, "  \x1B[1;31merror\x1B[0m  \x1B[31mboom\x1B[0m".as_bytes().to_vec());
}

#[test]
fn informations_keep_the_default_color() {
    let text = message(Verbosity::Info, "ready").with_ansi_colors();
    assert_eq!(text, "   \x1B[1;34minfo\x1B[0m  \x1B[0mready".as_bytes().to_vec());
    let text = message(Verbosity::Warn, "w").with_ansi_colors();
    assert_eq!(text, "   \x1B[1;33mwarn\x1B[0m  \x1B[33mw\x1B[0m".as_bytes().to_vec());
    let text = message(Verbosity::Trace, "t").with_ansi_colors();
    assert_eq!(text, "  \x1B[1;30mtrace\x1B[0m  \x1B[90mt\x1B[0m".as_bytes().to_vec());
}

#[test]
fn continuation_lines_are_aligned() {
    let line = message(Verbosity::Info, "first\nsecond\n").log();
    assert_eq!(
        line,
        "   \x1B[1;34minfo\x1B[0m  \x1B[0mfirst\n         second\n         \n".as_bytes().to_vec()
    );
}

#[test]
fn writing_in_pieces_is_writing_whole() {
    let mut whole = Vec::new();
    write_indented(&mut whole, b"a\nbc\nd");
    let mut pieces = Vec::new();
    write_indented(&mut pieces, b"a\nb");
    write_indented(&mut pieces, b"c\nd");
    assert_eq!(whole, pieces);
    assert_eq!(whole, b"a\n         bc\n         d".to_vec());
}
