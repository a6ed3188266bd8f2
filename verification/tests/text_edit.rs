use tuisana::text::chars_of;
use tuisana::text_edit::{TextEdit, TextOp};

fn edit(text: &str) -> TextEdit {
    TextEdit::from_chars(chars_of(text))
}

#[test]
fn typing_a_character_and_deleting_it_leaves_the_text_as_it_was() {
    let mut text = edit("hello world");
    text.move_caret(-6);
    let before = (text.text(), text.caret());

    text.insert('X');
    assert_eq!(text.text(), "helloX world");
    text.delete_back();

    assert_eq!((text.text(), text.caret()), before);
}

#[test]
fn the_caret_is_held_to_the_text() {
    let mut text = edit("abc");
    text.move_caret(-99);
    assert_eq!(text.caret(), 0);
    text.delete_back();
    assert_eq!(text.text(), "abc", "nothing before the caret to delete");
    text.move_caret(99);
    assert_eq!(text.caret(), 3);
}

#[test]
fn word_motions_skip_spaces_then_a_word() {
    let mut text = edit("alpha  beta gamma");
    text.move_word(-1);
    assert_eq!(text.caret(), 12);
    text.move_word(-1);
    assert_eq!(text.caret(), 7);
    text.jump_start();
    text.move_word(1);
    assert_eq!(text.caret(), 5);
    text.apply(TextOp::JumpEnd);
    assert_eq!(text.caret(), 17);
}

#[test]
fn setting_the_text_keeps_the_caret_when_it_fits() {
    let mut text = edit("abcdef");
    text.move_caret(-2);
    text.set_text("xy");
    assert_eq!(text.caret(), 2);
    text.set_text_at_end("longer text");
    assert_eq!(text.caret(), 11);
    text.clear();
    assert!(text.is_empty());
    assert_eq!(text.caret(), 0);
}
