use terminal_editor_rust::clipboard::{Clipboard, MemoryClipboard};

#[test]
fn memory_clipboard_gives_back_the_last_text() {
    let mut clipboard = MemoryClipboard::default();
    assert_eq!(clipboard.read().unwrap(), "");
    clipboard.write("one").unwrap();
    clipboard.write("two").unwrap();
    assert_eq!(clipboard.read().unwrap(), "two");
    assert_eq!(clipboard.read().unwrap(), "two");
}
