//! Keyboard decoding, the TTY ring buffer, and the screen model.

use kurumi::io::PortIo;
use kurumi::keyboard::{read_char, Keyboard, Modifiers, Scancode};
use kurumi::tty::TTY_Buf;
use kurumi::vga::{
    clear_left_once, clear_screen, kprint, Color, ColorCode, Writer, BUFFER_HEIGHT, BUFFER_WIDTH,
};

/// Feeds a scripted sequence of scancodes.
struct ScancodeFeed {
    codes: Vec<u8>,
    next: usize,
}

impl PortIo for ScancodeFeed {
    fn outb(&mut self, _port: u16, _value: u8) {}

    fn inb(&mut self, _port: u16) -> u8 {
        let code = self.codes[self.next];
        self.next += 1;
        code
    }

    fn inw(&mut self, _port: u16) -> u16 {
        0
    }
}

#[test]
fn scancodes_decode_to_their_keys() {
    assert_eq!(Scancode(0x10).to_ascii(), Some(b'q'));
    assert_eq!(Scancode(0x1E).to_ascii(), Some(b'a'));
    assert_eq!(Scancode(0x2C).to_ascii(), Some(b'z'));
    assert_eq!(Scancode(0x39).to_ascii(), Some(b' '));
    assert_eq!(Scancode(0x02).to_ascii(), Some(b'1'));
    assert_eq!(Scancode(0x0B).to_ascii(), Some(b'0'));
    assert_eq!(Scancode(0x3A).to_ascii(), None);
    assert_eq!(Scancode(0xAA).to_ascii(), None);
}

#[test]
fn shift_raises_letters_and_digits() {
    let mut feed = ScancodeFeed { codes: vec![0x1E, 0x2A, 0x1E, 0x02, 0xAA, 0x1E], next: 0 };
    let mut keyboard = Keyboard::new();
    assert_eq!(read_char(&mut keyboard, &mut feed), Some('a'));
    assert_eq!(read_char(&mut keyboard, &mut feed), None); // shift press
    assert_eq!(read_char(&mut keyboard, &mut feed), Some('A'));
    assert_eq!(read_char(&mut keyboard, &mut feed), Some('!'));
    assert_eq!(read_char(&mut keyboard, &mut feed), None); // shift release
    assert_eq!(read_char(&mut keyboard, &mut feed), Some('a'));
}

#[test]
fn caps_lock_and_shift_cancel_for_letters_only() {
    let mut feed = ScancodeFeed { codes: vec![0x3A, 0x1E, 0x02, 0x2A, 0x1E, 0x02], next: 0 };
    let mut keyboard = Keyboard::new();
    assert_eq!(read_char(&mut keyboard, &mut feed), None); // caps lock
    assert_eq!(read_char(&mut keyboard, &mut feed), Some('A'));
    assert_eq!(read_char(&mut keyboard, &mut feed), Some('1'));
    assert_eq!(read_char(&mut keyboard, &mut feed), None); // shift press
    assert_eq!(read_char(&mut keyboard, &mut feed), Some('a'));
    assert_eq!(read_char(&mut keyboard, &mut feed), Some('!'));
}

#[test]
fn shifted_zero_is_a_closing_parenthesis() {
    let mut modifiers = Modifiers::new();
    modifiers.update(Scancode(0x2A));
    assert!(modifiers.is_shifted());
    assert_eq!(modifiers.modify(b'0'), b')');
    assert_eq!(modifiers.modify(b','), b',');
}

#[test]
fn tty_input_echoes_what_was_queued() {
    let mut tty = TTY_Buf::new();
    assert!(!tty.check_full());
    let echoed = tty.input('k');
    assert_eq!(echoed, vec!['k']);
    let echoed = tty.input('o');
    assert_eq!(echoed, vec!['o']);
}

#[test]
fn tty_read_drains_everything_once() {
    let mut tty = TTY_Buf::new();
    let first = tty.input('x');
    assert_eq!(first, vec!['x']);
    let drained = tty.read();
    assert_eq!(drained, Vec::<char>::new());
}

#[test]
fn screen_starts_blank_and_takes_text_at_the_bottom_row() {
    let color = ColorCode::new(Color::White, Color::Blue);
    let mut writer = Writer::new(color);
    kprint(&mut writer, "ok");
    let bottom = (BUFFER_HEIGHT - 1) * BUFFER_WIDTH;
    assert_eq!(writer.buffer[bottom].ascii_char, b'o');
    assert_eq!(writer.buffer[bottom + 1].ascii_char, b'k');
    assert_eq!(writer.buffer[bottom + 2].ascii_char, b' ');
    assert_eq!(writer.column_position, 2);
}

#[test]
fn a_line_break_scrolls_the_screen_up() {
    let color = ColorCode::new(Color::White, Color::Blue);
    let mut writer = Writer::new(color);
    kprint(&mut writer, "hi\n");
    let second_last = (BUFFER_HEIGHT - 2) * BUFFER_WIDTH;
    assert_eq!(writer.buffer[second_last].ascii_char, b'h');
    assert_eq!(writer.buffer[second_last + 1].ascii_char, b'i');
    assert_eq!(writer.column_position, 0);
}

#[test]
fn a_full_line_wraps_by_scrolling() {
    let color = ColorCode::new(Color::White, Color::Blue);
    let mut writer = Writer::new(color);
    for _ in 0..BUFFER_WIDTH {
        writer.write_byte(b'x');
    }
    assert_eq!(writer.column_position, BUFFER_WIDTH);
    writer.write_byte(b'y');
    assert_eq!(writer.column_position, 1);
    let bottom = (BUFFER_HEIGHT - 1) * BUFFER_WIDTH;
    assert_eq!(writer.buffer[bottom].ascii_char, b'y');
    let second_last = (BUFFER_HEIGHT - 2) * BUFFER_WIDTH;
    assert_eq!(writer.buffer[second_last].ascii_char, b'x');
}

#[test]
fn clear_screen_blanks_every_cell() {
    let color = ColorCode::new(Color::White, Color::Blue);
    let mut writer = Writer::new(color);
    kprint(&mut writer, "words all over\nand more");
    clear_screen(&mut writer);
    assert_eq!(writer.column_position, 0);
    for cell in writer.buffer.iter() {
        assert_eq!(cell.ascii_char, b' ');
        assert_eq!(cell.color_code, color);
    }
}

#[test]
fn clear_left_once_erases_the_last_character() {
    let color = ColorCode::new(Color::White, Color::Blue);
    let mut writer = Writer::new(color);
    kprint(&mut writer, "ab");
    clear_left_once(&mut writer);
    assert_eq!(writer.column_position, 1);
    let bottom = (BUFFER_HEIGHT - 1) * BUFFER_WIDTH;
    assert_eq!(writer.buffer[bottom].ascii_char, b'a');
    assert_eq!(writer.buffer[bottom + 1].ascii_char, b' ');
    // At column zero there is nothing to erase.
    clear_left_once(&mut writer);
    clear_left_once(&mut writer);
    assert_eq!(writer.column_position, 0);
}

#[test]
fn color_codes_pack_background_high() {
    assert_eq!(ColorCode::new(Color::White, Color::Blue).0, 0x1F);
    assert_eq!(ColorCode::new(Color::Black, Color::Black).0, 0x00);
    assert_eq!(ColorCode::new(Color::Yellow, Color::Red).0, 0x4E);
}
