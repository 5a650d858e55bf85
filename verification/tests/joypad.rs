use geebee::joypad::{Button, Joypad};

#[test]
fn joypad_reports_the_selected_group() {
    let mut j = Joypad::new();
    assert_eq!(j.value(), 0xff);
    j.select(0x20);
    assert_eq!(j.value(), 0x2f);
    j.press(Button::Right);
    assert_eq!(j.value(), 0x2e);
    j.press(Button::Down);
    assert_eq!(j.value(), 0x26);
    j.press(Button::A);
    assert_eq!(j.value(), 0x26);
    j.select(0x10);
    assert_eq!(j.value(), 0x1e);
    j.press(Button::Start);
    assert_eq!(j.value(), 0x16);
    j.release(Button::A);
    assert_eq!(j.value(), 0x17);
    j.select(0x30);
    assert_eq!(j.value(), 0x37);
}
