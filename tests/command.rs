use eink_waveshare_rs::epd2in9::Command;
use eink_waveshare_rs::epd4in2::Command as Command4in2;

#[test]
fn command_addr() {
    assert_eq!(Command::DRIVER_OUTPUT_CONTROL.address(), 0x01);
}

#[test]
fn command_addr_all_2in9() {
    assert_eq!(Command::BOOSTER_SOFT_START_CONTROL.address(), 0x0C);
    assert_eq!(Command::DEEP_SLEEP_MODE.address(), 0x10);
}

#[test]
fn command_addr_4in2() {
    assert_eq!(Command4in2::PANEL_SETTING.address(), 0x00);
    assert_eq!(Command4in2::DISPLAY_REFRESH.address(), 0x12);
    assert_eq!(Command4in2::DEEP_SLEEP.address(), 0x07);
    assert_eq!(Command4in2::PARTIAL_WINDOW.address(), 0x90);
    assert_eq!(Command4in2::RESOLUTION_SETTING.address(), 0x61);
}
