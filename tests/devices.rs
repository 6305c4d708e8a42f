use std::sync::atomic::{AtomicBool, Ordering};
use std::sync::Arc;

use tokio::sync::{mpsc, Mutex, Notify};
use wordvm::devices::kbd::{arm_outcome, read_outcome, KbdDevice, KBD_DOWN, KBD_KEYCODE, KBD_TURN};
use wordvm::devices::onboard::{HexDisplayDevice, LcdDisplayDevice, LCD_CHAR, LCD_COMMIT, LCD_X, LCD_Y};
use wordvm::devices::vga::{VgaDevice, VGA_COLOUR, VGA_COMMIT, VGA_MODE, VGA_X1, VGA_X2, VGA_Y1, VGA_Y2};
use wordvm::devices::{Device, DeviceArray, DeviceError, DeviceFrame};
use wordvm::machine::{step, Environment, StepFatal};
use wordvm::sdlcore::{SdlDrawCommand, SdlKbdEvent};

#[test]
fn hex_display_stores_low_half() {
    let mut hex = HexDisplayDevice::default();
    assert_eq!(hex.set(0x8000_0003, 0x0001_beef), Ok(true));
    assert_eq!(hex.set(0x8000_0004, -1), Ok(true));
    assert_eq!(hex.hex0.cell.load(Ordering::Relaxed), 0xbeef);
    assert_eq!(hex.hex1.cell.load(Ordering::Relaxed), 0xffff);
    assert_eq!(hex.get(0x8000_0003), Err(DeviceError::Unreadable));
    assert_eq!(hex.registers(), &[0x8000_0003, 0x8000_0004]);
}

fn runtime() -> tokio::runtime::Runtime {
    tokio::runtime::Builder::new_current_thread().build().unwrap()
}

#[test]
fn lcd_commit_posts_character() {
    let rt = runtime();
    let mut lcd = LcdDisplayDevice::new(rt.handle().clone());
    let grid = lcd.lcd.clone();
    assert_eq!(lcd.set(LCD_X, 0x13), Ok(true));
    assert_eq!(lcd.set(LCD_Y, 3), Ok(true));
    assert_eq!(lcd.set(LCD_CHAR, 0x141), Ok(true));
    assert_eq!(lcd.set(LCD_COMMIT, 1), Ok(true));
    assert_eq!(lcd.set(LCD_CHAR, 0x42), Ok(true));
    drop(lcd);
    drop(rt);
    let grid = grid.try_lock().unwrap();
    assert_eq!(grid[1][3], 'A');
    assert_eq!(grid[0][3], '\0');
}

#[test]
fn lcd_rejects_zero_commit_and_reads() {
    let rt = runtime();
    let mut lcd = LcdDisplayDevice::new(rt.handle().clone());
    assert_eq!(lcd.set(LCD_COMMIT, 0), Err(DeviceError::Unwritable));
    assert_eq!(lcd.get(LCD_COMMIT), Ok(0));
    assert_eq!(lcd.get(LCD_X), Err(DeviceError::Unreadable));
}

#[test]
fn lcd_commit_off_grid_posts_nothing() {
    let rt = runtime();
    let mut lcd = LcdDisplayDevice::new(rt.handle().clone());
    let grid = lcd.lcd.clone();
    lcd.set(LCD_X, 15).unwrap();
    lcd.set(LCD_CHAR, 0x42).unwrap();
    assert_eq!(lcd.set(LCD_COMMIT, 1), Ok(true));
    drop(lcd);
    drop(rt);
    let grid = grid.try_lock().unwrap();
    assert!(grid.iter().all(|row| row.iter().all(|c| *c == '\0')));
}

#[test]
fn lcd_commit_while_grid_is_read_still_posts() {
    let rt = runtime();
    let mut lcd = LcdDisplayDevice::new(rt.handle().clone());
    let grid = lcd.lcd.clone();
    lcd.set(LCD_CHAR, 0x5a).unwrap();
    let guard = grid.try_lock().unwrap();
    assert_eq!(lcd.set(LCD_COMMIT, 1), Ok(true));
    assert_eq!(guard[0][0], '\0');
    drop(guard);
    drop(lcd);
    drop(rt);
    assert_eq!(grid.try_lock().unwrap()[0][0], 'Z');
}

fn keyboard() -> (KbdDevice, Arc<AtomicBool>, Arc<Mutex<SdlKbdEvent>>) {
    let turn = Arc::new(AtomicBool::new(false));
    let event = Arc::new(Mutex::new(SdlKbdEvent::default()));
    let kbd = KbdDevice::init(turn.clone(), Arc::new(Notify::new()), event.clone());
    (kbd, turn, event)
}

#[test]
fn keyboard_arm_and_capture() {
    let (mut kbd, turn, event) = keyboard();
    assert_eq!(kbd.get(KBD_TURN), Ok(0));
    assert_eq!(kbd.set(KBD_TURN, 1), Ok(false));
    assert_eq!(kbd.get(KBD_TURN), Ok(1));
    assert_eq!(kbd.get(KBD_DOWN), Err(DeviceError::Busy));
    assert_eq!(kbd.get(KBD_KEYCODE), Err(DeviceError::Busy));
    assert_eq!(kbd.set(KBD_TURN, 1), Err(DeviceError::Busy));
    *event.try_lock().unwrap() = SdlKbdEvent { down: true, keycode: 0x71 };
    turn.store(false, Ordering::SeqCst);
    assert_eq!(kbd.get(KBD_TURN), Ok(0));
    assert_eq!(kbd.get(KBD_DOWN), Ok(1));
    assert_eq!(kbd.get(KBD_KEYCODE), Ok(0x71));
}

#[test]
fn keyboard_rejects_other_writes() {
    let (mut kbd, _turn, event) = keyboard();
    assert_eq!(kbd.set(KBD_TURN, 2), Err(DeviceError::Unwritable));
    assert_eq!(kbd.set(KBD_DOWN, 1), Err(DeviceError::Unwritable));
    let guard = event.try_lock().unwrap();
    assert_eq!(kbd.get(KBD_DOWN), Err(DeviceError::Busy));
    drop(guard);
    assert_eq!(kbd.get(KBD_KEYCODE), Ok(0x61));
}

#[test]
fn keyboard_decisions() {
    assert_eq!(arm_outcome(true, KBD_TURN, 1), Err(DeviceError::Busy));
    assert_eq!(arm_outcome(false, KBD_TURN, 1), Ok(false));
    assert_eq!(read_outcome(KBD_KEYCODE, false, None), Err(DeviceError::Busy));
    assert_eq!(read_outcome(KBD_DOWN, false, Some(SdlKbdEvent { down: false, keycode: 3 })), Ok(0));
    assert_eq!(read_outcome(0x8000_0023, false, None), Err(DeviceError::Unreadable));
}

#[test]
fn vga_registers_mask_and_commit_sends() {
    let (tx, mut rx) = mpsc::channel(10);
    let mut vga = VgaDevice::new(tx);
    assert_eq!(vga.set(VGA_X1, 0x7_ffff), Ok(false));
    assert_eq!(vga.set(VGA_Y1, 0x3ff), Ok(false));
    assert_eq!(vga.set(VGA_X2, 12), Ok(false));
    assert_eq!(vga.set(VGA_Y2, 13), Ok(false));
    assert_eq!(vga.set(VGA_COLOUR, -1), Ok(false));
    assert_eq!(vga.command(), SdlDrawCommand { x1: 0x3ff, y1: 0x1ff, x2: 12, y2: 13, colour: 0xff_ffff });
    assert_eq!(vga.set(VGA_COMMIT, 1), Ok(false));
    assert_eq!(rx.try_recv().unwrap(), SdlDrawCommand { x1: 0x3ff, y1: 0x1ff, x2: 12, y2: 13, colour: 0xff_ffff });
    assert_eq!(vga.get(VGA_COMMIT), Ok(0));
    assert_eq!(vga.get(VGA_MODE), Err(DeviceError::Unreadable));
}

#[test]
fn vga_commit_faults() {
    let (tx, rx) = mpsc::channel(1);
    let mut vga = VgaDevice::new(tx);
    assert_eq!(vga.set(VGA_COMMIT, 0), Err(DeviceError::Unwritable));
    assert_eq!(vga.set(VGA_COMMIT, 1), Ok(false));
    assert_eq!(vga.set(VGA_COMMIT, 1), Err(DeviceError::Dead));
    drop(rx);
    assert_eq!(vga.set(VGA_COMMIT, 1), Err(DeviceError::Dead));
    assert_eq!(vga.set(VGA_MODE, 0), Ok(false));
    assert_eq!(vga.set(VGA_COMMIT, 1), Err(DeviceError::Dead));
}

#[test]
fn vga_negative_mode_selects_writing() {
    let (tx, mut rx) = mpsc::channel(10);
    let mut vga = VgaDevice::new(tx);
    assert_eq!(vga.set(VGA_MODE, 0), Ok(false));
    assert_eq!(vga.set(VGA_COMMIT, 1), Err(DeviceError::Dead));
    assert_eq!(vga.set(VGA_MODE, -1), Ok(false));
    assert_eq!(vga.set(VGA_COMMIT, 1), Ok(false));
    assert!(rx.try_recv().is_ok());
}

#[test]
fn bus_routes_and_refuses_overlap() {
    let mut bus = DeviceArray::new();
    assert!(bus.register_device(Device::Hex(HexDisplayDevice::default())));
    assert!(!bus.register_device(Device::Hex(HexDisplayDevice::default())));
    assert_eq!(bus.set(0x8000_0003, 7), Some(Ok(true)));
    assert_eq!(bus.get(0x8000_0004), Some(Err(DeviceError::Unreadable)));
    assert_eq!(bus.get(0x8000_0005), None);
    assert_eq!(bus.set(0x8000_0005, 1), None);
}

#[test]
fn bus_passes_back_device_answers() {
    let (tx, _rx) = mpsc::channel(10);
    let mut bus = DeviceArray::new();
    assert!(bus.register_device(Device::Vga(VgaDevice::new(tx))));
    assert!(bus.register_device(Device::Hex(HexDisplayDevice::default())));
    assert_eq!(bus.set(VGA_COMMIT, 0), Some(Err(DeviceError::Unwritable)));
    assert_eq!(bus.get(VGA_COMMIT), Some(Ok(0)));
    assert_eq!(bus.get(VGA_X1), Some(Err(DeviceError::Unreadable)));
    assert_eq!(bus.set(VGA_MODE, 0), Some(Ok(false)));
    assert_eq!(bus.set(VGA_COMMIT, 1), Some(Err(DeviceError::Dead)));
    assert_eq!(bus.set(0x8000_0003, 9), Some(Ok(true)));
}

fn mov(env: &mut Environment, at: usize, dst: u32, src: usize) {
    env.write_word(at, 5);
    env.write_word(at + 1, dst as i32);
    env.write_word(at + 2, src as i32);
}

#[test]
fn program_draws_through_vga() {
    let (tx, mut rx) = mpsc::channel(10);
    let mut bus = DeviceArray::new();
    assert!(bus.register_device(Device::Vga(VgaDevice::new(tx))));
    let mut env = Environment::default();
    let values = [(VGA_X1, 10), (VGA_Y1, 20), (VGA_X2, 110), (VGA_Y2, 80), (VGA_COLOUR, 0x0000ff), (VGA_MODE, 1), (VGA_COMMIT, 1)];
    for (k, (reg, v)) in values.iter().enumerate() {
        env.write_word(200 + k, *v);
        mov(&mut env, 4 * k, *reg, 200 + k);
    }
    for k in 0..values.len() {
        let r = step(&mut env, &mut bus).unwrap();
        assert!(!r.redraw);
        assert_eq!(r.changed, Some(values[k].0));
    }
    assert_eq!(rx.try_recv().unwrap(), SdlDrawCommand { x1: 10, y1: 20, x2: 110, y2: 80, colour: 0x0000ff });
    assert!(rx.try_recv().is_err());
}

#[test]
fn program_sees_device_failure() {
    let mut bus = DeviceArray::new();
    assert!(bus.register_device(Device::Hex(HexDisplayDevice::default())));
    let mut env = Environment::default();
    mov(&mut env, 0, 40, 0x8000_0003u32 as usize);
    let r = step(&mut env, &mut bus);
    assert_eq!(r, Err(StepFatal::DeviceFailure { error: DeviceError::Unreadable }));
    assert!(env.poison);
}

#[test]
fn program_write_to_hex_asks_redraw() {
    let hex = HexDisplayDevice::default();
    let cell = hex.hex1.cell.clone();
    let mut bus = DeviceArray::new();
    assert!(bus.register_device(Device::Hex(hex)));
    let mut env = Environment::default();
    env.write_word(100, 0x1234);
    mov(&mut env, 0, 0x8000_0004, 100);
    let r = step(&mut env, &mut bus).unwrap();
    assert!(r.redraw);
    assert_eq!(r.changed, Some(0x8000_0004));
    assert_eq!(cell.load(Ordering::Relaxed), 0x1234);
}
