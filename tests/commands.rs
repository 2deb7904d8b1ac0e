use pico_os::commands::handlers::{
    convert_to_celsius, help_listing, slots_listing, temperature_text, ByteWriter, EchoCommand,
    LedCommand, ReadCommand, WriteCommand,
};
use pico_os::commands::{
    collect_words, find_command, get_commands, CommandArgs, CommandId, CommandRegistry, CommandResult, Context,
    DeviceAction, LedMode, COMMAND_COUNT,
};
use pico_os::flash::{FlashStore, FLASH_SECTOR_SIZE, SLOT_COUNT};
use pico_os::Error;

fn context() -> Context {
    Context::new(FlashStore::new())
}

fn text(r: CommandResult) -> Vec<u8> {
    match r {
        CommandResult::Success(Some(t)) => t,
        other => panic!("expected text, got {:?}", other),
    }
}

fn error(r: CommandResult) -> Error {
    match r {
        CommandResult::Error(e) => e,
        other => panic!("expected an error, got {:?}", other),
    }
}

fn sectors(ctx: &Context) -> Vec<Vec<u8>> {
    (0..SLOT_COUNT).map(|s| ctx.flash.sector(s).clone()).collect()
}

fn words(v: &[&str]) -> Vec<Vec<u8>> {
    v.iter().map(|w| w.as_bytes().to_vec()).collect()
}

#[test]
fn echo_joins_words() {
    let reg = CommandRegistry::new();
    let mut ctx = context();
    assert_eq!(text(reg.execute("echo a b c", &mut ctx)), b"a b c".to_vec());
    assert_eq!(text(reg.execute("  echo   a\tb  c  ", &mut ctx)), b"a b c".to_vec());
    assert_eq!(text(reg.execute("echo", &mut ctx)), Vec::<u8>::new());
    assert!(ctx.actions.is_empty());
}

#[test]
fn empty_line_is_idle() {
    let reg = CommandRegistry::new();
    let mut ctx = context();
    let before = sectors(&ctx);
    assert!(matches!(reg.execute("", &mut ctx), CommandResult::Idle));
    assert!(matches!(reg.execute("   \t ", &mut ctx), CommandResult::Idle));
    assert!(matches!(reg.execute_bytes(b"", &mut ctx), CommandResult::Idle));
    assert!(ctx.actions.is_empty());
    assert!(!ctx.led_on);
    assert_eq!(sectors(&ctx), before);
}

#[test]
fn unknown_command_changes_nothing() {
    let reg = CommandRegistry::new();
    let mut ctx = context();
    reg.execute("write 1 kept", &mut ctx);
    ctx.take_actions();
    let before = sectors(&ctx);
    for _ in 0..2 {
        assert_eq!(error(reg.execute("frobnicate now", &mut ctx)), Error::UnknownCommand);
        assert_eq!(error(reg.execute("HELP", &mut ctx)), Error::UnknownCommand);
        assert!(ctx.actions.is_empty());
        assert!(!ctx.led_on);
        assert_eq!(sectors(&ctx), before);
    }
}

#[test]
fn too_many_words_is_rejected() {
    let reg = CommandRegistry::new();
    let mut ctx = context();
    assert_eq!(text(reg.execute("echo 1 2 3 4 5 6 7", &mut ctx)), b"1 2 3 4 5 6 7".to_vec());
    assert_eq!(error(reg.execute("echo 1 2 3 4 5 6 7 8", &mut ctx)), Error::TooManyArguments);
    assert_eq!(error(reg.execute("nosuch 1 2 3 4 5 6 7 8", &mut ctx)), Error::TooManyArguments);
}

#[test]
fn led_blink_ends_off() {
    let reg = CommandRegistry::new();
    for start in ["on", "off"] {
        let mut ctx = context();
        reg.execute(&format!("led {}", start), &mut ctx);
        ctx.take_actions();
        assert!(matches!(reg.execute("led blink", &mut ctx), CommandResult::Success(None)));
        assert!(!ctx.led_on);
        assert_eq!(
            ctx.actions,
            vec![
                DeviceAction::SetLed(true),
                DeviceAction::DelayMs(500),
                DeviceAction::SetLed(false),
                DeviceAction::DelayMs(500),
                DeviceAction::SetLed(true),
                DeviceAction::DelayMs(500),
                DeviceAction::SetLed(false),
            ]
        );
    }
}

#[test]
fn led_on_and_off() {
    let reg = CommandRegistry::new();
    let mut ctx = context();
    assert!(matches!(reg.execute("led on", &mut ctx), CommandResult::Success(None)));
    assert!(ctx.led_on);
    assert!(matches!(reg.execute("led off", &mut ctx), CommandResult::Success(None)));
    assert!(!ctx.led_on);
    assert_eq!(ctx.take_actions(), vec![DeviceAction::SetLed(true), DeviceAction::SetLed(false)]);
    assert!(ctx.actions.is_empty());
}

#[test]
fn led_argument_errors() {
    let reg = CommandRegistry::new();
    let mut ctx = context();
    assert_eq!(error(reg.execute("led", &mut ctx)), Error::InvalidArgumentCount);
    assert_eq!(error(reg.execute("led on off", &mut ctx)), Error::InvalidArgumentCount);
    assert_eq!(error(reg.execute("led dim", &mut ctx)), Error::InvalidArgument);
    assert!(ctx.actions.is_empty());
}

#[test]
fn slots_lists_each_slot_once() {
    let reg = CommandRegistry::new();
    let mut ctx = context();
    let out = text(reg.execute("slots", &mut ctx));
    assert_eq!(out, b"  0: slot1\r\n  1: slot2\r\n  2: slot3\r\n  3: slot4\r\n".to_vec());
    let entries = String::from_utf8(out).unwrap();
    assert_eq!(entries.split_terminator("\r\n").count(), SLOT_COUNT);
    assert_eq!(slots_listing(), text(reg.execute("slots", &mut ctx)));
    assert_eq!(error(reg.execute("slots 1", &mut ctx)), Error::InvalidArgumentCount);
}

#[test]
fn write_then_read_through_commands() {
    let reg = CommandRegistry::new();
    let mut ctx = context();
    assert!(matches!(reg.execute("write 0 hello   world", &mut ctx), CommandResult::Success(None)));
    assert_eq!(ctx.take_actions(), vec![DeviceAction::ProgramSlot(0)]);
    assert_eq!(text(reg.execute("read 0", &mut ctx)), b"hello world".to_vec());
    assert_eq!(text(reg.execute("read +0", &mut ctx)), b"hello world".to_vec());
    assert_eq!(text(reg.execute("read 1", &mut ctx)), Vec::<u8>::new());
    assert!(ctx.actions.is_empty());
}

#[test]
fn slot_argument_errors() {
    let reg = CommandRegistry::new();
    let mut ctx = context();
    assert_eq!(error(reg.execute("read 4", &mut ctx)), Error::InvalidSlotNumber);
    assert_eq!(error(reg.execute("read 99999999999999999999999", &mut ctx)), Error::InvalidSlotNumber);
    assert_eq!(error(reg.execute("read -1", &mut ctx)), Error::InvalidSlotNumber);
    assert_eq!(error(reg.execute("read abc", &mut ctx)), Error::InvalidSlotNumber);
    assert_eq!(error(reg.execute("read +", &mut ctx)), Error::InvalidSlotNumber);
    assert_eq!(error(reg.execute("write 4 text", &mut ctx)), Error::InvalidSlotNumber);
    assert_eq!(error(reg.execute("read", &mut ctx)), Error::InvalidArgumentCount);
    assert_eq!(error(reg.execute("read 1 2", &mut ctx)), Error::InvalidArgumentCount);
    assert_eq!(error(reg.execute("write 0", &mut ctx)), Error::InvalidArgumentCount);
    assert!(ctx.actions.is_empty());
}

#[test]
fn read_shows_placeholder_for_invalid_utf8() {
    let mut sectors = vec![vec![0xffu8; FLASH_SECTOR_SIZE]; SLOT_COUNT];
    sectors[1][..6].copy_from_slice(&[2, 0, 0, 0, 0xc3, 0x28]);
    let mut ctx = Context::new(FlashStore::from_sectors(sectors).unwrap());
    let reg = CommandRegistry::new();
    assert_eq!(text(reg.execute("read 1", &mut ctx)), b"<invalid utf8>".to_vec());
}

#[test]
fn read_shows_utf8_payload_unchanged() {
    let mut ctx = context();
    ctx.flash.write_to_flash(2, "caf\u{e9}".as_bytes()).unwrap();
    let reg = CommandRegistry::new();
    assert_eq!(text(reg.execute("read 2", &mut ctx)), "caf\u{e9}".as_bytes().to_vec());
}

#[test]
fn write_command_reports_data_too_large() {
    let mut ctx = context();
    let big = vec![b'a'; 5000];
    let args = CommandArgs::WriteSlot(0, big);
    assert_eq!(error(WriteCommand.execute(args, &mut ctx)), Error::DataTooLarge);
    assert!(ctx.actions.is_empty());
    assert_eq!(ctx.flash.read_from_flash(0), Ok(Vec::new()));
}

#[test]
fn execute_rejects_mismatched_arguments() {
    let mut ctx = context();
    assert_eq!(error(ReadCommand.execute(CommandArgs::NoArgs, &mut ctx)), Error::InvalidArgument);
    assert_eq!(error(LedCommand.execute(CommandArgs::Slot(1), &mut ctx)), Error::InvalidArgument);
    assert_eq!(error(EchoCommand.execute(CommandArgs::Led(LedMode::On), &mut ctx)), Error::InvalidArgument);
}

#[test]
fn parse_checks_arguments_only() {
    assert!(matches!(WriteCommand.parse(&words(&["2", "a", "b"])), Ok(CommandArgs::WriteSlot(2, ref t)) if t == b"a b"));
    assert!(matches!(LedCommand.parse(&words(&["blink"])), Ok(CommandArgs::Led(LedMode::Blink))));
    assert!(matches!(ReadCommand.parse(&words(&["3"])), Ok(CommandArgs::Slot(3))));
    assert!(matches!(EchoCommand.parse(&words(&[])), Ok(CommandArgs::Text(ref t)) if t.is_empty()));
}

#[test]
fn reboot_and_bootloader_halt() {
    let reg = CommandRegistry::new();
    let mut ctx = context();
    assert!(matches!(reg.execute("reboot", &mut ctx), CommandResult::Halt));
    assert_eq!(ctx.take_actions(), vec![DeviceAction::StartWatchdog(1)]);
    assert!(matches!(reg.execute("bootloader", &mut ctx), CommandResult::Halt));
    assert_eq!(ctx.take_actions(), vec![DeviceAction::ResetToUsbBoot]);
    assert_eq!(error(reg.execute("reboot now", &mut ctx)), Error::InvalidArgumentCount);
    assert!(ctx.actions.is_empty());
}

#[test]
fn version_is_fixed() {
    let reg = CommandRegistry::new();
    let mut ctx = context();
    assert_eq!(text(reg.execute("version", &mut ctx)), b"Pico OS v0.1.0".to_vec());
}

#[test]
fn help_lists_every_command() {
    let reg = CommandRegistry::new();
    let mut ctx = context();
    let out = String::from_utf8(text(reg.execute("help", &mut ctx))).unwrap();
    assert!(out.starts_with("Available commands:\r\n"));
    assert!(out.contains("  help         - Show this help message\r\n"));
    assert!(out.contains("  bootloader   - Reboot the device into Bootloader mode\r\n"));
    assert_eq!(out.split_terminator("\r\n").count(), 1 + COMMAND_COUNT);
    assert_eq!(help_listing(), out.into_bytes());
}

#[test]
fn command_table_lookup() {
    let infos = get_commands();
    assert_eq!(infos.len(), COMMAND_COUNT);
    assert_eq!(infos[0].name, "write");
    assert_eq!(infos[9].name, "temp");
    assert_eq!(infos[3].description, "Show this help message");
    for info in &infos {
        let id = find_command(info.name.as_bytes()).unwrap();
        assert_eq!(id.name(), info.name);
    }
    assert_eq!(find_command(b"led"), Some(CommandId::Led));
    assert_eq!(find_command(b"le"), None);
}

#[test]
fn temperature_conversion() {
    assert_eq!(convert_to_celsius(876), 271);
    assert_eq!(convert_to_celsius(877), 267);
    assert_eq!(convert_to_celsius(0), 4372);
    assert_eq!(convert_to_celsius(1000), -309);
    assert_eq!(convert_to_celsius(4095), -14798);
    assert_eq!(convert_to_celsius(65535), -302421);
    assert_eq!(temperature_text(876), "Temperature: 27.1\u{b0}C".as_bytes().to_vec());
    assert_eq!(temperature_text(1000), "Temperature: -30.9\u{b0}C".as_bytes().to_vec());
}

#[test]
fn temp_command_uses_latest_sample() {
    let reg = CommandRegistry::new();
    let mut ctx = context();
    ctx.temperature_sample = 877;
    assert_eq!(text(reg.execute("temp", &mut ctx)), "Temperature: 26.7\u{b0}C".as_bytes().to_vec());
}

#[test]
fn error_messages() {
    assert_eq!(Error::UnknownCommand.message(), "Unknown command");
    assert_eq!(Error::DataTooLarge.message(), "Data too large");
    assert_eq!(Error::InvalidSlotNumber.message(), "Invalid slot number");
}

#[test]
fn byte_writer_bounds() {
    let mut w = ByteWriter::new(vec![0u8; 8]);
    assert_eq!(w.position(), 0);
    assert_eq!(w.write_str("abc"), Ok(()));
    assert_eq!(w.write_str("defgh"), Ok(()));
    assert_eq!(w.position(), 8);
    assert_eq!(w.write_str("i"), Err(Error::BufferOverflow));
    assert_eq!(w.as_written(), b"abcdefgh".to_vec());
    let mut v = ByteWriter::new(vec![0u8; 4]);
    assert_eq!(v.write_str("toolong"), Err(Error::BufferOverflow));
    assert_eq!(v.position(), 0);
}

#[test]
fn collect_words_is_bounded() {
    assert_eq!(collect_words(b"  a bb\tccc  "), Ok(vec![b"a".to_vec(), b"bb".to_vec(), b"ccc".to_vec()]));
    assert_eq!(collect_words(b""), Ok(Vec::new()));
    assert_eq!(collect_words(b"1 2 3 4 5 6 7 8").map(|w| w.len()), Ok(8));
    assert_eq!(collect_words(b"1 2 3 4 5 6 7 8 9"), Err(Error::TooManyArguments));
}
