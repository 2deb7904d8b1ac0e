//! Each command's two steps: `parse` checks the words after the command
//! name and changes nothing; `execute` acts on the context.
//!
//! Temperatures come from the linear sensor model
//! `T = 27 - (V - 0.706 V) / 1.721 mV`, with `V = raw * 3.3 V / 4096`,
//! computed exactly in integers and rounded to tenths of a degree.
use vstd::prelude::*;
use vstd::string::*;
use vstd::utf8::encode_utf8;

use super::{
    ArgsView, CommandArgs, CommandId, CommandResult, Context, ContextView, DeviceAction, LedMode,
    Reply, COMMAND_COUNT, command_at, command_table, help_bytes, name_bytes, parsed_view,
};
use crate::flash::{
    read_result, slot_name, slot_name_spec, write_result, SLOT_COUNT,
};
use crate::text::{
    bytes_eq, decimal, is_utf8, join, join_words, number_value, parse_index, push_bytes,
    push_decimal, push_str, utf8_valid, views,
};
use crate::Error;

verus! {

/// Milliseconds each phase of a blink lasts.
pub const BLINK_PHASE_MS: u32 = 500;

/// Watchdog timeout armed by `reboot`, in milliseconds.
pub const REBOOT_TIMEOUT_MS: u32 = 1;

/// Full-scale ADC reference, in microvolts.
pub const ADC_REFERENCE_UV: u64 = 3300000;

/// Number of ADC steps over the reference.
pub const ADC_STEPS: u64 = 4096;

/// Sensor voltage at 27 degrees Celsius, in microvolts.
pub const SENSOR_UV_AT_27C: u64 = 706000;

/// Sensor slope, in microvolts per degree Celsius (the voltage falls as the
/// temperature rises).
pub const SENSOR_SLOPE_UV: u64 = 1721;

// ---------------------------------------------------------------- parsing

pub open spec fn no_args(args: Seq<Seq<u8>>) -> Result<ArgsView, Error> {
    if args.len() == 0 {
        Ok(ArgsView::NoArgs)
    } else {
        Err(Error::InvalidArgumentCount)
    }
}

/// The slot index a word names: a number below the slot count.
pub open spec fn slot_arg(w: Seq<u8>) -> Option<usize> {
    match number_value(w) {
        Some(n) => if n < SLOT_COUNT {
            Some(n as usize)
        } else {
            None
        },
        None => None,
    }
}

pub open spec fn led_mode_of(w: Seq<u8>) -> Option<LedMode> {
    if w == encode_utf8("on"@) {
        Some(LedMode::On)
    } else if w == encode_utf8("off"@) {
        Some(LedMode::Off)
    } else if w == encode_utf8("blink"@) {
        Some(LedMode::Blink)
    } else {
        None
    }
}

/// What a command's parse step makes of the words after its name.
pub open spec fn parse_spec(id: CommandId, args: Seq<Seq<u8>>) -> Result<ArgsView, Error> {
    match id {
        CommandId::Write => if args.len() < 2 {
            Err(Error::InvalidArgumentCount)
        } else {
            match slot_arg(args[0]) {
                Some(s) => Ok(ArgsView::WriteSlot(s, join_words(args.drop_first()))),
                None => Err(Error::InvalidSlotNumber),
            }
        },
        CommandId::Read => if args.len() != 1 {
            Err(Error::InvalidArgumentCount)
        } else {
            match slot_arg(args[0]) {
                Some(s) => Ok(ArgsView::Slot(s)),
                None => Err(Error::InvalidSlotNumber),
            }
        },
        CommandId::Led => if args.len() != 1 {
            Err(Error::InvalidArgumentCount)
        } else {
            match led_mode_of(args[0]) {
                Some(m) => Ok(ArgsView::Led(m)),
                None => Err(Error::InvalidArgument),
            }
        },
        CommandId::Echo => Ok(ArgsView::Text(join_words(args))),
        _ => no_args(args),
    }
}

// ---------------------------------------------------------------- outputs

pub open spec fn spaces(n: nat) -> Seq<u8> {
    Seq::new(n, |i: int| 32u8)
}

pub open spec fn help_padding(id: CommandId) -> nat {
    if name_bytes(id).len() < 12 {
        (12 - name_bytes(id).len()) as nat
    } else {
        0
    }
}

/// One line of the help listing.
pub open spec fn help_entry(id: CommandId) -> Seq<u8> {
    seq![32u8, 32u8] + name_bytes(id) + spaces(help_padding(id)) + seq![32u8, 45u8, 32u8]
        + help_bytes(id) + seq![13u8, 10u8]
}

pub open spec fn help_entries(k: int) -> Seq<u8>
    decreases k,
{
    if k <= 0 {
        seq![]
    } else {
        help_entries(k - 1) + help_entry(command_table()[k - 1])
    }
}

/// The help listing: a heading and one line per command, in table order.
pub open spec fn help_output() -> Seq<u8> {
    encode_utf8("Available commands:\r\n"@) + help_entries(COMMAND_COUNT as int)
}

pub open spec fn version_output() -> Seq<u8> {
    encode_utf8("Pico OS v0.1.0"@)
}

/// One line of the slot listing: `  <index>: <name>`.
pub open spec fn slot_line(i: nat) -> Seq<u8> {
    seq![32u8, 32u8] + decimal(i) + seq![58u8, 32u8] + slot_name_spec(i) + seq![13u8, 10u8]
}

/// The lines of the first `n` slots, in slot order.
pub open spec fn slot_lines(n: nat) -> Seq<u8>
    decreases n,
{
    if n == 0 {
        seq![]
    } else {
        slot_lines((n - 1) as nat) + slot_line((n - 1) as nat)
    }
}

pub open spec fn slots_output() -> Seq<u8> {
    slot_lines(SLOT_COUNT as nat)
}

/// How a stored payload is shown: as it is when it is UTF-8, else a placeholder.
pub open spec fn shown_payload(p: Seq<u8>) -> Seq<u8> {
    if utf8_valid(p) {
        p
    } else {
        encode_utf8("<invalid utf8>"@)
    }
}

/// A temperature sample converted to tenths of a degree Celsius, rounded
/// half away from zero:
/// `270 - 10 * (raw * REF / STEPS - V27) / SLOPE`.
pub open spec fn celsius_tenths(raw: nat) -> int {
    let den: int = (ADC_STEPS * SENSOR_SLOPE_UV) as int;
    let num: int = 270 * den + 10 * SENSOR_UV_AT_27C * ADC_STEPS - 10 * ADC_REFERENCE_UV * raw;
    if num >= 0 {
        (2 * num + den) / (2 * den)
    } else {
        -((-2 * num + den) / (2 * den))
    }
}

pub open spec fn abs(t: int) -> nat {
    if t < 0 {
        (-t) as nat
    } else {
        t as nat
    }
}

/// Tenths of a degree written with one decimal: `-1.5`, `27.0`.
pub open spec fn tenths_text(t: int) -> Seq<u8> {
    (if t < 0 {
        seq![45u8]
    } else {
        seq![]
    }) + decimal(abs(t) / 10) + seq![46u8] + decimal(abs(t) % 10)
}

pub open spec fn temperature_output(raw: u16) -> Seq<u8> {
    encode_utf8("Temperature: "@) + tenths_text(celsius_tenths(raw as nat)) + encode_utf8(
        "\u{b0}C"@,
    )
}

// ---------------------------------------------------------------- effects

/// The pin operations of a blink: high, wait, low, wait, high, wait, low.
pub open spec fn blink_actions() -> Seq<DeviceAction> {
    seq![
        DeviceAction::SetLed(true),
        DeviceAction::DelayMs(BLINK_PHASE_MS),
        DeviceAction::SetLed(false),
        DeviceAction::DelayMs(BLINK_PHASE_MS),
        DeviceAction::SetLed(true),
        DeviceAction::DelayMs(BLINK_PHASE_MS),
        DeviceAction::SetLed(false),
    ]
}

pub open spec fn led_actions(m: LedMode) -> Seq<DeviceAction> {
    match m {
        LedMode::On => seq![DeviceAction::SetLed(true)],
        LedMode::Off => seq![DeviceAction::SetLed(false)],
        LedMode::Blink => blink_actions(),
    }
}

/// The LED level after performing `acts` from the level `start`.
pub open spec fn level_after(start: bool, acts: Seq<DeviceAction>) -> bool
    decreases acts.len(),
{
    if acts.len() == 0 {
        start
    } else {
        match acts.last() {
            DeviceAction::SetLed(v) => v,
            _ => level_after(start, acts.drop_last()),
        }
    }
}

pub open spec fn with_actions(c: ContextView, acts: Seq<DeviceAction>, led_on: bool) -> ContextView {
    ContextView {
        flash: c.flash,
        led_on: led_on,
        temperature_sample: c.temperature_sample,
        actions: c.actions + acts,
    }
}

/// What a command's execute step does with parsed arguments: the reply and
/// the new state.
pub open spec fn run_spec(id: CommandId, a: ArgsView, c: ContextView) -> (Reply, ContextView) {
    match id {
        CommandId::Write => match a {
            ArgsView::WriteSlot(s, p) => match write_result(c.flash, s as int, p) {
                Ok(st) => (
                    Reply::Done,
                    ContextView {
                        flash: st,
                        led_on: c.led_on,
                        temperature_sample: c.temperature_sample,
                        actions: c.actions.push(DeviceAction::ProgramSlot(s)),
                    },
                ),
                Err(e) => (Reply::Failed(e), c),
            },
            _ => (Reply::Failed(Error::InvalidArgument), c),
        },
        CommandId::Read => match a {
            ArgsView::Slot(s) => match read_result(c.flash, s as int) {
                Ok(p) => (Reply::Text(shown_payload(p)), c),
                Err(e) => (Reply::Failed(e), c),
            },
            _ => (Reply::Failed(Error::InvalidArgument), c),
        },
        CommandId::Slots => (Reply::Text(slots_output()), c),
        CommandId::Help => (Reply::Text(help_output()), c),
        CommandId::Version => (Reply::Text(version_output()), c),
        CommandId::Echo => match a {
            ArgsView::Text(t) => (Reply::Text(t), c),
            _ => (Reply::Failed(Error::InvalidArgument), c),
        },
        CommandId::Reboot => (
            Reply::Halt,
            with_actions(c, seq![DeviceAction::StartWatchdog(REBOOT_TIMEOUT_MS)], c.led_on),
        ),
        CommandId::Bootloader => (
            Reply::Halt,
            with_actions(c, seq![DeviceAction::ResetToUsbBoot], c.led_on),
        ),
        CommandId::Led => match a {
            ArgsView::Led(m) => (
                Reply::Done,
                with_actions(c, led_actions(m), m == LedMode::On),
            ),
            _ => (Reply::Failed(Error::InvalidArgument), c),
        },
        CommandId::Temp => (Reply::Text(temperature_output(c.temperature_sample)), c),
    }
}

/// After `led blink` the LED is off, whatever its level before, and so is
/// the pin once the queued operations have been performed.
pub proof fn lemma_blink_ends_off(c: ContextView, start: bool)
    ensures
        run_spec(CommandId::Led, ArgsView::Led(LedMode::Blink), c).0 == Reply::Done,
        run_spec(CommandId::Led, ArgsView::Led(LedMode::Blink), c).1.led_on == false,
        level_after(start, run_spec(CommandId::Led, ArgsView::Led(LedMode::Blink), c).1.actions)
            == false,
{
    let acts = run_spec(CommandId::Led, ArgsView::Led(LedMode::Blink), c).1.actions;
    assert(acts.last() == DeviceAction::SetLed(false));
}

// ---------------------------------------------------------------- helpers

fn parse_no_args(args: &Vec<Vec<u8>>) -> (r: Result<CommandArgs, Error>)
    ensures
        parsed_view(r) == no_args(views(args@)),
{
    if args.len() == 0 {
        Ok(CommandArgs::NoArgs)
    } else {
        Err(Error::InvalidArgumentCount)
    }
}

fn parse_slot(w: &Vec<u8>) -> (r: Option<usize>)
    ensures
        r == slot_arg(w@),
{
    parse_index(w.as_slice(), SLOT_COUNT)
}

fn queue(ctx: &mut Context, a: DeviceAction)
    ensures
        final(ctx).actions@ == old(ctx).actions@.push(a),
        final(ctx).flash == old(ctx).flash,
        final(ctx).led_on == old(ctx).led_on,
        final(ctx).temperature_sample == old(ctx).temperature_sample,
{
    ctx.actions.push(a);
}

fn push_help_entry(out: &mut Vec<u8>, id: CommandId)
    ensures
        final(out)@ == old(out)@ + help_entry(id),
{
    let ghost before = out@;
    let name = id.name();
    assert(name.spec_bytes() == name_bytes(id));
    out.push(32u8);
    out.push(32u8);
    push_str(out, name);
    let n = name.as_bytes().len();
    let pad: usize = if n < 12 { 12 - n } else { 0 };
    let mut j: usize = 0;
    while j < pad
        invariant
            j <= pad,
            pad == help_padding(id),
            out@ == before + seq![32u8, 32u8] + name_bytes(id) + spaces(j as nat),
        decreases pad - j,
    {
        out.push(32u8);
        j += 1;
        assert(out@ =~= before + seq![32u8, 32u8] + name_bytes(id) + spaces(j as nat));
    }
    out.push(32u8);
    out.push(45u8);
    out.push(32u8);
    push_str(out, id.help());
    out.push(13u8);
    out.push(10u8);
    assert(out@ =~= before + help_entry(id));
}

/// The help listing.
pub fn help_listing() -> (r: Vec<u8>)
    ensures
        r@ == help_output(),
{
    let mut out: Vec<u8> = Vec::new();
    push_str(&mut out, "Available commands:\r\n");
    let mut k: usize = 0;
    while k < COMMAND_COUNT
        invariant
            k <= COMMAND_COUNT,
            out@ == encode_utf8("Available commands:\r\n"@) + help_entries(k as int),
        decreases COMMAND_COUNT - k,
    {
        let id = command_at(k);
        push_help_entry(&mut out, id);
        assert(help_entries(k + 1) == help_entries(k as int) + help_entry(command_table()[k as int]));
        assert(out@ =~= encode_utf8("Available commands:\r\n"@) + help_entries(k + 1));
        k += 1;
    }
    out
}

/// The slot listing.
pub fn slots_listing() -> (r: Vec<u8>)
    ensures
        r@ == slots_output(),
{
    let mut out: Vec<u8> = Vec::new();
    let mut i: usize = 0;
    while i < SLOT_COUNT
        invariant
            i <= SLOT_COUNT,
            out@ == slot_lines(i as nat),
        decreases SLOT_COUNT - i,
    {
        let ghost before = out@;
        out.push(32u8);
        out.push(32u8);
        push_decimal(&mut out, i as u64);
        out.push(58u8);
        out.push(32u8);
        let name = slot_name(i);
        push_bytes(&mut out, name.as_slice());
        out.push(13u8);
        out.push(10u8);
        assert(out@ =~= before + slot_line(i as nat));
        i += 1;
    }
    out
}

/// Converts a temperature sensor sample to tenths of a degree Celsius.
pub fn convert_to_celsius(raw: u16) -> (r: i32)
    ensures
        r == celsius_tenths(raw as nat),
{
    let den: u64 = ADC_STEPS * SENSOR_SLOPE_UV;
    let pos: u64 = 270 * den + 10 * SENSOR_UV_AT_27C * ADC_STEPS;
    let r64: u64 = raw as u64;
    assert(r64 <= 65535);
    let neg: u64 = 33000000u64 * r64;
    if pos >= neg {
        let m: u64 = pos - neg;
        let q: u64 = (2 * m + den) / (2 * den);
        assert(q <= 5000) by (nonlinear_arith)
            requires
                m <= 30821048320u64,
                den == 7049216u64,
                q == (2 * m + den) / (2 * den),
        ;
        q as i32
    } else {
        let m: u64 = neg - pos;
        let q: u64 = (2 * m + den) / (2 * den);
        assert(q <= 400000) by (nonlinear_arith)
            requires
                m <= 2162655000000u64,
                den == 7049216u64,
                q == (2 * m + den) / (2 * den),
        ;
        -(q as i32)
    }
}

/// The temperature line for a sensor sample.
pub fn temperature_text(raw: u16) -> (r: Vec<u8>)
    ensures
        r@ == temperature_output(raw),
{
    let t = convert_to_celsius(raw);
    let mut out: Vec<u8> = Vec::new();
    push_str(&mut out, "Temperature: ");
    let a: u64 = if t < 0 {
        out.push(45u8);
        (-(t as i64)) as u64
    } else {
        t as u64
    };
    assert(a == abs(t as int));
    push_decimal(&mut out, a / 10);
    out.push(46u8);
    push_decimal(&mut out, a % 10);
    push_str(&mut out, "\u{b0}C");
    assert(out@ =~= temperature_output(raw));
    out
}

// ---------------------------------------------------------------- commands

/// `write <slot> <text...>`: stores the words after the slot, joined by
/// single spaces, in the slot.
pub struct WriteCommand;

/// `read <slot>`: shows what a slot holds.
pub struct ReadCommand;

/// `slots`: lists the slots.
pub struct SlotsCommand;

/// `help`: lists the commands.
pub struct HelpCommand;

/// `version`: shows the firmware version.
pub struct VersionCommand;

/// `echo <words...>`: shows the words joined by single spaces.
pub struct EchoCommand;

/// `reboot`: arms the watchdog and hands the device over to it.
pub struct RebootCommand;

/// `bootloader`: enters the ROM USB bootloader.
pub struct BootloaderCommand;

/// `led on|off|blink`: drives the onboard LED.
pub struct LedCommand;

/// `temp`: shows the internal temperature sensor's reading.
pub struct TempCommand;

impl WriteCommand {
    pub fn parse(&self, args: &Vec<Vec<u8>>) -> (r: Result<CommandArgs, Error>)
        ensures
            parsed_view(r) == parse_spec(CommandId::Write, views(args@)),
    {
        if args.len() < 2 {
            return Err(Error::InvalidArgumentCount);
        }
        assert(views(args@)[0] == args@[0]@);
        match parse_slot(&args[0]) {
            Some(s) => {
                let text = join(args, 1);
                assert(views(args@).skip(1) =~= views(args@).drop_first());
                Ok(CommandArgs::WriteSlot(s, text))
            },
            None => Err(Error::InvalidSlotNumber),
        }
    }

    pub fn execute(&self, args: CommandArgs, ctx: &mut Context) -> (r: CommandResult)
        requires
            old(ctx).wf(),
        ensures
            final(ctx).wf(),
            (r@, final(ctx)@) == run_spec(CommandId::Write, args@, old(ctx)@),
    {
        match args {
            CommandArgs::WriteSlot(slot, data) => {
                match ctx.flash.write_to_flash(slot, data.as_slice()) {
                    Ok(()) => {
                        queue(ctx, DeviceAction::ProgramSlot(slot));
                        CommandResult::Success(None)
                    },
                    Err(e) => CommandResult::Error(e),
                }
            },
            _ => CommandResult::Error(Error::InvalidArgument),
        }
    }
}

impl ReadCommand {
    pub fn parse(&self, args: &Vec<Vec<u8>>) -> (r: Result<CommandArgs, Error>)
        ensures
            parsed_view(r) == parse_spec(CommandId::Read, views(args@)),
    {
        if args.len() != 1 {
            return Err(Error::InvalidArgumentCount);
        }
        assert(views(args@)[0] == args@[0]@);
        match parse_slot(&args[0]) {
            Some(s) => Ok(CommandArgs::Slot(s)),
            None => Err(Error::InvalidSlotNumber),
        }
    }

    pub fn execute(&self, args: CommandArgs, ctx: &mut Context) -> (r: CommandResult)
        requires
            old(ctx).wf(),
        ensures
            final(ctx).wf(),
            (r@, final(ctx)@) == run_spec(CommandId::Read, args@, old(ctx)@),
    {
        match args {
            CommandArgs::Slot(slot) => match ctx.flash.read_from_flash(slot) {
                Ok(data) => {
                    if is_utf8(data.as_slice()) {
                        CommandResult::Success(Some(data))
                    } else {
                        let mut out: Vec<u8> = Vec::new();
                        push_str(&mut out, "<invalid utf8>");
                        CommandResult::Success(Some(out))
                    }
                },
                Err(e) => CommandResult::Error(e),
            },
            _ => CommandResult::Error(Error::InvalidArgument),
        }
    }
}

impl SlotsCommand {
    pub fn parse(&self, args: &Vec<Vec<u8>>) -> (r: Result<CommandArgs, Error>)
        ensures
            parsed_view(r) == parse_spec(CommandId::Slots, views(args@)),
    {
        parse_no_args(args)
    }

    pub fn execute(&self, args: CommandArgs, ctx: &mut Context) -> (r: CommandResult)
        requires
            old(ctx).wf(),
        ensures
            final(ctx).wf(),
            (r@, final(ctx)@) == run_spec(CommandId::Slots, args@, old(ctx)@),
    {
        CommandResult::Success(Some(slots_listing()))
    }
}

impl HelpCommand {
    pub fn parse(&self, args: &Vec<Vec<u8>>) -> (r: Result<CommandArgs, Error>)
        ensures
            parsed_view(r) == parse_spec(CommandId::Help, views(args@)),
    {
        parse_no_args(args)
    }

    pub fn execute(&self, args: CommandArgs, ctx: &mut Context) -> (r: CommandResult)
        requires
            old(ctx).wf(),
        ensures
            final(ctx).wf(),
            (r@, final(ctx)@) == run_spec(CommandId::Help, args@, old(ctx)@),
    {
        CommandResult::Success(Some(help_listing()))
    }
}

impl VersionCommand {
    pub fn parse(&self, args: &Vec<Vec<u8>>) -> (r: Result<CommandArgs, Error>)
        ensures
            parsed_view(r) == parse_spec(CommandId::Version, views(args@)),
    {
        parse_no_args(args)
    }

    pub fn execute(&self, args: CommandArgs, ctx: &mut Context) -> (r: CommandResult)
        requires
            old(ctx).wf(),
        ensures
            final(ctx).wf(),
            (r@, final(ctx)@) == run_spec(CommandId::Version, args@, old(ctx)@),
    {
        let mut out: Vec<u8> = Vec::new();
        push_str(&mut out, "Pico OS v0.1.0");
        CommandResult::Success(Some(out))
    }
}

impl EchoCommand {
    pub fn parse(&self, args: &Vec<Vec<u8>>) -> (r: Result<CommandArgs, Error>)
        ensures
            parsed_view(r) == parse_spec(CommandId::Echo, views(args@)),
    {
        let text = join(args, 0);
        assert(views(args@).skip(0) =~= views(args@));
        Ok(CommandArgs::Text(text))
    }

    pub fn execute(&self, args: CommandArgs, ctx: &mut Context) -> (r: CommandResult)
        requires
            old(ctx).wf(),
        ensures
            final(ctx).wf(),
            (r@, final(ctx)@) == run_spec(CommandId::Echo, args@, old(ctx)@),
    {
        match args {
            CommandArgs::Text(t) => CommandResult::Success(Some(t)),
            _ => CommandResult::Error(Error::InvalidArgument),
        }
    }
}

impl RebootCommand {
    pub fn parse(&self, args: &Vec<Vec<u8>>) -> (r: Result<CommandArgs, Error>)
        ensures
            parsed_view(r) == parse_spec(CommandId::Reboot, views(args@)),
    {
        parse_no_args(args)
    }

    pub fn execute(&self, args: CommandArgs, ctx: &mut Context) -> (r: CommandResult)
        requires
            old(ctx).wf(),
        ensures
            final(ctx).wf(),
            (r@, final(ctx)@) == run_spec(CommandId::Reboot, args@, old(ctx)@),
    {
        queue(ctx, DeviceAction::StartWatchdog(REBOOT_TIMEOUT_MS));
        assert(ctx.actions@ =~= old(ctx).actions@ + seq![DeviceAction::StartWatchdog(REBOOT_TIMEOUT_MS)]);
        CommandResult::Halt
    }
}

impl BootloaderCommand {
    pub fn parse(&self, args: &Vec<Vec<u8>>) -> (r: Result<CommandArgs, Error>)
        ensures
            parsed_view(r) == parse_spec(CommandId::Bootloader, views(args@)),
    {
        parse_no_args(args)
    }

    pub fn execute(&self, args: CommandArgs, ctx: &mut Context) -> (r: CommandResult)
        requires
            old(ctx).wf(),
        ensures
            final(ctx).wf(),
            (r@, final(ctx)@) == run_spec(CommandId::Bootloader, args@, old(ctx)@),
    {
        queue(ctx, DeviceAction::ResetToUsbBoot);
        assert(ctx.actions@ =~= old(ctx).actions@ + seq![DeviceAction::ResetToUsbBoot]);
        CommandResult::Halt
    }
}

impl LedCommand {
    pub fn parse(&self, args: &Vec<Vec<u8>>) -> (r: Result<CommandArgs, Error>)
        ensures
            parsed_view(r) == parse_spec(CommandId::Led, views(args@)),
    {
        if args.len() != 1 {
            return Err(Error::InvalidArgumentCount);
        }
        assert(views(args@)[0] == args@[0]@);
        let w = args[0].as_slice();
        if bytes_eq(w, "on".as_bytes()) {
            Ok(CommandArgs::Led(LedMode::On))
        } else if bytes_eq(w, "off".as_bytes()) {
            Ok(CommandArgs::Led(LedMode::Off))
        } else if bytes_eq(w, "blink".as_bytes()) {
            Ok(CommandArgs::Led(LedMode::Blink))
        } else {
            Err(Error::InvalidArgument)
        }
    }

    pub fn execute(&self, args: CommandArgs, ctx: &mut Context) -> (r: CommandResult)
        requires
            old(ctx).wf(),
        ensures
            final(ctx).wf(),
            (r@, final(ctx)@) == run_spec(CommandId::Led, args@, old(ctx)@),
    {
        let mode = match args {
            CommandArgs::Led(m) => m,
            _ => return CommandResult::Error(Error::InvalidArgument),
        };
        match mode {
            LedMode::On => {
                queue(ctx, DeviceAction::SetLed(true));
                ctx.led_on = true;
            },
            LedMode::Off => {
                queue(ctx, DeviceAction::SetLed(false));
                ctx.led_on = false;
            },
            LedMode::Blink => {
                queue(ctx, DeviceAction::SetLed(true));
                queue(ctx, DeviceAction::DelayMs(BLINK_PHASE_MS));
                queue(ctx, DeviceAction::SetLed(false));
                queue(ctx, DeviceAction::DelayMs(BLINK_PHASE_MS));
                queue(ctx, DeviceAction::SetLed(true));
                queue(ctx, DeviceAction::DelayMs(BLINK_PHASE_MS));
                queue(ctx, DeviceAction::SetLed(false));
                ctx.led_on = false;
            },
        }
        assert(ctx.actions@ =~= old(ctx).actions@ + led_actions(mode));
        CommandResult::Success(None)
    }
}

impl TempCommand {
    pub fn parse(&self, args: &Vec<Vec<u8>>) -> (r: Result<CommandArgs, Error>)
        ensures
            parsed_view(r) == parse_spec(CommandId::Temp, views(args@)),
    {
        parse_no_args(args)
    }

    pub fn execute(&self, args: CommandArgs, ctx: &mut Context) -> (r: CommandResult)
        requires
            old(ctx).wf(),
        ensures
            final(ctx).wf(),
            (r@, final(ctx)@) == run_spec(CommandId::Temp, args@, old(ctx)@),
    {
        CommandResult::Success(Some(temperature_text(ctx.temperature_sample)))
    }
}

// ---------------------------------------------------------------- output buffer

/// Writes text into a fixed-size buffer from its start, refusing a write
/// that does not fit whole.
pub struct ByteWriter {
    buffer: Vec<u8>,
    position: usize,
}

impl ByteWriter {
    /// The bytes written so far.
    pub closed spec fn written(&self) -> Seq<u8> {
        self.buffer@.take(self.position as int)
    }

    /// The size of the buffer.
    pub closed spec fn capacity_spec(&self) -> nat {
        self.buffer@.len()
    }

    pub closed spec fn wf(&self) -> bool {
        self.position <= self.buffer@.len()
    }

    /// A writer over `buffer`, with nothing written yet.
    pub fn new(buffer: Vec<u8>) -> (r: ByteWriter)
        ensures
            r.wf(),
            r.written() == Seq::<u8>::empty(),
            r.capacity_spec() == buffer@.len(),
    {
        ByteWriter { buffer, position: 0 }
    }

    /// The number of bytes written so far.
    pub fn position(&self) -> (r: usize)
        requires
            self.wf(),
        ensures
            r == self.written().len(),
    {
        self.position
    }

    /// Appends the bytes of `s` when they fit in what is left of the
    /// buffer; otherwise writes nothing and fails.
    pub fn write_str(&mut self, s: &str) -> (r: Result<(), Error>)
        requires
            old(self).wf(),
        ensures
            final(self).wf(),
            final(self).capacity_spec() == old(self).capacity_spec(),
            old(self).written().len() + s.spec_bytes().len() <= old(self).capacity_spec()
                <==> r is Ok,
            r is Ok ==> final(self).written() == old(self).written() + s.spec_bytes(),
            r is Err ==> r->Err_0 == Error::BufferOverflow && final(self).written() == old(
                self,
            ).written(),
    {
        let bytes = s.as_bytes();
        if bytes.len() > self.buffer.len() - self.position {
            return Err(Error::BufferOverflow);
        }
        let ghost start = self.written();
        let cap: usize = self.buffer.len();
        let mut i: usize = 0;
        while i < bytes.len()
            invariant
                i <= bytes@.len(),
                self.position + bytes@.len() <= self.buffer@.len(),
                self.buffer@.len() == old(self).buffer@.len() == cap,
                self.position == old(self).position,
                start == old(self).written(),
                self.buffer@.take(self.position as int) == start,
                forall|j: int| 0 <= j < i ==> self.buffer@[self.position + j] == bytes@[j],
            decreases bytes@.len() - i,
        {
            let at = self.position + i;
            self.buffer.set(at, bytes[i]);
            assert(self.buffer@.take(self.position as int) =~= start);
            i += 1;
        }
        self.position = self.position + bytes.len();
        assert(self.written() =~= start + bytes@);
        Ok(())
    }

    /// The bytes written so far.
    pub fn as_written(&self) -> (r: Vec<u8>)
        requires
            self.wf(),
        ensures
            r@ == self.written(),
    {
        let mut out: Vec<u8> = Vec::new();
        let mut i: usize = 0;
        while i < self.position
            invariant
                self.wf(),
                i <= self.position,
                out@ =~= self.buffer@.take(i as int),
            decreases self.position - i,
        {
            out.push(self.buffer[i]);
            i += 1;
        }
        out
    }
}

} // verus!
