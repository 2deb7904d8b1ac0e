//! The command table, the values commands take and return, and dispatch of
//! a line to its command.
use vstd::prelude::*;
use vstd::string::*;
use vstd::utf8::encode_utf8;

use crate::flash::FlashStore;
use crate::text::{bytes_eq, split_words, views, words};
use crate::Error;

pub mod handlers;

use handlers::{
    parse_spec, run_spec, BootloaderCommand, EchoCommand, HelpCommand, LedCommand, ReadCommand,
    RebootCommand, SlotsCommand, TempCommand, VersionCommand, WriteCommand,
};

verus! {

/// The most words a line may hold: the command and its arguments.
pub const MAX_TOKENS: usize = 8;

/// Number of commands in the table.
pub const COMMAND_COUNT: usize = 10;

/// The commands the shell knows.
#[derive(Debug, Clone, Copy, PartialEq, Eq, Structural)]
pub enum CommandId {
    Write,
    Read,
    Slots,
    Help,
    Version,
    Echo,
    Reboot,
    Bootloader,
    Led,
    Temp,
}

/// The command table, in the order `help` lists it and lookup scans it.
pub open spec fn command_table() -> Seq<CommandId> {
    seq![
        CommandId::Write,
        CommandId::Read,
        CommandId::Slots,
        CommandId::Help,
        CommandId::Version,
        CommandId::Echo,
        CommandId::Reboot,
        CommandId::Bootloader,
        CommandId::Led,
        CommandId::Temp,
    ]
}

pub open spec fn name_text(id: CommandId) -> Seq<char> {
    match id {
        CommandId::Write => "write"@,
        CommandId::Read => "read"@,
        CommandId::Slots => "slots"@,
        CommandId::Help => "help"@,
        CommandId::Version => "version"@,
        CommandId::Echo => "echo"@,
        CommandId::Reboot => "reboot"@,
        CommandId::Bootloader => "bootloader"@,
        CommandId::Led => "led"@,
        CommandId::Temp => "temp"@,
    }
}

pub open spec fn help_text(id: CommandId) -> Seq<char> {
    match id {
        CommandId::Write => "Write text to slot n: write <n> <text>"@,
        CommandId::Read => "Read text from slot n: read <n>"@,
        CommandId::Slots => "List available storage slots"@,
        CommandId::Help => "Show this help message"@,
        CommandId::Version => "Show firmware version"@,
        CommandId::Echo => "Echo the arguments"@,
        CommandId::Reboot => "Reboot the device into App mode"@,
        CommandId::Bootloader => "Reboot the device into Bootloader mode"@,
        CommandId::Led => "Control the onboard LED: led <on|off|blink>"@,
        CommandId::Temp => "Read the internal temperature sensor"@,
    }
}

/// The bytes a word must hold to name the command.
pub open spec fn name_bytes(id: CommandId) -> Seq<u8> {
    encode_utf8(name_text(id))
}

pub open spec fn help_bytes(id: CommandId) -> Seq<u8> {
    encode_utf8(help_text(id))
}

impl CommandId {
    pub fn name(&self) -> (r: &'static str)
        ensures
            r@ == name_text(*self),
    {
        match self {
            CommandId::Write => "write",
            CommandId::Read => "read",
            CommandId::Slots => "slots",
            CommandId::Help => "help",
            CommandId::Version => "version",
            CommandId::Echo => "echo",
            CommandId::Reboot => "reboot",
            CommandId::Bootloader => "bootloader",
            CommandId::Led => "led",
            CommandId::Temp => "temp",
        }
    }

    pub fn help(&self) -> (r: &'static str)
        ensures
            r@ == help_text(*self),
    {
        match self {
            CommandId::Write => "Write text to slot n: write <n> <text>",
            CommandId::Read => "Read text from slot n: read <n>",
            CommandId::Slots => "List available storage slots",
            CommandId::Help => "Show this help message",
            CommandId::Version => "Show firmware version",
            CommandId::Echo => "Echo the arguments",
            CommandId::Reboot => "Reboot the device into App mode",
            CommandId::Bootloader => "Reboot the device into Bootloader mode",
            CommandId::Led => "Control the onboard LED: led <on|off|blink>",
            CommandId::Temp => "Read the internal temperature sensor",
        }
    }
}

/// The command at position `k` of the table.
pub fn command_at(k: usize) -> (r: CommandId)
    requires
        k < COMMAND_COUNT,
    ensures
        r == command_table()[k as int],
{
    match k {
        0 => CommandId::Write,
        1 => CommandId::Read,
        2 => CommandId::Slots,
        3 => CommandId::Help,
        4 => CommandId::Version,
        5 => CommandId::Echo,
        6 => CommandId::Reboot,
        7 => CommandId::Bootloader,
        8 => CommandId::Led,
        _ => CommandId::Temp,
    }
}

/// A command's name and one-line description.
pub struct CommandInfo {
    pub name: &'static str,
    pub description: &'static str,
}

/// The name and description of every command, in table order.
pub fn get_commands() -> (r: Vec<CommandInfo>)
    ensures
        r@.len() == COMMAND_COUNT,
        forall|k: int|
            0 <= k < COMMAND_COUNT ==> (#[trigger] r@[k]).name@ == name_text(command_table()[k])
                && r@[k].description@ == help_text(command_table()[k]),
{
    let mut r: Vec<CommandInfo> = Vec::new();
    let mut k: usize = 0;
    while k < COMMAND_COUNT
        invariant
            k <= COMMAND_COUNT,
            r@.len() == k,
            forall|j: int|
                0 <= j < k ==> (#[trigger] r@[j]).name@ == name_text(command_table()[j])
                    && r@[j].description@ == help_text(command_table()[j]),
        decreases COMMAND_COUNT - k,
    {
        let id = command_at(k);
        r.push(CommandInfo { name: id.name(), description: id.help() });
        k += 1;
    }
    r
}

/// The first command of the table, from position `k` on, whose name is `w`.
pub open spec fn lookup_from(w: Seq<u8>, k: int) -> Option<CommandId>
    decreases COMMAND_COUNT - k,
{
    if k < 0 || k >= COMMAND_COUNT {
        None
    } else if name_bytes(command_table()[k]) == w {
        Some(command_table()[k])
    } else {
        lookup_from(w, k + 1)
    }
}

/// The command a word names, if any.
pub open spec fn lookup(w: Seq<u8>) -> Option<CommandId> {
    lookup_from(w, 0)
}

/// Finds the command a word names, scanning the table in order.
pub fn find_command(w: &[u8]) -> (r: Option<CommandId>)
    ensures
        r == lookup(w@),
{
    let mut k: usize = 0;
    while k < COMMAND_COUNT
        invariant
            k <= COMMAND_COUNT,
            lookup(w@) == lookup_from(w@, k as int),
        decreases COMMAND_COUNT - k,
    {
        let id = command_at(k);
        let name = id.name().as_bytes();
        if bytes_eq(name, w) {
            return Some(id);
        }
        k += 1;
    }
    None
}

/// How the LED command drives the pin.
#[derive(Debug, Clone, Copy, PartialEq, Eq, Structural)]
pub enum LedMode {
    On,
    Off,
    Blink,
}

/// A hardware operation that a command asks the board to perform, in the
/// order queued.
#[derive(Debug, Clone, Copy, PartialEq, Eq, Structural)]
pub enum DeviceAction {
    /// Drive the LED pin high (`true`) or low.
    SetLed(bool),
    /// Block for this many milliseconds.
    DelayMs(u32),
    /// Start the watchdog with this timeout in milliseconds, without feeding it.
    StartWatchdog(u32),
    /// Enter the ROM USB bootloader.
    ResetToUsbBoot,
    /// Erase and program this slot's flash sector with its current image,
    /// with interrupts masked.
    ProgramSlot(usize),
}

/// The arguments a command's parse step produces.
pub enum CommandArgs {
    NoArgs,
    Slot(usize),
    WriteSlot(usize, Vec<u8>),
    Led(LedMode),
    Text(Vec<u8>),
}

/// The meaning of [`CommandArgs`].
pub enum ArgsView {
    NoArgs,
    Slot(usize),
    WriteSlot(usize, Seq<u8>),
    Led(LedMode),
    Text(Seq<u8>),
}

impl View for CommandArgs {
    type V = ArgsView;

    open spec fn view(&self) -> ArgsView {
        match self {
            CommandArgs::NoArgs => ArgsView::NoArgs,
            CommandArgs::Slot(s) => ArgsView::Slot(*s),
            CommandArgs::WriteSlot(s, p) => ArgsView::WriteSlot(*s, p@),
            CommandArgs::Led(m) => ArgsView::Led(*m),
            CommandArgs::Text(t) => ArgsView::Text(t@),
        }
    }
}

/// The meaning of a parse result.
pub open spec fn parsed_view(r: Result<CommandArgs, Error>) -> Result<ArgsView, Error> {
    match r {
        Ok(a) => Ok(a@),
        Err(e) => Err(e),
    }
}

/// What dispatching a line produced.
#[derive(Debug)]
pub enum CommandResult {
    /// The line held no command.
    Idle,
    /// The command succeeded, with or without text to show.
    Success(Option<Vec<u8>>),
    /// The line or the command failed.
    Error(Error),
    /// The command hands the device over (reset or bootloader): stop
    /// driving the shell.
    Halt,
}

/// The meaning of a [`CommandResult`].
pub enum Reply {
    Idle,
    Done,
    Text(Seq<u8>),
    Failed(Error),
    Halt,
}

impl View for CommandResult {
    type V = Reply;

    open spec fn view(&self) -> Reply {
        match self {
            CommandResult::Idle => Reply::Idle,
            CommandResult::Success(None) => Reply::Done,
            CommandResult::Success(Some(t)) => Reply::Text(t@),
            CommandResult::Error(e) => Reply::Failed(*e),
            CommandResult::Halt => Reply::Halt,
        }
    }
}

/// The device state commands act on: the slot sectors, the LED level, the
/// latest temperature sensor sample, and the hardware operations queued
/// for the board.
pub struct Context {
    pub flash: FlashStore,
    pub led_on: bool,
    pub temperature_sample: u16,
    pub actions: Vec<DeviceAction>,
}

pub struct ContextView {
    pub flash: Seq<Seq<u8>>,
    pub led_on: bool,
    pub temperature_sample: u16,
    pub actions: Seq<DeviceAction>,
}

impl View for Context {
    type V = ContextView;

    open spec fn view(&self) -> ContextView {
        ContextView {
            flash: self.flash@,
            led_on: self.led_on,
            temperature_sample: self.temperature_sample,
            actions: self.actions@,
        }
    }
}

impl Context {
    pub open spec fn wf(&self) -> bool {
        self.flash.wf()
    }

    /// A context over the given slot sectors, with the LED off and nothing queued.
    pub fn new(flash: FlashStore) -> (r: Context)
        requires
            flash.wf(),
        ensures
            r.wf(),
            r@ == (ContextView {
                flash: flash@,
                led_on: false,
                temperature_sample: 0,
                actions: seq![],
            }),
    {
        Context { flash, led_on: false, temperature_sample: 0, actions: Vec::new() }
    }

    /// Hands over the queued hardware operations, leaving none queued.
    pub fn take_actions(&mut self) -> (r: Vec<DeviceAction>)
        ensures
            r@ == old(self).actions@,
            final(self).actions@ == Seq::<DeviceAction>::empty(),
            final(self).flash == old(self).flash,
            final(self).led_on == old(self).led_on,
            final(self).temperature_sample == old(self).temperature_sample,
    {
        let mut r: Vec<DeviceAction> = Vec::new();
        std::mem::swap(&mut r, &mut self.actions);
        r
    }
}

#[verifier::external_type_specification]
#[verifier::external_body]
#[verifier::reject_recursive_types(T)]
pub struct ExBoundedVec<T, const N: usize>(heapless::Vec<T, N>);

/// The words a bounded word list holds, in order.
pub uninterp spec fn word_list_items(v: heapless::Vec<Vec<u8>, 8>) -> Seq<Seq<u8>>;

/// Relies on `heapless::Vec::new`: the new vector holds nothing.
#[verifier::external_body]
fn word_list_new() -> (r: heapless::Vec<Vec<u8>, 8>)
    ensures
        word_list_items(r) == Seq::<Seq<u8>>::empty(),
{
    heapless::Vec::new()
}

/// Relies on `heapless::Vec::push`: the item is appended while fewer than
/// the capacity (8) are held; otherwise it is handed back and the vector is
/// left as it was.
#[verifier::external_body]
fn word_list_push(v: &mut heapless::Vec<Vec<u8>, 8>, w: Vec<u8>) -> (r: Result<(), Vec<u8>>)
    ensures
        word_list_items(*old(v)).len() < 8 <==> r is Ok,
        r is Ok ==> word_list_items(*final(v)) == word_list_items(*old(v)).push(w@),
        r is Err ==> word_list_items(*final(v)) == word_list_items(*old(v)) && r->Err_0@ == w@,
{
    v.push(w)
}

/// Relies on `heapless::Vec`'s `IntoIterator`: it yields the items in order.
#[verifier::external_body]
fn word_list_into_vec(v: heapless::Vec<Vec<u8>, 8>) -> (r: Vec<Vec<u8>>)
    ensures
        views(r@) == word_list_items(v),
{
    v.into_iter().collect()
}

/// Collects the words of a line into a bounded list, or fails when there
/// are more than `MAX_TOKENS`.
pub fn collect_words(line: &[u8]) -> (r: Result<Vec<Vec<u8>>, Error>)
    ensures
        words(line@).len() <= MAX_TOKENS <==> r is Ok,
        r is Ok ==> views(r->Ok_0@) == words(line@),
        r is Err ==> r->Err_0 == Error::TooManyArguments,
{
    let mut rest = split_words(line);
    let ghost all = views(rest@);
    let mut parts = word_list_new();
    while rest.len() > 0
        invariant
            word_list_items(parts) + views(rest@) == all,
            word_list_items(parts).len() <= MAX_TOKENS,
            all == words(line@),
        decreases rest@.len(),
    {
        let ghost before = views(rest@);
        let w = rest.remove(0);
        assert(before[0] == w@);
        assert(views(rest@) =~= before.drop_first());
        match word_list_push(&mut parts, w) {
            Ok(()) => {
                assert(word_list_items(parts) + views(rest@) =~= all);
            },
            Err(_) => {
                assert(all.len() > MAX_TOKENS);
                return Err(Error::TooManyArguments);
            },
        }
    }
    assert(views(rest@) =~= Seq::<Seq<u8>>::empty());
    assert(word_list_items(parts) =~= all);
    Ok(word_list_into_vec(parts))
}

/// What dispatching `line` against the state `c` gives: the reply and the
/// new state.
pub open spec fn dispatch(line: Seq<u8>, c: ContextView) -> (Reply, ContextView) {
    let ws = words(line);
    if ws.len() == 0 {
        (Reply::Idle, c)
    } else if ws.len() > MAX_TOKENS {
        (Reply::Failed(Error::TooManyArguments), c)
    } else {
        match lookup(ws[0]) {
            None => (Reply::Failed(Error::UnknownCommand), c),
            Some(id) => match parse_spec(id, ws.drop_first()) {
                Err(e) => (Reply::Failed(e), c),
                Ok(a) => run_spec(id, a, c),
            },
        }
    }
}

/// Looks commands up by name, checks their arguments, and runs them.
pub struct CommandRegistry {}

impl CommandRegistry {
    pub fn new() -> (r: CommandRegistry) {
        CommandRegistry {  }
    }

    /// Dispatches one line of bytes.
    pub fn execute_bytes(&self, line: &[u8], ctx: &mut Context) -> (r: CommandResult)
        requires
            old(ctx).wf(),
        ensures
            final(ctx).wf(),
            (r@, final(ctx)@) == dispatch(line@, old(ctx)@),
    {
        let mut args = match collect_words(line) {
            Ok(ws) => ws,
            Err(e) => return CommandResult::Error(e),
        };
        if args.len() == 0 {
            return CommandResult::Idle;
        }
        let ghost wsv = views(args@);
        let first = args.remove(0);
        assert(wsv[0] == first@);
        assert(views(args@) =~= wsv.drop_first());
        let id = match find_command(first.as_slice()) {
            Some(id) => id,
            None => return CommandResult::Error(Error::UnknownCommand),
        };
        match id {
            CommandId::Write => match WriteCommand.parse(&args) {
                Ok(a) => WriteCommand.execute(a, ctx),
                Err(e) => CommandResult::Error(e),
            },
            CommandId::Read => match ReadCommand.parse(&args) {
                Ok(a) => ReadCommand.execute(a, ctx),
                Err(e) => CommandResult::Error(e),
            },
            CommandId::Slots => match SlotsCommand.parse(&args) {
                Ok(a) => SlotsCommand.execute(a, ctx),
                Err(e) => CommandResult::Error(e),
            },
            CommandId::Help => match HelpCommand.parse(&args) {
                Ok(a) => HelpCommand.execute(a, ctx),
                Err(e) => CommandResult::Error(e),
            },
            CommandId::Version => match VersionCommand.parse(&args) {
                Ok(a) => VersionCommand.execute(a, ctx),
                Err(e) => CommandResult::Error(e),
            },
            CommandId::Echo => match EchoCommand.parse(&args) {
                Ok(a) => EchoCommand.execute(a, ctx),
                Err(e) => CommandResult::Error(e),
            },
            CommandId::Reboot => match RebootCommand.parse(&args) {
                Ok(a) => RebootCommand.execute(a, ctx),
                Err(e) => CommandResult::Error(e),
            },
            CommandId::Bootloader => match BootloaderCommand.parse(&args) {
                Ok(a) => BootloaderCommand.execute(a, ctx),
                Err(e) => CommandResult::Error(e),
            },
            CommandId::Led => match LedCommand.parse(&args) {
                Ok(a) => LedCommand.execute(a, ctx),
                Err(e) => CommandResult::Error(e),
            },
            CommandId::Temp => match TempCommand.parse(&args) {
                Ok(a) => TempCommand.execute(a, ctx),
                Err(e) => CommandResult::Error(e),
            },
        }
    }

    /// Dispatches one line of text.
    pub fn execute(&self, line: &str, ctx: &mut Context) -> (r: CommandResult)
        requires
            old(ctx).wf(),
        ensures
            final(ctx).wf(),
            (r@, final(ctx)@) == dispatch(line.spec_bytes(), old(ctx)@),
    {
        self.execute_bytes(line.as_bytes(), ctx)
    }
}

} // verus!
