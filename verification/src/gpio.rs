//! The board's pins as the web application drives them: which pins there
//! are, the mode each one is in, and what a request on a pin asks of it.
use vstd::prelude::*;
use vstd::string::*;
use crate::routes::{action_suffix, route_path, PinAction, Route};
use crate::text::{ascii_digits, decimal, lemma_decimal_is_standard, numeral_value, push_decimal};

verus! {

/// The direction a pin is driven in.
#[derive(Clone, Copy, Debug, PartialEq, Eq, Structural)]
pub enum GpioDriverMode {
    Input,
    Output,
}

/// One pin and the mode the application keeps for it.
#[derive(Clone, Copy, Debug, PartialEq, Eq, Structural)]
pub struct GpioDriver {
    pub pin: u8,
    pub mode: GpioDriverMode,
}

/// The JSON body that reports a pin's level.
pub struct LevelResponse {
    pub level: bool,
}

/// The JSON body that reports a pin's mode.
pub struct ModeResponse {
    pub mode: String,
}

/// The JSON body that lists the board's pins.
pub struct GpiosResponse {
    pub gpios: Vec<String>,
}

/// What the pin's driver is asked to do.
#[derive(Clone, Copy, Debug, PartialEq, Eq, Structural)]
pub enum PinCommand {
    /// Read the input level; the reply is then `LevelResponse`.
    ReadLevel,
    /// Invert the output level.
    Toggle,
    /// Drive the output high.
    SetHigh,
    /// Drive the output low.
    SetLow,
    /// Enable (`true`) or disable (`false`) the output driver.
    SetOutputEnable(bool),
}

/// The answer to a routed request.
pub enum Reply {
    /// Send the page.
    Page,
    /// Send the page's script.
    Script,
    /// Send the page's stylesheet.
    Stylesheet,
    /// Send the list of pins.
    Gpios(GpiosResponse),
    /// Give the command to the driver at `index` of the bank; a level read
    /// answers with `LevelResponse`, every other command with an empty body.
    Drive { index: usize, command: PinCommand },
    /// Send the pin's mode.
    Mode(ModeResponse),
}

/// Whether no pin number occurs twice.
pub open spec fn distinct_pins(pins: Seq<u8>) -> bool {
    forall|i: int, j: int| 0 <= i < j < pins.len() ==> pins[i] != pins[j]
}

/// The pin numbers of a bank of drivers, in order.
pub open spec fn pins_of(drivers: Seq<GpioDriver>) -> Seq<u8> {
    drivers.map_values(|d: GpioDriver| d.pin)
}

/// Whether the bank has a driver for pin `p`.
pub open spec fn serves(drivers: Seq<GpioDriver>, p: u8) -> bool {
    exists|i: int| 0 <= i < drivers.len() && drivers[i].pin == p
}

/// The position of pin `p`'s driver in the bank.
pub open spec fn pin_index(drivers: Seq<GpioDriver>, p: u8) -> int {
    choose|i: int| 0 <= i < drivers.len() && drivers[i].pin == p
}

/// The mode the bank keeps for pin `p`.
pub open spec fn mode_of(drivers: Seq<GpioDriver>, p: u8) -> GpioDriverMode {
    drivers[pin_index(drivers, p)].mode
}

/// The bank after pin `p` is put in mode `m`.
pub open spec fn with_mode(drivers: Seq<GpioDriver>, p: u8, m: GpioDriverMode) -> Seq<GpioDriver> {
    drivers.map_values(|d: GpioDriver| if d.pin == p { GpioDriver { pin: p, mode: m } } else { d })
}

/// The bank after a request on `route`: only the two mode-setting routes
/// change it.
pub open spec fn after_route(drivers: Seq<GpioDriver>, route: Route) -> Seq<GpioDriver> {
    match route {
        Route::Pin(p, PinAction::ModeOutput) => with_mode(drivers, p, GpioDriverMode::Output),
        Route::Pin(p, PinAction::ModeInput) => with_mode(drivers, p, GpioDriverMode::Input),
        _ => drivers,
    }
}

/// The name under which a pin is listed: `gpio` and its number.
pub open spec fn gpio_name(p: u8) -> Seq<char> {
    seq!['g', 'p', 'i', 'o'] + decimal(p as nat)
}

/// The word that reports a mode.
pub open spec fn mode_name(m: GpioDriverMode) -> Seq<char> {
    match m {
        GpioDriverMode::Input => seq!['i', 'n', 'p', 'u', 't'],
        GpioDriverMode::Output => seq!['o', 'u', 't', 'p', 'u', 't'],
    }
}

/// Whether `names` lists the given pins under their names, in order.
pub open spec fn lists_pins(names: Seq<String>, pins: Seq<u8>) -> bool {
    &&& names.len() == pins.len()
    &&& forall|i: int| 0 <= i < pins.len() ==> (#[trigger] names[i])@ == gpio_name(pins[i])
}

/// The command that a pin route gives to the pin's driver, if any.
pub open spec fn pin_command(a: PinAction) -> Option<PinCommand> {
    match a {
        PinAction::Level => Some(PinCommand::ReadLevel),
        PinAction::Toggle => Some(PinCommand::Toggle),
        PinAction::SetHigh => Some(PinCommand::SetHigh),
        PinAction::SetLow => Some(PinCommand::SetLow),
        PinAction::Mode => None,
        PinAction::ModeOutput => Some(PinCommand::SetOutputEnable(true)),
        PinAction::ModeInput => Some(PinCommand::SetOutputEnable(false)),
    }
}

/// Whether `reply` answers a request on `route` made to the bank `drivers`.
pub open spec fn answers(reply: Reply, drivers: Seq<GpioDriver>, route: Route) -> bool {
    match route {
        Route::Index => reply is Page,
        Route::Script => reply is Script,
        Route::Stylesheet => reply is Stylesheet,
        Route::Gpios => match reply {
            Reply::Gpios(g) => lists_pins(g.gpios@, pins_of(drivers)),
            _ => false,
        },
        Route::Pin(p, a) => match pin_command(a) {
            Some(c) => match reply {
                Reply::Drive { index, command } => index == pin_index(drivers, p) && command == c,
                _ => false,
            },
            None => match reply {
                Reply::Mode(m) => m.mode@ == mode_name(mode_of(drivers, p)),
                _ => false,
            },
        },
    }
}

/// Putting a pin in a mode keeps the bank's pins and their order.
pub proof fn lemma_with_mode_keeps_pins(drivers: Seq<GpioDriver>, p: u8, m: GpioDriverMode)
    ensures
        pins_of(with_mode(drivers, p, m)) == pins_of(drivers),
{
    assert(pins_of(with_mode(drivers, p, m)) =~= pins_of(drivers));
}

/// In a bank of distinct pins, the driver at a position that holds pin `p`
/// is the one that `pin_index` names.
proof fn lemma_pin_index_unique(drivers: Seq<GpioDriver>, p: u8, i: int)
    requires
        distinct_pins(pins_of(drivers)),
        0 <= i < drivers.len(),
        drivers[i].pin == p,
    ensures
        pin_index(drivers, p) == i,
{
    let k = pin_index(drivers, p);
    assert(0 <= k < drivers.len() && drivers[k].pin == p);
    assert(pins_of(drivers)[k] == drivers[k].pin);
    assert(pins_of(drivers)[i] == drivers[i].pin);
}

/// After a pin is put in a mode, the mode reported for it is that mode, and
/// every other pin keeps its mode.
pub proof fn lemma_mode_report_follows_setting(
    drivers: Seq<GpioDriver>,
    p: u8,
    m: GpioDriverMode,
    q: u8,
)
    requires
        distinct_pins(pins_of(drivers)),
        serves(drivers, p),
        serves(drivers, q),
    ensures
        mode_of(with_mode(drivers, p, m), p) == m,
        q != p ==> mode_of(with_mode(drivers, p, m), q) == mode_of(drivers, q),
{
    let after = with_mode(drivers, p, m);
    lemma_with_mode_keeps_pins(drivers, p, m);
    let i = pin_index(drivers, p);
    let j = pin_index(drivers, q);
    assert(after[i].pin == drivers[i].pin);
    assert(after[j].pin == drivers[j].pin);
    assert(pins_of(after)[i] == after[i].pin);
    lemma_pin_index_unique(after, p, i);
    lemma_pin_index_unique(after, q, j);
}

/// A request on `route` changes the bank only when it is one of the two
/// mode-setting routes; a mode-setting request made twice leaves the bank as
/// made once.
pub proof fn lemma_route_effect(drivers: Seq<GpioDriver>, route: Route)
    ensures
        !(route matches Route::Pin(_, PinAction::ModeOutput))
            && !(route matches Route::Pin(_, PinAction::ModeInput)) ==> after_route(drivers, route)
            == drivers,
        pins_of(after_route(drivers, route)) == pins_of(drivers),
        after_route(after_route(drivers, route), route) == after_route(drivers, route),
{
    match route {
        Route::Pin(p, PinAction::ModeOutput) => {
            lemma_with_mode_keeps_pins(drivers, p, GpioDriverMode::Output);
            let once = with_mode(drivers, p, GpioDriverMode::Output);
            assert(with_mode(once, p, GpioDriverMode::Output) =~= once);
        },
        Route::Pin(p, PinAction::ModeInput) => {
            lemma_with_mode_keeps_pins(drivers, p, GpioDriverMode::Input);
            let once = with_mode(drivers, p, GpioDriverMode::Input);
            assert(with_mode(once, p, GpioDriverMode::Input) =~= once);
        },
        _ => {},
    }
}

/// A pin is listed as `gpio` followed by its number in ordinary decimal
/// writing, and each of its routes is that name behind a `/`, followed by
/// the action's suffix: so `/` + name + `/level` is served for every listed
/// name.
pub proof fn lemma_listed_name_spelled(p: u8, a: PinAction)
    ensures
        gpio_name(p).len() >= 5,
        gpio_name(p).subrange(0, 4) == seq!['g', 'p', 'i', 'o'],
        ascii_digits(gpio_name(p).subrange(4, gpio_name(p).len() as int)),
        numeral_value(gpio_name(p).subrange(4, gpio_name(p).len() as int)) == p,
        route_path(Route::Pin(p, a)) == seq!['/'] + gpio_name(p) + action_suffix(a),
{
    lemma_decimal_is_standard(p as nat);
    assert(gpio_name(p).subrange(0, 4) =~= seq!['g', 'p', 'i', 'o']);
    assert(gpio_name(p).subrange(4, gpio_name(p).len() as int) =~= decimal(p as nat));
    assert(route_path(Route::Pin(p, a)) =~= seq!['/'] + gpio_name(p) + action_suffix(a));
}

/// Whether `reply` gives the command `c` to the driver of pin `p`.
pub open spec fn drives(reply: Reply, drivers: Seq<GpioDriver>, p: u8, c: PinCommand) -> bool {
    match reply {
        Reply::Drive { index, command } => 0 <= index < drivers.len() && drivers[index as int].pin
            == p && command == c,
        _ => false,
    }
}

/// What each request on a pin asks of that pin's driver: a level read, a
/// toggle, driving it high or low, or enabling the output driver for
/// `/mode/output` and disabling it for `/mode/input`; a `/mode` request gives
/// no command and reports the mode.  The command always goes to the driver of
/// the requested pin.
pub proof fn lemma_pin_request_commands(drivers: Seq<GpioDriver>, p: u8, a: PinAction, reply: Reply)
    requires
        serves(drivers, p),
        answers(reply, drivers, Route::Pin(p, a)),
    ensures
        a == PinAction::Level ==> drives(reply, drivers, p, PinCommand::ReadLevel),
        a == PinAction::Toggle ==> drives(reply, drivers, p, PinCommand::Toggle),
        a == PinAction::SetHigh ==> drives(reply, drivers, p, PinCommand::SetHigh),
        a == PinAction::SetLow ==> drives(reply, drivers, p, PinCommand::SetLow),
        a == PinAction::ModeOutput ==> drives(reply, drivers, p, PinCommand::SetOutputEnable(true)),
        a == PinAction::ModeInput ==> drives(reply, drivers, p, PinCommand::SetOutputEnable(false)),
        a == PinAction::Mode <==> reply is Mode,
{
}

/// The pin's listed name, `gpio` and its number.
pub fn gpio_name_text(p: u8) -> (s: String)
    ensures
        s@ == gpio_name(p),
{
    let mut s = String::from_str("gpio");
    proof {
        reveal_strlit("gpio");
    }
    assert(s@ =~= seq!['g', 'p', 'i', 'o']);
    push_decimal(&mut s, p);
    s
}

/// The names of the given pins, in order.
pub fn generate_gpios(pins: &Vec<u8>) -> (names: Vec<String>)
    ensures
        lists_pins(names@, pins@),
{
    let mut names: Vec<String> = Vec::new();
    let mut i: usize = 0;
    while i < pins.len()
        invariant
            i <= pins.len(),
            names@.len() == i,
            forall|j: int| 0 <= j < i ==> (#[trigger] names@[j])@ == gpio_name(pins@[j]),
        decreases pins.len() - i,
    {
        names.push(gpio_name_text(pins[i]));
        i = i + 1;
    }
    names
}

/// The word that reports a mode.
pub fn mode_text(m: GpioDriverMode) -> (s: String)
    ensures
        s@ == mode_name(m),
{
    match m {
        GpioDriverMode::Input => {
            let s = String::from_str("input");
            proof {
                reveal_strlit("input");
            }
            assert(s@ =~= mode_name(m));
            s
        },
        GpioDriverMode::Output => {
            let s = String::from_str("output");
            proof {
                reveal_strlit("output");
            }
            assert(s@ =~= mode_name(m));
            s
        },
    }
}

/// The report of a pin's level: `true` for high.
pub fn level_response(high: bool) -> (r: LevelResponse)
    ensures
        r.level == high,
{
    LevelResponse { level: high }
}

/// The board's pins, each with the mode the application keeps for it.
pub struct GpioDrivers {
    drivers: Vec<GpioDriver>,
}

impl View for GpioDrivers {
    type V = Seq<GpioDriver>;

    closed spec fn view(&self) -> Seq<GpioDriver> {
        self.drivers@
    }
}

impl GpioDrivers {
    /// No two drivers are for the same pin.
    #[verifier::type_invariant]
    closed spec fn distinct(self) -> bool {
        distinct_pins(pins_of(self.drivers@))
    }

    /// A driver for each of the given pins, in order, all of them inputs.
    pub fn new(pins: &Vec<u8>) -> (bank: GpioDrivers)
        requires
            distinct_pins(pins@),
        ensures
            distinct_pins(pins_of(bank@)),
            bank@.len() == pins@.len(),
            forall|i: int|
                0 <= i < pins@.len() ==> #[trigger] bank@[i] == (GpioDriver {
                    pin: pins@[i],
                    mode: GpioDriverMode::Input,
                }),
    {
        let mut drivers: Vec<GpioDriver> = Vec::new();
        let mut i: usize = 0;
        while i < pins.len()
            invariant
                i <= pins.len(),
                drivers@.len() == i,
                forall|j: int|
                    0 <= j < i ==> #[trigger] drivers@[j] == (GpioDriver {
                        pin: pins@[j],
                        mode: GpioDriverMode::Input,
                    }),
            decreases pins.len() - i,
        {
            drivers.push(GpioDriver { pin: pins[i], mode: GpioDriverMode::Input });
            i = i + 1;
        }
        assert(pins_of(drivers@) =~= pins@);
        GpioDrivers { drivers }
    }

    /// The pin numbers, in order.
    pub fn pins(&self) -> (pins: Vec<u8>)
        ensures
            pins@ == pins_of(self@),
            distinct_pins(pins@),
    {
        proof {
            use_type_invariant(self);
        }
        let mut pins: Vec<u8> = Vec::new();
        let mut i: usize = 0;
        while i < self.drivers.len()
            invariant
                i <= self.drivers@.len(),
                pins@ =~= pins_of(self.drivers@).take(i as int),
            decreases self.drivers@.len() - i,
        {
            pins.push(self.drivers[i].pin);
            i = i + 1;
        }
        pins
    }

    /// The position of pin `p`'s driver, if the bank has one.
    pub fn position(&self, p: u8) -> (found: Option<usize>)
        ensures
            match found {
                Some(i) => i < self@.len() && self@[i as int].pin == p && i == pin_index(self@, p),
                None => !serves(self@, p),
            },
    {
        proof {
            use_type_invariant(self);
        }
        let mut i: usize = 0;
        while i < self.drivers.len()
            invariant
                i <= self.drivers@.len(),
                distinct_pins(pins_of(self.drivers@)),
                forall|j: int| 0 <= j < i ==> self.drivers@[j].pin != p,
            decreases self.drivers@.len() - i,
        {
            if self.drivers[i].pin == p {
                proof {
                    assert(self@[i as int].pin == p);
                    let k = pin_index(self@, p);
                    assert(0 <= k < self@.len() && self@[k].pin == p);
                    assert(pins_of(self@)[k] == self@[k].pin);
                    assert(pins_of(self@)[i as int] == self@[i as int].pin);
                }
                return Some(i);
            }
            i = i + 1;
        }
        None
    }

    /// Puts the driver at `index`, for pin `p`, in mode `m`.
    fn set_mode(&mut self, index: usize, p: u8, m: GpioDriverMode)
        requires
            index < old(self)@.len(),
            old(self)@[index as int].pin == p,
        ensures
            final(self)@ == with_mode(old(self)@, p, m),
    {
        proof {
            use_type_invariant(&*self);
        }
        let ghost before = self.drivers@;
        proof {
            assert forall|j: int| 0 <= j < before.len() && j != index implies before[j].pin != p by {
                assert(pins_of(before)[j] == before[j].pin);
                assert(pins_of(before)[index as int] == before[index as int].pin);
            }
        }
        let mut drivers: Vec<GpioDriver> = Vec::new();
        std::mem::swap(&mut drivers, &mut self.drivers);
        drivers.set(index, GpioDriver { pin: p, mode: m });
        assert(pins_of(drivers@) =~= pins_of(before));
        self.drivers = drivers;
        assert(self.drivers@ =~= with_mode(before, p, m));
    }

    /// Answers a request on `route`: the page and its assets, the list of
    /// pins, a command for a pin's driver, or the pin's mode.  The two routes
    /// that set a pin's mode record the new mode.
    pub fn handle(&mut self, route: Route) -> (reply: Reply)
        requires
            route is Pin ==> serves(old(self)@, route->0),
        ensures
            final(self)@ == after_route(old(self)@, route),
            answers(reply, old(self)@, route),
            distinct_pins(pins_of(final(self)@)),
    {
        proof {
            use_type_invariant(&*self);
        }
        let reply = match route {
            Route::Index => Reply::Page,
            Route::Script => Reply::Script,
            Route::Stylesheet => Reply::Stylesheet,
            Route::Gpios => {
                let pins = self.pins();
                Reply::Gpios(GpiosResponse { gpios: generate_gpios(&pins) })
            },
            Route::Pin(p, a) => {
                let index = self.position(p).unwrap();
                match a {
                    PinAction::Level => Reply::Drive { index, command: PinCommand::ReadLevel },
                    PinAction::Toggle => Reply::Drive { index, command: PinCommand::Toggle },
                    PinAction::SetHigh => Reply::Drive { index, command: PinCommand::SetHigh },
                    PinAction::SetLow => Reply::Drive { index, command: PinCommand::SetLow },
                    PinAction::Mode => {
                        Reply::Mode(ModeResponse { mode: mode_text(self.drivers[index].mode) })
                    },
                    PinAction::ModeOutput => {
                        self.set_mode(index, p, GpioDriverMode::Output);
                        Reply::Drive { index, command: PinCommand::SetOutputEnable(true) }
                    },
                    PinAction::ModeInput => {
                        self.set_mode(index, p, GpioDriverMode::Input);
                        Reply::Drive { index, command: PinCommand::SetOutputEnable(false) }
                    },
                }
            },
        };
        proof {
            use_type_invariant(&*self);
        }
        reply
    }
}

} // verus!
