//! The web application: the routes it serves and the pins they drive, built
//! from one list of pins, so that every pin route it dispatches has a driver.
use vstd::prelude::*;
use vstd::string::*;
use crate::gpio::{
    after_route, answers, distinct_pins, lemma_mode_report_follows_setting, lemma_route_effect,
    mode_of, pins_of, serves, GpioDriver, GpioDriverMode, GpioDrivers, PinCommand, Reply,
};
use crate::routes::PinAction;
use crate::routes::{
    ascii_escapes, build_route_table, decoded_route, dispatch_of, lemma_matched_route_registered,
    lemma_route_table_members, literal_route, lookup_route, plain_path, resolve, route_table,
    Dispatch, Route,
};
use crate::text::same_text;

verus! {

/// What serving a request came to.
pub enum Served {
    /// No route has the request's path.
    NotFound,
    /// A route has the path, but the method is neither `GET` nor `HEAD`.
    MethodNotAllowed,
    /// The route was handled: send the reply, with its body unless the
    /// request was a `HEAD` request.
    Replied { reply: Reply, with_body: bool },
}

/// Whether `served` is what the dispatch `d` gives, for the bank `drivers`
/// as it was before the request.
pub open spec fn serves_dispatch(served: Served, drivers: Seq<GpioDriver>, d: Dispatch) -> bool {
    match d {
        Dispatch::NotFound => served is NotFound,
        Dispatch::MethodNotAllowed => served is MethodNotAllowed,
        Dispatch::Handle(r) => match served {
            Served::Replied { reply, with_body } => with_body && answers(reply, drivers, r),
            _ => false,
        },
        Dispatch::HandleWithoutBody(r) => match served {
            Served::Replied { reply, with_body } => !with_body && answers(reply, drivers, r),
            _ => false,
        },
    }
}

/// The bank after the dispatch `d`: only a handled route changes it.
pub open spec fn after_dispatch(drivers: Seq<GpioDriver>, d: Dispatch) -> Seq<GpioDriver> {
    match d {
        Dispatch::Handle(r) => after_route(drivers, r),
        Dispatch::HandleWithoutBody(r) => after_route(drivers, r),
        _ => drivers,
    }
}

/// The web application: the routes it has registered and the drivers of the
/// pins they serve.
pub struct Application {
    routes: Vec<Route>,
    drivers: GpioDrivers,
}

impl View for Application {
    type V = Seq<Route>;

    closed spec fn view(&self) -> Seq<Route> {
        self.routes@
    }
}

/// A bank that holds a pin number has a driver for that pin.
proof fn lemma_listed_pin_served(drivers: Seq<GpioDriver>, p: u8)
    requires
        pins_of(drivers).contains(p),
    ensures
        serves(drivers, p),
{
    let i = choose|i: int| 0 <= i < pins_of(drivers).len() && pins_of(drivers)[i] == p;
    assert(drivers[i].pin == p);
}

/// Every pin route that an application built from a bank's pins picks for a
/// request has a driver in that bank.
pub proof fn lemma_dispatched_pin_has_driver(drivers: Seq<GpioDriver>, path: Seq<char>)
    ensures
        lookup_route(route_table(pins_of(drivers)), path) matches Some(Route::Pin(p, _))
            ==> serves(drivers, p),
{
    let table = route_table(pins_of(drivers));
    lemma_matched_route_registered(table, path);
    if let Some(r) = lookup_route(table, path) {
        lemma_route_table_members(pins_of(drivers), r);
        if let Route::Pin(p, _) = r {
            lemma_listed_pin_served(drivers, p);
        }
    }
}

/// A handled request that sets a pin's mode records the mode that its
/// command puts the pin in: the reply enables the output driver exactly for
/// `/mode/output`, the pin's recorded mode is then output exactly when the
/// output driver was enabled, every other pin keeps its mode, and a later
/// request for the pin's mode reports `output` or `input` accordingly.
pub proof fn lemma_mode_request_records_mode(
    drivers: Seq<GpioDriver>,
    p: u8,
    a: PinAction,
    d: Dispatch,
    served: Served,
    q: u8,
    report: Reply,
)
    requires
        distinct_pins(pins_of(drivers)),
        serves(drivers, p),
        serves(drivers, q),
        a == PinAction::ModeOutput || a == PinAction::ModeInput,
        d == Dispatch::Handle(Route::Pin(p, a)) || d == Dispatch::HandleWithoutBody(
            Route::Pin(p, a),
        ),
        serves_dispatch(served, drivers, d),
        answers(report, after_dispatch(drivers, d), Route::Pin(p, PinAction::Mode)),
    ensures
        match served {
            Served::Replied {
                reply: Reply::Drive { index: _, command: PinCommand::SetOutputEnable(enable) },
                with_body: _,
            } => {
                &&& (enable <==> a == PinAction::ModeOutput)
                &&& mode_of(after_dispatch(drivers, d), p) == if enable {
                    GpioDriverMode::Output
                } else {
                    GpioDriverMode::Input
                }
                &&& (q != p ==> mode_of(after_dispatch(drivers, d), q) == mode_of(drivers, q))
                &&& match report {
                    Reply::Mode(m) => m.mode@ == if enable {
                        seq!['o', 'u', 't', 'p', 'u', 't']
                    } else {
                        seq!['i', 'n', 'p', 'u', 't']
                    },
                    _ => false,
                }
            },
            _ => false,
        },
{
    let m = if a == PinAction::ModeOutput {
        GpioDriverMode::Output
    } else {
        GpioDriverMode::Input
    };
    lemma_mode_report_follows_setting(drivers, p, m, q);
    lemma_mode_report_follows_setting(drivers, p, m, p);
}

impl Application {
    /// The routes are those of the bank's pins.
    #[verifier::type_invariant]
    closed spec fn consistent(self) -> bool {
        self.routes@ == route_table(pins_of(self.drivers@))
    }

    /// The pins the application serves, in order: it serves their routes and
    /// no others, and no pin occurs twice.
    pub fn pins(&self) -> (pins: Vec<u8>)
        ensures
            pins@ == pins_of(self.drivers()),
            self@ == route_table(pins@),
            distinct_pins(pins@),
    {
        proof {
            use_type_invariant(self);
        }
        self.drivers.pins()
    }

    /// The drivers of the pins the application serves.
    pub closed spec fn drivers(&self) -> Seq<GpioDriver> {
        self.drivers@
    }

    /// Registers the page, its assets, the pin list and the seven routes of
    /// each of the given pins, and a driver for each pin, in input mode.
    pub fn build_app(pins: &Vec<u8>) -> (app: Application)
        requires
            distinct_pins(pins@),
        ensures
            app@ == route_table(pins@),
            app.drivers().len() == pins@.len(),
            forall|i: int|
                0 <= i < pins@.len() ==> #[trigger] app.drivers()[i] == (GpioDriver {
                    pin: pins@[i],
                    mode: crate::gpio::GpioDriverMode::Input,
                }),
    {
        let drivers = GpioDrivers::new(pins);
        assert(pins_of(drivers@) =~= pins@);
        Application { routes: build_route_table(pins), drivers }
    }

    /// What a request with the given method and URL-encoded path comes to.
    pub fn dispatch(&self, method: &str, path: &str) -> (d: Dispatch)
        ensures
            d == dispatch_of(method@, lookup_route(self@, path@)),
            plain_path(path@) ==> d == dispatch_of(method@, literal_route(self@, path@)),
            ascii_escapes(path@) ==> d == dispatch_of(method@, decoded_route(self@, path@)),
    {
        match resolve(&self.routes, path) {
            None => Dispatch::NotFound,
            Some(r) => {
                let get = "GET";
                let head = "HEAD";
                proof {
                    reveal_strlit("GET");
                    reveal_strlit("HEAD");
                }
                assert(get@ =~= seq!['G', 'E', 'T']);
                assert(head@ =~= seq!['H', 'E', 'A', 'D']);
                if same_text(method, get) {
                    Dispatch::Handle(r)
                } else if same_text(method, head) {
                    Dispatch::HandleWithoutBody(r)
                } else {
                    Dispatch::MethodNotAllowed
                }
            },
        }
    }

    /// Serves a request: dispatches it and, when a route is handled, answers
    /// it from the pins' drivers, recording a new mode where the route sets
    /// one.
    pub fn serve(&mut self, method: &str, path: &str) -> (served: Served)
        ensures
            final(self)@ == old(self)@,
            serves_dispatch(
                served,
                old(self).drivers(),
                dispatch_of(method@, lookup_route(old(self)@, path@)),
            ),
            final(self).drivers() == after_dispatch(
                old(self).drivers(),
                dispatch_of(method@, lookup_route(old(self)@, path@)),
            ),
            plain_path(path@) ==> serves_dispatch(
                served,
                old(self).drivers(),
                dispatch_of(method@, literal_route(old(self)@, path@)),
            ),
            plain_path(path@) ==> final(self).drivers() == after_dispatch(
                old(self).drivers(),
                dispatch_of(method@, literal_route(old(self)@, path@)),
            ),
            ascii_escapes(path@) ==> serves_dispatch(
                served,
                old(self).drivers(),
                dispatch_of(method@, decoded_route(old(self)@, path@)),
            ),
            ascii_escapes(path@) ==> final(self).drivers() == after_dispatch(
                old(self).drivers(),
                dispatch_of(method@, decoded_route(old(self)@, path@)),
            ),
    {
        proof {
            use_type_invariant(&*self);
        }
        let d = self.dispatch(method, path);
        let (route, with_body) = match d {
            Dispatch::NotFound => {
                return Served::NotFound;
            },
            Dispatch::MethodNotAllowed => {
                return Served::MethodNotAllowed;
            },
            Dispatch::Handle(r) => (r, true),
            Dispatch::HandleWithoutBody(r) => (r, false),
        };
        proof {
            lemma_dispatched_pin_has_driver(self.drivers@, path@);
            lemma_route_effect(self.drivers@, route);
        }
        let mut current = Application {
            routes: build_route_table(&Vec::new()),
            drivers: GpioDrivers::new(&Vec::new()),
        };
        std::mem::swap(self, &mut current);
        let Application { routes, mut drivers } = current;
        let reply = drivers.handle(route);
        *self = Application { routes, drivers };
        Served::Replied { reply, with_body }
    }
}

} // verus!
