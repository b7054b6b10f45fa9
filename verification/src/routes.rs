//! The web routes: their paths, the table in which they are registered, and
//! the dispatch of a request to one of them.
use vstd::prelude::*;
use vstd::string::*;
use crate::text::{
    ascii_digits, lemma_decimal_is_standard, numeral_value,
    decimal, find_ff_escape, holds_ff_escape, is_digit, lemma_decimal_digits,
    lemma_decimal_injective, push_decimal,
};

verus! {

/// What a request on one pin's routes does.
#[derive(Clone, Copy, Debug, PartialEq, Eq, Structural)]
pub enum PinAction {
    Level,
    Toggle,
    SetHigh,
    SetLow,
    Mode,
    ModeOutput,
    ModeInput,
}

/// A route of the web application.
#[derive(Clone, Copy, Debug, PartialEq, Eq, Structural)]
pub enum Route {
    /// The page itself.
    Index,
    /// The page's script.
    Script,
    /// The page's stylesheet.
    Stylesheet,
    /// The list of the board's pins.
    Gpios,
    /// An action on the pin with the given number.
    Pin(u8, PinAction),
}

/// The path that a pin's routes begin with, before the pin's number.
pub open spec fn pin_prefix() -> Seq<char> {
    seq!['/', 'g', 'p', 'i', 'o']
}

/// The rest of a pin route's path, after the pin's number.
pub open spec fn action_suffix(a: PinAction) -> Seq<char> {
    match a {
        PinAction::Level => seq!['/', 'l', 'e', 'v', 'e', 'l'],
        PinAction::Toggle => seq!['/', 't', 'o', 'g', 'g', 'l', 'e'],
        PinAction::SetHigh => seq!['/', 's', 'e', 't', '/', 'h', 'i', 'g', 'h'],
        PinAction::SetLow => seq!['/', 's', 'e', 't', '/', 'l', 'o', 'w'],
        PinAction::Mode => seq!['/', 'm', 'o', 'd', 'e'],
        PinAction::ModeOutput => seq!['/', 'm', 'o', 'd', 'e', '/', 'o', 'u', 't', 'p', 'u', 't'],
        PinAction::ModeInput => seq!['/', 'm', 'o', 'd', 'e', '/', 'i', 'n', 'p', 'u', 't'],
    }
}

/// The path of the page's script.
pub open spec fn script_path() -> Seq<char> {
    seq![
        '/', 'a', 's', 's', 'e', 't', 's', '/', 'i', 'n', 'd', 'e', 'x', '-', 'C', '1', 'O', 'N',
        '0', 'l', 'H', 'l', '.', 'j', 's'
    ]
}

/// The path of the page's stylesheet.
pub open spec fn stylesheet_path() -> Seq<char> {
    seq![
        '/', 'a', 's', 's', 'e', 't', 's', '/', 'i', 'n', 'd', 'e', 'x', '-', 'B', 'H', 'n', 'F',
        '5', 'g', '-', 'J', '.', 'c', 's', 's'
    ]
}

/// The path under which a route is registered.
pub open spec fn route_path(r: Route) -> Seq<char> {
    match r {
        Route::Index => seq!['/'],
        Route::Script => script_path(),
        Route::Stylesheet => stylesheet_path(),
        Route::Gpios => seq!['/', 'g', 'p', 'i', 'o', 's'],
        Route::Pin(p, a) => pin_prefix() + decimal(p as nat) + action_suffix(a),
    }
}

/// A path that holds neither `%` nor `+`, so that its text is taken literally.
pub open spec fn plain_path(path: Seq<char>) -> bool {
    !path.contains('%') && !path.contains('+')
}

/// The value of a hexadecimal digit, in either case, or -1 for any other
/// character.
pub open spec fn hex_value(c: char) -> int {
    if 48 <= c as int <= 57 {
        c as int - 48
    } else if 65 <= c as int <= 70 {
        c as int - 55
    } else if 97 <= c as int <= 102 {
        c as int - 87
    } else {
        -1
    }
}

/// A path whose escapes are all of single-byte characters: no `%` in it is
/// followed by a hexadecimal digit of eight or more.
pub open spec fn ascii_escapes(path: Seq<char>) -> bool {
    forall|i: int|
        0 <= i && i + 1 < path.len() && #[trigger] path[i] == '%' ==> hex_value(path[i + 1]) < 8
}

/// Whether the encoded path `path`, decoded, is the route path `route`: an
/// escape `%` with two hexadecimal digits stands for the character with that
/// code, `+` for a space, and every other character for itself; a `/` of the
/// route must be a literal `/`, and the whole of the path is taken.  This is
/// the comparison for paths whose escapes are all of single-byte characters.
pub open spec fn decoded_match(path: Seq<char>, route: Seq<char>) -> bool
    decreases route.len(),
{
    if route.len() == 0 {
        path.len() == 0
    } else if path.len() == 0 {
        false
    } else if path[0] == '%' {
        &&& path.len() >= 3
        &&& hex_value(path[1]) >= 0
        &&& hex_value(path[2]) >= 0
        &&& route[0] != '/'
        &&& route[0] as int == 16 * hex_value(path[1]) + hex_value(path[2])
        &&& decoded_match(path.skip(3), route.skip(1))
    } else if path[0] == '+' {
        route[0] == ' ' && decoded_match(path.skip(1), route.skip(1))
    } else {
        path[0] == route[0] && decoded_match(path.skip(1), route.skip(1))
    }
}

/// The seven routes of one pin, in the order in which they are registered.
pub open spec fn pin_routes(p: u8) -> Seq<Route> {
    seq![
        Route::Pin(p, PinAction::Level),
        Route::Pin(p, PinAction::Toggle),
        Route::Pin(p, PinAction::SetHigh),
        Route::Pin(p, PinAction::SetLow),
        Route::Pin(p, PinAction::Mode),
        Route::Pin(p, PinAction::ModeOutput),
        Route::Pin(p, PinAction::ModeInput)
    ]
}

/// The routes of all the given pins, pin after pin.
pub open spec fn all_pin_routes(pins: Seq<u8>) -> Seq<Route>
    decreases pins.len(),
{
    if pins.len() == 0 {
        Seq::empty()
    } else {
        all_pin_routes(pins.drop_last()) + pin_routes(pins.last())
    }
}

/// The table of routes of an application that serves the given pins, in the
/// order of registration.
pub open spec fn route_table(pins: Seq<u8>) -> Seq<Route> {
    seq![Route::Index, Route::Script, Route::Stylesheet, Route::Gpios] + all_pin_routes(pins)
}

/// The route that the router picks for a request path: routes registered
/// later are tried first, and a route is picked when the router's comparison
/// of its path with the request path succeeds.
pub open spec fn matched_route(table: Seq<Route>, path: Seq<char>) -> Option<Route>
    decreases table.len(),
{
    if table.len() == 0 {
        None
    } else if url_path_matches(path, route_path(table.last())) {
        Some(table.last())
    } else {
        matched_route(table.drop_last(), path)
    }
}

/// The route that a request path is given: none for a path that holds the
/// escape `%FF`, which is refused before any comparison; otherwise the route
/// that the router picks.
pub open spec fn lookup_route(table: Seq<Route>, path: Seq<char>) -> Option<Route> {
    if holds_ff_escape(path) {
        None
    } else {
        matched_route(table, path)
    }
}

/// The route, registered last, whose path the decoded request path is.
pub open spec fn decoded_route(table: Seq<Route>, path: Seq<char>) -> Option<Route>
    decreases table.len(),
{
    if table.len() == 0 {
        None
    } else if decoded_match(path, route_path(table.last())) {
        Some(table.last())
    } else {
        decoded_route(table.drop_last(), path)
    }
}

/// The route, registered last, whose path is `path` letter for letter.
pub open spec fn literal_route(table: Seq<Route>, path: Seq<char>) -> Option<Route>
    decreases table.len(),
{
    if table.len() == 0 {
        None
    } else if route_path(table.last()) == path {
        Some(table.last())
    } else {
        literal_route(table.drop_last(), path)
    }
}

/// The outcome of a request.
#[derive(Clone, Copy, Debug, PartialEq, Eq, Structural)]
pub enum Dispatch {
    /// No route has the request's path.
    NotFound,
    /// A route has the path, but the method is neither `GET` nor `HEAD`.
    MethodNotAllowed,
    /// A `GET` request: the route is handled and its response sent in full.
    Handle(Route),
    /// A `HEAD` request: the route is handled and its response sent without a body.
    HandleWithoutBody(Route),
}

/// What a request with the given method on the given matched route comes to.
pub open spec fn dispatch_of(method: Seq<char>, matched: Option<Route>) -> Dispatch {
    match matched {
        None => Dispatch::NotFound,
        Some(r) => if method == seq!['G', 'E', 'T'] {
            Dispatch::Handle(r)
        } else if method == seq!['H', 'E', 'A', 'D'] {
            Dispatch::HandleWithoutBody(r)
        } else {
            Dispatch::MethodNotAllowed
        },
    }
}

/// Whether picoserve's comparison of an encoded request path with a route's
/// path succeeds.
pub uninterp spec fn url_path_matches(path: Seq<char>, route: Seq<char>) -> bool;

/// Compares the URL-encoded request path `path` with the route path `route`
/// by `picoserve::url_encoded::UrlEncodedString`'s `==`, as picoserve's
/// router does for a route given as a string.  That comparison decodes `%`
/// escapes and `+` in the request path and then requires the decoded text to
/// equal the route path, with each `/` of the route matched by a literal `/`.
/// The contract names the result and states what picoserve's source shows of
/// a path that holds neither `%` nor `+`: every character then stands for
/// itself, so the comparison succeeds exactly when the two texts are equal.
/// It also states, from the decoder's source, the comparison for a path whose
/// escapes are all of single-byte characters (`decoded_match`); what the
/// decoding makes of multi-byte escapes is left unsaid.  The decoder panics
/// (an overflowing shift) on the escape `%FF`, read as the first byte of a
/// character, so a path that holds that escape in either case is kept out.
#[verifier::external_body]
fn path_matches(path: &str, route: &str) -> (m: bool)
    requires
        !holds_ff_escape(path@),
    ensures
        m == url_path_matches(path@, route@),
        plain_path(path@) ==> (m == (path@ == route@)),
        ascii_escapes(path@) ==> (m == decoded_match(path@, route@)),
{
    picoserve::url_encoded::UrlEncodedString(path) == route
}

/// The text of a route's path.
pub fn route_text(route: Route) -> (s: String)
    ensures
        s@ == route_path(route),
{
    match route {
        Route::Index => {
            let s = String::from_str("/");
            proof {
                reveal_strlit("/");
            }
            assert(s@ =~= route_path(route));
            s
        },
        Route::Script => {
            let s = String::from_str("/assets/index-C1ON0lHl.js");
            proof {
                reveal_strlit("/assets/index-C1ON0lHl.js");
            }
            assert(s@ =~= route_path(route));
            s
        },
        Route::Stylesheet => {
            let s = String::from_str("/assets/index-BHnF5g-J.css");
            proof {
                reveal_strlit("/assets/index-BHnF5g-J.css");
            }
            assert(s@ =~= route_path(route));
            s
        },
        Route::Gpios => {
            let s = String::from_str("/gpios");
            proof {
                reveal_strlit("/gpios");
            }
            assert(s@ =~= route_path(route));
            s
        },
        Route::Pin(p, a) => {
            let mut s = String::from_str("/gpio");
            proof {
                reveal_strlit("/gpio");
            }
            assert(s@ =~= pin_prefix());
            push_decimal(&mut s, p);
            s.append(suffix_text(a));
            assert(s@ =~= route_path(route));
            s
        },
    }
}

/// The text of an action's suffix.
fn suffix_text(a: PinAction) -> (s: &'static str)
    ensures
        s@ == action_suffix(a),
{
    let s = match a {
        PinAction::Level => "/level",
        PinAction::Toggle => "/toggle",
        PinAction::SetHigh => "/set/high",
        PinAction::SetLow => "/set/low",
        PinAction::Mode => "/mode",
        PinAction::ModeOutput => "/mode/output",
        PinAction::ModeInput => "/mode/input",
    };
    proof {
        reveal_strlit("/level");
        reveal_strlit("/toggle");
        reveal_strlit("/set/high");
        reveal_strlit("/set/low");
        reveal_strlit("/mode");
        reveal_strlit("/mode/output");
        reveal_strlit("/mode/input");
    }
    assert(s@ =~= action_suffix(a));
    s
}

/// Distinct actions have suffixes of distinct lengths.
proof fn lemma_action_suffix_injective(a: PinAction, b: PinAction)
    requires
        action_suffix(a) == action_suffix(b),
    ensures
        a == b,
{
    let la = action_suffix(a).len();
    let lb = action_suffix(b).len();
    assert(la == lb);
    match a {
        PinAction::Level => assert(la == 6),
        PinAction::Toggle => assert(la == 7),
        PinAction::SetHigh => assert(la == 9),
        PinAction::SetLow => assert(la == 8),
        PinAction::Mode => assert(la == 5),
        PinAction::ModeOutput => assert(la == 12),
        PinAction::ModeInput => assert(la == 11),
    }
    match b {
        PinAction::Level => assert(lb == 6),
        PinAction::Toggle => assert(lb == 7),
        PinAction::SetHigh => assert(lb == 9),
        PinAction::SetLow => assert(lb == 8),
        PinAction::Mode => assert(lb == 5),
        PinAction::ModeOutput => assert(lb == 12),
        PinAction::ModeInput => assert(lb == 11),
    }
}

/// A pin route's path is longer than ten characters and has a `g` in its
/// second place.
proof fn lemma_pin_path_shape(p: u8, a: PinAction)
    ensures
        route_path(Route::Pin(p, a)).len() > 10,
        route_path(Route::Pin(p, a))[1] == 'g',
{
    lemma_decimal_digits(p as nat);
    assert(action_suffix(a).len() >= 5);
}

/// No two routes share a path.
pub proof fn lemma_route_path_injective(r1: Route, r2: Route)
    requires
        route_path(r1) == route_path(r2),
    ensures
        r1 == r2,
{
    match (r1, r2) {
        (Route::Pin(a, x), Route::Pin(b, y)) => {
            let s1 = decimal(a as nat) + action_suffix(x);
            let s2 = decimal(b as nat) + action_suffix(y);
            assert(s1 =~= route_path(r1).subrange(5, route_path(r1).len() as int));
            assert(s2 =~= route_path(r2).subrange(5, route_path(r2).len() as int));
            assert(s1 == s2);
            let la = decimal(a as nat).len();
            let lb = decimal(b as nat).len();
            lemma_decimal_digits(a as nat);
            lemma_decimal_digits(b as nat);
            if la < lb {
                assert(s1[la as int] == '/');
                assert(is_digit(decimal(b as nat)[la as int]));
                assert(s2[la as int] == decimal(b as nat)[la as int]);
            } else if lb < la {
                assert(s2[lb as int] == '/');
                assert(is_digit(decimal(a as nat)[lb as int]));
                assert(s1[lb as int] == decimal(a as nat)[lb as int]);
            } else {
                assert(decimal(a as nat) =~= s1.subrange(0, la as int));
                assert(decimal(b as nat) =~= s2.subrange(0, la as int));
                lemma_decimal_injective(a as nat, b as nat);
                assert(action_suffix(x) =~= s1.subrange(la as int, s1.len() as int));
                assert(action_suffix(y) =~= s2.subrange(la as int, s2.len() as int));
                lemma_action_suffix_injective(x, y);
            }
        },
        (Route::Pin(a, x), _) => {
            lemma_pin_path_shape(a, x);
            assert(route_path(r2).len() > 10 ==> route_path(r2)[1] == 'a');
        },
        (_, Route::Pin(b, y)) => {
            lemma_pin_path_shape(b, y);
            assert(route_path(r1).len() > 10 ==> route_path(r1)[1] == 'a');
        },
        _ => {
            let l1 = route_path(r1).len();
            let l2 = route_path(r2).len();
            assert(l1 == l2);
            match r1 {
                Route::Index => assert(l1 == 1),
                Route::Script => assert(l1 == 25),
                Route::Stylesheet => assert(l1 == 26),
                Route::Gpios => assert(l1 == 6),
                _ => {},
            }
            match r2 {
                Route::Index => assert(l2 == 1),
                Route::Script => assert(l2 == 25),
                Route::Stylesheet => assert(l2 == 26),
                Route::Gpios => assert(l2 == 6),
                _ => {},
            }
        },
    }
}

/// Every route's path is plain: it holds neither `%` nor `+`.
pub proof fn lemma_route_path_plain(r: Route)
    ensures
        plain_path(route_path(r)),
{
    let path = route_path(r);
    match r {
        Route::Pin(p, a) => {
            let d = decimal(p as nat);
            let x = action_suffix(a);
            lemma_decimal_digits(p as nat);
            assert(!pin_prefix().contains('%') && !pin_prefix().contains('+'));
            assert(!x.contains('%') && !x.contains('+'));
            assert forall|i: int| 0 <= i < path.len() implies path[i] != '%' && path[i] != '+' by {
                if i < 5 {
                    assert(path[i] == pin_prefix()[i]);
                } else if i < 5 + d.len() {
                    assert(path[i] == d[i - 5]);
                    assert(is_digit(d[i - 5]));
                } else {
                    assert(path[i] == x[i - 5 - d.len()]);
                }
            }
        },
        _ => {},
    }
}

/// What the literal lookup finds: a route of the table with exactly that
/// path, or, when it finds none, no route of the table has that path.
pub proof fn lemma_literal_route(table: Seq<Route>, path: Seq<char>)
    ensures
        match literal_route(table, path) {
            Some(r) => table.contains(r) && route_path(r) == path,
            None => forall|i: int| 0 <= i < table.len() ==> route_path(#[trigger] table[i]) != path,
        },
    decreases table.len(),
{
    if table.len() > 0 {
        let rest = table.drop_last();
        lemma_literal_route(rest, path);
        if route_path(table.last()) != path {
            match literal_route(rest, path) {
                Some(r) => {
                    let i = choose|i: int| 0 <= i < rest.len() && rest[i] == r;
                    assert(table[i] == r);
                },
                None => {
                    assert forall|i: int| 0 <= i < table.len() implies route_path(
                        #[trigger] table[i],
                    ) != path by {
                        if i < rest.len() {
                            assert(table[i] == rest[i]);
                        }
                    }
                },
            }
        } else {
            assert(table[table.len() - 1] == table.last());
        }
    }
}

/// Every route of a table is reached by its own path: looking its path up
/// gives that route back.
pub proof fn lemma_registered_route_reachable(table: Seq<Route>, r: Route)
    requires
        table.contains(r),
    ensures
        literal_route(table, route_path(r)) == Some(r),
{
    lemma_literal_route(table, route_path(r));
    match literal_route(table, route_path(r)) {
        Some(found) => lemma_route_path_injective(found, r),
        None => {
            let i = choose|i: int| 0 <= i < table.len() && table[i] == r;
            assert(route_path(table[i]) != route_path(r));
        },
    }
}

/// The routes of a set of pins are exactly the seven routes of each of them.
proof fn lemma_all_pin_routes_members(pins: Seq<u8>, r: Route)
    ensures
        all_pin_routes(pins).contains(r) <==> (r is Pin && pins.contains(r->0)),
    decreases pins.len(),
{
    if pins.len() > 0 {
        let rest = pins.drop_last();
        let p = pins.last();
        lemma_all_pin_routes_members(rest, r);
        let a = all_pin_routes(rest);
        let b = pin_routes(p);
        let all = all_pin_routes(pins);
        assert(all == a + b);
        if all.contains(r) {
            let i = choose|i: int| 0 <= i < all.len() && all[i] == r;
            if i < a.len() {
                assert(a[i] == r);
                let j = choose|j: int| 0 <= j < rest.len() && rest[j] == r->0;
                assert(pins[j] == rest[j]);
            } else {
                assert(b[i - a.len()] == r);
                assert(pins[pins.len() - 1] == p);
            }
        }
        if r is Pin && pins.contains(r->0) {
            let j = choose|j: int| 0 <= j < pins.len() && pins[j] == r->0;
            if j < rest.len() {
                assert(rest[j] == pins[j]);
                let i = choose|i: int| 0 <= i < a.len() && a[i] == r;
                assert(all[i] == r);
            } else {
                let k: int = match r->1 {
                    PinAction::Level => 0,
                    PinAction::Toggle => 1,
                    PinAction::SetHigh => 2,
                    PinAction::SetLow => 3,
                    PinAction::Mode => 4,
                    PinAction::ModeOutput => 5,
                    PinAction::ModeInput => 6,
                };
                assert(b[k] == r);
                assert(all[a.len() + k] == r);
            }
        }
    }
}

/// An application's table holds the page, its script and stylesheet, the
/// pin list, and all seven routes of each of its pins, and no route of a pin
/// that it does not serve.
pub proof fn lemma_route_table_members(pins: Seq<u8>, r: Route)
    ensures
        route_table(pins).contains(r) <==> (r is Pin ==> pins.contains(r->0)),
{
    let head = seq![Route::Index, Route::Script, Route::Stylesheet, Route::Gpios];
    let t = route_table(pins);
    lemma_all_pin_routes_members(pins, r);
    if t.contains(r) {
        let i = choose|i: int| 0 <= i < t.len() && t[i] == r;
        if i >= 4 {
            assert(all_pin_routes(pins)[i - 4] == r);
        }
    }
    if r is Pin ==> pins.contains(r->0) {
        match r {
            Route::Index => assert(t[0] == r),
            Route::Script => assert(t[1] == r),
            Route::Stylesheet => assert(t[2] == r),
            Route::Gpios => assert(t[3] == r),
            Route::Pin(_, _) => {
                let i = choose|i: int| 0 <= i < all_pin_routes(pins).len() && all_pin_routes(pins)[i] == r;
                assert(t[i + 4] == r);
            },
        }
    }
}

/// Appends the seven routes of pin `p` to `table`.
fn push_pin_routes(table: &mut Vec<Route>, p: u8)
    ensures
        final(table)@ == old(table)@ + pin_routes(p),
{
    table.push(Route::Pin(p, PinAction::Level));
    table.push(Route::Pin(p, PinAction::Toggle));
    table.push(Route::Pin(p, PinAction::SetHigh));
    table.push(Route::Pin(p, PinAction::SetLow));
    table.push(Route::Pin(p, PinAction::Mode));
    table.push(Route::Pin(p, PinAction::ModeOutput));
    table.push(Route::Pin(p, PinAction::ModeInput));
    assert(table@ =~= old(table)@ + pin_routes(p));
}

/// The routes that an application serving the given pins registers, in the
/// order of registration.
pub fn build_route_table(pins: &Vec<u8>) -> (table: Vec<Route>)
    ensures
        table@ == route_table(pins@),
{
    let mut table: Vec<Route> = Vec::new();
    table.push(Route::Index);
    table.push(Route::Script);
    table.push(Route::Stylesheet);
    table.push(Route::Gpios);
    let mut i: usize = 0;
    assert(pins@.take(0) =~= Seq::<u8>::empty());
    assert(table@ =~= route_table(pins@.take(0)));
    while i < pins.len()
        invariant
            i <= pins.len(),
            table@ == route_table(pins@.take(i as int)),
        decreases pins.len() - i,
    {
        push_pin_routes(&mut table, pins[i]);
        assert(pins@.take(i as int + 1).drop_last() =~= pins@.take(i as int));
        assert(pins@.take(i as int + 1).last() == pins@[i as int]);
        assert(table@ =~= route_table(pins@.take(i as int + 1)));
        i = i + 1;
    }
    assert(pins@.take(pins.len() as int) =~= pins@);
    table
}

/// The route that the router picks for the request path `path`.
pub fn resolve(table: &Vec<Route>, path: &str) -> (found: Option<Route>)
    ensures
        found == lookup_route(table@, path@),
        plain_path(path@) ==> found == literal_route(table@, path@),
        ascii_escapes(path@) ==> found == decoded_route(table@, path@),
{
    if find_ff_escape(path) {
        proof {
            let i = choose|i: int|
                0 <= i && i + 2 < path@.len() && #[trigger] path@[i] == '%' && crate::text::is_hex_f(
                    path@[i + 1],
                ) && crate::text::is_hex_f(path@[i + 2]);
            assert(path@.contains('%'));
            assert(hex_value(path@[i + 1]) >= 8);
        }
        return None;
    }
    let mut i: usize = table.len();
    assert(table@.take(i as int) =~= table@);
    while i > 0
        invariant
            i <= table.len(),
            !holds_ff_escape(path@),
            matched_route(table@, path@) == matched_route(table@.take(i as int), path@),
            plain_path(path@) ==> literal_route(table@, path@) == literal_route(
                table@.take(i as int),
                path@,
            ),
            ascii_escapes(path@) ==> decoded_route(table@, path@) == decoded_route(
                table@.take(i as int),
                path@,
            ),
        decreases i,
    {
        let r = table[i - 1];
        let text = route_text(r);
        let m = path_matches(path, text.as_str());
        let ghost prefix = table@.take(i as int);
        assert(prefix.last() == r);
        assert(prefix.drop_last() =~= table@.take(i - 1));
        if m {
            return Some(r);
        }
        proof {
            if plain_path(path@) {
                assert(route_path(r) != path@);
            }
        }
        i = i - 1;
    }
    assert(table@.take(0) =~= Seq::<Route>::empty());
    None
}

/// A request path decodes to at most one route path.
pub proof fn lemma_decoded_match_deterministic(path: Seq<char>, a: Seq<char>, b: Seq<char>)
    requires
        decoded_match(path, a),
        decoded_match(path, b),
    ensures
        a == b,
    decreases a.len(),
{
    if a.len() == 0 {
        assert(path.len() == 0);
        assert(b.len() == 0);
    } else {
        assert(b.len() > 0);
        if path[0] == '%' {
            lemma_decoded_match_deterministic(path.skip(3), a.skip(1), b.skip(1));
        } else {
            lemma_decoded_match_deterministic(path.skip(1), a.skip(1), b.skip(1));
        }
        assert(a =~= seq![a[0]] + a.skip(1));
        assert(b =~= seq![b[0]] + b.skip(1));
    }
}

/// A plain path decodes to itself.
pub proof fn lemma_plain_decoded_match(path: Seq<char>, route: Seq<char>)
    requires
        plain_path(path),
    ensures
        ascii_escapes(path),
        decoded_match(path, route) <==> path == route,
    decreases route.len(),
{
    assert forall|i: int| 0 <= i && i + 1 < path.len() && #[trigger] path[i] == '%' implies hex_value(
        path[i + 1],
    ) < 8 by {
        assert(path.contains('%'));
    }
    if route.len() > 0 && path.len() > 0 {
        assert(path[0] != '%' && path[0] != '+') by {
            if path[0] == '%' {
                assert(path.contains('%'));
            }
            if path[0] == '+' {
                assert(path.contains('+'));
            }
        }
        let rest = path.skip(1);
        assert(plain_path(rest)) by {
            if rest.contains('%') {
                let j = choose|j: int| 0 <= j < rest.len() && rest[j] == '%';
                assert(path[j + 1] == '%');
            }
            if rest.contains('+') {
                let j = choose|j: int| 0 <= j < rest.len() && rest[j] == '+';
                assert(path[j + 1] == '+');
            }
        }
        lemma_plain_decoded_match(rest, route.skip(1));
        assert(path =~= seq![path[0]] + rest);
        assert(route =~= seq![route[0]] + route.skip(1));
        if path == route {
            assert(rest =~= route.skip(1));
        }
    } else if path.len() == 0 && route.len() == 0 {
        assert(path =~= route);
    }
}

/// What the decoded lookup finds: a route of the table whose path the
/// request path decodes to, or, when it finds none, no route of the table
/// has a path that the request path decodes to.
pub proof fn lemma_decoded_route(table: Seq<Route>, path: Seq<char>)
    ensures
        match decoded_route(table, path) {
            Some(r) => table.contains(r) && decoded_match(path, route_path(r)),
            None => forall|i: int|
                0 <= i < table.len() ==> !decoded_match(path, route_path(#[trigger] table[i])),
        },
    decreases table.len(),
{
    if table.len() > 0 {
        let rest = table.drop_last();
        lemma_decoded_route(rest, path);
        if decoded_match(path, route_path(table.last())) {
            assert(table[table.len() - 1] == table.last());
        } else {
            match decoded_route(rest, path) {
                Some(r) => {
                    let i = choose|i: int| 0 <= i < rest.len() && rest[i] == r;
                    assert(table[i] == r);
                },
                None => {
                    assert forall|i: int| 0 <= i < table.len() implies !decoded_match(
                        path,
                        route_path(#[trigger] table[i]),
                    ) by {
                        if i < rest.len() {
                            assert(table[i] == rest[i]);
                        }
                    }
                },
            }
        }
    }
}

/// An application serving `pins` serves exactly its registered paths: a
/// request path whose escapes are all of single-byte characters gets the
/// route `r` exactly when `r` is registered and the path decodes to the path
/// of `r`; a path that decodes to no registered path gets no route.
pub proof fn lemma_served_paths_exact(pins: Seq<u8>, path: Seq<char>, r: Route)
    ensures
        decoded_route(route_table(pins), path) == Some(r) <==> ((r is Pin ==> pins.contains(r->0))
            && decoded_match(path, route_path(r))),
{
    let table = route_table(pins);
    lemma_decoded_route(table, path);
    lemma_route_table_members(pins, r);
    if (r is Pin ==> pins.contains(r->0)) && decoded_match(path, route_path(r)) {
        match decoded_route(table, path) {
            Some(found) => {
                lemma_decoded_match_deterministic(path, route_path(found), route_path(r));
                lemma_route_path_injective(found, r);
            },
            None => {
                let i = choose|i: int| 0 <= i < table.len() && table[i] == r;
                assert(!decoded_match(path, route_path(table[i])));
            },
        }
    }
    if decoded_route(table, path) == Some(r) {
        lemma_route_table_members(pins, r);
    }
}

/// A pin route's path is `/gpio`, then the pin's number in ordinary decimal
/// writing (ASCII digits standing for the number, no leading zero), then the
/// action's own suffix.
pub proof fn lemma_pin_path_spelled(p: u8, a: PinAction)
    ensures
        ({
            let path = route_path(Route::Pin(p, a));
            let suffix = match a {
                PinAction::Level => seq!['/', 'l', 'e', 'v', 'e', 'l'],
                PinAction::Toggle => seq!['/', 't', 'o', 'g', 'g', 'l', 'e'],
                PinAction::SetHigh => seq!['/', 's', 'e', 't', '/', 'h', 'i', 'g', 'h'],
                PinAction::SetLow => seq!['/', 's', 'e', 't', '/', 'l', 'o', 'w'],
                PinAction::Mode => seq!['/', 'm', 'o', 'd', 'e'],
                PinAction::ModeOutput => seq![
                    '/',
                    'm',
                    'o',
                    'd',
                    'e',
                    '/',
                    'o',
                    'u',
                    't',
                    'p',
                    'u',
                    't'
                ],
                PinAction::ModeInput => seq!['/', 'm', 'o', 'd', 'e', '/', 'i', 'n', 'p', 'u', 't'],
            };
            let digits = path.subrange(5, path.len() - suffix.len());
            &&& path.len() >= 5 + suffix.len() + 1
            &&& path.subrange(0, 5) == seq!['/', 'g', 'p', 'i', 'o']
            &&& path.subrange(path.len() - suffix.len(), path.len() as int) == suffix
            &&& ascii_digits(digits)
            &&& numeral_value(digits) == p
            &&& (p >= 10 ==> digits[0] as int != 48)
        }),
{
    let path = route_path(Route::Pin(p, a));
    let d = decimal(p as nat);
    let x = action_suffix(a);
    lemma_decimal_is_standard(p as nat);
    assert(path.subrange(0, 5) =~= pin_prefix());
    assert(path.subrange(5, 5 + d.len() as int) =~= d);
    assert(path.subrange(5 + d.len() as int, path.len() as int) =~= x);
}

/// Every registered route is answered when asked for by its own path: a
/// `GET` of that path handles it, a `HEAD` handles it without a body, and
/// any other method is refused as not allowed; none of them is answered as
/// not found.
pub proof fn lemma_registered_route_dispatch(pins: Seq<u8>, r: Route, method: Seq<char>)
    requires
        r is Pin ==> pins.contains(r->0),
    ensures
        method == seq!['G', 'E', 'T'] ==> dispatch_of(
            method,
            literal_route(route_table(pins), route_path(r)),
        ) == Dispatch::Handle(r),
        method == seq!['H', 'E', 'A', 'D'] ==> dispatch_of(
            method,
            literal_route(route_table(pins), route_path(r)),
        ) == Dispatch::HandleWithoutBody(r),
        method != seq!['G', 'E', 'T'] && method != seq!['H', 'E', 'A', 'D'] ==> dispatch_of(
            method,
            literal_route(route_table(pins), route_path(r)),
        ) == Dispatch::MethodNotAllowed,
{
    lemma_served_route_reachable(pins, r);
}

/// The route that the router picks is a route of the table.
pub proof fn lemma_matched_route_registered(table: Seq<Route>, path: Seq<char>)
    ensures
        matched_route(table, path) matches Some(r) ==> table.contains(r),
    decreases table.len(),
{
    if table.len() > 0 {
        let rest = table.drop_last();
        lemma_matched_route_registered(rest, path);
        if url_path_matches(path, route_path(table.last())) {
            assert(table[table.len() - 1] == table.last());
        } else if let Some(r) = matched_route(rest, path) {
            let i = choose|i: int| 0 <= i < rest.len() && rest[i] == r;
            assert(table[i] == r);
        }
    }
}

/// Every route of an application serving `pins` is reached by its path: the
/// path is plain, so the router compares it letter for letter, and the lookup
/// of that path gives the route back.
pub proof fn lemma_served_route_reachable(pins: Seq<u8>, r: Route)
    requires
        r is Pin ==> pins.contains(r->0),
    ensures
        plain_path(route_path(r)),
        literal_route(route_table(pins), route_path(r)) == Some(r),
{
    lemma_route_path_plain(r);
    lemma_route_table_members(pins, r);
    lemma_registered_route_reachable(route_table(pins), r);
}

} // verus!
