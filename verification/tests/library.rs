use wifi_ap::connection::{
    connection_command, connection_step, link_probe, link_step, ConnectionCommand,
    ConnectionPhase, LinkPhase, LinkProbe,
};
use wifi_ap::gpio::{
    generate_gpios, gpio_name_text, level_response, mode_text, GpioDriver, GpioDriverMode,
    GpioDrivers, PinCommand, Reply,
};
use wifi_ap::network::{
    address_config, combine_seed, dhcp_settings, wifi_credentials, AddressConfig, Authentication,
    Role,
};
use wifi_ap::routes::{build_route_table, resolve, route_text, Dispatch, PinAction, Route};
use wifi_ap::text::{find_ff_escape, push_decimal, same_text};
use wifi_ap::web::{Application, Served};

fn board_pins() -> Vec<u8> {
    vec![0, 1, 2, 3, 4, 5, 6, 7, 8, 9, 10, 18, 19, 20, 21]
}

fn served_mode(app: &mut Application, pin: u8) -> String {
    match app.serve("GET", &format!("/gpio{}/mode", pin)) {
        Served::Replied { reply: Reply::Mode(m), with_body: true } => m.mode,
        _ => panic!("a mode request is answered with the mode"),
    }
}

#[test]
fn decimal_numerals_have_no_leading_zeros() {
    let mut s = String::new();
    push_decimal(&mut s, 0);
    assert_eq!(s, "0");
    let mut s = String::from("n=");
    push_decimal(&mut s, 7);
    assert_eq!(s, "n=7");
    let mut s = String::new();
    push_decimal(&mut s, 10);
    assert_eq!(s, "10");
    let mut s = String::new();
    push_decimal(&mut s, 109);
    assert_eq!(s, "109");
    let mut s = String::new();
    push_decimal(&mut s, 255);
    assert_eq!(s, "255");
}

#[test]
fn same_text_compares_characters() {
    assert!(same_text("GET", "GET"));
    assert!(!same_text("GET", "get"));
    assert!(!same_text("GET", "GETS"));
    assert!(same_text("", ""));
}

#[test]
fn pins_are_listed_as_gpio_and_number() {
    assert_eq!(gpio_name_text(0), "gpio0");
    assert_eq!(gpio_name_text(21), "gpio21");
    assert_eq!(gpio_name_text(200), "gpio200");
    assert_eq!(generate_gpios(&vec![0, 1, 21]), vec!["gpio0", "gpio1", "gpio21"]);
    assert!(generate_gpios(&vec![]).is_empty());
}

#[test]
fn route_paths() {
    assert_eq!(route_text(Route::Index), "/");
    assert_eq!(route_text(Route::Script), "/assets/index-C1ON0lHl.js");
    assert_eq!(route_text(Route::Stylesheet), "/assets/index-BHnF5g-J.css");
    assert_eq!(route_text(Route::Gpios), "/gpios");
    assert_eq!(route_text(Route::Pin(8, PinAction::Level)), "/gpio8/level");
    assert_eq!(route_text(Route::Pin(8, PinAction::Toggle)), "/gpio8/toggle");
    assert_eq!(route_text(Route::Pin(12, PinAction::SetHigh)), "/gpio12/set/high");
    assert_eq!(route_text(Route::Pin(12, PinAction::SetLow)), "/gpio12/set/low");
    assert_eq!(route_text(Route::Pin(3, PinAction::Mode)), "/gpio3/mode");
    assert_eq!(route_text(Route::Pin(3, PinAction::ModeOutput)), "/gpio3/mode/output");
    assert_eq!(route_text(Route::Pin(3, PinAction::ModeInput)), "/gpio3/mode/input");
}

#[test]
fn route_table_registers_seven_routes_per_pin() {
    let table = build_route_table(&vec![4, 9]);
    assert_eq!(table.len(), 4 + 7 * 2);
    assert_eq!(table[0], Route::Index);
    assert_eq!(table[3], Route::Gpios);
    assert_eq!(table[4], Route::Pin(4, PinAction::Level));
    assert_eq!(table[10], Route::Pin(4, PinAction::ModeInput));
    assert_eq!(table[11], Route::Pin(9, PinAction::Level));
    assert_eq!(table[17], Route::Pin(9, PinAction::ModeInput));
}

#[test]
fn every_registered_route_is_reached_by_its_path() {
    let pins = board_pins();
    let table = build_route_table(&pins);
    for r in table.iter() {
        assert_eq!(resolve(&table, &route_text(*r)), Some(*r));
    }
}

#[test]
fn no_two_routes_share_a_path() {
    let table = build_route_table(&board_pins());
    for (i, a) in table.iter().enumerate() {
        for b in table.iter().skip(i + 1) {
            assert_ne!(route_text(*a), route_text(*b));
        }
    }
}

#[test]
fn get_and_head_are_served() {
    let app = Application::build_app(&board_pins());
    assert_eq!(app.dispatch("GET", "/"), Dispatch::Handle(Route::Index));
    assert_eq!(app.dispatch("GET", "/gpios"), Dispatch::Handle(Route::Gpios));
    assert_eq!(
        app.dispatch("GET", "/assets/index-BHnF5g-J.css"),
        Dispatch::Handle(Route::Stylesheet)
    );
    assert_eq!(
        app.dispatch("GET", "/gpio21/toggle"),
        Dispatch::Handle(Route::Pin(21, PinAction::Toggle))
    );
    assert_eq!(
        app.dispatch("HEAD", "/gpio5/level"),
        Dispatch::HandleWithoutBody(Route::Pin(5, PinAction::Level))
    );
}

#[test]
fn other_methods_are_not_allowed() {
    let app = Application::build_app(&board_pins());
    assert_eq!(app.dispatch("POST", "/gpio5/set/high"), Dispatch::MethodNotAllowed);
    assert_eq!(app.dispatch("get", "/gpio5/set/high"), Dispatch::MethodNotAllowed);
    assert_eq!(app.dispatch("DELETE", "/"), Dispatch::MethodNotAllowed);
}

#[test]
fn unknown_paths_are_not_found() {
    let app = Application::build_app(&board_pins());
    assert_eq!(app.dispatch("GET", "/gpio11/level"), Dispatch::NotFound);
    assert_eq!(app.dispatch("GET", "/gpio05/level"), Dispatch::NotFound);
    assert_eq!(app.dispatch("GET", "/gpio5/level/"), Dispatch::NotFound);
    assert_eq!(app.dispatch("GET", "/gpio5"), Dispatch::NotFound);
    assert_eq!(app.dispatch("GET", "/GPIOS"), Dispatch::NotFound);
    assert_eq!(app.dispatch("GET", ""), Dispatch::NotFound);
    assert_eq!(app.dispatch("POST", "/nothing"), Dispatch::NotFound);
}

#[test]
fn percent_escapes_in_the_path_are_decoded() {
    let app = Application::build_app(&board_pins());
    assert_eq!(
        app.dispatch("GET", "/gpio%35/level"),
        Dispatch::Handle(Route::Pin(5, PinAction::Level))
    );
    assert_eq!(app.dispatch("GET", "/%67pios"), Dispatch::Handle(Route::Gpios));
    assert_eq!(app.dispatch("GET", "/gpio5%2Flevel"), Dispatch::NotFound);
}

#[test]
fn an_application_without_pins_serves_only_the_page() {
    let app = Application::build_app(&vec![]);
    assert_eq!(app.dispatch("GET", "/"), Dispatch::Handle(Route::Index));
    assert_eq!(app.dispatch("GET", "/gpio0/level"), Dispatch::NotFound);
}

#[test]
fn pins_start_as_inputs() {
    let bank = GpioDrivers::new(&vec![2, 8]);
    assert_eq!(bank.pins(), vec![2, 8]);
    assert_eq!(bank.position(8), Some(1));
    assert_eq!(bank.position(3), None);
    let _ = GpioDriver { pin: 2, mode: GpioDriverMode::Input };
}

fn reported_mode(bank: &mut GpioDrivers, pin: u8) -> String {
    match bank.handle(Route::Pin(pin, PinAction::Mode)) {
        Reply::Mode(m) => m.mode,
        _ => panic!("a mode request is answered with the mode"),
    }
}

#[test]
fn mode_report_follows_the_last_mode_setting() {
    let mut bank = GpioDrivers::new(&vec![2, 8]);
    assert_eq!(reported_mode(&mut bank, 8), "input");
    match bank.handle(Route::Pin(8, PinAction::ModeOutput)) {
        Reply::Drive { index, command } => {
            assert_eq!(index, 1);
            assert_eq!(command, PinCommand::SetOutputEnable(true));
        }
        _ => panic!("setting the mode drives the pin"),
    }
    assert_eq!(reported_mode(&mut bank, 8), "output");
    assert_eq!(reported_mode(&mut bank, 2), "input");
    match bank.handle(Route::Pin(8, PinAction::ModeInput)) {
        Reply::Drive { index, command } => {
            assert_eq!(index, 1);
            assert_eq!(command, PinCommand::SetOutputEnable(false));
        }
        _ => panic!("setting the mode drives the pin"),
    }
    assert_eq!(reported_mode(&mut bank, 8), "input");
}

#[test]
fn pin_requests_give_commands() {
    let mut bank = GpioDrivers::new(&vec![2, 8]);
    let cases = [
        (PinAction::Level, PinCommand::ReadLevel),
        (PinAction::Toggle, PinCommand::Toggle),
        (PinAction::SetHigh, PinCommand::SetHigh),
        (PinAction::SetLow, PinCommand::SetLow),
    ];
    for (action, expected) in cases {
        match bank.handle(Route::Pin(2, action)) {
            Reply::Drive { index, command } => {
                assert_eq!(index, 0);
                assert_eq!(command, expected);
            }
            _ => panic!("a pin request drives the pin"),
        }
    }
    assert_eq!(reported_mode(&mut bank, 2), "input");
}

#[test]
fn page_requests_and_the_pin_list() {
    let mut bank = GpioDrivers::new(&vec![0, 21]);
    assert!(matches!(bank.handle(Route::Index), Reply::Page));
    assert!(matches!(bank.handle(Route::Script), Reply::Script));
    assert!(matches!(bank.handle(Route::Stylesheet), Reply::Stylesheet));
    match bank.handle(Route::Gpios) {
        Reply::Gpios(g) => assert_eq!(g.gpios, vec!["gpio0", "gpio21"]),
        _ => panic!("the pin list is answered with the list"),
    }
}

#[test]
fn level_and_mode_words() {
    assert!(level_response(true).level);
    assert!(!level_response(false).level);
    assert_eq!(mode_text(GpioDriverMode::Input), "input");
    assert_eq!(mode_text(GpioDriverMode::Output), "output");
}

#[test]
fn seed_joins_two_words() {
    assert_eq!(combine_seed(1, 2), (2u64 << 32) + 1);
    assert_eq!(combine_seed(0xdead_beef, 0), 0xdead_beef);
    assert_eq!(combine_seed(u32::MAX, u32::MAX), u64::MAX);
    assert_eq!(combine_seed(0, 0x1234_5678), 0x1234_5678_0000_0000);
}

#[test]
fn credentials_of_each_role() {
    let ap = wifi_credentials(Role::AccessPoint);
    assert_eq!(ap.ssid, "ESP32C3_WIFI_AP");
    assert_eq!(ap.password, "esp32c3wifi");
    assert_eq!(ap.authentication, Some(Authentication::Wpa2Personal));
    let sta = wifi_credentials(Role::Station);
    assert_eq!(sta.ssid, "ssid");
    assert_eq!(sta.password, "password");
    assert_eq!(sta.authentication, None);
}

#[test]
fn addresses_of_each_role() {
    match address_config(Role::AccessPoint) {
        AddressConfig::Static(s) => {
            assert_eq!(s.address, [10, 0, 0, 1]);
            assert_eq!(s.prefix_len, 24);
            assert_eq!(s.gateway, Some([10, 0, 0, 1]));
            assert!(s.dns_servers.is_empty());
        }
        AddressConfig::Dhcp => panic!("the access point has a fixed address"),
    }
    assert!(matches!(address_config(Role::Station), AddressConfig::Dhcp));
    let d = dhcp_settings();
    assert_eq!(d.server, [10, 0, 0, 1]);
    assert_eq!(d.lease_secs, 3600);
    assert_eq!(d.pool_start, [10, 0, 0, 50]);
    assert_eq!(d.pool_end, [10, 0, 0, 200]);
    assert!(d.gateways.is_empty());
    assert_eq!(d.subnet, None);
    assert!(d.dns.is_empty());
    assert!(!d.captive_portal);
}

fn link_wait(role: Role, answers: &[bool]) -> (LinkPhase, Vec<u64>, Vec<LinkProbe>) {
    let mut phase = LinkPhase::AwaitLink;
    let mut pauses = Vec::new();
    let mut probes = Vec::new();
    for a in answers {
        match link_probe(role, phase) {
            Some(p) => probes.push(p),
            None => break,
        }
        let (next, pause) = link_step(role, phase, *a);
        if let Some(ms) = pause {
            pauses.push(ms);
        }
        phase = next;
    }
    (phase, pauses, probes)
}

#[test]
fn access_point_waits_for_link_then_config() {
    let (phase, pauses, probes) =
        link_wait(Role::AccessPoint, &[false, false, true, false, true]);
    assert_eq!(phase, LinkPhase::Ready);
    assert_eq!(pauses, vec![500, 500, 100]);
    assert_eq!(
        probes,
        vec![
            LinkProbe::LinkUp,
            LinkProbe::LinkUp,
            LinkProbe::LinkUp,
            LinkProbe::ConfigUp,
            LinkProbe::ConfigUp
        ]
    );
    assert_eq!(link_probe(Role::AccessPoint, LinkPhase::Ready), None);
}

#[test]
fn station_waits_for_link_then_address() {
    let (phase, pauses, probes) = link_wait(Role::Station, &[true, false, false, true]);
    assert_eq!(phase, LinkPhase::Ready);
    assert_eq!(pauses, vec![500, 500]);
    assert_eq!(probes[1], LinkProbe::AddressAssigned);
}

#[test]
fn ready_only_after_two_yes_answers() {
    let (phase, _, _) = link_wait(Role::AccessPoint, &[false, true, false, false]);
    assert_eq!(phase, LinkPhase::AwaitAddress);
    let (phase, _, _) = link_wait(Role::Station, &[false, false]);
    assert_eq!(phase, LinkPhase::AwaitLink);
    assert_eq!(link_step(Role::Station, LinkPhase::Ready, false), (LinkPhase::Ready, None));
}

fn run_connection(role: Role, outcomes: &[bool]) -> (ConnectionPhase, Vec<ConnectionCommand>) {
    let mut phase = ConnectionPhase::CheckActive;
    let mut commands = Vec::new();
    for o in outcomes {
        commands.push(connection_command(phase));
        phase = connection_step(role, phase, *o);
    }
    (phase, commands)
}

#[test]
fn access_point_starts_when_not_started() {
    let (phase, commands) = run_connection(Role::AccessPoint, &[false, false, true, true]);
    assert_eq!(phase, ConnectionPhase::CheckActive);
    assert_eq!(
        commands,
        vec![
            ConnectionCommand::ProbeActive,
            ConnectionCommand::ProbeStarted,
            ConnectionCommand::ApplyConfig,
            ConnectionCommand::StartRadio
        ]
    );
}

#[test]
fn access_point_pauses_after_stopping() {
    let (phase, commands) = run_connection(Role::AccessPoint, &[true, true, true, true]);
    assert_eq!(phase, ConnectionPhase::CheckActive);
    assert_eq!(
        commands,
        vec![
            ConnectionCommand::ProbeActive,
            ConnectionCommand::WaitForDrop,
            ConnectionCommand::Sleep(5000),
            ConnectionCommand::ProbeStarted
        ]
    );
}

#[test]
fn station_connects_after_starting_and_retries_after_failure() {
    let (phase, commands) =
        run_connection(Role::Station, &[false, false, true, true, false, true]);
    assert_eq!(phase, ConnectionPhase::CheckActive);
    assert_eq!(
        commands,
        vec![
            ConnectionCommand::ProbeActive,
            ConnectionCommand::ProbeStarted,
            ConnectionCommand::ApplyConfig,
            ConnectionCommand::StartRadio,
            ConnectionCommand::ConnectToNetwork,
            ConnectionCommand::Sleep(5000)
        ]
    );
}

#[test]
fn failed_configuration_halts() {
    let (phase, _) = run_connection(Role::AccessPoint, &[false, false, false]);
    assert_eq!(phase, ConnectionPhase::Halted);
    assert_eq!(connection_command(ConnectionPhase::Halted), ConnectionCommand::Halt);
    assert_eq!(
        connection_step(Role::Station, ConnectionPhase::Halted, true),
        ConnectionPhase::Halted
    );
    let (phase, _) = run_connection(Role::Station, &[false, false, true, false]);
    assert_eq!(phase, ConnectionPhase::Halted);
}

#[test]
fn access_point_never_connects() {
    for bits in 0u32..(1 << 10) {
        let outcomes: Vec<bool> = (0..10).map(|k| bits & (1 << k) != 0).collect();
        let (_, commands) = run_connection(Role::AccessPoint, &outcomes);
        assert!(!commands.contains(&ConnectionCommand::ConnectToNetwork));
    }
}


#[test]
fn ff_escapes_are_found_in_either_case() {
    assert!(find_ff_escape("/%FF"));
    assert!(find_ff_escape("/gpio1/%fF/x"));
    assert!(find_ff_escape("%ff"));
    assert!(!find_ff_escape("/%F"));
    assert!(!find_ff_escape("/%FE"));
    assert!(!find_ff_escape("/F%F"));
    assert!(!find_ff_escape(""));
}

#[test]
fn paths_with_an_ff_escape_are_not_found() {
    let app = Application::build_app(&board_pins());
    assert_eq!(app.dispatch("GET", "/%FF"), Dispatch::NotFound);
    assert_eq!(app.dispatch("GET", "/gpio5/level%ff"), Dispatch::NotFound);
    assert_eq!(app.dispatch("POST", "/%Ff"), Dispatch::NotFound);
    let table = build_route_table(&board_pins());
    assert_eq!(resolve(&table, "/gpios%FF"), None);
}

#[test]
fn serving_drives_the_pins_of_the_application() {
    let mut app = Application::build_app(&vec![2, 8]);
    assert_eq!(served_mode(&mut app, 8), "input");
    match app.serve("GET", "/gpio8/mode/output") {
        Served::Replied { reply: Reply::Drive { index, command }, with_body } => {
            assert_eq!(index, 1);
            assert_eq!(command, PinCommand::SetOutputEnable(true));
            assert!(with_body);
        }
        _ => panic!("setting the mode drives the pin"),
    }
    assert_eq!(served_mode(&mut app, 8), "output");
    assert_eq!(served_mode(&mut app, 2), "input");
    match app.serve("HEAD", "/gpio2/toggle") {
        Served::Replied { reply: Reply::Drive { index, command }, with_body } => {
            assert_eq!(index, 0);
            assert_eq!(command, PinCommand::Toggle);
            assert!(!with_body);
        }
        _ => panic!("a HEAD request is handled as a GET without its body"),
    }
    match app.serve("GET", "/gpios") {
        Served::Replied { reply: Reply::Gpios(g), with_body: true } => {
            assert_eq!(g.gpios, vec!["gpio2", "gpio8"])
        }
        _ => panic!("the pin list is answered with the list"),
    }
    assert!(matches!(app.serve("GET", "/gpio3/level"), Served::NotFound));
    assert!(matches!(app.serve("PUT", "/gpio2/level"), Served::MethodNotAllowed));
    assert!(matches!(app.serve("GET", "/%FF"), Served::NotFound));
    assert!(matches!(
        app.serve("GET", "/"),
        Served::Replied { reply: Reply::Page, with_body: true }
    ));
}

#[test]
fn escaped_paths_are_served_as_their_decoded_route() {
    let mut app = Application::build_app(&vec![2, 8]);
    match app.serve("GET", "/gpi%6Fs") {
        Served::Replied { reply: Reply::Gpios(g), with_body: true } => {
            assert_eq!(g.gpios, vec!["gpio2", "gpio8"])
        }
        _ => panic!("an escaped path is served as the path it decodes to"),
    }
    assert_eq!(
        app.dispatch("GET", "/gpio%38/mode/output"),
        Dispatch::Handle(Route::Pin(8, PinAction::ModeOutput))
    );
    assert_eq!(app.dispatch("GET", "/gpio8%2Fmode"), Dispatch::NotFound);
    assert_eq!(app.dispatch("GET", "/gpio8/mode+"), Dispatch::NotFound);
    assert_eq!(app.dispatch("GET", "/gpio8/mode%"), Dispatch::NotFound);
    assert_eq!(app.dispatch("GET", "%2Fgpios"), Dispatch::NotFound);
}

#[test]
fn an_application_reports_its_pins() {
    let app = Application::build_app(&vec![21, 0, 7]);
    assert_eq!(app.pins(), vec![21, 0, 7]);
    assert_eq!(Application::build_app(&vec![]).pins(), Vec::<u8>::new());
}
