//! How the board joins a Wi-Fi network: its role, credentials and addresses,
//! the addresses its DHCP server leases, and the seed of the network stack.
use vstd::prelude::*;
use vstd::string::*;

verus! {

/// The role in which the board runs its Wi-Fi interface.
#[derive(Clone, Copy, Debug, PartialEq, Eq, Structural)]
pub enum Role {
    /// The board is the access point that clients join.
    AccessPoint,
    /// The board joins another access point as a client.
    Station,
}

/// How the access point authenticates clients.
#[derive(Clone, Copy, Debug, PartialEq, Eq, Structural)]
pub enum Authentication {
    Wpa2Personal,
}

/// The network name and key that the interface is configured with.
pub struct WifiCredentials {
    pub ssid: String,
    pub password: String,
    /// The authentication to set, or `None` to keep the driver's default.
    pub authentication: Option<Authentication>,
}

/// A fixed IPv4 address of the interface.
#[derive(Debug)]
pub struct StaticAddress {
    pub address: [u8; 4],
    /// The length of the network prefix, in bits.
    pub prefix_len: u8,
    pub gateway: Option<[u8; 4]>,
    /// The DNS servers the interface is told of.
    pub dns_servers: Vec<[u8; 4]>,
}

/// How the interface gets its IPv4 address.
#[derive(Debug)]
pub enum AddressConfig {
    Static(StaticAddress),
    Dhcp,
}

/// What the access point's DHCP server hands out.
#[derive(Debug)]
pub struct DhcpSettings {
    /// The server's own address.
    pub server: [u8; 4],
    /// How long a lease lasts, in seconds.
    pub lease_secs: u64,
    /// The first address of the pool of leases.
    pub pool_start: [u8; 4],
    /// The last address of the pool of leases.
    pub pool_end: [u8; 4],
    /// The gateways announced to clients.
    pub gateways: Vec<[u8; 4]>,
    /// The subnet mask announced to clients, if any.
    pub subnet: Option<[u8; 4]>,
    /// The DNS servers announced to clients.
    pub dns: Vec<[u8; 4]>,
    /// Whether the server points clients at a captive portal.
    pub captive_portal: bool,
}

/// The address of the board as access point, which is also the gateway it
/// announces and the address of its DHCP server.
pub open spec fn ap_address() -> Seq<u8> {
    seq![10u8, 0u8, 0u8, 1u8]
}

/// The fixed address of the access point: 10.0.0.1/24, with itself as
/// gateway.
pub open spec fn is_ap_address_config(c: AddressConfig) -> bool {
    match c {
        AddressConfig::Static(s) => {
            &&& s.address@ == ap_address()
            &&& s.prefix_len == 24
            &&& s.dns_servers@.len() == 0
            &&& match s.gateway {
                Some(g) => g@ == ap_address(),
                None => false,
            }
        },
        AddressConfig::Dhcp => false,
    }
}

/// The network name that the access point broadcasts.
pub open spec fn ap_ssid() -> Seq<char> {
    seq!['E', 'S', 'P', '3', '2', 'C', '3', '_', 'W', 'I', 'F', 'I', '_', 'A', 'P']
}

/// The key of the access point.
pub open spec fn ap_password() -> Seq<char> {
    seq!['e', 's', 'p', '3', '2', 'c', '3', 'w', 'i', 'f', 'i']
}

/// The network name that the station joins.
pub open spec fn station_ssid() -> Seq<char> {
    seq!['s', 's', 'i', 'd']
}

/// The key with which the station joins.
pub open spec fn station_password() -> Seq<char> {
    seq!['p', 'a', 's', 's', 'w', 'o', 'r', 'd']
}

/// The seed of the network stack, made of two 32-bit random words: `low`
/// gives the low half and `high` the high half.
pub fn combine_seed(low: u32, high: u32) -> (seed: u64)
    ensures
        seed == low as int + high as int * 0x1_0000_0000,
{
    let s: u64 = (low as u64) | ((high as u64) << 32u64);
    assert(((low as u64) | ((high as u64) << 32u64)) == low as u64 + (high as u64)
        * 0x1_0000_0000u64) by (bit_vector);
    s
}

/// The Wi-Fi name, key and authentication for the given role.
pub fn wifi_credentials(role: Role) -> (c: WifiCredentials)
    ensures
        role == Role::AccessPoint ==> c.ssid@ == ap_ssid() && c.password@ == ap_password()
            && c.authentication == Some(Authentication::Wpa2Personal),
        role == Role::Station ==> c.ssid@ == station_ssid() && c.password@ == station_password()
            && c.authentication is None,
{
    match role {
        Role::AccessPoint => {
            let ssid = String::from_str("ESP32C3_WIFI_AP");
            let password = String::from_str("esp32c3wifi");
            proof {
                reveal_strlit("ESP32C3_WIFI_AP");
                reveal_strlit("esp32c3wifi");
            }
            assert(ssid@ =~= ap_ssid());
            assert(password@ =~= ap_password());
            WifiCredentials { ssid, password, authentication: Some(Authentication::Wpa2Personal) }
        },
        Role::Station => {
            let ssid = String::from_str("ssid");
            let password = String::from_str("password");
            proof {
                reveal_strlit("ssid");
                reveal_strlit("password");
            }
            assert(ssid@ =~= station_ssid());
            assert(password@ =~= station_password());
            WifiCredentials { ssid, password, authentication: None }
        },
    }
}

/// How the interface gets its address in the given role: the access point
/// has the fixed address 10.0.0.1/24 with itself as gateway, the station asks
/// for one by DHCP.
pub fn address_config(role: Role) -> (c: AddressConfig)
    ensures
        role == Role::AccessPoint ==> is_ap_address_config(c),
        role == Role::Station ==> c is Dhcp,
{
    match role {
        Role::AccessPoint => {
            let address: [u8; 4] = [10, 0, 0, 1];
            let gateway: [u8; 4] = [10, 0, 0, 1];
            assert(address@ =~= ap_address());
            assert(gateway@ =~= ap_address());
            AddressConfig::Static(
                StaticAddress {
                    address,
                    prefix_len: 24,
                    gateway: Some(gateway),
                    dns_servers: Vec::new(),
                },
            )
        },
        Role::Station => AddressConfig::Dhcp,
    }
}

/// What the access point's DHCP server hands out: leases of an hour on the
/// addresses 10.0.0.50 to 10.0.0.200, from the server at 10.0.0.1, with no
/// gateway, no subnet mask and no DNS server announced and no captive portal.
pub fn dhcp_settings() -> (d: DhcpSettings)
    ensures
        d.server@ == ap_address(),
        d.lease_secs == 3600,
        d.pool_start@ == seq![10u8, 0u8, 0u8, 50u8],
        d.pool_end@ == seq![10u8, 0u8, 0u8, 200u8],
        d.gateways@.len() == 0,
        d.subnet is None,
        d.dns@.len() == 0,
        !d.captive_portal,
{
    let server: [u8; 4] = [10, 0, 0, 1];
    let pool_start: [u8; 4] = [10, 0, 0, 50];
    let pool_end: [u8; 4] = [10, 0, 0, 200];
    assert(server@ =~= ap_address());
    assert(pool_start@ =~= seq![10u8, 0u8, 0u8, 50u8]);
    assert(pool_end@ =~= seq![10u8, 0u8, 0u8, 200u8]);
    DhcpSettings {
        server,
        lease_secs: 3600,
        pool_start,
        pool_end,
        gateways: Vec::new(),
        subnet: None,
        dns: Vec::new(),
        captive_portal: false,
    }
}

} // verus!
