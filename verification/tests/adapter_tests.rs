use bridge_core::lan_adapter::{
    default_lan_adapters, group_lan_adapter_addresses, is_link_local, is_usable_unicast, lan_candidate_addresses, AdapterIp, LanAdapter, LanAdapterAddress,
    LanAdapterSelectionError, MAX_SELECTED_LAN_ADAPTERS,
};
use bridge_core::lan_join_code::MAX_LAN_CANDIDATES;

fn v4(a: u8, b: u8, c: u8, d: u8) -> AdapterIp {
    AdapterIp::V4(u32::from_be_bytes([a, b, c, d]))
}

fn address(adapter: u32, name: &str, value: AdapterIp) -> LanAdapterAddress {
    LanAdapterAddress {
        adapter_id: format!("{adapter}:{name}"),
        name: name.to_owned(),
        address: value,
        interface_index: adapter,
    }
}

fn adapter(index: u32, name: &str, addresses: Vec<LanAdapterAddress>) -> LanAdapter {
    LanAdapter { adapter_id: format!("{index}:{name}"), name: name.to_owned(), interface_index: index, addresses }
}

const WLAN_V6: u128 = 0x2408_8266_0003_692d_0000_0000_0000_0f52;
const WLAN_V6_SECOND: u128 = 0x2408_8266_0003_692d_ffff_0000_0000_0001;
const LINK_LOCAL_1: u128 = 0xfe80_0000_0000_0000_0000_0000_0000_0001;
const LINK_LOCAL_2: u128 = 0xfe80_0000_0000_0000_0000_0000_0000_0002;

#[test]
fn candidate_plan_uses_one_address_per_adapter_before_second_families() {
    let adapters = group_lan_adapter_addresses(&vec![
        address(1, "WLAN", v4(192, 168, 31, 22)),
        address(1, "WLAN", AdapterIp::V6(WLAN_V6)),
        address(1, "WLAN", AdapterIp::V6(WLAN_V6_SECOND)),
        address(1, "WLAN", AdapterIp::V6(LINK_LOCAL_1)),
        address(2, "ZeroTier", v4(192, 168, 192, 44)),
        address(2, "ZeroTier", AdapterIp::V6(LINK_LOCAL_2)),
    ]);

    let candidates = lan_candidate_addresses(&adapters).unwrap();
    assert_eq!(candidates.len(), 4);
    assert_eq!(candidates[0].address, v4(192, 168, 31, 22));
    assert_eq!(candidates[1].address, v4(192, 168, 192, 44));
    assert!(candidates.iter().any(|candidate| candidate.address == AdapterIp::V6(WLAN_V6)));
    assert!(!candidates.iter().any(|candidate| candidate.address == AdapterIp::V6(LINK_LOCAL_1)));
    assert_eq!(candidates[2].address, AdapterIp::V6(WLAN_V6));
    assert_eq!(candidates[3].address, AdapterIp::V6(LINK_LOCAL_2));
    assert_eq!(candidates[3].name, "ZeroTier");
}

#[test]
fn default_and_candidate_plan_stay_inside_protocol_budget() {
    let adapters = (0..12u32)
        .map(|index| LanAdapter {
            adapter_id: format!("{index}:Adapter"),
            name: format!("Adapter {index}"),
            interface_index: index,
            addresses: vec![address(index, "Adapter", v4(10, 0, 0, index as u8 + 1))],
        })
        .collect::<Vec<_>>();

    let defaults = default_lan_adapters(&adapters);
    assert_eq!(defaults.len(), MAX_SELECTED_LAN_ADAPTERS);
    assert_eq!(lan_candidate_addresses(&defaults).unwrap().len(), MAX_LAN_CANDIDATES);
    assert_eq!(lan_candidate_addresses(&adapters), Err(LanAdapterSelectionError::TooMany(12)));
}

#[test]
fn defaults_prefer_adapters_with_a_routable_address() {
    let adapters = vec![
        adapter(1, "WLAN", vec![
            address(1, "WLAN", v4(192, 168, 31, 22)),
            address(1, "WLAN", AdapterIp::V6(WLAN_V6)),
            address(1, "WLAN", AdapterIp::V6(LINK_LOCAL_1)),
        ]),
        adapter(2, "Disconnected VPN", vec![
            address(2, "Disconnected VPN", v4(169, 254, 185, 38)),
            address(2, "Disconnected VPN", AdapterIp::V6(LINK_LOCAL_2)),
        ]),
        adapter(3, "ZeroTier", vec![address(3, "ZeroTier", v4(192, 168, 192, 44))]),
    ];
    assert!(adapters[0].is_recommended());
    assert!(!adapters[1].is_recommended());
    let defaults = default_lan_adapters(&adapters);
    assert_eq!(defaults.iter().map(|a| a.name.as_str()).collect::<Vec<_>>(), ["WLAN", "ZeroTier"]);
    let fallback = default_lan_adapters(&adapters[1..2]);
    assert_eq!(fallback, vec![adapters[1].clone()]);
    assert!(default_lan_adapters(&[]).is_empty());
}

#[test]
fn candidate_plan_refuses_no_adapter_and_orders_link_local_last() {
    assert_eq!(lan_candidate_addresses(&[]), Err(LanAdapterSelectionError::Empty));
    assert!(is_link_local(v4(169, 254, 0, 1)));
    assert!(!is_link_local(v4(169, 253, 255, 255)));
    assert!(is_link_local(AdapterIp::V6(0xfebf_0000_0000_0000_0000_0000_0000_0000)));
    assert!(!is_link_local(AdapterIp::V6(0xfec0_0000_0000_0000_0000_0000_0000_0000)));
    let only_local = vec![adapter(4, "eth", vec![
        address(4, "eth", AdapterIp::V6(LINK_LOCAL_1)),
        address(4, "eth", v4(169, 254, 1, 1)),
        address(4, "eth", AdapterIp::V6(WLAN_V6)),
    ])];
    let plan = lan_candidate_addresses(&only_local).unwrap();
    assert_eq!(plan.iter().map(|a| a.address).collect::<Vec<_>>(), vec![AdapterIp::V6(WLAN_V6), v4(169, 254, 1, 1)]);
}

#[test]
fn filtering_only_removes_invalid_or_same_process_addresses() {
    assert!(!is_usable_unicast(v4(0, 0, 0, 0)));
    assert!(!is_usable_unicast(v4(127, 0, 0, 1)));
    assert!(!is_usable_unicast(AdapterIp::V6(1)));
    assert!(is_usable_unicast(v4(192, 168, 1, 2)));
    assert!(is_usable_unicast(v4(100, 64, 0, 1)));
    assert!(is_usable_unicast(v4(8, 8, 8, 8)));
    assert!(is_usable_unicast(AdapterIp::V6(0xfd00_0000_0000_0000_0000_0000_0000_0001)));
    assert!(!is_usable_unicast(v4(224, 0, 0, 251)));
    assert!(!is_usable_unicast(v4(255, 255, 255, 255)));
    assert!(!is_usable_unicast(AdapterIp::V6(0xff02_0000_0000_0000_0000_0000_0000_0001)));
}

#[test]
fn groups_addresses_and_defaults_to_reachable_adapters() {
    let adapters = group_lan_adapter_addresses(&vec![
        address(1, "WLAN", v4(192, 168, 31, 22)),
        address(1, "WLAN", AdapterIp::V6(WLAN_V6)),
        address(1, "WLAN", AdapterIp::V6(LINK_LOCAL_1)),
        address(2, "Disconnected VPN", v4(169, 254, 185, 38)),
        address(2, "Disconnected VPN", AdapterIp::V6(LINK_LOCAL_2)),
        address(3, "ZeroTier", v4(192, 168, 192, 44)),
    ]);

    assert_eq!(adapters.len(), 3);
    assert_eq!(adapters[0].addresses.len(), 3);
    let defaults = default_lan_adapters(&adapters);
    assert_eq!(defaults.iter().map(|adapter| adapter.name.as_str()).collect::<Vec<_>>(), ["WLAN", "ZeroTier"]);
}

#[test]
fn grouping_orders_adapters_by_key_and_addresses_by_preference() {
    let adapters = group_lan_adapter_addresses(&vec![
        address(2, "eth", AdapterIp::V6(LINK_LOCAL_2)),
        address(1, "wlan", v4(169, 254, 1, 1)),
        address(2, "eth", v4(10, 0, 0, 2)),
        address(1, "wlan", AdapterIp::V6(WLAN_V6)),
        address(1, "wlan", v4(10, 0, 0, 1)),
        address(1, "lan", v4(10, 0, 0, 9)),
    ]);
    assert_eq!(adapters.iter().map(|a| a.adapter_id.as_str()).collect::<Vec<_>>(), ["1:lan", "1:wlan", "2:eth"]);
    assert_eq!(
        adapters[1].addresses.iter().map(|a| a.address).collect::<Vec<_>>(),
        vec![v4(10, 0, 0, 1), AdapterIp::V6(WLAN_V6), v4(169, 254, 1, 1)]
    );
    assert_eq!(adapters[2].addresses.iter().map(|a| a.address).collect::<Vec<_>>(), vec![v4(10, 0, 0, 2), AdapterIp::V6(LINK_LOCAL_2)]);
    assert!(group_lan_adapter_addresses(&vec![]).is_empty());
}
