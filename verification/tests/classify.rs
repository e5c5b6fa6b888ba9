use netspeed::{get_interface_type, list_ethernet, list_wireless, InterfaceType};

#[test]
fn wireless_prefix_is_wireless() {
    assert_eq!(get_interface_type("wlp2s0"), InterfaceType::Wireless);
    assert_eq!(get_interface_type("wlp"), InterfaceType::Wireless);
    assert_eq!(get_interface_type("wlp0s20f3"), InterfaceType::Wireless);
}

#[test]
fn wireless_takes_precedence_over_other_prefixes() {
    // Even a name that goes on in another convention's letters stays
    // wireless as long as it starts with the wireless prefix.
    assert_eq!(get_interface_type("wlpeth0"), InterfaceType::Wireless);
    assert_eq!(get_interface_type("wlplo"), InterfaceType::Wireless);
}

#[test]
fn ethernet_prefixes() {
    assert_eq!(get_interface_type("eth0"), InterfaceType::Ethernet);
    assert_eq!(get_interface_type("enp3s0"), InterfaceType::Ethernet);
}

#[test]
fn loopback_prefix() {
    assert_eq!(get_interface_type("lo"), InterfaceType::Loopback);
    assert_eq!(get_interface_type("lo0"), InterfaceType::Loopback);
}

#[test]
fn unknown_names() {
    assert_eq!(get_interface_type("docker0"), InterfaceType::Unknown);
    assert_eq!(get_interface_type(""), InterfaceType::Unknown);
    assert_eq!(get_interface_type("wl"), InterfaceType::Unknown);
    assert_eq!(get_interface_type("et"), InterfaceType::Unknown);
    assert_eq!(get_interface_type("tun0"), InterfaceType::Unknown);
}

#[test]
fn category_labels() {
    assert_eq!(InterfaceType::Wireless.label(), "Wireless");
    assert_eq!(InterfaceType::Ethernet.label(), "Ethernet");
    assert_eq!(InterfaceType::Loopback.label(), "Loopback");
    assert_eq!(InterfaceType::Unknown.label(), "Unknown");
}

#[test]
fn wireless_filter_keeps_only_wireless_in_order() {
    let all = vec![
        String::from("eth0"),
        String::from("wlp2s0"),
        String::from("lo"),
        String::from("wlp1s0"),
    ];
    let wireless = list_wireless(&all);
    assert_eq!(wireless, vec![String::from("wlp2s0"), String::from("wlp1s0")]);
}

#[test]
fn ethernet_filter_keeps_only_ethernet_in_order() {
    let all = vec![
        String::from("eth1"),
        String::from("wlp2s0"),
        String::from("enp3s0"),
        String::from("lo"),
    ];
    let ethernet = list_ethernet(&all);
    assert_eq!(ethernet, vec![String::from("eth1"), String::from("enp3s0")]);
}
