use netspeed::sort_interface_list;

fn strings(names: &[&str]) -> Vec<String> {
    names.iter().map(|s| String::from(*s)).collect()
}

#[test]
fn sorts_categories_wireless_ethernet_loopback_unknown() {
    let mut list = strings(&["docker0", "lo", "eth0", "wlp2s0"]);
    sort_interface_list(&mut list);
    assert_eq!(list, strings(&["wlp2s0", "eth0", "lo", "docker0"]));
}

#[test]
fn already_sorted_list_is_kept() {
    let mut list = strings(&["wlp2s0", "eth0", "lo"]);
    sort_interface_list(&mut list);
    assert_eq!(list, strings(&["wlp2s0", "eth0", "lo"]));
}

#[test]
fn sorts_alphabetically_within_a_category() {
    let mut list = strings(&["eth2", "eth0", "eth10", "eth1"]);
    sort_interface_list(&mut list);
    assert_eq!(list, strings(&["eth0", "eth1", "eth10", "eth2"]));
}

#[test]
fn sorts_mixed_categories_and_names() {
    let mut list = strings(&["lo", "enp3s0", "veth1", "wlp2s0", "eth0", "br0", "wlp1s0"]);
    sort_interface_list(&mut list);
    assert_eq!(
        list,
        strings(&["wlp1s0", "wlp2s0", "enp3s0", "eth0", "lo", "br0", "veth1"])
    );
}

#[test]
fn sort_keeps_duplicates() {
    let mut list = strings(&["eth0", "wlp2s0", "eth0"]);
    sort_interface_list(&mut list);
    assert_eq!(list, strings(&["wlp2s0", "eth0", "eth0"]));
}

#[test]
fn sort_of_empty_list() {
    let mut list: Vec<String> = Vec::new();
    sort_interface_list(&mut list);
    assert!(list.is_empty());
}
