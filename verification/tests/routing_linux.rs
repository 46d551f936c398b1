use tinyvpn::routing::linux::{
    detect_outbound_interface, forward_outbound_rule, forward_return_rule, nat_masquerade_rule,
    read_ip_forward, RULE_COMMENT,
};


#[test]
fn nat_masquerade_rule_add_and_delete_are_symmetric_besides_the_action_flag() {
    let (add, delete) = nat_masquerade_rule("10.13.13.0/24", "eth0");
    assert_eq!(add[2], "-A");
    assert_eq!(delete[2], "-D");
    // Every other argument must be identical, so `delete` undoes
    // exactly the rule `add` created.
    let mut add_other = add.clone();
    let mut delete_other = delete.clone();
    add_other[2] = "X".into();
    delete_other[2] = "X".into();
    assert_eq!(add_other, delete_other);
    assert!(add.iter().any(|a| a == "MASQUERADE"));
    assert!(add.iter().any(|a| a == RULE_COMMENT));
}

#[test]
fn forward_rules_reference_both_interfaces_in_opposite_directions() {
    let (out_add, _) = forward_outbound_rule("tiny-tun-server", "eth0");
    let (ret_add, _) = forward_return_rule("tiny-tun-server", "eth0");

    // Outbound: VPN -> internet.
    let in_pos = out_add.iter().position(|a| a == "-i").unwrap();
    let out_pos = out_add.iter().position(|a| a == "-o").unwrap();
    assert_eq!(out_add[in_pos + 1], "tiny-tun-server");
    assert_eq!(out_add[out_pos + 1], "eth0");

    // Return: internet -> VPN, restricted to established/related.
    let in_pos = ret_add.iter().position(|a| a == "-i").unwrap();
    let out_pos = ret_add.iter().position(|a| a == "-o").unwrap();
    assert_eq!(ret_add[in_pos + 1], "eth0");
    assert_eq!(ret_add[out_pos + 1], "tiny-tun-server");
    assert!(ret_add.iter().any(|a| a == "ESTABLISHED,RELATED"));
}

#[test]
fn read_ip_forward_returns_a_value_without_mutating_anything() {
    for (contents, enabled) in [("1\n", true), ("0\n", false), ("1", true), ("", false)] {
        let file = contents.to_string();
        assert_eq!(read_ip_forward(&file), enabled);
        assert_eq!(read_ip_forward(&file), enabled);
        assert_eq!(file, contents);
    }
}

#[test]
fn detect_outbound_interface_parses_a_real_default_route_if_one_exists() {
    match detect_outbound_interface("default via 192.0.2.1 dev eth0 proto dhcp metric 100\n") {
        Ok(iface) => {
            assert!(!iface.is_empty());
            assert_eq!(iface, "eth0");
        }
        Err(e) => panic!("no interface found: {e:?}"),
    }
}
