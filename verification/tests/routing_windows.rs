use tinyvpn::routing::{ClientRoute, RouteVia};

#[test]
fn command_construction_device_route() {
    let route = ClientRoute {
        destination: "10.20.0.0/24".to_string(),
        via: RouteVia::Device("tun0".to_string()),
    };
    assert_eq!(route.destination, "10.20.0.0/24");
    if let RouteVia::Device(dev) = route.via {
        assert_eq!(dev, "tun0");
    } else {
        panic!("Expected Device route");
    }
}
