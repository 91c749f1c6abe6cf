use camloc_server::registry::{Address, CameraEvent, CameraRegistry};

fn addr(port: u16) -> Address {
    Address { ip: 0xffff_7f00_0001, port }
}

#[test]
fn connect_fires_connection_once() {
    let mut r: CameraRegistry<u32, i32> = CameraRegistry::new();
    match r.connect(addr(1), 7) {
        Some(CameraEvent::Connection(a, p)) => {
            assert_eq!(a, addr(1));
            assert_eq!(p, 7);
        }
        _ => panic!("expected a connection event"),
    }
    assert!(r.connect(addr(1), 8).is_none());
    assert_eq!(r.len(), 1);
    assert_eq!(r.pose_of(addr(1)), Some(7));
}

#[test]
fn disconnect_fires_with_last_pose() {
    let mut r: CameraRegistry<u32, i32> = CameraRegistry::new();
    r.connect(addr(1), 7);
    r.connect(addr(2), 9);
    match r.disconnect(addr(1)) {
        Some(CameraEvent::Disconnection(a, p)) => {
            assert_eq!(a, addr(1));
            assert_eq!(p, 7);
        }
        _ => panic!("expected a disconnection event"),
    }
    assert!(r.disconnect(addr(1)).is_none());
    assert!(!r.contains(addr(1)));
    assert!(r.contains(addr(2)));
    assert_eq!(r.len(), 1);
}

#[test]
fn observe_overwrites_latest_bearing() {
    let mut r: CameraRegistry<u32, i32> = CameraRegistry::new();
    r.connect(addr(1), 7);
    r.connect(addr(2), 9);
    r.connect(addr(3), 11);
    assert!(r.eligible().is_empty());
    assert!(r.observe(addr(3), 5));
    assert!(r.observe(addr(1), 1));
    assert!(r.observe(addr(1), 2));
    assert!(!r.observe(addr(4), 3));
    assert_eq!(r.eligible(), vec![(7, 2), (11, 5)]);
}

#[test]
fn count_matches_net_events_over_a_run() {
    let mut r: CameraRegistry<u32, i32> = CameraRegistry::new();
    let mut net: i64 = 0;
    for round in 0..5u16 {
        for port in 0..10u16 {
            if let Some(CameraEvent::Connection(..)) = r.connect(addr(port), port as u32) {
                net += 1;
            }
            if (port + round) % 3 == 0 {
                if let Some(CameraEvent::Disconnection(..)) = r.disconnect(addr(port)) {
                    net -= 1;
                }
            }
        }
        assert_eq!(r.len() as i64, net);
    }
}

#[test]
fn events_for_one_camera_alternate() {
    let mut r: CameraRegistry<u32, i32> = CameraRegistry::new();
    let mut kinds = Vec::new();
    let ops = [true, true, false, false, true, false, true, true];
    for connect in ops {
        let e = if connect { r.connect(addr(5), 1) } else { r.disconnect(addr(5)) };
        match e {
            Some(CameraEvent::Connection(..)) => kinds.push(true),
            Some(CameraEvent::Disconnection(..)) => kinds.push(false),
            None => {}
        }
    }
    assert_eq!(kinds, vec![true, false, true, false, true]);
    assert!(r.contains(addr(5)));
}
