use tunneller::ports::{create_port_manager, PortManager};

#[test]
fn allocates_lowest_free_port() {
    let mut pm: PortManager<&str> = create_port_manager(34100, 3);
    assert_eq!(pm.allocate_port(), Ok(34100));
    pm.add_tunnel(String::from("a"), 34100, "A");
    assert_eq!(pm.allocate_port(), Ok(34101));
    pm.add_tunnel(String::from("c"), 34102, "C");
    assert_eq!(pm.allocate_port(), Ok(34101));
    pm.add_tunnel(String::from("b"), 34101, "B");
    assert_eq!(pm.allocate_port(), Err(()));
}

#[test]
fn empty_range_has_no_port() {
    let pm: PortManager<u8> = create_port_manager(1000, 0);
    assert_eq!(pm.allocate_port(), Err(()));
}

#[test]
fn get_after_add_and_replace() {
    let mut pm: PortManager<u32> = create_port_manager(10, 4);
    assert_eq!(pm.get_tunnel(&String::from("x")), None);
    pm.add_tunnel(String::from("x"), 11, 1);
    assert_eq!(pm.get_tunnel(&String::from("x")), Some(&1));
    pm.add_tunnel(String::from("x"), 12, 2);
    assert_eq!(pm.get_tunnel(&String::from("x")), Some(&2));
    assert_eq!(pm.tunnels.len(), 1);
    assert_eq!(pm.used_ports, vec![false, true, true, false]);
}

#[test]
fn remove_frees_the_port_and_returns_the_handle() {
    let mut pm: PortManager<u32> = create_port_manager(10, 2);
    pm.add_tunnel(String::from("x"), 10, 7);
    pm.add_tunnel(String::from("y"), 11, 8);
    assert_eq!(pm.remove_tunnel(&String::from("x")), Some(7));
    assert_eq!(pm.used_ports, vec![false, true]);
    assert_eq!(pm.get_tunnel(&String::from("x")), None);
    assert_eq!(pm.get_tunnel(&String::from("y")), Some(&8));
    assert_eq!(pm.allocate_port(), Ok(10));
    assert_eq!(pm.remove_tunnel(&String::from("x")), None);
    assert_eq!(pm.used_ports, vec![false, true]);
}

#[test]
fn add_then_remove_restores_the_table() {
    let mut pm: PortManager<u32> = create_port_manager(50, 3);
    pm.add_tunnel(String::from("keep"), 52, 1);
    let used_before = pm.used_ports.clone();
    pm.add_tunnel(String::from("tmp"), 50, 2);
    assert_eq!(pm.remove_tunnel(&String::from("tmp")), Some(2));
    assert_eq!(pm.used_ports, used_before);
    assert_eq!(pm.tunnels.len(), 1);
}

#[test]
fn lowest_free_index_follows_used_ports() {
    let mut pm: PortManager<u8> = create_port_manager(500, 3);
    assert_eq!(pm.lowest_free_index(), Some(0));
    pm.add_tunnel(String::from("a"), 500, 1);
    pm.add_tunnel(String::from("c"), 502, 3);
    assert_eq!(pm.lowest_free_index(), Some(1));
    pm.add_tunnel(String::from("b"), 501, 2);
    assert_eq!(pm.lowest_free_index(), None);
    let empty: PortManager<u8> = create_port_manager(7, 0);
    assert_eq!(empty.lowest_free_index(), None);
}
