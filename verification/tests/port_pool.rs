use oc_outpost::port_pool::{parse_orphan_pid, OrphanError, PortPool};

#[test]
fn new_pool_is_empty() {
    let pool = PortPool::new(4100, 100);
    assert_eq!(pool.allocated_count(), 0);
}

#[test]
fn allocate_returns_sequential_ports() {
    let mut pool = PortPool::new(4100, 5);
    assert_eq!(pool.allocate().unwrap(), 4100);
    assert_eq!(pool.allocate().unwrap(), 4101);
    assert_eq!(pool.allocate().unwrap(), 4102);
    assert_eq!(pool.allocated_count(), 3);
}

#[test]
fn allocate_fails_when_exhausted() {
    let mut pool = PortPool::new(4100, 2);
    pool.allocate().unwrap();
    pool.allocate().unwrap();
    let result = pool.allocate();
    assert!(result.is_err());
    let msg = result.unwrap_err().to_string();
    assert!(msg.contains("exhausted"));
    assert_eq!(msg, "Port pool exhausted: all 2 ports allocated");
}

#[test]
fn release_makes_port_available_again() {
    let mut pool = PortPool::new(4100, 3);
    let port1 = pool.allocate().unwrap();
    let port2 = pool.allocate().unwrap();
    assert_eq!(pool.allocated_count(), 2);
    pool.release(port1);
    assert_eq!(pool.allocated_count(), 1);
    let port3 = pool.allocate().unwrap();
    assert_eq!(port3, port1);
    assert_eq!(pool.allocated_count(), 2);
    assert!(pool.is_allocated(port2));
    assert!(pool.is_allocated(port3));
}

#[test]
fn release_of_unallocated_port_is_harmless() {
    let mut pool = PortPool::new(4100, 10);
    pool.release(4105);
    assert_eq!(pool.allocated_count(), 0);
}

#[test]
fn allocated_port_is_not_available() {
    let mut pool = PortPool::new(4100, 10);
    let port = pool.allocate().unwrap();
    assert!(!pool.is_available(port, None));
    assert!(pool.is_available(4101, Some(&[])));
    assert!(!pool.is_available(4101, Some(b"1234\n")));
    assert!(pool.is_available(4101, None));
}

#[test]
fn orphan_pid_parsing() {
    assert_eq!(parse_orphan_pid(5000, "1234\n"), Ok(1234));
    assert_eq!(parse_orphan_pid(5000, ""), Err(OrphanError::NoProcess { port: 5000 }));
    assert_eq!(
        parse_orphan_pid(5000, "12 34"),
        Err(OrphanError::InvalidPid { text: "12 34".to_string() })
    );
}

#[test]
fn allocated_count_follows_calls() {
    let mut pool = PortPool::new(4100, 10);
    assert_eq!(pool.allocated_count(), 0);
    let a = pool.allocate().unwrap();
    assert_eq!(pool.allocated_count(), 1);
    let b = pool.allocate().unwrap();
    assert_eq!(pool.allocated_count(), 2);
    pool.release(4105);
    assert_eq!(pool.allocated_count(), 2);
    pool.release(a);
    assert_eq!(pool.allocated_count(), 1);
    pool.release(b);
    assert_eq!(pool.allocated_count(), 0);
}

#[test]
fn allocated_count_never_exceeds_size() {
    let mut pool = PortPool::new(4100, 3);
    let mut handed = Vec::new();
    while let Ok(p) = pool.allocate() {
        assert!(!handed.contains(&p));
        handed.push(p);
        assert!(pool.allocated_count() <= 3);
    }
    assert_eq!(pool.allocated_count(), 3);
}
