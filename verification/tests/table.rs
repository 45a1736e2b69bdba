use buildengine::net::table::{ConnectionTable, TableError};
use buildengine::net::Connection;

fn conn(addr: &str) -> Connection {
    Connection {
        outbound: Vec::new(),
        addr: String::from(addr),
    }
}

#[test]
fn capacity_exact() {
    // A table of capacity 3 takes exactly 3 inserts; the 4th is refused;
    // after one removal exactly one more succeeds.
    let mut table = ConnectionTable::new(3);
    let h1 = table.insert(conn("a")).expect("slot 1 of 3");
    let _h2 = table.insert(conn("b")).expect("slot 2 of 3");
    let _h3 = table.insert(conn("c")).expect("slot 3 of 3");
    assert_eq!(table.len(), 3);
    assert_eq!(table.insert(conn("d")), Err(TableError::Full));
    table.remove(h1).expect("h1 is live");
    assert_eq!(table.len(), 2);
    let _h4 = table.insert(conn("e")).expect("one slot free again");
    assert_eq!(table.insert(conn("f")), Err(TableError::Full));
}

#[test]
fn stale_handle_detected() {
    let mut table = ConnectionTable::new(2);
    let h = table.insert(conn("a")).unwrap();
    assert!(table.get(h).is_ok());
    table.remove(h).unwrap();
    assert_eq!(table.get(h).err(), Some(TableError::StaleHandle));
    assert_eq!(table.remove(h).err(), Some(TableError::StaleHandle));
    assert_eq!(
        table.append_outbound(h, Vec::new()).err(),
        Some(TableError::StaleHandle)
    );
    assert_eq!(table.take_outbound(h).err(), Some(TableError::StaleHandle));
}

#[test]
fn slot_reuse_changes_generation() {
    let mut table = ConnectionTable::new(1);
    let h1 = table.insert(conn("a")).unwrap();
    table.remove(h1).unwrap();
    let h2 = table.insert(conn("b")).unwrap();
    // The one slot is reused, but under a new generation: the old handle
    // stays stale, the new one is live.
    assert_eq!(h1.index, h2.index);
    assert_ne!(h1.generation, h2.generation);
    assert_eq!(table.get(h1).err(), Some(TableError::StaleHandle));
    assert_eq!(table.get(h2).unwrap().addr, "b");
}

#[test]
fn get_reads_the_connection() {
    let mut table = ConnectionTable::new(2);
    let h = table.insert(conn("peer:1234")).unwrap();
    let c = table.get(h).unwrap();
    assert_eq!(c.addr, "peer:1234");
    assert!(c.outbound.is_empty());
}

#[test]
fn live_handles_lists_each_once() {
    let mut table = ConnectionTable::new(3);
    let h1 = table.insert(conn("a")).unwrap();
    let h2 = table.insert(conn("b")).unwrap();
    let h3 = table.insert(conn("c")).unwrap();
    table.remove(h2).unwrap();
    let live = table.live_handles();
    assert_eq!(live.len(), 2);
    assert!(live.contains(&h1));
    assert!(live.contains(&h3));
    assert!(!live.contains(&h2));
}
