use expos::ticket_mutex::{TicketMutex, Tickets};

#[test]
fn test_ticket_mutex_starts_free() {
    let mutex = TicketMutex::new(7u32);
    assert_eq!(mutex.next_ticket(), 0);
    assert_eq!(mutex.now_serving(), 0);
}

#[test]
fn test_ticket_mutex_guards_the_data() {
    let mutex = TicketMutex::new(vec![1u8, 2, 3]);
    let mut guard = mutex.lock();
    assert_eq!(*guard, vec![1u8, 2, 3]);
    guard.get_mut().push(4);
    assert_eq!(guard.len(), 4);
    let mutex = guard.unlock();
    let guard = mutex.lock();
    assert_eq!(*guard, vec![1u8, 2, 3, 4]);
}

#[test]
fn test_ticket_mutex_cycles() {
    let mut mutex = TicketMutex::new(0u64);
    for cycle in 0..100usize {
        assert_eq!(mutex.next_ticket(), cycle);
        assert_eq!(mutex.now_serving(), cycle);
        let mut guard = mutex.lock();
        // The ticket taken is the one served, and the next one is out.
        assert_eq!(guard.ticket(), cycle);
        assert_eq!(guard.now_serving(), cycle);
        assert_eq!(guard.next_ticket(), cycle + 1);
        *guard.get_mut() += cycle as u64;
        mutex = guard.unlock();
        // Giving up the guard serves the next ticket, and no other.
        assert_eq!(mutex.now_serving(), cycle + 1);
        assert_eq!(mutex.next_ticket(), cycle + 1);
    }
    let guard = mutex.lock();
    assert_eq!(*guard, 4950);
}

#[test]
fn test_tickets_are_served_in_order() {
    let mut tickets = Tickets::new();
    let first = tickets.take();
    let second = tickets.take();
    let third = tickets.take();
    assert_eq!((first, second, third), (0, 1, 2));
    assert_eq!(tickets.next_ticket(), 3);
    assert_eq!(tickets.now_serving(), 0);
    // Only the first caller enters.
    assert!(tickets.is_served(first));
    assert!(!tickets.is_served(second));
    assert!(!tickets.is_served(third));
    tickets.release();
    assert!(!tickets.is_served(first));
    assert!(tickets.is_served(second));
    assert!(!tickets.is_served(third));
    // A caller that comes now waits behind the third.
    let fourth = tickets.take();
    assert_eq!(fourth, 3);
    tickets.release();
    assert!(tickets.is_served(third));
    assert!(!tickets.is_served(fourth));
    tickets.release();
    assert!(tickets.is_served(fourth));
    tickets.release();
    assert_eq!(tickets.now_serving(), tickets.next_ticket());
    assert!(!tickets.is_served(fourth));
}
