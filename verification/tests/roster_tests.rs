use servo_sim::roster::drop_failed;

#[test]
fn nothing_failed_keeps_everyone() {
    let mut clients = vec!["a", "b", "c"];
    drop_failed(&mut clients, &vec![false, false, false]);
    assert_eq!(clients, vec!["a", "b", "c"]);
}

#[test]
fn failed_clients_are_dropped_in_order() {
    let mut clients = vec![10, 11, 12, 13, 14, 15];
    drop_failed(&mut clients, &vec![true, false, true, true, false, true]);
    assert_eq!(clients, vec![11, 14]);
}

#[test]
fn everyone_failed_leaves_no_client() {
    let mut clients = vec![String::from("x"), String::from("y")];
    drop_failed(&mut clients, &vec![true, true]);
    assert!(clients.is_empty());
}

#[test]
fn empty_roster_stays_empty() {
    let mut clients: Vec<u8> = Vec::new();
    drop_failed(&mut clients, &Vec::new());
    assert!(clients.is_empty());
}

#[test]
fn survivors_count_the_successful_writes() {
    let failed = vec![false, true, false, false, true, false, true];
    let mut clients: Vec<usize> = (0..failed.len()).collect();
    drop_failed(&mut clients, &failed);
    assert_eq!(clients.len(), failed.iter().filter(|f| !**f).count());
    for c in &clients {
        assert!(!failed[*c]);
    }
}
