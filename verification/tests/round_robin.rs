use atomic_broadcast::multipaxos::round_robin::ClassicRoundRobin;

#[test]
fn round_robin_test() {
    let r = ClassicRoundRobin { n: 3 };
    for round in 0..10 {
        for leader_index in 1..=3 {
            println!(
                "leader_index: {}, round: {}, result: {}",
                leader_index,
                round,
                r.next_classic_round(leader_index, round)
            );
        }
        println!("leader of round {}: {}", round, r.leader(round));
    }
}

#[test]
fn round_robin_leader_values() {
    let r = ClassicRoundRobin { n: 3 };
    assert_eq!(r.leader(0), 3);
    assert_eq!(r.leader(1), 1);
    assert_eq!(r.leader(2), 2);
    assert_eq!(r.leader(3), 3);
    assert_eq!(r.leader(7), 1);
}

#[test]
fn round_robin_next_round_is_owned_and_later() {
    let r = ClassicRoundRobin { n: 3 };
    assert_eq!(r.next_classic_round(1, 0), 1);
    assert_eq!(r.next_classic_round(3, 0), 3);
    assert_eq!(r.next_classic_round(1, 1), 4);
    assert_eq!(r.next_classic_round(2, 4), 5);
    assert_eq!(r.next_classic_round(3, 5), 6);
    for round in 0..20u64 {
        for i in 1..=3u64 {
            let next = r.next_classic_round(i, round);
            assert!(next > round);
            assert_eq!(r.leader(next), i);
        }
    }
}
