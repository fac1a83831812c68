use arsd::frecency::score;
use arsd::store::{AssumeStyle, CacheStore, HistoryNew};

fn entry(partition: &str, account: &str) -> HistoryNew {
    HistoryNew {
        partition: String::from(partition),
        account: String::from(account),
        role: String::from("AdministratorAccess"),
        style: AssumeStyle::LinuxCopy,
        service: None,
    }
}

fn seed(store: &mut CacheStore, partition: &str, account: &str, times: usize) {
    for _ in 0..times {
        entry(partition, account).insert(store);
    }
}

#[test]
fn ties_share_a_rank_and_the_next_group_is_dense() {
    let mut store = CacheStore::new();
    seed(&mut store, "p", "A", 3);
    seed(&mut store, "p", "B", 3);
    seed(&mut store, "p", "C", 1);
    let p = String::from("p");
    assert_eq!(score(&store, &p, &String::from("A")), Some(1));
    assert_eq!(score(&store, &p, &String::from("B")), Some(1));
    // the next distinct frequency group is rank 2, not 3
    assert_eq!(score(&store, &p, &String::from("C")), Some(2));
}

#[test]
fn an_account_without_history_is_unranked() {
    let mut store = CacheStore::new();
    seed(&mut store, "p", "A", 2);
    assert_eq!(score(&store, &String::from("p"), &String::from("Z")), None);
}

#[test]
fn an_empty_history_ranks_nobody() {
    let store = CacheStore::new();
    assert_eq!(score(&store, &String::from("p"), &String::from("A")), None);
}

#[test]
fn history_of_other_partitions_does_not_count() {
    let mut store = CacheStore::new();
    seed(&mut store, "p", "A", 1);
    seed(&mut store, "q", "A", 5);
    seed(&mut store, "q", "B", 2);
    // in partition p, A is the only used account: rank 1
    assert_eq!(score(&store, &String::from("p"), &String::from("A")), Some(1));
    // B has no history in p at all
    assert_eq!(score(&store, &String::from("p"), &String::from("B")), None);
    // in partition q, A leads and B follows
    assert_eq!(score(&store, &String::from("q"), &String::from("A")), Some(1));
    assert_eq!(score(&store, &String::from("q"), &String::from("B")), Some(2));
}

#[test]
fn three_distinct_groups_rank_one_two_three() {
    let mut store = CacheStore::new();
    seed(&mut store, "p", "A", 4);
    seed(&mut store, "p", "B", 2);
    seed(&mut store, "p", "C", 1);
    let p = String::from("p");
    assert_eq!(score(&store, &p, &String::from("A")), Some(1));
    assert_eq!(score(&store, &p, &String::from("B")), Some(2));
    assert_eq!(score(&store, &p, &String::from("C")), Some(3));
}
