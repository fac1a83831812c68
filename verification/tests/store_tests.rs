use arsd::store::{
    sort_order_from_code, AssumeStyle, CacheStore, HistoryNew, Registration, Role, SettingSort,
    SortOrder, Token, Account,
};

const HOUR_MS: i64 = 3600000;

fn history(partition: &str, account: &str) -> HistoryNew {
    HistoryNew {
        partition: String::from(partition),
        account: String::from(account),
        role: String::from("AdministratorAccess"),
        style: AssumeStyle::WebConsole,
        service: None,
    }
}

#[test]
fn registration_upsert_keeps_the_second_write() {
    let mut store = CacheStore::new();
    let now: i64 = 1000;
    store.put_registration(
        String::from("us-west-2-corp"),
        String::from("client-one"),
        String::from("SECRET-REDACTED"),
        now,
        now + HOUR_MS,
    );
    store.put_registration(
        String::from("us-west-2-corp"),
        String::from("client-two"),
        String::from("SECRET-REDACTED-2"),
        now,
        now + 2 * HOUR_MS,
    );
    let reg = store
        .get_valid_registration(&String::from("us-west-2-corp"), now)
        .expect("a live registration should be found");
    assert_eq!(reg.client_id, "client-two");
    assert_eq!(reg.client_secret, "SECRET-REDACTED-2");
    assert_eq!(reg.expires_at, now + 2 * HOUR_MS);
}

#[test]
fn expired_registration_reads_as_absent() {
    let mut store = CacheStore::new();
    store.put_registration(
        String::from("us-west-2-corp"),
        String::from("client-one"),
        String::from("SECRET-REDACTED"),
        0,
        500,
    );
    assert!(store.get_valid_registration(&String::from("us-west-2-corp"), 500).is_none());
    assert!(store.get_valid_registration(&String::from("us-west-2-corp"), 499).is_some());
}

#[test]
fn put_token_computes_the_expiry_from_now() {
    let mut store = CacheStore::new();
    let now: i64 = 50_000;
    let tok = store.put_token(
        String::from("us-west-2-corp"),
        String::from("SECRET-REDACTED"),
        3600,
        String::from("Bearer"),
        now,
    );
    assert_eq!(tok.expires_at, now + 3600 * 1000);
    let found = store
        .get_valid_token(&String::from("us-west-2-corp"), now)
        .expect("the fresh token should be valid");
    assert_eq!(found.access_token, "SECRET-REDACTED");
    assert_eq!(found.token_type, "Bearer");
    // at the expiry instant the token is no longer valid
    assert!(store.get_valid_token(&String::from("us-west-2-corp"), now + 3600 * 1000).is_none());
}

#[test]
fn token_for_another_partition_is_not_returned() {
    let mut store = CacheStore::new();
    store.put_token(
        String::from("us-west-2-corp"),
        String::from("SECRET-REDACTED"),
        3600,
        String::from("Bearer"),
        0,
    );
    assert!(store.get_valid_token(&String::from("eu-central-1-corp"), 0).is_none());
}

#[test]
fn accounts_upsert_by_partition_and_id() {
    let mut store = CacheStore::new();
    let rows = vec![
        Account {
            partition: String::from("p"),
            account_id: String::from("111"),
            email_address: String::from("a@x"),
            account_name: String::from("alpha"),
            updated_at: 1,
        },
        Account {
            partition: String::from("p"),
            account_id: String::from("222"),
            email_address: String::from("b@x"),
            account_name: String::from("beta"),
            updated_at: 1,
        },
    ];
    store.put_accounts(&rows);
    let update = vec![Account {
        partition: String::from("p"),
        account_id: String::from("111"),
        email_address: String::from("a2@x"),
        account_name: String::from("alpha-two"),
        updated_at: 2,
    }];
    store.put_accounts(&update);
    let got = store.get_accounts(&String::from("p"));
    assert_eq!(got.len(), 2);
    assert_eq!(got[0].account_id, "111");
    assert_eq!(got[0].account_name, "alpha-two");
    assert_eq!(got[0].updated_at, 2);
    assert_eq!(got[1].account_name, "beta");
}

#[test]
fn roles_upsert_by_their_full_key() {
    let mut store = CacheStore::new();
    let rows = vec![
        Role {
            partition: String::from("p"),
            account_id: String::from("111"),
            role_name: String::from("Admin"),
            updated_at: 1,
        },
        Role {
            partition: String::from("p"),
            account_id: String::from("111"),
            role_name: String::from("ReadOnly"),
            updated_at: 1,
        },
    ];
    store.put_roles(&rows);
    store.put_roles(&vec![Role {
        partition: String::from("p"),
        account_id: String::from("111"),
        role_name: String::from("Admin"),
        updated_at: 9,
    }]);
    let got = store.get_roles(&String::from("p"), &String::from("111"));
    assert_eq!(got.len(), 2);
    assert_eq!(got[0].role_name, "Admin");
    assert_eq!(got[0].updated_at, 9);
    assert_eq!(got[1].role_name, "ReadOnly");
    assert!(store.get_roles(&String::from("p"), &String::from("222")).is_empty());
}

#[test]
fn clear_all_wipes_credentials_but_keeps_history() {
    let mut store = CacheStore::new();
    store.put_registration(
        String::from("p"),
        String::from("cid"),
        String::from("SECRET-REDACTED"),
        0,
        HOUR_MS,
    );
    store.put_token(String::from("p"), String::from("SECRET-REDACTED"), 3600, String::from("Bearer"), 0);
    store.put_accounts(&vec![Account {
        partition: String::from("p"),
        account_id: String::from("111"),
        email_address: String::from("a@x"),
        account_name: String::from("alpha"),
        updated_at: 1,
    }]);
    history("p", "111").insert(&mut store);
    store.clear_all();
    assert!(store.get_valid_registration(&String::from("p"), 0).is_none());
    assert!(store.get_valid_token(&String::from("p"), 0).is_none());
    assert!(store.get_accounts(&String::from("p")).is_empty());
    assert_eq!(store.get_history().len(), 1);
}

#[test]
fn sort_setting_defaults_to_alpha_and_keeps_the_last_write() {
    let mut store = CacheStore::new();
    assert_eq!(SettingSort::get(&store), 0);
    SettingSort { value: SortOrder::FRECENCY }.insert(&mut store);
    assert_eq!(SettingSort::get(&store), 1);
    SettingSort { value: SortOrder::ALPHA }.insert(&mut store);
    assert_eq!(SettingSort::get(&store), 0);
}

#[test]
fn sort_codes_map_to_orders() {
    assert_eq!(sort_order_from_code(0), Some(SortOrder::ALPHA));
    assert_eq!(sort_order_from_code(1), Some(SortOrder::FRECENCY));
    assert_eq!(sort_order_from_code(2), None);
    assert_eq!(sort_order_from_code(-1), None);
}

#[test]
fn history_is_append_only() {
    let mut store = CacheStore::new();
    history("p", "111").insert(&mut store);
    history("p", "222").insert(&mut store);
    let hist = store.get_history();
    assert_eq!(hist.len(), 2);
    assert_eq!(hist[0].account, "111");
    assert_eq!(hist[1].account, "222");
}

#[test]
fn token_insert_upserts_by_partition_and_type() {
    let mut store = CacheStore::new();
    Token {
        partition: String::from("p"),
        token_type: String::from("Bearer"),
        access_token: String::from("SECRET-REDACTED"),
        expires_at: HOUR_MS,
    }
    .insert(&mut store);
    Token {
        partition: String::from("p"),
        token_type: String::from("Bearer"),
        access_token: String::from("SECRET-REDACTED-2"),
        expires_at: 2 * HOUR_MS,
    }
    .insert(&mut store);
    let tok = store.get_valid_token(&String::from("p"), 0).unwrap();
    assert_eq!(tok.access_token, "SECRET-REDACTED-2");
    assert_eq!(tok.expires_at, 2 * HOUR_MS);
}

#[test]
fn find_returns_the_stored_account_row() {
    let mut store = CacheStore::new();
    store.put_accounts(&vec![Account {
        partition: String::from("p"),
        account_id: String::from("111"),
        email_address: String::from("a@x"),
        account_name: String::from("alpha"),
        updated_at: 3,
    }]);
    let found = Account::find(&store, &String::from("p"), &String::from("111")).unwrap();
    assert_eq!(found.account_name, "alpha");
    assert_eq!(found.updated_at, 3);
    assert!(Account::find(&store, &String::from("p"), &String::from("222")).is_none());
    assert!(Account::find(&store, &String::from("q"), &String::from("111")).is_none());
}

#[test]
fn registration_insert_row_round_trips() {
    let mut store = CacheStore::new();
    Registration {
        partition: String::from("p"),
        client_id: String::from("cid"),
        client_secret: String::from("SECRET-REDACTED"),
        issued_at: 7,
        expires_at: HOUR_MS,
    }
    .insert(&mut store);
    let reg = store.get_valid_registration(&String::from("p"), 0).unwrap();
    assert_eq!(reg.client_id, "cid");
    assert_eq!(reg.issued_at, 7);
}
