use arsd::config::{ConfigError, Partition, Settings, Aliases, parse_start_url};

fn part(region: &str, url: &str) -> Partition {
    Partition {
        start_url: String::from(url),
        account_id: None,
        region: String::from(region),
    }
}

#[test]
fn slug_joins_region_and_subdomain() {
    let p = part("us-west-2", "https://mycompany.awsapps.com/start#");
    assert_eq!(p.slug(), "us-west-2-mycompany");
}

#[test]
fn slug_is_deterministic_and_round_trips() {
    let a = part("eu-central-1", "https://corp.awsapps.com/start#");
    let b = part("eu-central-1", "https://corp.awsapps.com/start#");
    assert_eq!(a.slug(), b.slug());

    let settings = Settings {
        path: String::from("config.yaml"),
        partitions: vec![a],
        aliases: Aliases { accounts: vec![], roles: vec![] },
    };
    assert!(settings.validate().is_ok());
    let found = settings.partition(b.slug()).expect("slug should find its partition");
    assert_eq!(found.start_url, b.start_url);
    assert_eq!(found.region, b.region);
}

#[test]
fn sso_start_url_returns_valid_url_unchanged() {
    let p = part("us-east-1", "https://ok.awsapps.com/start#");
    assert_eq!(p.sso_start_url().unwrap(), "https://ok.awsapps.com/start#");
}

#[test]
fn wrong_scheme_is_rejected() {
    assert_eq!(
        parse_start_url("http://corp.awsapps.com/start#"),
        Err(ConfigError::WrongScheme)
    );
    assert_eq!(parse_start_url("corp.awsapps.com/start#"), Err(ConfigError::WrongScheme));
}

#[test]
fn missing_trailer_is_rejected() {
    assert_eq!(
        parse_start_url("https://corp.awsapps.com/start"),
        Err(ConfigError::MissingTrailer)
    );
    assert_eq!(parse_start_url("https://corp.awsapps.com"), Err(ConfigError::MissingTrailer));
}

#[test]
fn wrong_domain_is_rejected() {
    assert_eq!(
        parse_start_url("https://corp.example.com/start#"),
        Err(ConfigError::WrongDomain)
    );
    // empty subdomain
    assert_eq!(parse_start_url("https://.awsapps.com/start#"), Err(ConfigError::WrongDomain));
    // a path separator inside the subdomain
    assert_eq!(
        parse_start_url("https://a/b.awsapps.com/start#"),
        Err(ConfigError::WrongDomain)
    );
}

#[test]
fn valid_url_parses_to_its_subdomain() {
    assert_eq!(parse_start_url("https://corp.awsapps.com/start#").unwrap(), "corp");
}

#[test]
fn try_slug_fails_on_malformed_url() {
    let p = part("us-west-2", "https://bad.example.com/start#");
    assert_eq!(p.try_slug(), Err(ConfigError::WrongDomain));
}

#[test]
fn more_than_one_partition_is_rejected() {
    let settings = Settings {
        path: String::from("config.yaml"),
        partitions: vec![
            part("us-west-2", "https://one.awsapps.com/start#"),
            part("us-east-1", "https://two.awsapps.com/start#"),
        ],
        aliases: Aliases { accounts: vec![], roles: vec![] },
    };
    assert_eq!(settings.validate(), Err(ConfigError::TooManyPartitions));
}

#[test]
fn map_role_prefers_the_alias_and_falls_back_to_the_name() {
    let aliases = Aliases {
        accounts: vec![],
        roles: vec![(String::from("AdministratorAccess"), String::from("admin"))],
    };
    assert_eq!(aliases.map_role(String::from("AdministratorAccess")), "admin");
    assert_eq!(aliases.map_role(String::from("ReadOnlyAccess")), "ReadOnlyAccess");
}

#[test]
fn map_account_is_none_without_an_alias() {
    let aliases = Aliases {
        accounts: vec![(String::from("ops@corp.example"), String::from("ops"))],
        roles: vec![],
    };
    assert_eq!(aliases.map_account(String::from("ops@corp.example")), Some(String::from("ops")));
    assert_eq!(aliases.map_account(String::from("dev@corp.example")), None);
}

#[test]
fn scopes_names_account_access() {
    let p = part("us-west-2", "https://corp.awsapps.com/start#");
    assert_eq!(p.scopes(), vec![String::from("sso:account:access")]);
}

#[test]
fn partition_displays_carry_the_slug() {
    let settings = Settings {
        path: String::from("config.yaml"),
        partitions: vec![part("ap-southeast-2", "https://team.awsapps.com/start#")],
        aliases: Aliases { accounts: vec![], roles: vec![] },
    };
    let displays = settings.partition_displays();
    assert_eq!(displays.len(), 1);
    assert_eq!(displays[0].slug, "ap-southeast-2-team");
    assert_eq!(displays[0].region, "ap-southeast-2");
    assert_eq!(displays[0].start_url, "https://team.awsapps.com/start#");
}

#[test]
fn unknown_slug_finds_no_partition() {
    let settings = Settings {
        path: String::from("config.yaml"),
        partitions: vec![part("us-west-2", "https://corp.awsapps.com/start#")],
        aliases: Aliases { accounts: vec![], roles: vec![] },
    };
    assert!(settings.partition(String::from("us-east-1-other")).is_none());
}
