use asimov_account::account_id::{is_listed_name, AccountName};
use asimov_account::network_name::NetworkName;
use asimov_account::registry::{accounts_dir, hidden_file_name, marker_path, Change, Registry};

fn account(s: &str) -> AccountName {
    AccountName::parse(s).expect("a valid account identifier")
}

#[test]
fn account_names_are_validated() {
    assert_eq!(account("alice.testnet").as_str(), "alice.testnet");
    assert!(AccountName::parse("Alice.testnet").is_none());
    assert!(AccountName::parse("a").is_none());
    assert!(AccountName::parse(".alice.testnet").is_none());
    assert!(AccountName::parse("alice..near").is_none());
    assert!(AccountName::parse("").is_none());
}

#[test]
fn hidden_and_invalid_names_are_not_listed() {
    assert!(is_listed_name("bob.near"));
    assert!(!is_listed_name(".bob.near"));
    assert!(!is_listed_name("notes.txt~"));
}

#[test]
fn marking_creates_the_marker_and_lists_it() {
    let mut r = Registry::new();
    let alice = account("alice.testnet");
    match r.mark(NetworkName::Testnet, &alice) {
        Change::Create { network, file } => {
            assert_eq!(network, "testnet");
            assert_eq!(file, "alice.testnet");
            assert_eq!(
                marker_path(&network, &file),
                vec![".asimov", "accounts", "testnet", "alice.testnet"]
            );
        }
        other => panic!("unexpected change {other:?}"),
    }
    assert!(r.contains("testnet", "alice.testnet"));
    assert_eq!(r.listing().lines(), vec!["testnet accounts:", "  alice.testnet"]);
}

#[test]
fn marking_twice_leaves_one_marker() {
    let mut r = Registry::new();
    let alice = account("alice.testnet");
    r.mark(NetworkName::Testnet, &alice);
    assert!(matches!(r.mark(NetworkName::Testnet, &alice), Change::Unchanged));
    let l = r.listing();
    assert_eq!(l.networks, vec!["testnet"]);
    assert_eq!(l.accounts, vec![vec!["alice.testnet"]]);
}

#[test]
fn unmarking_hides_the_account_but_keeps_the_file() {
    let mut r = Registry::new();
    let alice = account("alice.testnet");
    r.mark(NetworkName::Testnet, &alice);
    match r.unmark(NetworkName::Testnet, &alice) {
        Change::Rename { network, from, to } => {
            assert_eq!(network, "testnet");
            assert_eq!(from, "alice.testnet");
            assert_eq!(to, ".alice.testnet");
        }
        other => panic!("unexpected change {other:?}"),
    }
    assert!(!r.contains("testnet", "alice.testnet"));
    assert!(r.contains("testnet", ".alice.testnet"));
    assert!(r.listing().lines().is_empty());
}

#[test]
fn unmarking_an_unknown_account_is_no_error() {
    let mut r = Registry::new();
    r.add_file("testnet", "bob.testnet");
    let alice = account("alice.testnet");
    assert!(matches!(r.unmark(NetworkName::Testnet, &alice), Change::Unchanged));
    assert!(r.contains("testnet", "bob.testnet"));
    assert!(!r.contains("testnet", ".alice.testnet"));
}

#[test]
fn unmarking_again_after_an_earlier_deletion() {
    let mut r = Registry::new();
    r.add_file("mainnet", ".carol.near");
    r.add_file("mainnet", "carol.near");
    let carol = account("carol.near");
    assert!(matches!(r.unmark(NetworkName::Mainnet, &carol), Change::Rename { .. }));
    assert!(r.contains("mainnet", ".carol.near"));
    assert!(!r.contains("mainnet", "carol.near"));
}

#[test]
fn listing_is_grouped_sorted_and_filtered() {
    let mut r = Registry::new();
    r.add_file("testnet", "zed.testnet");
    r.add_file("mainnet", "bob.near");
    r.add_file("testnet", "amy.testnet");
    r.add_file("testnet", ".old.testnet");
    r.add_file("testnet", "Not Valid");
    r.add_file("mainnet", "al.near");
    r.add_file("testnet", "amy.testnet");
    r.add_file("empty", ".gone.near");
    let l = r.listing();
    assert_eq!(l.networks, vec!["mainnet", "testnet"]);
    assert_eq!(
        l.accounts,
        vec![vec!["al.near", "bob.near"], vec!["amy.testnet", "zed.testnet"]]
    );
    assert_eq!(
        l.lines(),
        vec![
            "mainnet accounts:",
            "  al.near",
            "  bob.near",
            "testnet accounts:",
            "  amy.testnet",
            "  zed.testnet",
        ]
    );
}

#[test]
fn prefixes_sort_first() {
    let mut r = Registry::new();
    r.add_file("testnet", "ab.testnet");
    r.add_file("testnet", "a.testnet");
    r.add_file("testnet", "a1.testnet");
    let l = r.listing();
    assert_eq!(l.accounts, vec![vec!["a.testnet", "a1.testnet", "ab.testnet"]]);
}

#[test]
fn empty_registry_lists_nothing() {
    let r = Registry::new();
    let l = r.listing();
    assert!(l.networks.is_empty());
    assert!(l.lines().is_empty());
}

#[test]
fn hidden_file_names() {
    assert_eq!(hidden_file_name("alice.testnet"), ".alice.testnet");
}

#[test]
fn registry_layout() {
    assert_eq!(accounts_dir(), vec![".asimov", "accounts"]);
    assert_eq!(
        marker_path("mainnet", ".bob.near"),
        vec![".asimov", "accounts", "mainnet", ".bob.near"]
    );
}
