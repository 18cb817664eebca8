use asimov_account::account_id::AccountName;
use asimov_account::commands::{
    failure_of, plan_registration, resolve_network, step_at, Command, Failure, Funding, Outcome,
    Progress, Session, Step,
};
use asimov_account::network_name::NetworkName;

fn account(s: &str) -> AccountName {
    AccountName::parse(s).expect("a valid account identifier")
}

#[test]
fn sponsor_without_amount_is_a_usage_error() {
    let r = plan_registration(&account("alice.testnet"), Some(account("bob.testnet")), None);
    assert!(matches!(r, Err(Failure::Usage)));
}

#[test]
fn amount_without_sponsor_is_a_usage_error() {
    let r = plan_registration(&account("alice.near"), None, Some(10));
    assert!(matches!(r, Err(Failure::Usage)));
    let r = plan_registration(&account("alice.unknown"), None, Some(10));
    assert!(matches!(r, Err(Failure::Usage)));
}

#[test]
fn testnet_without_sponsor_uses_the_faucet() {
    let r = plan_registration(&account("alice.testnet"), None, None).unwrap();
    assert_eq!(r.network, NetworkName::Testnet);
    assert!(matches!(r.funding, Funding::Faucet));
    assert_eq!(r.command(), Command::RegisterViaFaucet);
}

#[test]
fn mainnet_without_sponsor_is_a_usage_error() {
    let r = plan_registration(&account("alice.near"), None, None);
    assert!(matches!(r, Err(Failure::Usage)));
}

#[test]
fn sponsor_and_amount_fund_the_account() {
    let r = plan_registration(&account("alice.near"), Some(account("bob.near")), Some(5)).unwrap();
    assert_eq!(r.network, NetworkName::Mainnet);
    assert_eq!(r.command(), Command::RegisterWithSponsor);
    match r.funding {
        Funding::Sponsor { sponsor, amount } => {
            assert_eq!(sponsor.as_str(), "bob.near");
            assert_eq!(amount, 5);
        }
        Funding::Faucet => panic!("expected a sponsor"),
    }
}

#[test]
fn unknown_network_is_a_data_error() {
    assert!(matches!(
        plan_registration(&account("alice.betanet"), None, None),
        Err(Failure::DataErr)
    ));
    assert_eq!(resolve_network(&account("alice.betanet")), Err(Failure::DataErr));
    assert_eq!(resolve_network(&account("alice.near")), Ok(NetworkName::Mainnet));
}

fn run(command: Command, outcomes: &[Outcome]) -> (Vec<Step>, Progress) {
    let (mut session, mut progress) = Session::start(command);
    let mut performed = Vec::new();
    let mut outcomes = outcomes.iter();
    while let Progress::Perform(step) = progress {
        performed.push(step);
        progress = session.advance(*outcomes.next().unwrap_or(&Outcome::Succeeded));
    }
    assert!(session.is_finished());
    (performed, progress)
}

#[test]
fn find_checks_keys_then_the_network() {
    let (steps, end) = run(Command::Find, &[]);
    assert_eq!(steps, vec![Step::LoadKeys, Step::CheckKey, Step::ViewAccount]);
    assert_eq!(end, Progress::Finished(Ok(())));
}

#[test]
fn import_saves_locally_last() {
    let (steps, end) = run(Command::Import, &[]);
    assert_eq!(
        steps,
        vec![Step::LoadKeys, Step::CheckKey, Step::ViewAccount, Step::SaveLocally]
    );
    assert_eq!(end, Progress::Finished(Ok(())));
}

#[test]
fn missing_keys_stop_an_import() {
    let (steps, end) = run(Command::Import, &[Outcome::Failed]);
    assert_eq!(steps, vec![Step::LoadKeys]);
    assert_eq!(end, Progress::Finished(Err(Failure::Config)));
}

#[test]
fn registration_steps() {
    let (steps, _) = run(Command::RegisterViaFaucet, &[]);
    assert_eq!(
        steps,
        vec![
            Step::GenerateKey,
            Step::SendCreate,
            Step::ViewAccount,
            Step::SaveKey,
            Step::SaveLocally
        ]
    );
    let (steps, _) = run(Command::RegisterWithSponsor, &[]);
    assert_eq!(steps[1], Step::LoadSponsorSigner);
    assert_eq!(steps.len(), 6);
}

#[test]
fn a_rejected_creation_is_unavailable() {
    let (steps, end) = run(
        Command::RegisterViaFaucet,
        &[Outcome::Succeeded, Outcome::Rejected],
    );
    assert_eq!(steps, vec![Step::GenerateKey, Step::SendCreate]);
    assert_eq!(end, Progress::Finished(Err(Failure::Unavailable)));
}

#[test]
fn an_unsent_creation_is_a_temporary_failure() {
    let (_, end) = run(Command::RegisterViaFaucet, &[Outcome::Succeeded, Outcome::Failed]);
    assert_eq!(end, Progress::Finished(Err(Failure::TempFail)));
}

#[test]
fn delete_unmarks_last() {
    let (steps, end) = run(Command::Delete, &[]);
    assert_eq!(steps, vec![Step::LoadSigner, Step::SendDelete, Step::RemoveLocally]);
    assert_eq!(end, Progress::Finished(Ok(())));
    let (_, end) = run(Command::Delete, &[Outcome::Succeeded, Outcome::Succeeded, Outcome::NoHome]);
    assert_eq!(end, Progress::Finished(Err(Failure::Config)));
}

#[test]
fn failures_by_step() {
    assert_eq!(failure_of(Step::LoadKeys, Outcome::Failed), Failure::Config);
    assert_eq!(failure_of(Step::CheckKey, Outcome::Failed), Failure::Software);
    assert_eq!(failure_of(Step::ViewAccount, Outcome::Failed), Failure::Software);
    assert_eq!(failure_of(Step::SendCreate, Outcome::Failed), Failure::TempFail);
    assert_eq!(failure_of(Step::SendDelete, Outcome::Failed), Failure::TempFail);
    assert_eq!(failure_of(Step::SendDelete, Outcome::Rejected), Failure::Unavailable);
    assert_eq!(failure_of(Step::SaveLocally, Outcome::Failed), Failure::CantCreate);
    assert_eq!(failure_of(Step::SaveLocally, Outcome::NoHome), Failure::Config);
    assert_eq!(failure_of(Step::RemoveLocally, Outcome::Failed), Failure::Software);
}

#[test]
fn steps_past_the_end() {
    assert_eq!(step_at(Command::Find, 3), None);
    assert_eq!(step_at(Command::Delete, 0), Some(Step::LoadSigner));
}

#[test]
fn an_unreadable_registry_is_an_io_error() {
    let (steps, end) = run(Command::List, &[Outcome::Failed]);
    assert_eq!(steps, vec![Step::ReadRegistry]);
    assert_eq!(end, Progress::Finished(Err(Failure::IoErr)));
    let (_, end) = run(Command::List, &[Outcome::NoHome]);
    assert_eq!(end, Progress::Finished(Err(Failure::Config)));
}

#[test]
fn missing_credentials_are_not_found() {
    let (steps, end) = run(Command::Find, &[Outcome::NotFound]);
    assert_eq!(steps, vec![Step::LoadKeys]);
    assert_eq!(end, Progress::Finished(Err(Failure::NoUser)));
    let (_, end) = run(Command::Import, &[Outcome::NotFound]);
    assert_eq!(end, Progress::Finished(Err(Failure::NoUser)));
    let (steps, end) = run(Command::Delete, &[Outcome::NotFound]);
    assert_eq!(steps, vec![Step::LoadSigner]);
    assert_eq!(end, Progress::Finished(Err(Failure::NoUser)));
    let (_, end) = run(
        Command::RegisterWithSponsor,
        &[Outcome::Succeeded, Outcome::NotFound],
    );
    assert_eq!(end, Progress::Finished(Err(Failure::NoUser)));
}

#[test]
fn an_unusable_keychain_is_a_config_error() {
    let (_, end) = run(Command::Find, &[Outcome::Failed]);
    assert_eq!(end, Progress::Finished(Err(Failure::Config)));
    assert_eq!(failure_of(Step::LoadSigner, Outcome::Failed), Failure::Software);
}

#[test]
fn an_unsent_deletion_is_a_temporary_failure() {
    let (steps, end) = run(Command::Delete, &[Outcome::Succeeded, Outcome::Failed]);
    assert_eq!(steps, vec![Step::LoadSigner, Step::SendDelete]);
    assert_eq!(end, Progress::Finished(Err(Failure::TempFail)));
    let (_, end) = run(Command::Delete, &[Outcome::Succeeded, Outcome::Rejected]);
    assert_eq!(end, Progress::Finished(Err(Failure::Unavailable)));
}

#[test]
fn an_unreadable_directory_is_an_io_error() {
    let (_, end) = run(
        Command::Import,
        &[Outcome::Succeeded, Outcome::Succeeded, Outcome::Succeeded, Outcome::Unreadable],
    );
    assert_eq!(end, Progress::Finished(Err(Failure::IoErr)));
    assert_eq!(failure_of(Step::ViewAccount, Outcome::NotFound), Failure::Software);
}
