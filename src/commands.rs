use vstd::prelude::*;

use crate::account_id::AccountName;
use crate::network_name::{network_of, NetworkName};

verus! {

/// Why a command failed; each kind stands for one exit status.
#[derive(Debug, Clone, Copy, PartialEq, Eq, Structural)]
pub enum Failure {
    /// Bad arguments.
    Usage,
    /// No network can be told from the account identifier.
    DataErr,
    /// Configuration is missing, such as the home directory or the keychain.
    Config,
    /// No credentials for the account were found.
    NoUser,
    /// A directory could not be read.
    IoErr,
    /// A local file or directory could not be created.
    CantCreate,
    /// The SDK failed in an unexpected way.
    Software,
    /// The network reports that a transaction failed.
    Unavailable,
    /// A transaction could not be sent.
    TempFail,
}

/// One call into the outside world that a command makes.
#[derive(Debug, Clone, Copy, PartialEq, Eq, Structural)]
pub enum Step {
    /// Look the account's keys up in the keychain.
    LoadKeys,
    /// Read the public key of the keys found.
    CheckKey,
    /// Ask the network whether the account exists.
    ViewAccount,
    /// Generate a new key pair.
    GenerateKey,
    /// Load the signing keys of the sponsor.
    LoadSponsorSigner,
    /// Send the transaction that creates the account.
    SendCreate,
    /// Store the new key in the keychain.
    SaveKey,
    /// Load the signing keys of the account.
    LoadSigner,
    /// Send the transaction that deletes the account.
    SendDelete,
    /// Mark the account in the local registry.
    SaveLocally,
    /// Unmark the account in the local registry.
    RemoveLocally,
    /// Read the local registry.
    ReadRegistry,
}

/// How a step went.
#[derive(Debug, Clone, Copy, PartialEq, Eq, Structural)]
pub enum Outcome {
    Succeeded,
    /// The call returned an error.
    Failed,
    /// The transaction was sent, and the network reports that it failed.
    Rejected,
    /// The home directory could not be found.
    NoHome,
    /// No credentials were found for the account.
    NotFound,
    /// A local directory could not be read.
    Unreadable,
}

/// The commands, with the funding of a registration.
#[derive(Debug, Clone, Copy, PartialEq, Eq, Structural)]
pub enum Command {
    Find,
    Import,
    RegisterViaFaucet,
    RegisterWithSponsor,
    Delete,
    List,
}

/// The steps of a command, in order.
pub open spec fn steps_of(c: Command) -> Seq<Step> {
    match c {
        Command::Find => seq![Step::LoadKeys, Step::CheckKey, Step::ViewAccount],
        Command::Import => seq![Step::LoadKeys, Step::CheckKey, Step::ViewAccount, Step::SaveLocally],
        Command::RegisterViaFaucet => seq![
            Step::GenerateKey,
            Step::SendCreate,
            Step::ViewAccount,
            Step::SaveKey,
            Step::SaveLocally,
        ],
        Command::RegisterWithSponsor => seq![
            Step::GenerateKey,
            Step::LoadSponsorSigner,
            Step::SendCreate,
            Step::ViewAccount,
            Step::SaveKey,
            Step::SaveLocally,
        ],
        Command::Delete => seq![Step::LoadSigner, Step::SendDelete, Step::RemoveLocally],
        Command::List => seq![Step::ReadRegistry],
    }
}

/// Whether `step` looks up the keys of an account.
pub open spec fn is_key_lookup(step: Step) -> bool {
    step == Step::LoadKeys || step == Step::LoadSigner || step == Step::LoadSponsorSigner
}

/// The failure that ends a command when `step` did not succeed.
pub open spec fn failure_for(step: Step, outcome: Outcome) -> Failure {
    match outcome {
        Outcome::NoHome => Failure::Config,
        Outcome::Rejected => Failure::Unavailable,
        Outcome::Unreadable => Failure::IoErr,
        Outcome::NotFound if is_key_lookup(step) => Failure::NoUser,
        _ => match step {
            Step::LoadKeys => Failure::Config,
            Step::SendCreate => Failure::TempFail,
            Step::SendDelete => Failure::TempFail,
            Step::SaveLocally => Failure::CantCreate,
            Step::ReadRegistry => Failure::IoErr,
            _ => Failure::Software,
        },
    }
}

/// The step at `i` of command `c`, if it has that many.
pub fn step_at(c: Command, i: usize) -> (r: Option<Step>)
    ensures
        i < steps_of(c).len() ==> r == Some(steps_of(c)[i as int]),
        i >= steps_of(c).len() ==> r is None,
{
    match c {
        Command::Find => match i {
            0 => Some(Step::LoadKeys),
            1 => Some(Step::CheckKey),
            2 => Some(Step::ViewAccount),
            _ => None,
        },
        Command::Import => match i {
            0 => Some(Step::LoadKeys),
            1 => Some(Step::CheckKey),
            2 => Some(Step::ViewAccount),
            3 => Some(Step::SaveLocally),
            _ => None,
        },
        Command::RegisterViaFaucet => match i {
            0 => Some(Step::GenerateKey),
            1 => Some(Step::SendCreate),
            2 => Some(Step::ViewAccount),
            3 => Some(Step::SaveKey),
            4 => Some(Step::SaveLocally),
            _ => None,
        },
        Command::RegisterWithSponsor => match i {
            0 => Some(Step::GenerateKey),
            1 => Some(Step::LoadSponsorSigner),
            2 => Some(Step::SendCreate),
            3 => Some(Step::ViewAccount),
            4 => Some(Step::SaveKey),
            5 => Some(Step::SaveLocally),
            _ => None,
        },
        Command::Delete => match i {
            0 => Some(Step::LoadSigner),
            1 => Some(Step::SendDelete),
            2 => Some(Step::RemoveLocally),
            _ => None,
        },
        Command::List => match i {
            0 => Some(Step::ReadRegistry),
            _ => None,
        },
    }
}

/// The failure that ends a command when `step` did not succeed.
pub fn failure_of(step: Step, outcome: Outcome) -> (r: Failure)
    requires
        outcome != Outcome::Succeeded,
    ensures
        r == failure_for(step, outcome),
{
    let key_lookup = match step {
        Step::LoadKeys | Step::LoadSigner | Step::LoadSponsorSigner => true,
        _ => false,
    };
    match outcome {
        Outcome::NoHome => Failure::Config,
        Outcome::Rejected => Failure::Unavailable,
        Outcome::Unreadable => Failure::IoErr,
        Outcome::NotFound if key_lookup => Failure::NoUser,
        _ => match step {
            Step::LoadKeys => Failure::Config,
            Step::SendCreate => Failure::TempFail,
            Step::SendDelete => Failure::TempFail,
            Step::SaveLocally => Failure::CantCreate,
            Step::ReadRegistry => Failure::IoErr,
            _ => Failure::Software,
        },
    }
}

/// What the caller does next.
#[derive(Debug, PartialEq)]
pub enum Progress {
    /// Perform this step and report how it went.
    Perform(Step),
    /// The command is over, with this result.
    Finished(Result<(), Failure>),
}

/// A command under way: which of its steps are done.
#[derive(Debug)]
pub struct Session {
    command: Command,
    done: usize,
}

impl Session {
    pub closed spec fn command(&self) -> Command {
        self.command
    }

    /// How many steps have succeeded; all of them once the command is over.
    pub closed spec fn position(&self) -> int {
        self.done as int
    }

    /// Starts `command` at its first step.
    pub fn start(command: Command) -> (r: (Session, Progress))
        ensures
            r.0.command() == command,
            r.0.position() == 0,
            r.1 == Progress::Perform(steps_of(command)[0]),
    {
        let first = match command {
            Command::Find => Step::LoadKeys,
            Command::Import => Step::LoadKeys,
            Command::RegisterViaFaucet => Step::GenerateKey,
            Command::RegisterWithSponsor => Step::GenerateKey,
            Command::Delete => Step::LoadSigner,
            Command::List => Step::ReadRegistry,
        };
        (Session { command, done: 0 }, Progress::Perform(first))
    }

    /// Whether the command is over.
    pub fn is_finished(&self) -> (r: bool)
        ensures
            r == (self.position() >= steps_of(self.command()).len()),
    {
        step_at(self.command, self.done).is_none()
    }

    /// Takes the outcome of the current step. A success moves on to the next
    /// step, or ends the command with success after the last one; any other
    /// outcome ends it with the failure of that step.
    pub fn advance(&mut self, outcome: Outcome) -> (r: Progress)
        requires
            old(self).position() < steps_of(old(self).command()).len(),
        ensures
            final(self).command() == old(self).command(),
            ({
                let c = old(self).command();
                let p = old(self).position();
                let n = steps_of(c).len();
                if outcome == Outcome::Succeeded {
                    &&& final(self).position() == p + 1
                    &&& r == if p + 1 < n {
                        Progress::Perform(steps_of(c)[p + 1])
                    } else {
                        Progress::Finished(Ok(()))
                    }
                } else {
                    &&& final(self).position() == n
                    &&& r == Progress::Finished(Err(failure_for(steps_of(c)[p], outcome)))
                }
            }),
    {
        let step = match step_at(self.command, self.done) {
            Some(s) => s,
            None => {
                return Progress::Finished(Ok(()));
            },
        };
        if outcome == Outcome::Succeeded {
            self.done = self.done + 1;
            match step_at(self.command, self.done) {
                Some(next) => Progress::Perform(next),
                None => Progress::Finished(Ok(())),
            }
        } else {
            let mut n: usize = self.done;
            while step_at(self.command, n).is_some()
                invariant
                    self.done <= n <= steps_of(self.command).len(),
                decreases steps_of(self.command).len() - n,
            {
                n = n + 1;
            }
            self.done = n;
            Progress::Finished(Err(failure_of(step, outcome)))
        }
    }
}

/// How a new account is funded.
#[derive(Debug)]
pub enum Funding {
    /// By the faucet of the test network.
    Faucet,
    /// By a sponsor account, with `amount` yoctoNEAR.
    Sponsor { sponsor: AccountName, amount: u128 },
}

/// A registration that may go ahead: on which network, funded how.
#[derive(Debug)]
pub struct Registration {
    pub network: NetworkName,
    pub funding: Funding,
}

impl Registration {
    /// The command that carries the registration out.
    pub fn command(&self) -> (r: Command)
        ensures
            r == (if self.funding is Faucet {
                Command::RegisterViaFaucet
            } else {
                Command::RegisterWithSponsor
            }),
    {
        match self.funding {
            Funding::Faucet => Command::RegisterViaFaucet,
            Funding::Sponsor { .. } => Command::RegisterWithSponsor,
        }
    }
}

/// Checks the arguments of a registration before anything is sent. A sponsor
/// and an amount come together or not at all; without them only the test
/// network's faucet can fund the account.
pub fn plan_registration(
    account: &AccountName,
    sponsor: Option<AccountName>,
    amount: Option<u128>,
) -> (r: Result<Registration, Failure>)
    ensures
        sponsor is Some != amount is Some ==> r == Err::<Registration, Failure>(Failure::Usage),
        sponsor is Some == amount is Some && network_of(account@) is None ==> r == Err::<
            Registration,
            Failure,
        >(Failure::DataErr),
        sponsor is None && amount is None && network_of(account@) == Some(NetworkName::Mainnet)
            ==> r == Err::<Registration, Failure>(Failure::Usage),
        sponsor is None && amount is None && network_of(account@) == Some(NetworkName::Testnet)
            ==> (r matches Ok(g) && g.network == NetworkName::Testnet && g.funding is Faucet),
        sponsor is Some && amount is Some && network_of(account@) is Some ==> (r matches Ok(g)
            && Some(g.network) == network_of(account@) && (g.funding matches Funding::Sponsor {
            sponsor: s,
            amount: a,
        } && s@ == sponsor->Some_0@ && a == amount->Some_0)),
{
    if sponsor.is_some() != amount.is_some() {
        return Err(Failure::Usage);
    }
    let network = match resolve_network(account) {
        Ok(n) => n,
        Err(e) => {
            return Err(e);
        },
    };
    match (sponsor, amount) {
        (Some(s), Some(a)) => Ok(Registration { network, funding: Funding::Sponsor { sponsor: s, amount: a } }),
        _ => match network {
            NetworkName::Testnet => Ok(Registration { network, funding: Funding::Faucet }),
            NetworkName::Mainnet => Err(Failure::Usage),
        },
    }
}

/// The network of an account, or a data error where its suffix names none.
pub fn resolve_network(account: &AccountName) -> (r: Result<NetworkName, Failure>)
    ensures
        r == (match network_of(account@) {
            Some(n) => Ok::<NetworkName, Failure>(n),
            None => Err(Failure::DataErr),
        }),
{
    match NetworkName::from_account_id(account.as_str()) {
        Ok(n) => Ok(n),
        Err(_) => Err(Failure::DataErr),
    }
}

} // verus!
