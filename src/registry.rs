use vstd::prelude::*;

use crate::account_id::{is_account_name, is_listed_name, AccountName};
use crate::network_name::{network_str, NetworkName};
use crate::text::{insert_sorted, same_text, strictly_sorted};

verus! {

/// A marker file, as the directory of its network and its file name.
pub type Entry = (Seq<char>, Seq<char>);

/// The name under which a deleted account's marker is kept.
pub open spec fn hidden_name(a: Seq<char>) -> Seq<char> {
    seq!['.'] + a
}

/// The registry after marking `a` on network `n`.
pub open spec fn marked(r: Set<Entry>, n: NetworkName, a: Seq<char>) -> Set<Entry> {
    r.insert((network_str(n), a))
}

/// The registry after unmarking `a` on network `n`: its marker, if there is
/// one, is renamed to the hidden name.
pub open spec fn unmarked(r: Set<Entry>, n: NetworkName, a: Seq<char>) -> Set<Entry> {
    if r.contains((network_str(n), a)) {
        r.remove((network_str(n), a)).insert((network_str(n), hidden_name(a)))
    } else {
        r
    }
}

/// The accounts that a listing shows under the network directory `network`.
pub open spec fn listed(r: Set<Entry>, network: Seq<char>) -> Set<Seq<char>> {
    Set::new(|a: Seq<char>| r.contains((network, a)) && is_account_name(a))
}

/// The registry's directory below the home directory.
pub open spec fn accounts_dir_spec() -> Seq<Seq<char>> {
    seq![".asimov"@, "accounts"@]
}

/// The path of a marker file below the home directory.
pub open spec fn marker_path_spec(network: Seq<char>, file: Seq<char>) -> Seq<Seq<char>> {
    accounts_dir_spec() + seq![network, file]
}

/// The known accounts, grouped by network: `accounts[i]` holds those of
/// `networks[i]`.
#[derive(Debug)]
pub struct Listing {
    pub networks: Vec<String>,
    pub accounts: Vec<Vec<String>>,
}

/// `l` lists the registry `r`: the networks that show an account, in order,
/// each with the accounts that it shows, in order.
pub open spec fn lists(l: &Listing, r: Set<Entry>) -> bool {
    let nets = l.networks.deep_view();
    let accts = l.accounts.deep_view();
    &&& nets.len() == accts.len()
    &&& strictly_sorted(nets)
    &&& forall|n: Seq<char>| #[trigger] nets.contains(n) <==> listed(r, n) != Set::<Seq<char>>::empty()
    &&& forall|i: int| 0 <= i < accts.len() ==> strictly_sorted(#[trigger] accts[i])
    &&& forall|i: int, a: Seq<char>|
        0 <= i < accts.len() ==> (#[trigger] accts[i].contains(a) <==> listed(r, nets[i]).contains(a))
}

/// The lines that show one network and its accounts.
pub open spec fn group_lines(network: Seq<char>, accounts: Seq<Seq<char>>) -> Seq<Seq<char>> {
    seq![network + " accounts:"@] + accounts.map_values(|a: Seq<char>| "  "@ + a)
}

/// The lines that show the first `n` groups of a listing.
pub open spec fn rendered(
    nets: Seq<Seq<char>>,
    accts: Seq<Seq<Seq<char>>>,
    n: int,
) -> Seq<Seq<char>>
    decreases n,
{
    if n <= 0 {
        Seq::empty()
    } else {
        rendered(nets, accts, n - 1) + group_lines(nets[n - 1], accts[n - 1])
    }
}

impl Listing {
    /// The listing as lines of text: for each network a line
    /// `<network> accounts:`, then one line `  <account>` for each account.
    pub fn lines(&self) -> (r: Vec<String>)
        requires
            self.networks.len() == self.accounts.len(),
        ensures
            r.deep_view() == rendered(
                self.networks.deep_view(),
                self.accounts.deep_view(),
                self.networks.len() as int,
            ),
    {
        let ghost nets = self.networks.deep_view();
        let ghost accts = self.accounts.deep_view();
        let mut r: Vec<String> = Vec::new();
        let mut i: usize = 0;
        while i < self.networks.len()
            invariant
                i <= self.networks.len() == self.accounts.len(),
                nets == self.networks.deep_view(),
                accts == self.accounts.deep_view(),
                r.deep_view() == rendered(nets, accts, i as int),
            decreases self.networks.len() - i,
        {
            let ghost start = r.deep_view();
            let mut header = self.networks[i].clone();
            header.append(" accounts:");
            r.push(header);
            let group = &self.accounts[i];
            let ghost g = accts[i as int];
            assert(g == group.deep_view());
            let mut j: usize = 0;
            while j < group.len()
                invariant
                    j <= group.len(),
                    g == group.deep_view(),
                    nets == self.networks.deep_view(),
                    i < nets.len(),
                    r.deep_view() == start + seq![nets[i as int] + " accounts:"@] + g.take(
                        j as int,
                    ).map_values(|a: Seq<char>| "  "@ + a),
                decreases group.len() - j,
            {
                let mut line = String::from_str("  ");
                line.append(group[j].as_str());
                let ghost prev = r.deep_view();
                r.push(line);
                proof {
                    assert(r.deep_view() =~= prev.push(line@));
                    assert(g.take(j + 1).map_values(|a: Seq<char>| "  "@ + a) =~= g.take(
                        j as int,
                    ).map_values(|a: Seq<char>| "  "@ + a).push("  "@ + g[j as int]));
                }
                j = j + 1;
            }
            proof {
                assert(g.take(j as int) =~= g);
                assert(r.deep_view() =~= rendered(nets, accts, i + 1));
            }
            i = i + 1;
        }
        r
    }
}

/// A change that the file system must undergo to match the registry.
#[derive(Debug)]
pub enum Change {
    /// Nothing to do.
    Unchanged,
    /// Create the empty file `file` in the directory of `network`, creating
    /// the directory first where it is missing.
    Create { network: String, file: String },
    /// Rename `from` to `to` within the directory of `network`.
    Rename { network: String, from: String, to: String },
}

/// The registry's marker files, as read from disk: one entry per file.
pub struct Registry {
    files: Vec<(String, String)>,
}

impl View for Registry {
    type V = Set<Entry>;

    closed spec fn view(&self) -> Set<Entry> {
        Set::new(|e: Entry| self.files.deep_view().contains(e))
    }
}

/// The registry's directory below the home directory, by path segment.
pub fn accounts_dir() -> (r: Vec<String>)
    ensures
        r.deep_view() == accounts_dir_spec(),
{
    let r = vec![String::from_str(".asimov"), String::from_str("accounts")];
    assert(r.deep_view() =~= accounts_dir_spec());
    r
}

/// The path of the marker file `file` of network directory `network`, below
/// the home directory, by path segment.
pub fn marker_path(network: &str, file: &str) -> (r: Vec<String>)
    ensures
        r.deep_view() == marker_path_spec(network@, file@),
{
    let mut r = accounts_dir();
    r.push(network.to_owned());
    r.push(file.to_owned());
    assert(r.deep_view() =~= marker_path_spec(network@, file@));
    r
}

/// The name under which the marker of `a` is kept once it is deleted.
pub fn hidden_file_name(a: &str) -> (r: String)
    ensures
        r@ == hidden_name(a@),
{
    let mut r = String::from_str(".");
    r.append(a);
    proof {
        reveal_strlit(".");
    }
    assert(r@ =~= hidden_name(a@));
    r
}

impl Registry {
    /// Each marker file stands once.
    pub closed spec fn wf(&self) -> bool {
        self.files.deep_view().no_duplicates()
    }

    /// An empty registry.
    pub fn new() -> (r: Registry)
        ensures
            r.wf(),
            r@ == Set::<Entry>::empty(),
    {
        let r = Registry { files: Vec::new() };
        assert(r@ =~= Set::<Entry>::empty());
        r
    }

    /// Where the marker `file` of `network` stands among the files.
    fn position(&self, network: &str, file: &str) -> (r: Option<usize>)
        ensures
            r is None <==> !self@.contains((network@, file@)),
            r matches Some(i) ==> i < self.files.len() && self.files.deep_view()[i as int] == (
            network@,
            file@,
            ),
    {
        let ghost dv = self.files.deep_view();
        let mut i: usize = 0;
        while i < self.files.len()
            invariant
                i <= self.files.len(),
                dv == self.files.deep_view(),
                forall|k: int| 0 <= k < i ==> dv[k] != (network@, file@),
            decreases self.files.len() - i,
        {
            let (n, f) = &self.files[i];
            if same_text(n.as_str(), network) && same_text(f.as_str(), file) {
                assert(dv[i as int] == (network@, file@));
                return Some(i);
            }
            i = i + 1;
        }
        None
    }

    /// Whether the registry holds the marker `file` of `network`.
    pub fn contains(&self, network: &str, file: &str) -> (r: bool)
        ensures
            r == self@.contains((network@, file@)),
    {
        self.position(network, file).is_some()
    }

    /// Records the marker file `file` of the network directory `network`.
    pub fn add_file(&mut self, network: &str, file: &str)
        requires
            old(self).wf(),
        ensures
            final(self).wf(),
            final(self)@ == old(self)@.insert((network@, file@)),
    {
        if self.contains(network, file) {
            assert(self@ =~= old(self)@.insert((network@, file@)));
            return;
        }
        let ghost before = self.files.deep_view();
        self.files.push((network.to_owned(), file.to_owned()));
        proof {
            let after = self.files.deep_view();
            assert(after =~= before.push((network@, file@)));
            assert(!before.contains((network@, file@)));
            assert forall|x: Entry| after.contains(x) <==> (before.contains(x) || x == (
                network@,
                file@,
            )) by {
                if before.contains(x) {
                    let k = choose|k: int| 0 <= k < before.len() && before[k] == x;
                    assert(after[k] == x);
                }
                if after.contains(x) {
                    let k = choose|k: int| 0 <= k < after.len() && after[k] == x;
                    if k < before.len() {
                        assert(before[k] == x);
                    }
                }
                if x == (network@, file@) {
                    assert(after[before.len() as int] == x);
                }
            }
            assert(self@ =~= old(self)@.insert((network@, file@)));
        }
    }

    /// Marks the account `account` as known on `network`. The change is a
    /// file to create, or none where the marker is already there.
    pub fn mark(&mut self, network: NetworkName, account: &AccountName) -> (r: Change)
        requires
            old(self).wf(),
        ensures
            final(self).wf(),
            final(self)@ == marked(old(self)@, network, account@),
            old(self)@.contains((network_str(network), account@)) ==> r is Unchanged,
            !old(self)@.contains((network_str(network), account@)) ==> (r matches Change::Create {
                network: n,
                file: f,
            } && n@ == network_str(network) && f@ == account@),
    {
        let n = network.as_str();
        let a = account.as_str();
        if self.contains(n, a) {
            assert(self@ =~= marked(old(self)@, network, account@));
            return Change::Unchanged;
        }
        self.add_file(n, a);
        Change::Create { network: n.to_owned(), file: a.to_owned() }
    }

    /// Unmarks the account `account` on `network`: its marker is renamed to
    /// the hidden name. An account that is not marked is no error: nothing
    /// changes.
    pub fn unmark(&mut self, network: NetworkName, account: &AccountName) -> (r: Change)
        requires
            old(self).wf(),
        ensures
            final(self).wf(),
            final(self)@ == unmarked(old(self)@, network, account@),
            !old(self)@.contains((network_str(network), account@)) ==> r is Unchanged,
            old(self)@.contains((network_str(network), account@)) ==> (r matches Change::Rename {
                network: n,
                from: f,
                to: t,
            } && n@ == network_str(network) && f@ == account@ && t@ == hidden_name(account@)),
    {
        let n = network.as_str();
        let a = account.as_str();
        let hidden = hidden_file_name(a);
        match self.position(n, a) {
            None => Change::Unchanged,
            Some(i) => {
                let ghost before = self.files.deep_view();
                let ghost e = (n@, a@);
                let ghost h = (n@, hidden@);
                assert(e != h) by {
                    assert(hidden@[0] == '.');
                }
                let _removed = self.files.remove(i);
                proof {
                    let mid = self.files.deep_view();
                    assert(mid =~= before.remove(i as int));
                    assert(mid.no_duplicates());
                    assert forall|x: Entry| mid.contains(x) <==> (before.contains(x) && x != e) by {
                        if before.contains(x) && x != e {
                            let k = choose|k: int| 0 <= k < before.len() && before[k] == x;
                            if k < i {
                                assert(mid[k] == x);
                            } else {
                                assert(mid[k - 1] == x);
                            }
                        }
                        if mid.contains(x) {
                            let k = choose|k: int| 0 <= k < mid.len() && mid[k] == x;
                            if k < i {
                                assert(before[k] == x);
                            } else {
                                assert(before[k + 1] == x);
                            }
                        }
                    }
                }
                self.add_file(n, hidden.as_str());
                assert(self@ =~= unmarked(old(self)@, network, account@));
                Change::Rename { network: n.to_owned(), from: a.to_owned(), to: hidden }
            },
        }
    }

    /// The accounts that the registry shows, grouped by network.
    pub fn listing(&self) -> (l: Listing)
        ensures
            lists(&l, self@),
    {
        let ghost dv = self.files.deep_view();
        let mut networks: Vec<String> = Vec::new();
        let mut k: usize = 0;
        while k < self.files.len()
            invariant
                k <= self.files.len(),
                dv == self.files.deep_view(),
                strictly_sorted(networks.deep_view()),
                forall|n: Seq<char>| #[trigger]
                    networks.deep_view().contains(n) <==> exists|j: int|
                        0 <= j < k && (#[trigger] dv[j]).0 == n && is_account_name(dv[j].1),
            decreases self.files.len() - k,
        {
            let (n, f) = &self.files[k];
            if is_listed_name(f.as_str()) {
                insert_sorted(&mut networks, n.as_str());
            }
            proof {
                assert forall|x: Seq<char>| #[trigger]
                    networks.deep_view().contains(x) <==> exists|j: int|
                        0 <= j < k + 1 && (#[trigger] dv[j]).0 == x && is_account_name(dv[j].1) by {
                    if exists|j: int| 0 <= j < k + 1 && (#[trigger] dv[j]).0 == x && is_account_name(dv[j].1) {
                        let j = choose|j: int| 0 <= j < k + 1 && (#[trigger] dv[j]).0 == x && is_account_name(dv[j].1);
                        if j < k {
                            assert(exists|j: int| 0 <= j < k && (#[trigger] dv[j]).0 == x && is_account_name(dv[j].1));
                        }
                    }
                    if networks.deep_view().contains(x) {
                        if !(exists|j: int| 0 <= j < k && (#[trigger] dv[j]).0 == x && is_account_name(dv[j].1)) {
                            assert(dv[k as int].0 == x && is_account_name(dv[k as int].1));
                        }
                    }
                }
            }
            k = k + 1;
        }
        let mut accounts: Vec<Vec<String>> = Vec::new();
        let mut i: usize = 0;
        while i < networks.len()
            invariant
                i <= networks.len(),
                dv == self.files.deep_view(),
                accounts.len() == i,
                strictly_sorted(networks.deep_view()),
                forall|n: Seq<char>| #[trigger]
                    networks.deep_view().contains(n) <==> exists|j: int|
                        0 <= j < dv.len() && (#[trigger] dv[j]).0 == n && is_account_name(dv[j].1),
                forall|p: int| 0 <= p < i ==> strictly_sorted(#[trigger] accounts.deep_view()[p]),
                forall|p: int, a: Seq<char>|
                    0 <= p < i ==> (#[trigger] accounts.deep_view()[p].contains(a) <==> listed(
                        self@,
                        networks.deep_view()[p],
                    ).contains(a)),
            decreases networks.len() - i,
        {
            let group = self.accounts_of(networks[i].as_str());
            let ghost before = accounts.deep_view();
            accounts.push(group);
            proof {
                assert(accounts.deep_view() =~= before.push(group.deep_view()));
            }
            i = i + 1;
        }
        let l = Listing { networks, accounts };
        proof {
            let nets = l.networks.deep_view();
            assert forall|n: Seq<char>| #[trigger]
                nets.contains(n) <==> listed(self@, n) != Set::<Seq<char>>::empty() by {
                if nets.contains(n) {
                    let j = choose|j: int| 0 <= j < dv.len() && (#[trigger] dv[j]).0 == n && is_account_name(dv[j].1);
                    assert(dv.contains(dv[j]));
                    assert(dv[j] == (n, dv[j].1));
                    assert(listed(self@, n).contains(dv[j].1));
                }
                if listed(self@, n) != Set::<Seq<char>>::empty() {
                    if !(exists|a: Seq<char>| listed(self@, n).contains(a)) {
                        assert(listed(self@, n) =~= Set::<Seq<char>>::empty());
                    }
                    let a = listed(self@, n).choose();
                    assert(listed(self@, n).contains(a));
                    assert(dv.contains((n, a)));
                    let j = choose|j: int| 0 <= j < dv.len() && dv[j] == (n, a);
                    assert((dv[j]).0 == n && is_account_name(dv[j].1));
                }
            }
        }
        l
    }

    /// The accounts shown under the network directory `network`, in order.
    fn accounts_of(&self, network: &str) -> (g: Vec<String>)
        ensures
            strictly_sorted(g.deep_view()),
            forall|a: Seq<char>| #[trigger]
                g.deep_view().contains(a) <==> listed(self@, network@).contains(a),
    {
        let ghost dv = self.files.deep_view();
        let mut g: Vec<String> = Vec::new();
        let mut k: usize = 0;
        while k < self.files.len()
            invariant
                k <= self.files.len(),
                dv == self.files.deep_view(),
                strictly_sorted(g.deep_view()),
                forall|a: Seq<char>| #[trigger]
                    g.deep_view().contains(a) <==> (dv.take(k as int).contains((network@, a))
                        && is_account_name(a)),
            decreases self.files.len() - k,
        {
            let (n, f) = &self.files[k];
            if same_text(n.as_str(), network) && is_listed_name(f.as_str()) {
                insert_sorted(&mut g, f.as_str());
            }
            proof {
                broadcast use vstd::seq_lib::lemma_seq_contains_after_push;

                assert(dv.take(k + 1) =~= dv.take(k as int).push(dv[k as int]));
            }
            k = k + 1;
        }
        proof {
            assert(dv.take(k as int) =~= dv);
        }
        g
    }
}

/// Once marked, an account is listed under its network. Once unmarked, it is
/// listed no more, and a marker that was there is kept under its hidden name.
pub proof fn law_mark_unmark_list(r: Set<Entry>, n: NetworkName, a: Seq<char>)
    requires
        is_account_name(a),
    ensures
        listed(marked(r, n, a), network_str(n)).contains(a),
        !listed(unmarked(r, n, a), network_str(n)).contains(a),
        r.contains((network_str(n), a)) ==> unmarked(r, n, a).contains(
            (network_str(n), hidden_name(a)),
        ),
        unmarked(marked(r, n, a), n, a).contains((network_str(n), hidden_name(a))),
        !listed(unmarked(marked(r, n, a), n, a), network_str(n)).contains(a),
{
    assert(hidden_name(a) != a) by {
        if hidden_name(a) == a {
            assert(a[0] == hidden_name(a)[0]);
        }
    }
}

/// A listing taken after marking an account shows it in the group of its
/// network; one taken after unmarking it shows it in no group of that network.
pub proof fn law_listing_after_mark_and_unmark(
    r: Set<Entry>,
    n: NetworkName,
    a: Seq<char>,
    after_mark: &Listing,
    after_unmark: &Listing,
)
    requires
        is_account_name(a),
        lists(after_mark, marked(r, n, a)),
        lists(after_unmark, unmarked(r, n, a)),
    ensures
        exists|i: int|
            0 <= i < after_mark.networks.len() && after_mark.networks.deep_view()[i]
                == network_str(n) && (#[trigger] after_mark.accounts.deep_view()[i]).contains(a),
        forall|i: int|
            0 <= i < after_unmark.networks.len() && after_unmark.networks.deep_view()[i]
                == network_str(n) ==> !(#[trigger] after_unmark.accounts.deep_view()[i]).contains(a),
{
    law_mark_unmark_list(r, n, a);
    let nets = after_mark.networks.deep_view();
    assert(listed(marked(r, n, a), network_str(n)) != Set::<Seq<char>>::empty()) by {
        assert(listed(marked(r, n, a), network_str(n)).contains(a));
    }
    assert(nets.contains(network_str(n)));
    let i = choose|i: int| 0 <= i < nets.len() && nets[i] == network_str(n);
    assert(after_mark.accounts.deep_view()[i].contains(a));
}

/// Marking an account twice leaves the registry as marking it once: one
/// marker file.
pub proof fn law_mark_idempotent(r: Set<Entry>, n: NetworkName, a: Seq<char>)
    ensures
        marked(marked(r, n, a), n, a) == marked(r, n, a),
        marked(r, n, a).contains((network_str(n), a)),
{
    assert(marked(marked(r, n, a), n, a) =~= marked(r, n, a));
}

/// Unmarking an account that was never marked changes nothing.
pub proof fn law_unmark_unknown(r: Set<Entry>, n: NetworkName, a: Seq<char>)
    requires
        !r.contains((network_str(n), a)),
    ensures
        unmarked(r, n, a) == r,
{
}

} // verus!
