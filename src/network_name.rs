use vstd::prelude::*;

use crate::text::same_text;

verus! {

/// The two networks an account can live on.
#[derive(Debug, Clone, Copy, PartialEq, Eq, Structural)]
pub enum NetworkName {
    Testnet,
    Mainnet,
}

/// Why no network could be told from an account identifier.
#[derive(Debug, Clone, Copy, PartialEq, Eq, Structural)]
pub enum NetworkNameError {
    UnknownNetwork,
}

/// The name of a network, as it appears in the registry's layout.
pub open spec fn network_str(n: NetworkName) -> Seq<char> {
    match n {
        NetworkName::Testnet => "testnet"@,
        NetworkName::Mainnet => "mainnet"@,
    }
}

/// Where the last dot-separated label of `s` begins.
pub open spec fn label_start(s: Seq<char>) -> int
    decreases s.len(),
{
    if s.len() == 0 {
        0
    } else if s.last() == '.' {
        s.len() as int
    } else {
        label_start(s.drop_last())
    }
}

/// What follows the last `.` of `s`, or all of `s` when it holds no dot.
pub open spec fn last_label(s: Seq<char>) -> Seq<char> {
    s.subrange(label_start(s), s.len() as int)
}

/// The network that the suffix of an account identifier selects: `near` for
/// mainnet and `testnet` for testnet.
pub open spec fn network_of(s: Seq<char>) -> Option<NetworkName> {
    if last_label(s) == "near"@ {
        Some(NetworkName::Mainnet)
    } else if last_label(s) == "testnet"@ {
        Some(NetworkName::Testnet)
    } else {
        None
    }
}

proof fn lemma_label_start_bounds(s: Seq<char>)
    ensures
        0 <= label_start(s) <= s.len(),
    decreases s.len(),
{
    if s.len() > 0 && s.last() != '.' {
        lemma_label_start_bounds(s.drop_last());
    }
}

/// Cutting off a tail that holds no dot leaves the start of the last label
/// where it was, unless that start lies in the tail.
proof fn lemma_label_start_prefix(s: Seq<char>, j: int)
    requires
        0 <= j <= s.len(),
        forall|k: int| j <= k < s.len() ==> s[k] != '.',
    ensures
        label_start(s) == label_start(s.subrange(0, j)),
    decreases s.len() - j,
{
    if j < s.len() {
        assert(s.drop_last() =~= s.subrange(0, s.len() - 1));
        assert(s.subrange(0, s.len() - 1).subrange(0, j) =~= s.subrange(0, j));
        lemma_label_start_prefix(s.drop_last(), j);
    } else {
        assert(s.subrange(0, j) =~= s);
    }
}

impl NetworkName {
    pub fn as_str(&self) -> (r: &'static str)
        ensures
            r@ == network_str(*self),
    {
        match self {
            NetworkName::Testnet => "testnet",
            NetworkName::Mainnet => "mainnet",
        }
    }

    /// Tells the network from the last label of an account identifier.
    pub fn from_account_id(account_id: &str) -> (r: Result<NetworkName, NetworkNameError>)
        ensures
            r matches Ok(n) ==> network_of(account_id@) == Some(n),
            r is Err <==> network_of(account_id@) is None,
    {
        let start = last_label_start(account_id);
        proof {
            lemma_label_start_bounds(account_id@);
        }
        let len = account_id.unicode_len();
        let label = account_id.substring_char(start, len);
        if same_text(label, "near") {
            Ok(NetworkName::Mainnet)
        } else if same_text(label, "testnet") {
            Ok(NetworkName::Testnet)
        } else {
            Err(NetworkNameError::UnknownNetwork)
        }
    }
}

/// The index at which the last label of `s` begins.
fn last_label_start(s: &str) -> (r: usize)
    ensures
        r == label_start(s@),
{
    let len = s.unicode_len();
    let mut j: usize = len;
    while j > 0 && s.get_char(j - 1) != '.'
        invariant
            j <= len == s@.len(),
            forall|k: int| j <= k < s@.len() ==> s@[k] != '.',
        decreases j,
    {
        j = j - 1;
    }
    proof {
        lemma_label_start_prefix(s@, j as int);
        let t = s@.subrange(0, j as int);
        if j > 0 {
            assert(t.last() == '.');
        }
    }
    j
}

/// An identifier that ends in `.near` resolves to mainnet, one that ends in
/// `.testnet` resolves to testnet, and one whose last label is neither fails.
pub proof fn law_network_resolution(prefix: Seq<char>, other: Seq<char>)
    ensures
        network_of(prefix + ".near"@) == Some(NetworkName::Mainnet),
        network_of(prefix + ".testnet"@) == Some(NetworkName::Testnet),
        last_label(other) != "near"@ && last_label(other) != "testnet"@ ==> network_of(other) is None,
{
    reveal_strlit("near");
    reveal_strlit(".near");
    reveal_strlit("testnet");
    reveal_strlit(".testnet");
    assert("near"@.len() != "testnet"@.len());
    lemma_label_after_dot(prefix, "near"@);
    lemma_label_after_dot(prefix, "testnet"@);
    assert(prefix + ".near"@ =~= prefix + seq!['.'] + "near"@);
    assert(prefix + ".testnet"@ =~= prefix + seq!['.'] + "testnet"@);
}

/// The last label of `p.t` is `t`, when `t` holds no dot.
proof fn lemma_label_after_dot(p: Seq<char>, t: Seq<char>)
    requires
        forall|k: int| 0 <= k < t.len() ==> t[k] != '.',
    ensures
        last_label(p + seq!['.'] + t) == t,
{
    let s = p + seq!['.'] + t;
    let j = p.len() as int + 1;
    assert forall|k: int| j <= k < s.len() implies s[k] != '.' by {
        assert(s[k] == t[k - j]);
    }
    lemma_label_start_prefix(s, j);
    assert(s.subrange(0, j).drop_last() =~= p);
    assert(s.subrange(0, j).last() == '.');
    assert(s.subrange(j, s.len() as int) =~= t);
}

} // verus!
