//! Configuration snapshots: the subnets the agent knows, each with the
//! accounts it controls there, and the set of subnets it manages.

use vstd::prelude::*;
use crate::address::{Address, AddressView, copy_addresses};
use crate::search::{first_where, lemma_first_where, lemma_first_where_stays};
use crate::subnet_id::{SubnetID, SubnetIdView};

verus! {

/// Construction state of the contract-chain backend.
#[derive(Debug, PartialEq, Eq)]
pub struct EvmSubnet {
    pub private_key: String,
    pub gateway_addr: Address,
    pub registry_addr: Address,
}

/// Which kind of chain a subnet runs on.
#[derive(Debug, PartialEq, Eq)]
pub enum Backend {
    Native,
    Evm(EvmSubnet),
}

/// One entry of the configuration.
#[derive(Debug, PartialEq, Eq)]
pub struct Subnet {
    pub id: SubnetID,
    pub accounts: Vec<Address>,
    pub rpc_endpoint: String,
    pub auth_token: Option<String>,
    pub backend: Backend,
}

pub enum BackendView {
    Native,
    Evm { private_key: Seq<char>, gateway_addr: AddressView, registry_addr: AddressView },
}

pub struct SubnetView {
    pub id: SubnetIdView,
    pub accounts: Seq<AddressView>,
    pub rpc_endpoint: Seq<char>,
    pub auth_token: Option<Seq<char>>,
    pub backend: BackendView,
}

impl View for Backend {
    type V = BackendView;

    open spec fn view(&self) -> BackendView {
        match self {
            Backend::Native => BackendView::Native,
            Backend::Evm(e) => BackendView::Evm {
                private_key: e.private_key@,
                gateway_addr: e.gateway_addr@,
                registry_addr: e.registry_addr@,
            },
        }
    }
}

impl View for Subnet {
    type V = SubnetView;

    open spec fn view(&self) -> SubnetView {
        SubnetView {
            id: self.id@,
            accounts: self.accounts.deep_view(),
            rpc_endpoint: self.rpc_endpoint@,
            auth_token: match self.auth_token {
                Some(t) => Some(t@),
                None => None,
            },
            backend: self.backend@,
        }
    }
}

impl DeepView for Subnet {
    type V = SubnetView;

    open spec fn deep_view(&self) -> SubnetView {
        self@
    }
}

impl Clone for Backend {
    fn clone(&self) -> (r: Self)
        ensures
            r@ == self@,
    {
        match self {
            Backend::Native => Backend::Native,
            Backend::Evm(e) => Backend::Evm(
                EvmSubnet {
                    private_key: e.private_key.clone(),
                    gateway_addr: e.gateway_addr.clone(),
                    registry_addr: e.registry_addr.clone(),
                },
            ),
        }
    }
}

impl Clone for Subnet {
    fn clone(&self) -> (r: Self)
        ensures
            r@ == self@,
    {
        let auth_token = match &self.auth_token {
            Some(t) => Some(t.clone()),
            None => None,
        };
        Subnet {
            id: self.id.clone(),
            accounts: copy_addresses(&self.accounts),
            rpc_endpoint: self.rpc_endpoint.clone(),
            auth_token,
            backend: self.backend.clone(),
        }
    }
}

/// Whether some entry of `s` has the identifier `id`.
pub open spec fn has_id(s: Seq<SubnetView>, id: SubnetIdView) -> bool {
    exists|i: int| 0 <= i < s.len() && (#[trigger] s[i]).id == id
}

/// The position of the first entry of `s` with identifier `id`, counted
/// within the first `n` entries; `n` if there is none.
pub open spec fn position_of(s: Seq<SubnetView>, id: SubnetIdView, n: int) -> int {
    first_where(s, |x: SubnetView| x.id == id, n)
}

/// The entry registered under `id`.
pub open spec fn entry_of(s: Seq<SubnetView>, id: SubnetIdView) -> Option<SubnetView> {
    let p = position_of(s, id, s.len() as int);
    if 0 <= p < s.len() {
        Some(s[p])
    } else {
        None
    }
}

/// No two entries share an identifier.
pub open spec fn distinct_ids(s: Seq<SubnetView>) -> bool {
    forall|i: int, j: int| 0 <= i < j < s.len() ==> (#[trigger] s[i]).id != (#[trigger] s[j]).id
}

/// A subnet is manageable in a snapshot when the agent controls an account
/// on it and its parent is configured too.
pub open spec fn manageable(s: Seq<SubnetView>, x: SubnetView) -> bool {
    &&& x.accounts.len() > 0
    &&& x.id.parent() matches Some(p)
    &&& has_id(s, p)
}

/// The pair a manageable subnet forms with its configured parent.
pub open spec fn pair_of(s: Seq<SubnetView>, x: SubnetView) -> Option<(SubnetView, SubnetView)> {
    if manageable(s, x) {
        Some((x, entry_of(s, x.id.parent().unwrap()).unwrap()))
    } else {
        None
    }
}

/// The (child, parent) pairs under management, in snapshot order.
pub open spec fn managed_pairs(s: Seq<SubnetView>) -> Seq<(SubnetView, SubnetView)> {
    s.filter_map(|x: SubnetView| pair_of(s, x))
}

pub proof fn lemma_position_of(s: Seq<SubnetView>, id: SubnetIdView, n: int)
    requires
        0 <= n <= s.len(),
    ensures
        0 <= position_of(s, id, n) <= n,
        position_of(s, id, n) < n ==> s[position_of(s, id, n)].id == id,
        forall|k: int| 0 <= k < position_of(s, id, n) ==> (#[trigger] s[k]).id != id,
{
    lemma_first_where(s, |x: SubnetView| x.id == id, n);
}

/// An identifier is registered exactly when it has an entry, and that entry
/// carries the identifier.
pub proof fn lemma_entry_of(s: Seq<SubnetView>, id: SubnetIdView)
    ensures
        has_id(s, id) <==> entry_of(s, id) is Some,
        entry_of(s, id) matches Some(e) ==> e.id == id && s.contains(e),
{
    lemma_position_of(s, id, s.len() as int);
    let p = position_of(s, id, s.len() as int);
    if has_id(s, id) {
        let i = choose|i: int| 0 <= i < s.len() && (#[trigger] s[i]).id == id;
        assert(p <= i);
    }
    if p < s.len() {
        assert(s[p].id == id);
    }
}

/// An immutable mapping from subnet identifier to configuration entry: a
/// list of entries in which no identifier occurs twice.
#[derive(Debug, PartialEq, Eq)]
pub struct ConfigSnapshot {
    subnets: Vec<Subnet>,
}

impl View for ConfigSnapshot {
    type V = Seq<SubnetView>;

    closed spec fn view(&self) -> Seq<SubnetView> {
        self.subnets.deep_view()
    }
}

impl Clone for ConfigSnapshot {
    fn clone(&self) -> (r: Self)
        ensures
            r@ == self@,
    {
        proof {
            use_type_invariant(self);
        }
        let mut out: Vec<Subnet> = Vec::new();
        let mut i: usize = 0;
        while i < self.subnets.len()
            invariant
                i <= self.subnets.len(),
                out.deep_view() == self.subnets.deep_view().take(i as int),
            decreases self.subnets.len() - i,
        {
            let ghost before = out.deep_view();
            out.push(self.subnets[i].clone());
            assert(out.deep_view() =~= before.push(self.subnets.deep_view()[i as int]));
            assert(out.deep_view() =~= self.subnets.deep_view().take(i + 1));
            i += 1;
        }
        assert(self.subnets.deep_view().take(self.subnets.len() as int) =~= self.subnets.deep_view());
        ConfigSnapshot { subnets: out }
    }
}

impl ConfigSnapshot {
    #[verifier::type_invariant]
    spec fn inv(self) -> bool {
        distinct_ids(self.subnets.deep_view())
    }

    /// A snapshot without entries.
    pub fn new() -> (r: Self)
        ensures
            r@ == Seq::<SubnetView>::empty(),
    {
        let r = ConfigSnapshot { subnets: Vec::new() };
        assert(r@ =~= Seq::<SubnetView>::empty());
        r
    }

    /// Where the entry for `id` sits, if there is one.
    pub fn find(&self, id: &SubnetID) -> (r: Option<usize>)
        ensures
            match r {
                Some(i) => i < self@.len() && i == position_of(self@, id@, self@.len() as int),
                None => position_of(self@, id@, self@.len() as int) == self@.len(),
            },
            r is Some <==> has_id(self@, id@),
    {
        let mut i: usize = 0;
        while i < self.subnets.len()
            invariant
                i <= self.subnets.len(),
                position_of(self@, id@, i as int) == i,
            decreases self.subnets.len() - i,
        {
            if self.subnets[i].id.same(id) {
                proof {
                    lemma_position_stays(self@, id@, i as int, self@.len() as int);
                    lemma_entry_of(self@, id@);
                }
                return Some(i);
            }
            i += 1;
        }
        proof {
            lemma_entry_of(self@, id@);
        }
        None
    }

    /// Whether `id` is configured.
    pub fn contains(&self, id: &SubnetID) -> (r: bool)
        ensures
            r == has_id(self@, id@),
    {
        self.find(id).is_some()
    }

    /// The entry configured for `id`.
    pub fn get(&self, id: &SubnetID) -> (r: Option<&Subnet>)
        ensures
            r.deep_view() == entry_of(self@, id@),
    {
        match self.find(id) {
            Some(i) => Some(&self.subnets[i]),
            None => None,
        }
    }

    /// The snapshot with `subnet` registered under its identifier, replacing
    /// an earlier entry for the same identifier.
    pub fn insert(self, subnet: Subnet) -> (r: Self)
        ensures
            entry_of(r@, subnet@.id) == Some(subnet@),
            match position_of(self@, subnet@.id, self@.len() as int) {
                p => if p < self@.len() {
                    r@ == self@.update(p, subnet@)
                } else {
                    r@ == self@.push(subnet@)
                },
            },
            distinct_ids(self@),
            distinct_ids(r@),
    {
        proof {
            use_type_invariant(&self);
        }
        let found = self.find(&subnet.id);
        let ghost old_view = self@;
        let ghost new_view = subnet@;
        let mut subnets = self.subnets;
        match found {
            Some(i) => {
                subnets[i] = subnet;
                assert(subnets.deep_view() =~= old_view.update(i as int, new_view));
            },
            None => {
                subnets.push(subnet);
                assert(subnets.deep_view() =~= old_view.push(new_view));
            },
        }
        proof {
            let t = subnets.deep_view();
            lemma_position_of(old_view, new_view.id, old_view.len() as int);
            lemma_position_of(t, new_view.id, t.len() as int);
            lemma_entry_of(t, new_view.id);
            let p = position_of(old_view, new_view.id, old_view.len() as int);
            let q = position_of(t, new_view.id, t.len() as int);
            assert(t[p].id == new_view.id);
            assert(q <= p);
            if q < p {
                assert(old_view[q].id == t[q].id);
            }
            assert forall|a: int, b: int| 0 <= a < b < t.len() implies (#[trigger] t[a]).id != (
            #[trigger] t[b]).id by {
                if b < old_view.len() {
                    assert(old_view[a].id != old_view[b].id);
                    if a == p {
                        assert(old_view[p].id == new_view.id);
                    }
                    if b == p {
                        assert(old_view[p].id == new_view.id);
                    }
                } else {
                    assert(old_view[a].id != new_view.id);
                }
            }
        }
        ConfigSnapshot { subnets }
    }

    /// Number of entries.  No two of them share an identifier.
    pub fn len(&self) -> (r: usize)
        ensures
            r == self@.len(),
            distinct_ids(self@),
    {
        proof {
            use_type_invariant(self);
        }
        self.subnets.len()
    }

    /// The entry at position `i`.
    pub fn entry(&self, i: usize) -> (r: &Subnet)
        requires
            i < self@.len(),
        ensures
            r@ == self@[i as int],
    {
        &self.subnets[i]
    }
}

/// Once an identifier is found among the first `n` entries, looking at more
/// entries finds it at the same place.
pub proof fn lemma_position_stays(s: Seq<SubnetView>, id: SubnetIdView, n: int, m: int)
    requires
        0 <= n < m <= s.len(),
        position_of(s, id, n) == n,
        s[n].id == id,
    ensures
        position_of(s, id, m) == n,
{
    lemma_first_where_stays(s, |x: SubnetView| x.id == id, n, m);
}

} // verus!
