//! Chain addresses, their text form, and the mapping between native delegated
//! addresses and 20-byte contract addresses.

use vstd::prelude::*;
use crate::error::AgentError;
use fvm_shared::address::Network as ChainNetwork;
use fvm_shared::address::Payload as ChainPayload;

verus! {

/// Number of bytes in a contract address.
pub const EVM_ADDRESS_LEN: usize = 20;

/// Namespace under which contract addresses live as delegated addresses.
pub const EAM_NAMESPACE: u64 = 10;

/// The network a textual address belongs to.
#[derive(Clone, Copy, Debug, PartialEq, Eq, Structural)]
pub enum Network {
    Mainnet,
    Testnet,
}

/// A delegated address: a namespace and a sub-address inside it.
#[derive(Debug, PartialEq, Eq)]
pub struct DelegatedAddress {
    pub namespace: u64,
    pub subaddress: Vec<u8>,
}

/// The data of an address, one variant per address class.
#[derive(Debug, PartialEq, Eq)]
pub enum Payload {
    ID(u64),
    Secp256k1(Vec<u8>),
    Actor(Vec<u8>),
    BLS(Vec<u8>),
    Delegated(DelegatedAddress),
}

/// A native chain address.
#[derive(Debug, PartialEq, Eq)]
pub struct Address {
    pub payload: Payload,
}

/// The mathematical content of an address.
pub enum AddressView {
    ID(u64),
    Secp256k1(Seq<u8>),
    Actor(Seq<u8>),
    BLS(Seq<u8>),
    Delegated { namespace: u64, subaddress: Seq<u8> },
}

impl View for Payload {
    type V = AddressView;

    open spec fn view(&self) -> AddressView {
        match self {
            Payload::ID(id) => AddressView::ID(*id),
            Payload::Secp256k1(h) => AddressView::Secp256k1(h@),
            Payload::Actor(h) => AddressView::Actor(h@),
            Payload::BLS(k) => AddressView::BLS(k@),
            Payload::Delegated(d) => AddressView::Delegated {
                namespace: d.namespace,
                subaddress: d.subaddress@,
            },
        }
    }
}

impl View for Address {
    type V = AddressView;

    open spec fn view(&self) -> AddressView {
        self.payload@
    }
}

impl DeepView for Address {
    type V = AddressView;

    open spec fn deep_view(&self) -> AddressView {
        self@
    }
}

/// A 20-byte contract address.
#[derive(Clone, Copy, Debug, PartialEq, Eq)]
pub struct EvmAddress(pub [u8; 20]);

impl View for EvmAddress {
    type V = Seq<u8>;

    open spec fn view(&self) -> Seq<u8> {
        self.0@
    }
}

impl DeepView for EvmAddress {
    type V = Seq<u8>;

    open spec fn deep_view(&self) -> Seq<u8> {
        self@
    }
}

impl EvmAddress {
    /// Whether two contract addresses are the same.
    pub fn same(&self, other: &EvmAddress) -> (r: bool)
        ensures
            r == (self@ == other@),
    {
        let mut i: usize = 0;
        while i < EVM_ADDRESS_LEN
            invariant
                i <= 20,
                forall|k: int| 0 <= k < i ==> self@[k] == other@[k],
            decreases 20 - i,
        {
            if self.0[i] != other.0[i] {
                return false;
            }
            i += 1;
        }
        assert(self@ =~= other@);
        true
    }
}

/// Byte-wise comparison of two byte strings.
pub fn bytes_equal(a: &Vec<u8>, b: &Vec<u8>) -> (r: bool)
    ensures
        r == (a@ == b@),
{
    if a.len() != b.len() {
        return false;
    }
    let mut i: usize = 0;
    while i < a.len()
        invariant
            a.len() == b.len(),
            i <= a.len(),
            forall|k: int| 0 <= k < i ==> a@[k] == b@[k],
        decreases a.len() - i,
    {
        if a[i] != b[i] {
            return false;
        }
        i += 1;
    }
    assert(a@ =~= b@);
    true
}

/// A fresh copy of a byte string.
pub fn copy_bytes(a: &Vec<u8>) -> (r: Vec<u8>)
    ensures
        r@ == a@,
{
    let mut out: Vec<u8> = Vec::new();
    let mut i: usize = 0;
    while i < a.len()
        invariant
            i <= a.len(),
            out@ == a@.subrange(0, i as int),
        decreases a.len() - i,
    {
        out.push(a[i]);
        assert(out@ =~= a@.subrange(0, i + 1));
        i += 1;
    }
    assert(a@.subrange(0, a.len() as int) =~= a@);
    out
}

impl Clone for DelegatedAddress {
    fn clone(&self) -> (r: Self)
        ensures
            r.namespace == self.namespace,
            r.subaddress@ == self.subaddress@,
    {
        DelegatedAddress { namespace: self.namespace, subaddress: copy_bytes(&self.subaddress) }
    }
}

impl DelegatedAddress {
    pub fn new(namespace: u64, subaddress: Vec<u8>) -> (r: Self)
        ensures
            r.namespace == namespace,
            r.subaddress == subaddress,
    {
        DelegatedAddress { namespace, subaddress }
    }

    pub fn namespace(&self) -> (r: u64)
        ensures
            r == self.namespace,
    {
        self.namespace
    }

    pub fn subaddress(&self) -> (r: &Vec<u8>)
        ensures
            r == &self.subaddress,
    {
        &self.subaddress
    }
}

impl Clone for Payload {
    fn clone(&self) -> (r: Self)
        ensures
            r@ == self@,
    {
        match self {
            Payload::ID(id) => Payload::ID(*id),
            Payload::Secp256k1(h) => Payload::Secp256k1(copy_bytes(h)),
            Payload::Actor(h) => Payload::Actor(copy_bytes(h)),
            Payload::BLS(k) => Payload::BLS(copy_bytes(k)),
            Payload::Delegated(d) => Payload::Delegated(d.clone()),
        }
    }
}

impl Clone for Address {
    fn clone(&self) -> (r: Self)
        ensures
            r@ == self@,
    {
        Address { payload: self.payload.clone() }
    }
}

impl Address {
    /// An address of the ID class.
    pub fn new_id(id: u64) -> (r: Self)
        ensures
            r@ == AddressView::ID(id),
    {
        Address { payload: Payload::ID(id) }
    }

    /// A delegated address with the given namespace and sub-address.
    pub fn new_delegated(namespace: u64, subaddress: Vec<u8>) -> (r: Self)
        ensures
            r@ == (AddressView::Delegated { namespace, subaddress: subaddress@ }),
    {
        Address { payload: Payload::Delegated(DelegatedAddress { namespace, subaddress }) }
    }

    /// The class-specific data of the address.
    pub fn payload(&self) -> (r: &Payload)
        ensures
            r == &self.payload,
    {
        &self.payload
    }

    /// Whether two addresses are the same address.
    pub fn same(&self, other: &Address) -> (r: bool)
        ensures
            r == (self@ == other@),
    {
        match (&self.payload, &other.payload) {
            (Payload::ID(a), Payload::ID(b)) => *a == *b,
            (Payload::Secp256k1(a), Payload::Secp256k1(b)) => bytes_equal(a, b),
            (Payload::Actor(a), Payload::Actor(b)) => bytes_equal(a, b),
            (Payload::BLS(a), Payload::BLS(b)) => bytes_equal(a, b),
            (Payload::Delegated(a), Payload::Delegated(b)) => {
                a.namespace == b.namespace && bytes_equal(&a.subaddress, &b.subaddress)
            },
            _ => false,
        }
    }
}

/// Whether `addr` occurs in `list`.
pub fn contains_address(list: &Vec<Address>, addr: &Address) -> (r: bool)
    ensures
        r == list.deep_view().contains(addr@),
{
    let mut i: usize = 0;
    while i < list.len()
        invariant
            i <= list.len(),
            forall|k: int| 0 <= k < i ==> list.deep_view()[k] != addr@,
        decreases list.len() - i,
    {
        if list[i].same(addr) {
            assert(list.deep_view()[i as int] == addr@);
            return true;
        }
        i += 1;
    }
    false
}

/// A copy of a list of addresses.
pub fn copy_addresses(list: &Vec<Address>) -> (r: Vec<Address>)
    ensures
        r.deep_view() == list.deep_view(),
{
    let mut out: Vec<Address> = Vec::new();
    let mut i: usize = 0;
    while i < list.len()
        invariant
            i <= list.len(),
            out.len() == i,
            forall|k: int| 0 <= k < i ==> out.deep_view()[k] == list.deep_view()[k],
        decreases list.len() - i,
    {
        out.push(list[i].clone());
        i += 1;
    }
    assert(out.deep_view() =~= list.deep_view());
    out
}

/// The contract address a delegated sub-address stands for: its first 20
/// bytes.  Defined when the sub-address has at least that many.
pub open spec fn evm_bytes_of(a: AddressView) -> Option<Seq<u8>> {
    match a {
        AddressView::Delegated { namespace, subaddress } => if subaddress.len() >= 20 {
            Some(subaddress.subrange(0, 20))
        } else {
            None
        },
        _ => None,
    }
}

/// Converts an address payload to a contract address.  Only delegated
/// addresses with a sub-address of at least 20 bytes convert; every other
/// payload is an `AddressConversion` failure.
pub fn payload_to_evm_address(payload: &Payload) -> (r: Result<EvmAddress, AgentError>)
    ensures
        match evm_bytes_of(payload@) {
            Some(bytes) => r matches Ok(e) && e@ == bytes,
            None => r == Err::<EvmAddress, AgentError>(AgentError::AddressConversion),
        },
{
    match payload {
        Payload::Delegated(delegated) => {
            let slice = delegated.subaddress();
            if slice.len() < EVM_ADDRESS_LEN {
                return Err(AgentError::AddressConversion);
            }
            let mut out: [u8; 20] = [0u8; 20];
            let mut i: usize = 0;
            while i < EVM_ADDRESS_LEN
                invariant
                    i <= 20,
                    slice@.len() >= 20,
                    forall|k: int| 0 <= k < i ==> out@[k] == slice@[k],
                decreases 20 - i,
            {
                out[i] = slice[i];
                i += 1;
            }
            assert(out@ =~= slice@.subrange(0, 20));
            Ok(EvmAddress(out))
        },
        _ => Err(AgentError::AddressConversion),
    }
}

/// The native address of a contract address: the delegated address in the
/// contract namespace whose sub-address is the 20 bytes.
pub fn ethers_address_to_fil_address(addr: &EvmAddress) -> (r: Address)
    ensures
        r@ == (AddressView::Delegated { namespace: EAM_NAMESPACE, subaddress: addr@ }),
        evm_bytes_of(r@) == Some(addr@),
{
    let mut sub: Vec<u8> = Vec::new();
    let mut i: usize = 0;
    while i < EVM_ADDRESS_LEN
        invariant
            i <= 20,
            sub@ == addr@.subrange(0, i as int),
        decreases 20 - i,
    {
        sub.push(addr.0[i]);
        assert(sub@ =~= addr@.subrange(0, i + 1));
        i += 1;
    }
    assert(addr@.subrange(0, 20) =~= addr@);
    Address::new_delegated(EAM_NAMESPACE, sub)
}

/// The address that a text denotes on a network, as the address codec of
/// the chain library decodes it; `None` for a text it rejects.
pub uninterp spec fn decoded_address(testnet: bool, text: Seq<char>) -> Option<AddressView>;

/// Calls `fvm_shared::address::Network::parse_address` and copies the
/// decoded payload out, field by field.  The contract only names the outcome:
/// it is the decoding of `text` on the chosen network, and it is absent
/// exactly when the codec reports an error.
#[verifier::external_body]
fn decode_address(testnet: bool, text: &str) -> (r: Option<Address>)
    ensures
        r matches Some(a) ==> decoded_address(testnet, text@) == Some(a@),
        r is None ==> decoded_address(testnet, text@) is None,
{
    let network = if testnet { ChainNetwork::Testnet } else { ChainNetwork::Mainnet };
    let payload = match network.parse_address(text).ok()?.into_payload() {
        ChainPayload::ID(id) => Payload::ID(id),
        ChainPayload::Secp256k1(h) => Payload::Secp256k1(h.to_vec()),
        ChainPayload::Actor(h) => Payload::Actor(h.to_vec()),
        ChainPayload::BLS(k) => Payload::BLS(k.to_vec()),
        ChainPayload::Delegated(d) => Payload::Delegated(
            DelegatedAddress { namespace: d.namespace(), subaddress: d.subaddress().to_vec() },
        ),
    };
    Some(Address { payload })
}

impl Network {
    pub open spec fn is_testnet(self) -> bool {
        self is Testnet
    }
}

impl Address {
    /// Parses the text form of an address of the given network.  A text the
    /// address codec rejects is an `AddressConversion` failure.
    pub fn from_text(network: Network, text: &str) -> (r: Result<Address, AgentError>)
        ensures
            match decoded_address(network.is_testnet(), text@) {
                Some(a) => r matches Ok(addr) && addr@ == a,
                None => r == Err::<Address, AgentError>(AgentError::AddressConversion),
            },
    {
        let testnet = match network {
            Network::Mainnet => false,
            Network::Testnet => true,
        };
        match decode_address(testnet, text) {
            Some(a) => Ok(a),
            None => Err(AgentError::AddressConversion),
        }
    }
}

} // verus!
