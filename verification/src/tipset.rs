//! Content identifiers and chain heads as the native chain reports them.

use vstd::prelude::*;
use crate::address::{bytes_equal, copy_bytes};
use crate::epoch::ChainEpoch;
use crate::error::AgentError;

verus! {

/// A content identifier in binary form.
#[derive(Debug, PartialEq, Eq)]
pub struct Cid {
    pub bytes: Vec<u8>,
}

impl View for Cid {
    type V = Seq<u8>;

    open spec fn view(&self) -> Seq<u8> {
        self.bytes@
    }
}

impl DeepView for Cid {
    type V = Seq<u8>;

    open spec fn deep_view(&self) -> Seq<u8> {
        self@
    }
}

impl Clone for Cid {
    fn clone(&self) -> (r: Self)
        ensures
            r@ == self@,
    {
        Cid { bytes: copy_bytes(&self.bytes) }
    }
}

/// The binary form of the content identifier that a text denotes, as the
/// identifier codec decodes it; `None` for a text it rejects.
pub uninterp spec fn decoded_cid(text: Seq<char>) -> Option<Seq<u8>>;

/// Calls `cid::Cid::try_from` on the text and, where that succeeds,
/// `Cid::to_bytes` on the identifier.  The contract only names the outcome:
/// the bytes are the decoding of `text`, absent exactly when the codec
/// reports an error.
#[verifier::external_body]
fn decode_cid(text: &str) -> (r: Option<Vec<u8>>)
    ensures
        r matches Some(b) ==> decoded_cid(text@) == Some(b@),
        r is None ==> decoded_cid(text@) is None,
{
    match cid::Cid::try_from(text) {
        Ok(c) => Some(c.to_bytes()),
        Err(_) => None,
    }
}

impl Cid {
    /// Parses the text form of a content identifier.  A text the codec
    /// rejects is a `Transient` failure: the endpoint sent something
    /// unusable and may do better next time.
    pub fn from_text(text: &str) -> (r: Result<Cid, AgentError>)
        ensures
            match decoded_cid(text@) {
                Some(b) => r matches Ok(c) && c@ == b,
                None => r == Err::<Cid, AgentError>(AgentError::Transient),
            },
    {
        match decode_cid(text) {
            Some(bytes) => Ok(Cid { bytes }),
            None => Err(AgentError::Transient),
        }
    }

    /// Whether two identifiers are the same.
    pub fn same(&self, other: &Cid) -> (r: bool)
        ensures
            r == (self@ == other@),
    {
        bytes_equal(&self.bytes, &other.bytes)
    }
}

/// The head of a chain: its height and the identifiers of its blocks.
#[derive(Debug, PartialEq, Eq)]
pub struct ChainHead {
    pub height: u64,
    pub cids: Vec<String>,
}

/// What the tipset of a head is, or the failure it stands for: a head that
/// is not a single block breaks an invariant; a single block whose
/// identifier cannot be read is a passing fault.
pub open spec fn tipset_of(cids: Seq<Seq<char>>) -> Result<Seq<u8>, AgentError> {
    if cids.len() != 1 {
        Err(AgentError::Fatal)
    } else {
        match decoded_cid(cids[0]) {
            Some(b) => Ok(b),
            None => Err(AgentError::Transient),
        }
    }
}

impl ChainHead {
    /// The identifier of the head's tipset, which must be a single block.
    pub fn tipset(&self) -> (r: Result<Cid, AgentError>)
        ensures
            match tipset_of(self.cids.deep_view()) {
                Ok(b) => r matches Ok(c) && c@ == b,
                Err(e) => r == Err::<Cid, AgentError>(e),
            },
    {
        if self.cids.len() != 1 {
            assert(self.cids.deep_view().len() == self.cids.len());
            return Err(AgentError::Fatal);
        }
        assert(self.cids.deep_view()[0] == self.cids[0]@);
        Cid::from_text(self.cids[0].as_str())
    }

    /// The height as an epoch.  A height beyond the largest epoch breaks an
    /// invariant.
    pub fn epoch(&self) -> (r: Result<ChainEpoch, AgentError>)
        ensures
            self.height <= i64::MAX ==> r == Ok::<ChainEpoch, AgentError>(self.height as ChainEpoch),
            self.height > i64::MAX ==> r == Err::<ChainEpoch, AgentError>(AgentError::Fatal),
    {
        if self.height <= 0x7fff_ffff_ffff_ffff {
            Ok(self.height as ChainEpoch)
        } else {
            Err(AgentError::Fatal)
        }
    }
}

} // verus!
