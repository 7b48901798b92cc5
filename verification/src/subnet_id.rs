//! Hierarchical subnet identifiers: a root network number followed by the
//! chain of subnet actor addresses leading down from it.

use vstd::prelude::*;
use vstd::string::*;
use crate::address::{Address, AddressView, Network, copy_addresses, decoded_address};
use crate::error::AgentError;

verus! {

/// The identifier of a subnet.
#[derive(Debug, PartialEq, Eq)]
pub struct SubnetID {
    pub root: u64,
    pub children: Vec<Address>,
}

/// The mathematical content of a subnet identifier.
pub struct SubnetIdView {
    pub root: u64,
    pub children: Seq<AddressView>,
}

impl SubnetIdView {
    /// The identifier one level up; the root has none.
    pub open spec fn parent(self) -> Option<SubnetIdView> {
        if self.children.len() == 0 {
            None
        } else {
            Some(SubnetIdView { root: self.root, children: self.children.drop_last() })
        }
    }

    /// The address, on the parent, of the actor that anchors this subnet.
    pub open spec fn subnet_actor(self) -> Option<AddressView> {
        if self.children.len() == 0 {
            None
        } else {
            Some(self.children.last())
        }
    }
}

impl View for SubnetID {
    type V = SubnetIdView;

    open spec fn view(&self) -> SubnetIdView {
        SubnetIdView { root: self.root, children: self.children.deep_view() }
    }
}

impl DeepView for SubnetID {
    type V = SubnetIdView;

    open spec fn deep_view(&self) -> SubnetIdView {
        self@
    }
}

impl Clone for SubnetID {
    fn clone(&self) -> (r: Self)
        ensures
            r@ == self@,
    {
        SubnetID { root: self.root, children: copy_addresses(&self.children) }
    }
}

impl SubnetID {
    /// The subnet reached from network `root_id` through `children`.
    pub fn new(root_id: u64, children: Vec<Address>) -> (r: Self)
        ensures
            r@ == (SubnetIdView { root: root_id, children: children.deep_view() }),
    {
        SubnetID { root: root_id, children }
    }

    /// The number of the root network.
    pub fn root_id(&self) -> (r: u64)
        ensures
            r == self@.root,
    {
        self.root
    }

    /// The subnet actor addresses from the root down to this subnet.
    pub fn children(&self) -> (r: &Vec<Address>)
        ensures
            r.deep_view() == self@.children,
    {
        &self.children
    }

    /// Whether this is a root network.
    pub fn is_root(&self) -> (r: bool)
        ensures
            r == (self@.children.len() == 0),
    {
        self.children.len() == 0
    }

    /// The identifier of the parent subnet, absent for a root network.
    pub fn parent(&self) -> (r: Option<SubnetID>)
        ensures
            r.deep_view() == self@.parent(),
    {
        let n: usize = self.children.len();
        if n == 0 {
            return None;
        }
        let mut out: Vec<Address> = Vec::new();
        let mut i: usize = 0;
        while i < n - 1
            invariant
                n == self.children.len(),
                n > 0,
                i <= n - 1,
                out.len() == i,
                forall|k: int| 0 <= k < i ==> out.deep_view()[k] == self.children.deep_view()[k],
            decreases n - 1 - i,
        {
            let ghost before = out.deep_view();
            out.push(self.children[i].clone());
            assert(out.deep_view() =~= before.push(self.children.deep_view()[i as int]));
            i += 1;
        }
        assert(out.deep_view() =~= self.children.deep_view().drop_last());
        Some(SubnetID { root: self.root, children: out })
    }

    /// The address of the actor anchoring this subnet on its parent, absent
    /// for a root network.
    pub fn subnet_actor(&self) -> (r: Option<Address>)
        ensures
            r.deep_view() == self@.subnet_actor(),
    {
        let n: usize = self.children.len();
        if n == 0 {
            None
        } else {
            Some(self.children[n - 1].clone())
        }
    }

    /// Whether two identifiers name the same subnet.
    pub fn same(&self, other: &SubnetID) -> (r: bool)
        ensures
            r == (self@ == other@),
    {
        if self.root != other.root || self.children.len() != other.children.len() {
            assert(self.children.deep_view().len() == self.children.len());
            assert(other.children.deep_view().len() == other.children.len());
            return false;
        }
        let mut i: usize = 0;
        while i < self.children.len()
            invariant
                self.children.len() == other.children.len(),
                i <= self.children.len(),
                forall|k: int|
                    0 <= k < i ==> self.children.deep_view()[k] == other.children.deep_view()[k],
            decreases self.children.len() - i,
        {
            if !self.children[i].same(&other.children[i]) {
                assert(self.children.deep_view()[i as int] != other.children.deep_view()[i as int]);
                return false;
            }
            i += 1;
        }
        assert(self.children.deep_view() =~= other.children.deep_view());
        true
    }
}

/// The position of the first `/` in `s`, or the length of `s` if it has none.
pub open spec fn first_slash(s: Seq<char>) -> int
    decreases s.len(),
{
    if s.len() == 0 || s[0] == '/' {
        0
    } else {
        1 + first_slash(s.subrange(1, s.len() as int))
    }
}

pub open spec fn is_digit(c: char) -> bool {
    '0' <= c <= '9'
}

/// The number that a string of decimal digits writes, most significant first.
pub open spec fn digits_value(s: Seq<char>) -> nat
    decreases s.len(),
{
    if s.len() == 0 {
        0
    } else {
        digits_value(s.drop_last()) * 10 + (s.last() as nat - '0' as nat) as nat
    }
}

/// The root number a segment writes: one or more decimal digits whose value
/// fits in 64 bits.
pub open spec fn root_of_text(s: Seq<char>) -> Option<u64> {
    if s.len() > 0 && (forall|i: int| 0 <= i < s.len() ==> is_digit(#[trigger] s[i]))
        && digits_value(s) <= u64::MAX {
        Some(digits_value(s) as u64)
    } else {
        None
    }
}

/// The addresses written by `s`, which is either empty or a `/`, a segment
/// and more of the same.  Absent if any segment is not an address.
pub open spec fn children_of_text(testnet: bool, s: Seq<char>) -> Option<Seq<AddressView>>
    decreases s.len(),
{
    if s.len() == 0 {
        Some(Seq::empty())
    } else {
        let rest = s.subrange(1, s.len() as int);
        let n = first_slash(rest);
        if 0 <= n <= rest.len() {
            match (
                decoded_address(testnet, rest.subrange(0, n)),
                children_of_text(testnet, rest.subrange(n, rest.len() as int)),
            ) {
                (Some(a), Some(t)) => Some(seq![a] + t),
                _ => None,
            }
        } else {
            None
        }
    }
}

/// The identifier that the path `/root/segment/...` writes.
pub open spec fn subnet_id_of_text(testnet: bool, text: Seq<char>) -> Option<SubnetIdView> {
    if text.len() == 0 || text[0] != '/' {
        None
    } else {
        let rest = text.subrange(1, text.len() as int);
        let n = first_slash(rest);
        match (
            root_of_text(rest.subrange(0, n)),
            children_of_text(testnet, rest.subrange(n, rest.len() as int)),
        ) {
            (Some(root), Some(children)) => Some(SubnetIdView { root, children }),
            _ => None,
        }
    }
}

pub proof fn lemma_first_slash_bounds(s: Seq<char>)
    ensures
        0 <= first_slash(s) <= s.len(),
        first_slash(s) < s.len() ==> s[first_slash(s)] == '/',
        forall|k: int| 0 <= k < first_slash(s) ==> s[k] != '/',
    decreases s.len(),
{
    if s.len() == 0 || s[0] == '/' {
    } else {
        let t = s.subrange(1, s.len() as int);
        lemma_first_slash_bounds(t);
        assert forall|k: int| 0 <= k < first_slash(s) implies s[k] != '/' by {
            if k > 0 {
                assert(s[k] == t[k - 1]);
            }
        }
    }
}

/// The first slash is where a scan that stops at the first `/` stops.
pub proof fn lemma_first_slash_is(s: Seq<char>, n: int)
    requires
        0 <= n <= s.len(),
        forall|k: int| 0 <= k < n ==> s[k] != '/',
        n < s.len() ==> s[n] == '/',
    ensures
        first_slash(s) == n,
    decreases s.len(),
{
    if s.len() == 0 || s[0] == '/' {
    } else {
        let t = s.subrange(1, s.len() as int);
        assert forall|k: int| 0 <= k < n - 1 implies t[k] != '/' by {
            assert(t[k] == s[k + 1]);
        }
        lemma_first_slash_is(t, n - 1);
    }
}

/// Reading more digits never makes the number smaller.
pub proof fn lemma_digits_value_prefix(s: Seq<char>, k: int)
    requires
        0 <= k <= s.len(),
        forall|i: int| 0 <= i < s.len() ==> is_digit(#[trigger] s[i]),
    ensures
        digits_value(s.subrange(0, k)) <= digits_value(s),
    decreases s.len() - k,
{
    if k == s.len() {
        assert(s.subrange(0, k) =~= s);
    } else {
        let p = s.subrange(0, k + 1);
        assert(p.drop_last() =~= s.subrange(0, k));
        assert(is_digit(s[k]));
        assert(p.last() == s[k]);
        lemma_digits_value_prefix(s, k + 1);
    }
}

/// The end of the segment that starts at `start`: the position of the next
/// `/`, or the end of the text.
fn scan_segment(text: &str, len: usize, start: usize) -> (end: usize)
    requires
        len == text@.len(),
        start <= len,
    ensures
        start <= end <= len,
        first_slash(text@.subrange(start as int, len as int)) == end - start,
        end < len ==> text@[end as int] == '/',
{
    let mut end: usize = start;
    while end < len && text.get_char(end) != '/'
        invariant
            len == text@.len(),
            start <= end <= len,
            forall|k: int| start <= k < end ==> text@[k] != '/',
        decreases len - end,
    {
        end += 1;
    }
    proof {
        lemma_first_slash_is(text@.subrange(start as int, len as int), end - start);
    }
    end
}

/// Reads the root number written in `text` between `start` and `end`.
fn parse_root(text: &str, start: usize, end: usize) -> (r: Option<u64>)
    requires
        start <= end <= text@.len(),
    ensures
        r == root_of_text(text@.subrange(start as int, end as int)),
{
    let ghost s = text@.subrange(start as int, end as int);
    if start == end {
        return None;
    }
    let mut acc: u64 = 0;
    let mut i: usize = start;
    while i < end
        invariant
            start <= i <= end <= text@.len(),
            s == text@.subrange(start as int, end as int),
            forall|k: int| 0 <= k < i - start ==> is_digit(#[trigger] s[k]),
            acc == digits_value(s.subrange(0, i - start)),
        decreases end - i,
    {
        let c = text.get_char(i);
        assert(c == s[i - start]);
        if !(c >= '0' && c <= '9') {
            return None;
        }
        let d: u64 = (c as u32 - '0' as u32) as u64;
        let ghost p = s.subrange(0, i - start + 1);
        proof {
            assert(p.drop_last() =~= s.subrange(0, i - start));
            assert(p.last() == c);
            assert(digits_value(p) == acc * 10 + d);
        }
        if acc > (u64::MAX - d) / 10 {
            proof {
                if forall|k: int| 0 <= k < s.len() ==> is_digit(#[trigger] s[k]) {
                    lemma_digits_value_prefix(s, i - start + 1);
                }
            }
            return None;
        }
        acc = acc * 10 + d;
        i += 1;
    }
    assert(s.subrange(0, s.len() as int) =~= s);
    Some(acc)
}

impl SubnetID {
    /// Parses the path form `/root/segment/...`, where the root is a decimal
    /// number and every further segment is an address of `network`.  Any
    /// other text is a `Configuration` failure.
    pub fn from_text(network: Network, text: &str) -> (r: Result<SubnetID, AgentError>)
        ensures
            match subnet_id_of_text(network.is_testnet(), text@) {
                Some(v) => r matches Ok(id) && id@ == v,
                None => r == Err::<SubnetID, AgentError>(AgentError::Configuration),
            },
    {
        let ghost testnet = network.is_testnet();
        let len: usize = text.unicode_len();
        if len == 0 || text.get_char(0) != '/' {
            return Err(AgentError::Configuration);
        }
        let root_end: usize = scan_segment(text, len, 1);
        let ghost rest = text@.subrange(1, len as int);
        let ghost tail = rest.subrange(root_end - 1, rest.len() as int);
        proof {
            assert(rest.subrange(0, root_end - 1) =~= text@.subrange(1, root_end as int));
            assert(tail =~= text@.subrange(root_end as int, len as int));
        }
        let root: u64 = match parse_root(text, 1, root_end) {
            Some(v) => v,
            None => {
                return Err(AgentError::Configuration);
            },
        };
        let mut children: Vec<Address> = Vec::new();
        let mut pos: usize = root_end;
        while pos < len
            invariant
                len == text@.len(),
                root_end <= pos <= len,
                testnet == network.is_testnet(),
                pos < len ==> text@[pos as int] == '/',
                children_of_text(testnet, tail) == (match children_of_text(
                    testnet,
                    text@.subrange(pos as int, len as int),
                ) {
                    Some(t) => Some(children.deep_view() + t),
                    None => None,
                }),
                tail == text@.subrange(root_end as int, len as int),
                subnet_id_of_text(testnet, text@) == (match children_of_text(testnet, tail) {
                    Some(c) => Some(SubnetIdView { root, children: c }),
                    None => None,
                }),
            decreases len - pos,
        {
            let seg_end: usize = scan_segment(text, len, pos + 1);
            let segment = text.substring_char(pos + 1, seg_end);
            let ghost here = text@.subrange(pos as int, len as int);
            let ghost after = here.subrange(1, here.len() as int);
            proof {
                assert(after =~= text@.subrange(pos + 1, len as int));
                assert(after.subrange(0, seg_end - pos - 1) =~= segment@);
                assert(after.subrange(seg_end - pos - 1, after.len() as int) =~= text@.subrange(
                    seg_end as int,
                    len as int,
                ));
                lemma_first_slash_bounds(after);
            }
            match Address::from_text(network, segment) {
                Ok(a) => {
                    let ghost before = children.deep_view();
                    children.push(a);
                    proof {
                        assert(children.deep_view() =~= before.push(a@));
                        match children_of_text(testnet, text@.subrange(seg_end as int, len as int)) {
                            Some(t) => {
                                assert(before + (seq![a@] + t) =~= children.deep_view() + t);
                            },
                            None => {},
                        }
                    }
                },
                Err(_) => {
                    return Err(AgentError::Configuration);
                },
            }
            pos = seg_end;
        }
        proof {
            assert(text@.subrange(len as int, len as int) =~= Seq::<char>::empty());
            assert(children.deep_view() + Seq::<AddressView>::empty() =~= children.deep_view());
        }
        Ok(SubnetID { root, children })
    }
}

} // verus!
