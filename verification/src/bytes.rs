//! Byte strings and the identities built from them.

use vstd::prelude::*;

verus! {

/// Whether two byte strings hold the same bytes.
pub fn bytes_eq(a: &Vec<u8>, b: &Vec<u8>) -> (same: bool)
    ensures
        same == (a@ == b@),
{
    if a.len() != b.len() {
        return false;
    }
    let mut i: usize = 0;
    while i < a.len()
        invariant
            a.len() == b.len(),
            i <= a.len(),
            forall|j: int| 0 <= j < i ==> a@[j] == b@[j],
        decreases a.len() - i,
    {
        if a[i] != b[i] {
            return false;
        }
        i = i + 1;
    }
    assert(a@ =~= b@);
    true
}

/// A fresh byte string with the bytes of `a`.
pub fn bytes_copy(a: &Vec<u8>) -> (copy: Vec<u8>)
    ensures
        copy@ == a@,
{
    let mut copy: Vec<u8> = Vec::new();
    let mut i: usize = 0;
    while i < a.len()
        invariant
            i <= a.len(),
            copy@ == a@.subrange(0, i as int),
        decreases a.len() - i,
    {
        copy.push(a[i]);
        assert(copy@ =~= a@.subrange(0, i + 1));
        i = i + 1;
    }
    assert(a@.subrange(0, a.len() as int) =~= a@);
    copy
}

/// A fresh list of byte strings with the contents of `items`.
pub fn bytes_list_copy(items: &Vec<Vec<u8>>) -> (copy: Vec<Vec<u8>>)
    ensures
        copy.deep_view() == items.deep_view(),
{
    let mut copy: Vec<Vec<u8>> = Vec::new();
    let mut i: usize = 0;
    while i < items.len()
        invariant
            i <= items.len(),
            copy.len() == i,
            forall|j: int| 0 <= j < i ==> copy@[j]@ == items@[j]@,
        decreases items.len() - i,
    {
        copy.push(bytes_copy(&items[i]));
        i = i + 1;
    }
    assert(copy.deep_view() =~= items.deep_view());
    copy
}

/// Whether `code` is exactly the 32 bytes of `sensor`.
pub fn sensor_matches(sensor: &[u8; 32], code: &Vec<u8>) -> (same: bool)
    ensures
        same == (code@ == sensor@),
{
    if code.len() != 32 {
        return false;
    }
    let mut i: usize = 0;
    while i < 32
        invariant
            code.len() == 32,
            i <= 32,
            forall|j: int| 0 <= j < i ==> code@[j] == sensor@[j],
        decreases 32 - i,
    {
        if code[i] != sensor[i] {
            return false;
        }
        i = i + 1;
    }
    assert(code@ =~= sensor@);
    true
}

/// Who holds tokens, lists orders or calls the market: an identity of the host
/// ledger, kept as the bytes of its text form.
#[derive(Debug, PartialEq, Eq)]
pub struct Address {
    pub bytes: Vec<u8>,
}

impl View for Address {
    type V = Seq<u8>;

    open spec fn view(&self) -> Seq<u8> {
        self.bytes@
    }
}

impl DeepView for Address {
    type V = Seq<u8>;

    open spec fn deep_view(&self) -> Seq<u8> {
        self.bytes@
    }
}

impl Address {
    /// The identity written as `bytes`.
    pub fn new(bytes: Vec<u8>) -> (address: Address)
        ensures
            address@ == bytes@,
    {
        Address { bytes }
    }

    /// Whether both are the same identity.
    pub fn same(&self, other: &Address) -> (same: bool)
        ensures
            same == (self@ == other@),
    {
        bytes_eq(&self.bytes, &other.bytes)
    }

    /// A second value for the same identity.
    pub fn copy(&self) -> (address: Address)
        ensures
            address@ == self@,
    {
        Address { bytes: bytes_copy(&self.bytes) }
    }
}

impl Clone for Address {
    fn clone(&self) -> (address: Address)
        ensures
            address@ == self@,
    {
        self.copy()
    }
}

} // verus!
