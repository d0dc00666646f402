use vstd::prelude::*;

verus! {

/// Whether `a` and `b` agree on their first `k` bytes and `a` is the smaller
/// at position `k`: there `a` ends while `b` goes on, or both go on and `a`
/// holds the smaller byte.
pub open spec fn decides_at(a: Seq<u8>, b: Seq<u8>, k: int) -> bool {
    &&& 0 <= k <= a.len()
    &&& k < b.len()
    &&& forall|j: int| 0 <= j < k ==> a[j] == b[j]
    &&& (k < a.len() ==> a[k] < b[k])
}

/// The canonical order of identities: byte strings compared
/// lexicographically, a proper prefix before what it is a prefix of.
pub open spec fn precedes(a: Seq<u8>, b: Seq<u8>) -> bool {
    exists|k: int| decides_at(a, b, k)
}

/// The order is total: of two identities exactly one precedes the other,
/// unless they are the same identity, which never precedes itself.
pub proof fn lemma_precedes_total(a: Seq<u8>, b: Seq<u8>)
    ensures
        a == b ==> !precedes(a, b) && !precedes(b, a),
        a != b ==> (precedes(a, b) <==> !precedes(b, a)),
{
    if precedes(a, b) && precedes(b, a) {
        let k = choose|k: int| decides_at(a, b, k);
        let m = choose|m: int| decides_at(b, a, m);
        assert(false);
    }
    if a == b && precedes(a, b) {
        let k = choose|k: int| decides_at(a, b, k);
        assert(false);
    }
    if a != b && !precedes(a, b) && !precedes(b, a) {
        lemma_first_difference(a, b, 0);
    }
}

/// Two byte strings that agree below `i` and are not equal differ first at
/// some position, which decides their order one way or the other.
proof fn lemma_first_difference(a: Seq<u8>, b: Seq<u8>, i: int)
    requires
        0 <= i <= a.len(),
        i <= b.len(),
        forall|j: int| 0 <= j < i ==> a[j] == b[j],
        a != b,
    ensures
        precedes(a, b) || precedes(b, a),
    decreases a.len() - i,
{
    if i == a.len() {
        if i == b.len() {
            assert(a =~= b);
        } else {
            assert(decides_at(a, b, i));
        }
    } else if i == b.len() {
        assert(decides_at(b, a, i));
    } else if a[i] < b[i] {
        assert(decides_at(a, b, i));
    } else if b[i] < a[i] {
        assert(decides_at(b, a, i));
    } else {
        lemma_first_difference(a, b, i + 1);
    }
}

/// The order is transitive.
pub proof fn lemma_precedes_transitive(a: Seq<u8>, b: Seq<u8>, c: Seq<u8>)
    requires
        precedes(a, b),
        precedes(b, c),
    ensures
        precedes(a, c),
{
    let k = choose|k: int| decides_at(a, b, k);
    let m = choose|m: int| decides_at(b, c, m);
    if k <= m {
        assert(decides_at(a, c, k));
    } else {
        assert(decides_at(a, c, m));
    }
}

/// The identity of an asset or of a principal: an opaque byte string, ordered canonically by
/// `precedes`.
#[derive(Debug, PartialEq, Eq, Hash)]
pub struct Identity {
    bytes: Vec<u8>,
}

impl View for Identity {
    type V = Seq<u8>;

    closed spec fn view(&self) -> Seq<u8> {
        self.bytes@
    }
}

impl Identity {
    /// The identity written as `bytes`.
    pub fn new(bytes: Vec<u8>) -> (id: Identity)
        ensures
            id@ == bytes@,
    {
        Identity { bytes }
    }

    /// The bytes of the identity.
    pub fn as_bytes(&self) -> (bytes: &Vec<u8>)
        ensures
            bytes@ == self@,
    {
        &self.bytes
    }

    /// A copy of the identity.
    pub fn duplicate(&self) -> (id: Identity)
        ensures
            id@ == self@,
    {
        let mut bytes: Vec<u8> = Vec::new();
        let mut i: usize = 0;
        while i < self.bytes.len()
            invariant
                i <= self.bytes.len(),
                bytes@ == self.bytes@.subrange(0, i as int),
            decreases self.bytes.len() - i,
        {
            bytes.push(self.bytes[i]);
            i = i + 1;
            assert(bytes@ =~= self.bytes@.subrange(0, i as int));
        }
        assert(bytes@ =~= self.bytes@);
        Identity { bytes }
    }

    /// Whether the two identities are the same.
    pub fn same_as(&self, other: &Identity) -> (r: bool)
        ensures
            r == (self@ == other@),
    {
        if self.bytes.len() != other.bytes.len() {
            return false;
        }
        let mut i: usize = 0;
        while i < self.bytes.len()
            invariant
                i <= self.bytes.len(),
                self.bytes.len() == other.bytes.len(),
                forall|j: int| 0 <= j < i ==> self.bytes@[j] == other.bytes@[j],
            decreases self.bytes.len() - i,
        {
            if self.bytes[i] != other.bytes[i] {
                return false;
            }
            i = i + 1;
        }
        assert(self.bytes@ =~= other.bytes@);
        true
    }

    /// Whether this identity comes strictly before `other` in the canonical
    /// order.
    pub fn precedes(&self, other: &Identity) -> (r: bool)
        ensures
            r == precedes(self@, other@),
    {
        let mut i: usize = 0;
        while i < self.bytes.len() && i < other.bytes.len()
            invariant
                i <= self.bytes.len(),
                i <= other.bytes.len(),
                forall|j: int| 0 <= j < i ==> self.bytes@[j] == other.bytes@[j],
            decreases self.bytes.len() - i,
        {
            if self.bytes[i] != other.bytes[i] {
                let r = self.bytes[i] < other.bytes[i];
                proof {
                    if r {
                        assert(decides_at(self@, other@, i as int));
                    } else {
                        assert(decides_at(other@, self@, i as int));
                        lemma_precedes_total(self@, other@);
                    }
                }
                return r;
            }
            i = i + 1;
        }
        let r = i < other.bytes.len();
        proof {
            if r {
                assert(decides_at(self@, other@, i as int));
            } else if i < self.bytes.len() {
                assert(decides_at(other@, self@, i as int));
                lemma_precedes_total(self@, other@);
            } else {
                assert(self@ =~= other@);
                lemma_precedes_total(self@, other@);
            }
        }
        r
    }
}

} // verus!
