use vstd::prelude::*;

verus! {

/// The 32-byte identifier of an account (a participant or a caller).
#[derive(Clone, Copy, Debug, PartialEq, Eq, Hash, PartialOrd, Ord)]
pub struct AccountId(pub [u8; 32]);

impl View for AccountId {
    type V = Seq<u8>;

    open spec fn view(&self) -> Seq<u8> {
        self.0@
    }
}

/// `a` comes strictly before `b` in lexicographic byte order.
pub open spec fn id_lt(a: Seq<u8>, b: Seq<u8>) -> bool {
    exists|i: int| #![trigger a[i], b[i]]
        0 <= i < a.len() && i < b.len() && a.subrange(0, i) == b.subrange(0, i) && a[i] < b[i]
}

/// The lexicographic order on identifiers is transitive.
pub proof fn lemma_id_lt_transitive(a: Seq<u8>, b: Seq<u8>, c: Seq<u8>)
    requires
        id_lt(a, b),
        id_lt(b, c),
    ensures
        id_lt(a, c),
{
    let i = choose|i: int| #![trigger a[i], b[i]]
        0 <= i < a.len() && i < b.len() && a.subrange(0, i) == b.subrange(0, i) && a[i] < b[i];
    let k = choose|k: int| #![trigger b[k], c[k]]
        0 <= k < b.len() && k < c.len() && b.subrange(0, k) == c.subrange(0, k) && b[k] < c[k];
    if i < k {
        assert(b.subrange(0, k).subrange(0, i) =~= b.subrange(0, i));
        assert(c.subrange(0, k).subrange(0, i) =~= c.subrange(0, i));
        assert(b[i] == b.subrange(0, k)[i]);
        assert(c[i] == c.subrange(0, k)[i]);
        assert(a.subrange(0, i) == c.subrange(0, i));
        assert(a[i] < c[i]);
    } else if k < i {
        assert(a.subrange(0, i).subrange(0, k) =~= a.subrange(0, k));
        assert(b.subrange(0, i).subrange(0, k) =~= b.subrange(0, k));
        assert(a[k] == a.subrange(0, i)[k]);
        assert(b[k] == b.subrange(0, i)[k]);
        assert(a.subrange(0, k) == c.subrange(0, k));
        assert(a[k] < c[k]);
    } else {
        assert(a[i] < c[i]);
    }
}

/// No identifier comes before itself, and no two come before each other.
pub proof fn lemma_id_lt_asymmetric(a: Seq<u8>, b: Seq<u8>)
    requires
        id_lt(a, b),
    ensures
        !id_lt(b, a),
        a != b,
{
    let i = choose|i: int| #![trigger a[i], b[i]]
        0 <= i < a.len() && i < b.len() && a.subrange(0, i) == b.subrange(0, i) && a[i] < b[i];
    if id_lt(b, a) {
        let k = choose|k: int| #![trigger b[k], a[k]]
            0 <= k < b.len() && k < a.len() && b.subrange(0, k) == a.subrange(0, k) && b[k] < a[k];
        if i < k {
            assert(a[i] == a.subrange(0, k)[i]);
            assert(b[i] == b.subrange(0, k)[i]);
        } else if k < i {
            assert(a[k] == a.subrange(0, i)[k]);
            assert(b[k] == b.subrange(0, i)[k]);
        }
    }
}

/// The outcome of comparing two identifiers.
#[derive(Clone, Copy, Debug, PartialEq, Eq, Structural)]
pub enum IdOrder {
    Less,
    Equal,
    Greater,
}

/// Compares two identifiers byte by byte.
pub fn compare_ids(a: &AccountId, b: &AccountId) -> (r: IdOrder)
    ensures
        r == IdOrder::Less <==> id_lt(a@, b@),
        r == IdOrder::Greater <==> id_lt(b@, a@),
        r == IdOrder::Equal <==> a@ == b@,
{
    let mut i: usize = 0;
    while i < 32
        invariant
            0 <= i <= 32,
            a@.len() == 32,
            b@.len() == 32,
            a@.subrange(0, i as int) == b@.subrange(0, i as int),
        decreases 32 - i,
    {
        if a.0[i] != b.0[i] {
            if a.0[i] < b.0[i] {
                assert(a@[i as int] < b@[i as int]);
                proof { lemma_id_lt_asymmetric(a@, b@); }
                return IdOrder::Less;
            } else {
                assert(b@.subrange(0, i as int) == a@.subrange(0, i as int));
                assert(b@[i as int] < a@[i as int]);
                proof { lemma_id_lt_asymmetric(b@, a@); }
                return IdOrder::Greater;
            }
        }
        assert(a@.subrange(0, i as int + 1) =~= a@.subrange(0, i as int).push(a@[i as int]));
        assert(b@.subrange(0, i as int + 1) =~= b@.subrange(0, i as int).push(b@[i as int]));
        i = i + 1;
    }
    assert(a@ =~= a@.subrange(0, 32));
    assert(b@ =~= b@.subrange(0, 32));
    proof {
        if id_lt(a@, b@) {
            lemma_id_lt_asymmetric(a@, b@);
        }
        if id_lt(b@, a@) {
            lemma_id_lt_asymmetric(b@, a@);
        }
    }
    IdOrder::Equal
}

} // verus!
