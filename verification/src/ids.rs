//! Fresh identifiers for generated structural nodes.
//!
//! Every entity, polygon and label block gets a globally unique identifier.
//! The allocator hands out caller-scripted identifiers first — which makes
//! generation deterministic when a caller wants that — and random ones once
//! the script is exhausted. It keeps a ghost log of everything it handed
//! out, so contracts downstream can say exactly which identifier went where.

use vstd::prelude::*;

verus! {

/// Relies on uuid's `Uuid::new_v4` and the `Display` form of a `Uuid`,
/// which renders the canonical hyphenated form: five groups of lowercase
/// hexadecimal digits, 36 characters in all.
#[verifier::external_body]
fn new_uuid_string() -> (r: String)
    ensures
        r@.len() == 36,
{
    uuid::Uuid::new_v4().to_string()
}

/// Supplies fresh identifiers, scripted ones first, then random ones.
pub struct IdAllocator {
    scripted: Vec<String>,
    log: Ghost<Seq<Seq<char>>>,
}

impl IdAllocator {
    /// Every identifier handed out so far, oldest first.
    pub closed spec fn produced(self) -> Seq<Seq<char>> {
        self.log@
    }

    /// Scripted identifiers not yet handed out, next first.
    pub closed spec fn pending_ids(self) -> Seq<Seq<char>> {
        self.scripted@.map_values(|s: String| s@)
    }

    /// An allocator that draws every identifier at random.
    pub fn random() -> (r: Self)
        ensures
            r.produced() == Seq::<Seq<char>>::empty(),
            r.pending_ids() == Seq::<Seq<char>>::empty(),
    {
        let r = IdAllocator { scripted: Vec::new(), log: Ghost(Seq::empty()) };
        proof {
            assert(r.pending_ids() =~= Seq::<Seq<char>>::empty());
        }
        r
    }

    /// An allocator that hands out the given identifiers in order before
    /// falling back to random ones.
    pub fn scripted(ids: Vec<String>) -> (r: Self)
        ensures
            r.produced() == Seq::<Seq<char>>::empty(),
            r.pending_ids() == ids@.map_values(|s: String| s@),
    {
        IdAllocator { scripted: ids, log: Ghost(Seq::empty()) }
    }

    /// Hand out the next identifier: the first scripted one while any
    /// remain, a fresh random one afterwards.
    pub fn fresh(&mut self) -> (r: String)
        ensures
            final(self).produced() == old(self).produced().push(r@),
            old(self).pending_ids().len() > 0 ==> r@ == old(self).pending_ids()[0]
                && final(self).pending_ids() == old(self).pending_ids().drop_first(),
            old(self).pending_ids().len() == 0 ==> final(self).pending_ids()
                == old(self).pending_ids() && r@.len() == 36,
    {
        let ghost pre = *self;
        let r: String = if self.scripted.len() > 0 {
            self.scripted.remove(0)
        } else {
            new_uuid_string()
        };
        self.log = Ghost(self.log@.push(r@));
        proof {
            if pre.pending_ids().len() > 0 {
                assert(self.scripted@ =~= pre.scripted@.drop_first());
                assert(self.pending_ids() =~= pre.pending_ids().drop_first());
                assert(r@ == pre.pending_ids()[0]);
            } else {
                assert(self.pending_ids() =~= pre.pending_ids());
            }
        }
        r
    }
}

/// Between states `a` and `b` the allocator handed out exactly `k`
/// identifiers: the log grew by `k`, keeping its old prefix, and scripted
/// identifiers were consumed in order before anything random.
pub open spec fn draws(a: IdAllocator, b: IdAllocator, k: nat) -> bool {
    &&& b.produced().len() == a.produced().len() + k
    &&& b.produced().take(a.produced().len() as int) == a.produced()
    &&& (a.pending_ids().len() >= k ==> b.pending_ids() == a.pending_ids().skip(k as int)
        && b.produced().skip(a.produced().len() as int) == a.pending_ids().take(k as int))
    &&& (a.pending_ids().len() < k ==> b.pending_ids().len() == 0)
}

/// The identifiers handed out between states `a` and `b`, in order.
pub open spec fn new_ids(a: IdAllocator, b: IdAllocator) -> Seq<Seq<char>> {
    b.produced().skip(a.produced().len() as int)
}

pub proof fn lemma_draws_refl(a: IdAllocator)
    ensures
        draws(a, a, 0),
        new_ids(a, a) == Seq::<Seq<char>>::empty(),
{
    assert(a.produced().take(a.produced().len() as int) =~= a.produced());
    assert(a.pending_ids().skip(0) =~= a.pending_ids());
    assert(a.produced().skip(a.produced().len() as int) =~= Seq::<Seq<char>>::empty());
    assert(a.pending_ids().take(0) =~= Seq::<Seq<char>>::empty());
}

/// One more draw extends a run of draws.
pub proof fn lemma_draws_then_fresh(a: IdAllocator, b: IdAllocator, c: IdAllocator, r: Seq<char>, k: nat)
    requires
        draws(a, b, k),
        c.produced() == b.produced().push(r),
        b.pending_ids().len() > 0 ==> r == b.pending_ids()[0] && c.pending_ids()
            == b.pending_ids().drop_first(),
        b.pending_ids().len() == 0 ==> c.pending_ids() == b.pending_ids(),
    ensures
        draws(a, c, k + 1),
        new_ids(a, c) == new_ids(a, b).push(r),
{
    let n = a.produced().len() as int;
    assert(c.produced().take(n) =~= a.produced());
    assert(c.produced().skip(n) =~= b.produced().skip(n).push(r));
    if a.pending_ids().len() >= k + 1 {
        assert(b.pending_ids() == a.pending_ids().skip(k as int));
        assert(b.pending_ids().len() > 0);
        assert(r == a.pending_ids()[k as int]);
        assert(c.pending_ids() =~= a.pending_ids().skip(k as int + 1));
        assert(c.produced().skip(n) =~= a.pending_ids().take(k as int + 1));
    } else if a.pending_ids().len() == k {
        assert(b.pending_ids() =~= Seq::<Seq<char>>::empty());
        assert(c.pending_ids().len() == 0);
    }
}

/// Two runs of draws compose.
pub proof fn lemma_draws_trans(a: IdAllocator, b: IdAllocator, c: IdAllocator, k1: nat, k2: nat)
    requires
        draws(a, b, k1),
        draws(b, c, k2),
    ensures
        draws(a, c, k1 + k2),
        new_ids(a, c) == new_ids(a, b) + new_ids(b, c),
{
    let n = a.produced().len() as int;
    let m = b.produced().len() as int;
    assert(c.produced().take(n) =~= c.produced().take(m).take(n));
    assert(a.produced() =~= b.produced().take(n));
    assert(new_ids(a, c) =~= new_ids(a, b) + new_ids(b, c));
    if a.pending_ids().len() >= k1 + k2 {
        assert(b.pending_ids() == a.pending_ids().skip(k1 as int));
        assert(c.pending_ids() =~= a.pending_ids().skip((k1 + k2) as int));
        assert(new_ids(a, b) == a.pending_ids().take(k1 as int));
        assert(new_ids(b, c) == a.pending_ids().skip(k1 as int).take(k2 as int));
        assert(new_ids(a, c) =~= a.pending_ids().take((k1 + k2) as int));
    } else if a.pending_ids().len() < k1 {
        assert(b.pending_ids().len() == 0);
        assert(c.pending_ids().len() == 0);
    } else {
        assert(b.pending_ids() == a.pending_ids().skip(k1 as int));
        assert(b.pending_ids().len() < k2);
        assert(c.pending_ids().len() == 0);
    }
}

} // verus!
