//! Random orders of a deck's card identifiers.

use rand::seq::SliceRandom;
use rand::thread_rng;
use vstd::prelude::*;

use crate::model::deck::{CardId, Deck};

verus! {

/// The card identifiers of a deck in some order.
pub type Shuffle = Vec<CardId>;

/// The identifiers `0, 1, .., n - 1` in rising order.
pub open spec fn identity_order(n: nat) -> Seq<CardId> {
    Seq::new(n, |i: int| i as CardId)
}

/// `s` holds each identifier below `n` exactly once, and nothing else.
pub open spec fn is_permutation(s: Seq<CardId>, n: nat) -> bool {
    &&& s.len() == n
    &&& forall|i: int| 0 <= i < s.len() ==> #[trigger] s[i] < n
    &&& s.no_duplicates()
}

/// A sequence with the elements of `identity_order(n)`, each as often as
/// there, is a permutation of the identifiers below `n`.
pub proof fn lemma_rearranged_identity_is_permutation(s: Seq<CardId>, n: nat)
    requires
        n <= usize::MAX,
        s.to_multiset() == identity_order(n).to_multiset(),
    ensures
        is_permutation(s, n),
{
    broadcast use vstd::seq_lib::group_to_multiset_ensures;

    let id = identity_order(n);
    assert(s.len() == n) by {
        assert(s.to_multiset().len() == id.to_multiset().len());
    }
    assert forall|i: int| 0 <= i < s.len() implies #[trigger] s[i] < n by {
        assert(s.contains(s[i]));
        assert(id.to_multiset().count(s[i]) > 0);
        assert(id.contains(s[i]));
        let j = choose|j: int| 0 <= j < id.len() && id[j] == s[i];
        assert(s[i] == j);
    }
    assert(id.no_duplicates());
    id.lemma_multiset_has_no_duplicates();
    s.lemma_multiset_has_no_duplicates_conv();
}

/// A permutation of the identifiers below `n` holds every one of them, and
/// `n` is no more than there are identifiers.
pub proof fn lemma_permutation_holds_all(s: Seq<CardId>, n: nat)
    requires
        is_permutation(s, n),
    ensures
        n <= usize::MAX + 1,
        forall|id: CardId| id < n ==> s.contains(id),
        s.to_set() == Set::new(|id: CardId| id < n),
{
    let below = Set::new(|id: CardId| id < n);
    s.unique_seq_to_set();
    assert(n <= usize::MAX + 1) by {
        let all = Set::new(|id: CardId| id < usize::MAX + 1);
        lemma_ids_below((usize::MAX + 1) as nat);
        assert(s.to_set().subset_of(all));
        vstd::set_lib::lemma_len_subset(s.to_set(), all);
    }
    assert(below.finite() && below.len() == n) by {
        lemma_ids_below(n);
    }
    assert(s.to_set().subset_of(below)) by {
        assert forall|id: CardId| s.to_set().contains(id) implies below.contains(id) by {
            let i = choose|i: int| 0 <= i < s.len() && s[i] == id;
            assert(s[i] < n);
        }
    }
    vstd::set_lib::lemma_subset_equality(s.to_set(), below);
    assert forall|id: CardId| id < n implies s.contains(id) by {
        assert(below.contains(id));
        assert(s.to_set().contains(id));
    }
}

/// A permutation of the identifiers below `n` holds what `identity_order(n)`
/// holds, each identifier as often as there: once.
pub proof fn lemma_permutation_is_rearranged_identity(s: Seq<CardId>, n: nat)
    requires
        is_permutation(s, n),
    ensures
        s.to_multiset() == identity_order(n).to_multiset(),
{
    broadcast use vstd::seq_lib::group_to_multiset_ensures;

    let id = identity_order(n);
    lemma_permutation_holds_all(s, n);
    assert(id.no_duplicates());
    s.lemma_multiset_has_no_duplicates();
    id.lemma_multiset_has_no_duplicates();
    assert forall|x: CardId| s.to_multiset().count(x) == id.to_multiset().count(x) by {
        if x < n {
            assert(s.contains(x));
            assert(id[x as int] == x);
            assert(id.contains(x));
        } else {
            if s.contains(x) {
                let i = choose|i: int| 0 <= i < s.len() && s[i] == x;
                assert(s[i] < n);
            }
            if id.contains(x) {
                let j = choose|j: int| 0 <= j < id.len() && id[j] == x;
                assert(id[j] == j as CardId);
            }
        }
    }
    assert(s.to_multiset() =~= id.to_multiset());
}

/// There are exactly `n` identifiers below `n`.
proof fn lemma_ids_below(n: nat)
    requires
        n <= usize::MAX + 1,
    ensures
        Set::new(|id: CardId| id < n).finite(),
        Set::new(|id: CardId| id < n).len() == n,
    decreases n,
{
    let below = Set::new(|id: CardId| id < n);
    if n == 0 {
        assert(below =~= Set::<CardId>::empty());
    } else {
        let fewer = Set::new(|id: CardId| id < n - 1);
        lemma_ids_below((n - 1) as nat);
        assert(below =~= fewer.insert((n - 1) as CardId));
    }
}

/// Shuffles `ids` in place with `rand::seq::SliceRandom::shuffle`, drawing
/// from `rand::thread_rng()`. The call only swaps elements of the slice, so
/// whatever the generator yields, the vector afterwards holds the elements
/// it held before, each as often as before. Nothing is claimed of the order.
#[verifier::external_body]
fn shuffle_in_place(ids: &mut Vec<CardId>)
    ensures
        final(ids)@.to_multiset() == old(ids)@.to_multiset(),
{
    ids.shuffle(&mut thread_rng());
}

/// The identifiers of `deck`'s cards in a random order.
pub fn shuffle_deck(deck: &Deck) -> (shuffle: Shuffle)
    ensures
        is_permutation(shuffle@, deck@.len()),
{
    let n = deck.len();
    let mut ids: Vec<CardId> = Vec::new();
    let mut i: usize = 0;
    while i < n
        invariant
            i <= n,
            ids@ == identity_order(i as nat),
        decreases n - i,
    {
        ids.push(i);
        i += 1;
        assert(ids@ =~= identity_order(i as nat));
    }
    shuffle_in_place(&mut ids);
    proof {
        lemma_rearranged_identity_is_permutation(ids@, n as nat);
    }
    ids
}

} // verus!
