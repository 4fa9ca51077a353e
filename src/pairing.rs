use vstd::prelude::*;
use rand::seq::SliceRandom;
use rand::Rng;
use crate::hand::Hand;

verus! {

#[verifier::external_type_specification]
#[verifier::external_body]
pub struct ExThreadRng(rand::rngs::ThreadRng);

/// Relies on rand::thread_rng, which hands out the thread's generator.
pub assume_specification[ rand::thread_rng ]() -> rand::rngs::ThreadRng;

/// Relies on rand's `SliceRandom::shuffle`: an in-place Fisher-Yates
/// shuffle, which only swaps entries, so the result is a permutation.
#[verifier::external_body]
fn shuffle_positions(v: &mut Vec<usize>, rng: &mut rand::rngs::ThreadRng)
    ensures
        final(v)@.to_multiset() == old(v)@.to_multiset(),
{
    v.shuffle(rng)
}

/// Relies on rand's `Rng::gen_range`, which on `0..n` returns a value below
/// `n` and panics when the range is empty.
#[verifier::external_body]
fn random_below(rng: &mut rand::rngs::ThreadRng, n: usize) -> (r: usize)
    requires
        n > 0,
    ensures
        r < n,
{
    rng.gen_range(0..n)
}

/// A player's id and hand as the pairing sees it.
pub type Entry = (i64, Hand);

/// Two entries matched against each other; the first is the listed player.
pub type Pairing = (Entry, Entry);

/// Pairs taken from the back: the last entry against the one before it,
/// and so on down to the front.
pub open spec fn chain_pairs(s: Seq<Entry>) -> Seq<Pairing>
    decreases s.len(),
{
    if s.len() < 2 {
        Seq::empty()
    } else {
        seq![(s.last(), s[s.len() - 2])] + chain_pairs(s.subrange(0, s.len() - 2))
    }
}

/// The pairs made of an ordered list of entries: with an odd count the
/// entry at `twice` first plays against itself and leaves the list.
pub open spec fn pairing(s: Seq<Entry>, twice: int) -> Seq<Pairing> {
    if s.len() % 2 == 1 {
        seq![(s[twice], s[twice])] + chain_pairs(s.remove(twice))
    } else {
        chain_pairs(s)
    }
}

/// `e` plays in one of the pairs.
pub open spec fn paired(ps: Seq<Pairing>, e: Entry) -> bool {
    exists|j: int| 0 <= j < ps.len() && ((#[trigger] ps[j]).0 == e || ps[j].1 == e)
}

proof fn lemma_chain_pairs(s: Seq<Entry>)
    ensures
        chain_pairs(s).len() == s.len() / 2,
        s.len() % 2 == 0 ==> forall|k: int| 0 <= k < s.len() ==> paired(chain_pairs(s), #[trigger] s[k]),
        forall|j: int| 0 <= j < chain_pairs(s).len() ==> s.contains((#[trigger] chain_pairs(s)[j]).0) && s.contains(
            chain_pairs(s)[j].1,
        ),
    decreases s.len(),
{
    if s.len() >= 2 {
        let t = s.subrange(0, s.len() - 2);
        lemma_chain_pairs(t);
        let c = chain_pairs(s);
        let head = (s.last(), s[s.len() - 2]);
        assert(c == seq![head] + chain_pairs(t));
        if s.len() % 2 == 0 {
            assert forall|k: int| 0 <= k < s.len() implies paired(c, #[trigger] s[k]) by {
                if k >= s.len() - 2 {
                    assert(c[0] == head);
                } else {
                    assert(t[k] == s[k]);
                    assert(paired(chain_pairs(t), t[k]));
                    let j = choose|j: int| 0 <= j < chain_pairs(t).len() && ((#[trigger] chain_pairs(t)[j]).0 == t[k]
                        || chain_pairs(t)[j].1 == t[k]);
                    assert(c[j + 1] == chain_pairs(t)[j]);
                }
            }
        }
        assert forall|j: int| 0 <= j < c.len() implies s.contains((#[trigger] c[j]).0) && s.contains(c[j].1) by {
            if j == 0 {
                assert(s[s.len() - 1] == head.0);
                assert(s[s.len() - 2] == head.1);
            } else {
                assert(c[j] == chain_pairs(t)[j - 1]);
                let p = chain_pairs(t)[j - 1];
                assert(t.contains(p.0) && t.contains(p.1));
                let a = choose|a: int| 0 <= a < t.len() && t[a] == p.0;
                let b = choose|b: int| 0 <= b < t.len() && t[b] == p.1;
                assert(s[a] == p.0 && s[b] == p.1);
            }
        }
    }
}

proof fn lemma_odd_covers(s: Seq<Entry>, twice: int)
    requires
        s.len() % 2 == 1,
        0 <= twice < s.len(),
    ensures
        forall|k: int| 0 <= k < s.len() ==> paired(pairing(s, twice), #[trigger] s[k]),
{
    let p = pairing(s, twice);
    let t = s.remove(twice);
    let c = chain_pairs(t);
    lemma_chain_pairs(t);
    assert(p == seq![(s[twice], s[twice])] + c);
    assert forall|k: int| 0 <= k < s.len() implies paired(p, #[trigger] s[k]) by {
        if k == twice {
            assert(p[0] == (s[twice], s[twice]));
        } else {
            let kk = if k < twice { k } else { k - 1 };
            assert(t[kk] == s[k]);
            assert(paired(c, t[kk]));
            let j = choose|j: int| 0 <= j < c.len() && ((#[trigger] c[j]).0 == t[kk] || c[j].1 == t[kk]);
            assert(p[j + 1] == c[j]);
        }
    }
}

proof fn lemma_odd_members(s: Seq<Entry>, twice: int)
    requires
        s.len() % 2 == 1,
        0 <= twice < s.len(),
    ensures
        pairing(s, twice).len() == (s.len() + 1) / 2,
        forall|j: int| 0 <= j < pairing(s, twice).len() ==> s.contains((#[trigger] pairing(s, twice)[j]).0)
            && s.contains(pairing(s, twice)[j].1),
{
    let p = pairing(s, twice);
    let t = s.remove(twice);
    let c = chain_pairs(t);
    lemma_chain_pairs(t);
    assert(p == seq![(s[twice], s[twice])] + c);
    assert forall|j: int| 0 <= j < p.len() implies s.contains((#[trigger] p[j]).0) && s.contains(p[j].1) by {
        if j == 0 {
            assert(s[twice] == p[0].0);
        } else {
            assert(p[j] == c[j - 1]);
            let q = c[j - 1];
            assert(t.contains(q.0) && t.contains(q.1));
            let a = choose|a: int| 0 <= a < t.len() && t[a] == q.0;
            let b = choose|b: int| 0 <= b < t.len() && t[b] == q.1;
            let aa = if a < twice { a } else { a + 1 };
            let bb = if b < twice { b } else { b + 1 };
            assert(s[aa] == q.0 && s[bb] == q.1);
        }
    }
}

/// Pairing covers everyone: for N entries it makes ⌈N/2⌉ pairs, every
/// entry plays in one of them, and every pair is made of entries.
pub proof fn lemma_pairing_covers(s: Seq<Entry>, twice: int)
    requires
        s.len() % 2 == 1 ==> 0 <= twice < s.len(),
    ensures
        pairing(s, twice).len() == (s.len() + 1) / 2,
        forall|k: int| 0 <= k < s.len() ==> paired(pairing(s, twice), #[trigger] s[k]),
        forall|j: int| 0 <= j < pairing(s, twice).len() ==> s.contains((#[trigger] pairing(s, twice)[j]).0)
            && s.contains(pairing(s, twice)[j].1),
{
    if s.len() % 2 == 1 {
        lemma_odd_covers(s, twice);
        lemma_odd_members(s, twice);
    } else {
        lemma_chain_pairs(s);
    }
}

/// The entries of a list of pairs, in order, both sides of each pair.
pub open spec fn flatten_pairs(ps: Seq<Pairing>) -> Seq<Entry>
    decreases ps.len(),
{
    if ps.len() == 0 {
        Seq::empty()
    } else {
        seq![ps[0].0, ps[0].1] + flatten_pairs(ps.drop_first())
    }
}

proof fn lemma_flatten_chain(s: Seq<Entry>)
    requires
        s.len() % 2 == 0,
    ensures
        flatten_pairs(chain_pairs(s)).to_multiset() == s.to_multiset(),
    decreases s.len(),
{
    broadcast use vstd::multiset::group_multiset_axioms;
    if s.len() > 0 {
        let n = s.len();
        let t = s.subrange(0, n - 2);
        lemma_flatten_chain(t);
        let c = chain_pairs(s);
        let two = seq![s[n - 1], s[n - 2]];
        assert(c == seq![(s[n - 1], s[n - 2])] + chain_pairs(t));
        assert(c.drop_first() =~= chain_pairs(t));
        assert(flatten_pairs(c) == two + flatten_pairs(chain_pairs(t)));
        vstd::seq_lib::lemma_multiset_commutative(two, flatten_pairs(chain_pairs(t)));
        assert(s =~= t + seq![s[n - 2], s[n - 1]]);
        vstd::seq_lib::lemma_multiset_commutative(t, seq![s[n - 2], s[n - 1]]);
        vstd::seq_lib::lemma_seq_union_to_multiset_commutative(seq![s[n - 2]], seq![s[n - 1]]);
        assert(seq![s[n - 2]] + seq![s[n - 1]] =~= seq![s[n - 2], s[n - 1]]);
        assert(seq![s[n - 1]] + seq![s[n - 2]] =~= two);
        assert(flatten_pairs(c).to_multiset() =~= s.to_multiset());
    } else {
        assert(chain_pairs(s) =~= Seq::<Pairing>::empty());
        assert(flatten_pairs(chain_pairs(s)) =~= s);
    }
}

/// Pairing uses every entry once, and the self-matched entry once more:
/// the pairs' entries are the input, as a multiset, plus that entry when
/// the count is odd.
pub proof fn lemma_pairing_multiset(s: Seq<Entry>, twice: int)
    requires
        s.len() % 2 == 1 ==> 0 <= twice < s.len(),
    ensures
        s.len() % 2 == 0 ==> flatten_pairs(pairing(s, twice)).to_multiset() == s.to_multiset(),
        s.len() % 2 == 1 ==> flatten_pairs(pairing(s, twice)).to_multiset() == s.to_multiset().insert(s[twice]),
{
    broadcast use vstd::multiset::group_multiset_axioms;
    if s.len() % 2 == 1 {
        let x = s[twice];
        let t = s.remove(twice);
        lemma_flatten_chain(t);
        let p = pairing(s, twice);
        assert(p.drop_first() =~= chain_pairs(t));
        assert(flatten_pairs(p) == seq![x, x] + flatten_pairs(chain_pairs(t)));
        vstd::seq_lib::lemma_multiset_commutative(seq![x, x], flatten_pairs(chain_pairs(t)));
        s.to_multiset_ensures();
        assert(t.to_multiset() =~= s.to_multiset().remove(x));
        assert(seq![x, x] =~= seq![x].push(x));
        seq![x].to_multiset_ensures();
        Seq::<Entry>::empty().to_multiset_ensures();
        assert(seq![x] =~= Seq::<Entry>::empty().push(x));
        assert(s.contains(x));
        assert(flatten_pairs(p).to_multiset() =~= s.to_multiset().insert(x));
    } else {
        lemma_flatten_chain(s);
    }
}

/// Applying one function to two sequences with the same elements gives
/// sequences with the same elements.
proof fn lemma_map_multiset(a: Seq<usize>, b: Seq<usize>, hands: Seq<Entry>)
    requires
        a.to_multiset() == b.to_multiset(),
    ensures
        a.map_values(|i: usize| hands[i as int]).to_multiset() == b.map_values(|i: usize| hands[i as int]).to_multiset(),
    decreases a.len(),
{
    broadcast use vstd::multiset::group_multiset_axioms;
    a.to_multiset_ensures();
    b.to_multiset_ensures();
    let fa = a.map_values(|i: usize| hands[i as int]);
    let fb = b.map_values(|i: usize| hands[i as int]);
    if a.len() == 0 {
        assert(b.len() == 0);
        assert(fa =~= fb);
    } else {
        let x = a.last();
        let ad = a.drop_last();
        assert(a =~= ad.push(x));
        ad.to_multiset_ensures();
        assert(a.to_multiset().count(x) > 0);
        assert(b.contains(x));
        let i = choose|i: int| 0 <= i < b.len() && b[i] == x;
        let br = b.remove(i);
        assert(br.to_multiset() =~= b.to_multiset().remove(x));
        assert(ad.to_multiset() =~= a.to_multiset().remove(x));
        lemma_map_multiset(ad, br, hands);
        let fad = ad.map_values(|i: usize| hands[i as int]);
        let fbr = br.map_values(|i: usize| hands[i as int]);
        assert(fa =~= fad.push(hands[x as int]));
        fad.to_multiset_ensures();
        fb.to_multiset_ensures();
        assert(fb.remove(i) =~= fbr);
        assert(fbr.to_multiset() =~= fb.to_multiset().remove(fb[i]));
        assert(fb[i] == hands[x as int]);
        assert(fb.to_multiset().count(hands[x as int]) > 0);
        assert(fa.to_multiset() =~= fb.to_multiset());
    }
}

/// Pairs an already ordered list of entries: with an odd count the entry
/// at position `twice` plays against itself first, then the rest pair off
/// from the back.
pub fn pair_players(shuffled: Vec<Entry>, twice: usize) -> (r: Vec<Pairing>)
    requires
        shuffled@.len() % 2 == 1 ==> twice < shuffled@.len(),
    ensures
        r@ == pairing(shuffled@, twice as int),
{
    let ghost s = shuffled@;
    let mut rest = shuffled;
    let mut pairs: Vec<Pairing> = Vec::new();
    if rest.len() % 2 != 0 {
        let e = rest.remove(twice);
        pairs.push((e, e));
    }
    let ghost start = pairs@;
    proof {
        assert(rest@.len() % 2 == 0);
        if s.len() % 2 == 1 {
            assert(start == seq![(s[twice as int], s[twice as int])]);
            assert(rest@ == s.remove(twice as int));
        } else {
            assert(start =~= Seq::<Pairing>::empty());
            assert(rest@ == s);
            assert(start + chain_pairs(rest@) =~= chain_pairs(s));
        }
    }
    while rest.len() >= 2
        invariant
            rest@.len() % 2 == 0,
            pairs@ + chain_pairs(rest@) == pairing(s, twice as int),
        decreases rest@.len(),
    {
        let ghost before = rest@;
        let one = rest.pop().unwrap();
        let two = rest.pop().unwrap();
        proof {
            assert(rest@ =~= before.subrange(0, before.len() - 2));
            assert(chain_pairs(before) == seq![(one, two)] + chain_pairs(rest@));
        }
        pairs.push((one, two));
        proof {
            assert(pairs@ + chain_pairs(rest@) =~= pairs@.drop_last() + chain_pairs(before));
        }
    }
    proof {
        assert(chain_pairs(rest@) =~= Seq::<Pairing>::empty());
        assert(pairs@ =~= pairs@ + chain_pairs(rest@));
    }
    pairs
}

/// The positions `0..n` in order.
fn positions(n: usize) -> (r: Vec<usize>)
    ensures
        r@.len() == n,
        forall|k: int| 0 <= k < n ==> r@[k] == k,
{
    let mut r: Vec<usize> = Vec::new();
    let mut i: usize = 0;
    while i < n
        invariant
            i <= n,
            r@.len() == i,
            forall|k: int| 0 <= k < i ==> r@[k] == k,
        decreases n - i,
    {
        r.push(i);
        i += 1;
    }
    r
}

/// The entries of `hands` in the order that `order` gives.
fn arrange(hands: &Vec<Entry>, order: &Vec<usize>) -> (r: Vec<Entry>)
    requires
        forall|k: int| 0 <= k < order@.len() ==> order@[k] < hands@.len(),
    ensures
        r@.len() == order@.len(),
        forall|k: int| 0 <= k < order@.len() ==> r@[k] == hands@[order@[k] as int],
{
    let mut r: Vec<Entry> = Vec::new();
    let mut i: usize = 0;
    while i < order.len()
        invariant
            i <= order@.len(),
            forall|k: int| 0 <= k < order@.len() ==> order@[k] < hands@.len(),
            r@.len() == i,
            forall|k: int| 0 <= k < i ==> r@[k] == hands@[order@[k] as int],
        decreases order@.len() - i,
    {
        r.push(hands[order[i]]);
        i += 1;
    }
    r
}

/// A permutation of the positions `0..n` holds each of them and nothing else.
proof fn lemma_permuted_positions(initial: Seq<usize>, order: Seq<usize>, n: usize)
    requires
        initial.len() == n,
        forall|k: int| 0 <= k < n ==> initial[k] == k,
        order.to_multiset() == initial.to_multiset(),
    ensures
        order.len() == n,
        forall|k: int| 0 <= k < order.len() ==> order[k] < n,
        forall|x: usize| x < n ==> order.contains(x),
{
    initial.to_multiset_ensures();
    order.to_multiset_ensures();
    assert forall|k: int| 0 <= k < order.len() implies order[k] < n by {
        let x = order[k];
        assert(order.contains(x));
        assert(order.to_multiset().count(x) > 0);
        assert(initial.to_multiset().count(x) > 0);
        assert(initial.contains(x));
        let q = choose|q: int| 0 <= q < initial.len() && initial[q] == x;
    }
    assert forall|x: usize| x < n implies order.contains(x) by {
        assert(initial[x as int] == x);
        assert(initial.contains(x));
        assert(initial.to_multiset().count(x) > 0);
        assert(order.to_multiset().count(x) > 0);
    }
}

/// Matches the round's players at random: the list is shuffled, with an
/// odd count one player chosen at random plays against themself, and the
/// rest pair off. Every player plays, and there are ⌈N/2⌉ pairs.
pub fn random_match_players(player_hands: Vec<Entry>) -> (r: Vec<Pairing>)
    ensures
        r@.len() == (player_hands@.len() + 1) / 2,
        forall|k: int| 0 <= k < player_hands@.len() ==> paired(r@, #[trigger] player_hands@[k]),
        forall|j: int| 0 <= j < r@.len() ==> player_hands@.contains((#[trigger] r@[j]).0) && player_hands@.contains(r@[j].1),
        player_hands@.len() % 2 == 1 ==> r@[0].0 == r@[0].1,
        player_hands@.len() % 2 == 0 ==> flatten_pairs(r@).to_multiset() == player_hands@.to_multiset(),
        player_hands@.len() % 2 == 1 ==> flatten_pairs(r@).to_multiset() == player_hands@.to_multiset().insert(r@[0].0),
{
    let n = player_hands.len();
    let mut rng = rand::thread_rng();
    let mut order = positions(n);
    let ghost initial = order@;
    shuffle_positions(&mut order, &mut rng);
    proof {
        lemma_permuted_positions(initial, order@, n);
    }
    let shuffled = arrange(&player_hands, &order);
    let twice = if n % 2 != 0 { random_below(&mut rng, n) } else { 0 };
    let ghost s = shuffled@;
    let r = pair_players(shuffled, twice);
    proof {
        lemma_pairing_covers(s, twice as int);
        lemma_pairing_multiset(s, twice as int);
        lemma_map_multiset(order@, initial, player_hands@);
        assert(s =~= order@.map_values(|i: usize| player_hands@[i as int]));
        assert(player_hands@ =~= initial.map_values(|i: usize| player_hands@[i as int]));
        assert forall|k: int| 0 <= k < n implies paired(r@, #[trigger] player_hands@[k]) by {
            assert(order@.contains(k as usize));
            let q = choose|q: int| 0 <= q < order@.len() && order@[q] == k as usize;
            assert(s[q] == player_hands@[k]);
        }
        assert forall|j: int| 0 <= j < r@.len() implies player_hands@.contains((#[trigger] r@[j]).0) && player_hands@.contains(
            r@[j].1,
        ) by {
            assert(s.contains(r@[j].0) && s.contains(r@[j].1));
            let a = choose|a: int| 0 <= a < s.len() && s[a] == r@[j].0;
            let b = choose|b: int| 0 <= b < s.len() && s[b] == r@[j].1;
            assert(player_hands@[order@[a] as int] == r@[j].0);
            assert(player_hands@[order@[b] as int] == r@[j].1);
        }
    }
    r
}

} // verus!
