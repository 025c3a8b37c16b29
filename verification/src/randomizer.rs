//! Piece-sequence generation under the selectable randomizer policies.

use vstd::prelude::*;
use vstd::multiset::Multiset;
use crate::rng::rand_index;

verus! {

broadcast use vstd::seq_lib::group_to_multiset_ensures, vstd::seq_lib::to_multiset_update, vstd::seq_lib::lemma_multiset_commutative, vstd::multiset::group_multiset_axioms;

/// The selectable sequence-generation policies.
#[derive(Clone, Copy, PartialEq, Eq, Structural, Debug)]
pub enum RandomizerStyle {
    /// A shuffled permutation of the full piece catalog.
    NBag,
    /// A shuffled permutation of the catalog concatenated with itself.
    DoubleNBag,
    /// A shuffled full bag with one piece removed from the tail; the
    /// same piece is never the one removed on two consecutive calls.
    Minus1Bag,
    /// Ten independent uniform draws, with replacement.
    FullRandom,
    /// Ten draws with a single reroll pass against immediate repeats.
    Classic,
    /// One random piece repeated a random number of times.
    Streak,
}

/// Piece-sequence generator: the universe of piece identifiers, the
/// selected policy, and the policy's memory across calls.
pub struct Randomizer {
    pub piece_list: Vec<String>,
    pub style: RandomizerStyle,
    pub remembered_piece: Option<String>,
}

/// No entry of `dis` has the same characters as `x`.
pub open spec fn allowed(dis: Seq<String>, x: String) -> bool {
    forall|i: int| 0 <= i < dis.len() ==> (#[trigger] dis[i])@ != x@
}

/// Some entry of `s` differs from `p` in its characters.
pub open spec fn has_other(s: Seq<String>, p: String) -> bool {
    exists|i: int| 0 <= i < s.len() && (#[trigger] s[i])@ != p@
}

/// What one Minus1Bag call guarantees: with fewer than two pieces the
/// whole shuffled list comes back and the memory is untouched;
/// otherwise exactly one piece is removed and remembered, and whenever
/// the list holds any piece other than the previously remembered one,
/// the removed piece differs from that previous one.
pub open spec fn minus_one_post(pre: Randomizer, post: Randomizer, out: Seq<String>) -> bool {
    &&& pre.piece_list@.len() < 2 ==> out.to_multiset() == pre.piece_list@.to_multiset()
        && post.remembered_piece == pre.remembered_piece
    &&& pre.piece_list@.len() >= 2 ==> {
        &&& out.len() == pre.piece_list@.len() - 1
        &&& post.remembered_piece matches Some(x) && out.to_multiset().insert(x)
            == pre.piece_list@.to_multiset() && (match pre.remembered_piece {
            Some(p) => has_other(pre.piece_list@, p) ==> x@ != p@,
            None => true,
        })
    }
}

/// An NBag batch holds each catalog piece exactly once: any sequence
/// with exactly the catalog's multiset of pieces — as `generate_pieces`
/// guarantees for the NBag policy — has the catalog's length and counts
/// every catalog entry once, provided the catalog has no duplicates.
pub proof fn lemma_nbag_each_piece_once(catalog: Seq<String>, out: Seq<String>)
    requires
        out.to_multiset() == catalog.to_multiset(),
        catalog.no_duplicates(),
    ensures
        out.len() == catalog.len(),
        forall|i: int| 0 <= i < catalog.len() ==> out.to_multiset().count(#[trigger] catalog[i]) == 1,
        forall|i: int| 0 <= i < out.len() ==> catalog.contains(#[trigger] out[i]),
{
    catalog.lemma_multiset_has_no_duplicates();
    assert(out.to_multiset().len() == out.len());
    assert(catalog.to_multiset().len() == catalog.len());
    assert forall|i: int| 0 <= i < catalog.len() implies out.to_multiset().count(
        #[trigger] catalog[i],
    ) == 1 by {
        assert(catalog.contains(catalog[i]));
        assert(catalog.to_multiset().count(catalog[i]) > 0);
    }
    assert forall|i: int| 0 <= i < out.len() implies catalog.contains(#[trigger] out[i]) by {
        assert(out.contains(out[i]));
        assert(catalog.to_multiset().count(out[i]) > 0);
    }
}

/// Two consecutive Minus1Bag batches never exclude the same piece:
/// whenever the piece list holds at least two distinct pieces, the
/// piece remembered by the second of two consecutive calls differs
/// from the piece remembered by the first.
pub proof fn lemma_minus_one_no_repeat(
    pre: Randomizer,
    mid: Randomizer,
    post: Randomizer,
    out1: Seq<String>,
    out2: Seq<String>,
)
    requires
        pre.piece_list@.len() >= 2,
        exists|i: int, j: int|
            0 <= i < j < pre.piece_list@.len() && (#[trigger] pre.piece_list@[i])@ != (
            #[trigger] pre.piece_list@[j])@,
        mid.piece_list == pre.piece_list,
        minus_one_post(pre, mid, out1),
        minus_one_post(mid, post, out2),
    ensures
        mid.remembered_piece matches Some(q1) && (post.remembered_piece matches Some(q2) && q2@
            != q1@),
{
    let q1 = mid.remembered_piece->Some_0;
    let (i, j) = choose|i: int, j: int|
        0 <= i < j < pre.piece_list@.len() && (#[trigger] pre.piece_list@[i])@ != (
        #[trigger] pre.piece_list@[j])@;
    if pre.piece_list@[i]@ == q1@ {
        assert(mid.piece_list@[j]@ != q1@);
    } else {
        assert(mid.piece_list@[i]@ != q1@);
    }
    assert(has_other(mid.piece_list@, q1));
}

/// After the Classic reroll pass, the first draw no longer equals the
/// remembered piece of the previous call, provided the replacement
/// drawn for it differs from that piece (a replacement that collides
/// again is accepted, so the law holds only for a differing
/// replacement; with a single piece type no differing replacement
/// exists).
pub proof fn lemma_classic_head_differs(
    draws: Seq<String>,
    prev: String,
    repl: Seq<String>,
    out: Seq<String>,
)
    requires
        draws.len() >= 1,
        repl.len() == draws.len(),
        out[0] == (if draws[0]@ == prev@ {
            repl[0]
        } else {
            draws[0]
        }),
        draws[0]@ == prev@,
        repl[0]@ != prev@,
    ensures
        out[0]@ != prev@,
{
}

proof fn lemma_pop_multiset(pre: Seq<String>, post: Seq<String>)
    requires
        pre.len() > 0,
        post == pre.subrange(0, pre.len() - 1),
    ensures
        post.to_multiset().insert(pre[pre.len() - 1]) =~= pre.to_multiset(),
{
    assert(post =~= pre.remove(pre.len() - 1));
    assert(pre.remove(pre.len() - 1).to_multiset() == pre.to_multiset().remove(
        pre[pre.len() - 1],
    ));
    assert(pre.contains(pre[pre.len() - 1]));
    assert(pre.to_multiset().count(pre[pre.len() - 1]) > 0);
}

/// Swaps two entries of the bag.
fn swap_pieces(bag: &mut Vec<String>, i: usize, j: usize)
    requires
        i < old(bag)@.len(),
        j < old(bag)@.len(),
    ensures
        final(bag)@ == old(bag)@.update(i as int, old(bag)@[j as int]).update(
            j as int,
            old(bag)@[i as int],
        ),
        final(bag)@.to_multiset() == old(bag)@.to_multiset(),
        final(bag)@.len() == old(bag)@.len(),
{
    let a = bag[i].clone();
    let b = bag[j].clone();
    bag[i] = b;
    bag[j] = a;
    proof {
        assert(old(bag)@.contains(old(bag)@[i as int]));
        assert(old(bag)@.contains(old(bag)@[j as int]));
        assert(bag@.to_multiset() =~= old(bag)@.to_multiset());
    }
}

/// Shuffles the bag in place; the bag keeps exactly the same pieces.
fn randomize(bag: &mut Vec<String>)
    ensures
        final(bag)@.to_multiset() == old(bag)@.to_multiset(),
        final(bag)@.len() == old(bag)@.len(),
{
    let len = bag.len();
    let mut i: usize = 0;
    while i < len
        invariant
            len == bag@.len(),
            i <= len,
            bag@.to_multiset() == old(bag)@.to_multiset(),
        decreases len - i,
    {
        let j = rand_index(i, len);
        swap_pieces(bag, i, j);
        i += 1;
    }
}

/// Tests whether the bag holds a piece with the same characters as `x`.
fn contains_piece(dis: &Vec<String>, x: &String) -> (b: bool)
    ensures
        b == !allowed(dis@, *x),
{
    let mut i: usize = 0;
    while i < dis.len()
        invariant
            i <= dis@.len(),
            forall|k: int| 0 <= k < i ==> (#[trigger] dis@[k])@ != x@,
        decreases dis@.len() - i,
    {
        if dis[i] == *x {
            return true;
        }
        i += 1;
    }
    false
}

/// The reroll pass of the Classic policy: the first draw is replaced
/// when it matches the remembered piece of the previous call, and each
/// later draw is replaced when it matches its (possibly already
/// replaced) predecessor. Replacements are used positionally, one per
/// draw, and a replacement is never itself rerolled.
pub fn classic_reroll(draws: Vec<String>, prev: &Option<String>, replacements: Vec<String>) -> (out:
    Vec<String>)
    requires
        draws@.len() == replacements@.len(),
        draws@.len() >= 1,
    ensures
        out@.len() == draws@.len(),
        out@[0] == (match *prev {
            Some(p) => if draws@[0]@ == p@ {
                replacements@[0]
            } else {
                draws@[0]
            },
            None => draws@[0],
        }),
        forall|i: int|
            1 <= i < out@.len() ==> out@[i] == (if draws@[i]@ == out@[i - 1]@ {
                replacements@[i]
            } else {
                draws@[i]
            }),
{
    let mut out = draws;
    let ghost d0 = out@;
    match prev {
        Some(p) => {
            if out[0] == *p {
                out[0] = replacements[0].clone();
            }
        },
        None => {},
    }
    let mut i: usize = 1;
    while i < out.len()
        invariant
            1 <= i <= out@.len(),
            out@.len() == d0.len(),
            replacements@.len() == d0.len(),
            forall|k: int| i <= k < d0.len() ==> out@[k] == d0[k],
            out@[0] == (match *prev {
                Some(p) => if d0[0]@ == p@ {
                    replacements@[0]
                } else {
                    d0[0]
                },
                None => d0[0],
            }),
            forall|k: int|
                1 <= k < i ==> out@[k] == (if d0[k]@ == out@[k - 1]@ {
                    replacements@[k]
                } else {
                    d0[k]
                }),
        decreases out@.len() - i,
    {
        if out[i] == out[i - 1] {
            out[i] = replacements[i].clone();
        }
        i += 1;
    }
    out
}

/// Moves an allowed piece into the tail draw position when the tail is
/// disallowed: scanning from the second-to-last position downward, the
/// first allowed piece found is swapped with the tail; when every piece
/// is disallowed the sequence is left as it is.
pub fn fix_starting_piece(list: &mut Vec<String>, disallowed: &Vec<String>)
    requires
        old(list)@.len() >= 1,
    ensures
        final(list)@.len() == old(list)@.len(),
        final(list)@.to_multiset() == old(list)@.to_multiset(),
        allowed(disallowed@, old(list)@[old(list)@.len() - 1]) ==> final(list)@ == old(list)@,
        !allowed(disallowed@, old(list)@[old(list)@.len() - 1]) ==> ((exists|j: int|
            0 <= j < old(list)@.len() - 1 && allowed(disallowed@, #[trigger] old(list)@[j])
                && (forall|k: int|
                j < k < old(list)@.len() - 1 ==> !allowed(disallowed@, #[trigger] old(list)@[k]))
                && final(list)@ == old(list)@.update(j, old(list)@[old(list)@.len() - 1]).update(
                old(list)@.len() - 1,
                old(list)@[j],
            )) || ((forall|k: int|
            0 <= k < old(list)@.len() - 1 ==> !allowed(disallowed@, #[trigger] old(list)@[k]))
            && final(list)@ == old(list)@)),
        (exists|i: int| 0 <= i < final(list)@.len() && allowed(disallowed@, #[trigger] final(list)@[i]))
            ==> allowed(disallowed@, final(list)@[final(list)@.len() - 1]),
{
    let len = list.len();
    if contains_piece(disallowed, &list[len - 1]) {
        let mut idx: usize = len - 1;
        while idx > 0
            invariant
                idx <= len - 1,
                len == list@.len(),
                list@ == old(list)@,
                !allowed(disallowed@, list@[len - 1]),
                forall|k: int| idx <= k < len - 1 ==> !allowed(disallowed@, #[trigger] list@[k]),
            decreases idx,
        {
            let j = idx - 1;
            if !contains_piece(disallowed, &list[j]) {
                swap_pieces(list, j, len - 1);
                proof {
                    assert(final(list)@[len - 1] == old(list)@[j as int]);
                    assert(allowed(disallowed@, list@[len - 1 as int]));
                }
                return ;
            }
            idx = j;
        }
        // every earlier piece is disallowed as well: leave the sequence as it is
        proof {
            assert forall|i: int|
                0 <= i < list@.len() && allowed(disallowed@, #[trigger] list@[i]) implies false by {
            }
        }
    }
}

impl Randomizer {
    /// Builds a generator over the given piece identifiers with the
    /// given policy and no remembered piece.
    pub fn new(piece_list: Vec<String>, style: RandomizerStyle) -> (r: Randomizer)
        ensures
            r.piece_list == piece_list,
            r.style == style,
            r.remembered_piece is None,
    {
        Randomizer { piece_list, style, remembered_piece: None }
    }

    /// A shuffled permutation of the full piece catalog.
    fn n_bag(&self) -> (bag: Vec<String>)
        ensures
            bag@.to_multiset() == self.piece_list@.to_multiset(),
            bag@.len() == self.piece_list@.len(),
    {
        let mut bag = self.piece_list.clone();
        proof {
            assert(bag@ =~= self.piece_list@);
        }
        randomize(&mut bag);
        bag
    }

    /// A shuffled permutation of the catalog concatenated with itself:
    /// each piece appears exactly twice.
    fn double_n_bag(&self) -> (bag: Vec<String>)
        ensures
            bag@.to_multiset() == (self.piece_list@ + self.piece_list@).to_multiset(),
            bag@.len() == 2 * self.piece_list@.len(),
    {
        let mut bag = self.piece_list.clone();
        let mut second = self.piece_list.clone();
        bag.append(&mut second);
        proof {
            assert(bag@ =~= self.piece_list@ + self.piece_list@);
        }
        randomize(&mut bag);
        bag
    }

    /// A shuffled full bag with one piece removed from the tail; the
    /// removed piece is remembered and is never the same on two
    /// consecutive calls, as long as the bag holds any other piece.
    fn minus_1_bag(&mut self) -> (bag: Vec<String>)
        ensures
            final(self).piece_list == old(self).piece_list,
            final(self).style == old(self).style,
            minus_one_post(*old(self), *final(self), bag@),
    {
        let mut bag = self.piece_list.clone();
        proof {
            assert(bag@ =~= self.piece_list@);
        }
        randomize(&mut bag);
        if bag.len() < 2 {
            return bag;
        }
        let ghost bag0 = bag@;
        let remembered = self.remembered_piece.clone();
        match remembered {
            Some(piece) => {
                let mut removed = bag.pop().unwrap();
                let mut tested: Vec<String> = Vec::new();
                proof {
                    lemma_pop_multiset(bag0, bag@);
                    assert(tested@.to_multiset() =~= Multiset::<String>::empty());
                    assert(bag@.to_multiset().insert(removed).add(tested@.to_multiset())
                        =~= bag0.to_multiset());
                }
                while removed == piece && bag.len() > 0
                    invariant
                        bag@.to_multiset().insert(removed).add(tested@.to_multiset())
                            == bag0.to_multiset(),
                        forall|t: int| 0 <= t < tested@.len() ==> (#[trigger] tested@[t])@ == piece@,
                    decreases bag@.len(),
                {
                    let ghost bag_mid = bag@;
                    let ghost removed_mid = removed;
                    let ghost tested_mid = tested@;
                    tested.push(removed);
                    removed = bag.pop().unwrap();
                    proof {
                        lemma_pop_multiset(bag_mid, bag@);
                        assert(tested@.to_multiset() =~= tested_mid.to_multiset().insert(
                            removed_mid,
                        ));
                        assert(bag@.to_multiset().insert(removed).add(tested@.to_multiset())
                            =~= bag0.to_multiset());
                    }
                }
                proof {
                    if has_other(self.piece_list@, piece) && removed@ == piece@ {
                        let w = choose|w: int|
                            0 <= w < self.piece_list@.len() && (#[trigger] self.piece_list@[w])@
                                != piece@;
                        let x = self.piece_list@[w];
                        assert(self.piece_list@.contains(x));
                        assert(self.piece_list@.to_multiset().count(x) > 0);
                        assert(bag0.to_multiset().count(x) > 0);
                        assert(bag@.len() == 0);
                        assert(!bag@.contains(x));
                        assert(bag@.to_multiset().count(x) == 0);
                        assert(x != removed);
                        assert(tested@.to_multiset().count(x) > 0);
                        assert(tested@.contains(x));
                        let t = choose|t: int| 0 <= t < tested@.len() && tested@[t] == x;
                        assert(tested@[t]@ == piece@);
                        assert(false);
                    }
                }
                let ghost rem = removed;
                let ghost bag_pre = bag@;
                let ghost tested_pre = tested@;
                self.remembered_piece = Some(removed);
                bag.append(&mut tested);
                proof {
                    assert((bag_pre + tested_pre).to_multiset() == bag_pre.to_multiset().add(
                        tested_pre.to_multiset(),
                    ));
                    assert(bag@.to_multiset().insert(rem) =~= bag0.to_multiset());
                    assert(bag@.to_multiset().len() == bag@.len());
                    assert(bag0.to_multiset().len() == bag0.len());
                }
            },
            None => {
                let removed = bag.pop().unwrap();
                proof {
                    lemma_pop_multiset(bag0, bag@);
                    assert(bag@.to_multiset().insert(removed) =~= bag0.to_multiset());
                }
                self.remembered_piece = Some(removed);
            },
        }
        bag
    }

    /// Ten independent uniform draws from the catalog, with replacement.
    fn full_random(&self) -> (pieces: Vec<String>)
        requires
            self.piece_list@.len() >= 1,
        ensures
            pieces@.len() == 10,
            forall|k: int| 0 <= k < 10 ==> self.piece_list@.contains(#[trigger] pieces@[k]),
    {
        let mut pieces: Vec<String> = Vec::new();
        let mut n: usize = 0;
        while n < 10
            invariant
                self.piece_list@.len() >= 1,
                pieces@.len() == n,
                n <= 10,
                forall|k: int| 0 <= k < n ==> self.piece_list@.contains(#[trigger] pieces@[k]),
            decreases 10 - n,
        {
            let r = rand_index(0, self.piece_list.len());
            let drawn = self.piece_list[r].clone();
            pieces.push(drawn);
            proof {
                assert(pieces@[n as int] == self.piece_list@[r as int]);
                assert(self.piece_list@.contains(pieces@[n as int]));
            }
            n += 1;
        }
        pieces
    }

    /// Ten uniform draws followed by the single reroll pass of the
    /// Classic policy; the last piece of the result is remembered.
    fn classic(&mut self) -> (pieces: Vec<String>)
        requires
            old(self).piece_list@.len() >= 1,
        ensures
            final(self).piece_list == old(self).piece_list,
            final(self).style == old(self).style,
            pieces@.len() == 10,
            forall|k: int| 0 <= k < 10 ==> old(self).piece_list@.contains(#[trigger] pieces@[k]),
            final(self).remembered_piece matches Some(q) && q == pieces@[9],
    {
        let draws = self.full_random();
        let replacements = self.full_random();
        let ghost d = draws@;
        let ghost rp = replacements@;
        let pieces = classic_reroll(draws, &self.remembered_piece, replacements);
        proof {
            assert forall|k: int| 0 <= k < 10 implies self.piece_list@.contains(
                #[trigger] pieces@[k],
            ) by {
                assert(self.piece_list@.contains(d[k]));
                assert(self.piece_list@.contains(rp[k]));
                if k >= 1 {
                    assert(pieces@[k] == (if d[k]@ == pieces@[k - 1]@ {
                        rp[k]
                    } else {
                        d[k]
                    }));
                }
            }
        }
        let last = pieces[pieces.len() - 1].clone();
        self.remembered_piece = Some(last);
        pieces
    }

    /// One piece drawn uniformly at random, repeated between two and
    /// five times.
    fn streak(&mut self) -> (pieces: Vec<String>)
        requires
            old(self).piece_list@.len() >= 1,
        ensures
            *final(self) == *old(self),
            2 <= pieces@.len() < 6,
            forall|k: int| 0 <= k < pieces@.len() ==> #[trigger] pieces@[k] == pieces@[0],
            old(self).piece_list@.contains(pieces@[0]),
    {
        let r = rand_index(0, self.piece_list.len());
        let piece = self.piece_list[r].clone();
        let count = rand_index(2, 6);
        let mut pieces: Vec<String> = Vec::new();
        let mut n: usize = 0;
        while n < count
            invariant
                pieces@.len() == n,
                n <= count,
                forall|k: int| 0 <= k < n ==> #[trigger] pieces@[k] == piece,
            decreases count - n,
        {
            pieces.push(piece.clone());
            n += 1;
        }
        pieces
    }

    /// Generates the next ordered batch of piece identifiers under the
    /// configured policy. When a `cannot_start_with` set is supplied and
    /// the tail piece (the first one a consumer will pop) is disallowed,
    /// an allowed piece is swapped into the tail position if one exists.
    pub fn generate_pieces(&mut self, cannot_start_with: &Option<Vec<String>>) -> (pieces: Vec<
        String,
    >)
        requires
            old(self).piece_list@.len() >= 1,
        ensures
            final(self).piece_list == old(self).piece_list,
            final(self).style == old(self).style,
            pieces@.len() >= 1,
            old(self).style is NBag ==> pieces@.to_multiset() == old(self).piece_list@.to_multiset()
                && final(self).remembered_piece == old(self).remembered_piece,
            old(self).style is DoubleNBag ==> pieces@.to_multiset() == (old(self).piece_list@ + old(
                self,
            ).piece_list@).to_multiset() && final(self).remembered_piece == old(
                self,
            ).remembered_piece,
            old(self).style is Minus1Bag ==> minus_one_post(*old(self), *final(self), pieces@),
            old(self).style is FullRandom ==> pieces@.len() == 10 && (forall|k: int|
                0 <= k < 10 ==> exists|w: int|
                    0 <= w < old(self).piece_list@.len() && old(self).piece_list@[w]
                        == #[trigger] pieces@[k]) && final(self).remembered_piece == old(
                self,
            ).remembered_piece,
            old(self).style is Classic ==> pieces@.len() == 10 && (forall|k: int|
                0 <= k < 10 ==> exists|w: int|
                    0 <= w < old(self).piece_list@.len() && old(self).piece_list@[w]
                        == #[trigger] pieces@[k]) && (final(self).remembered_piece matches Some(q)
                && old(self).piece_list@.contains(q)) && ((*cannot_start_with) is None ==> final(self).remembered_piece == Some(pieces@[9])),
            old(self).style is Streak ==> 2 <= pieces@.len() < 6 && (forall|k: int|
                0 <= k < pieces@.len() ==> (#[trigger] pieces@[k])@ == pieces@[0]@) && (exists|w: int|
                0 <= w < old(self).piece_list@.len() && old(self).piece_list@[w]@ == pieces@[0]@)
                && final(self).remembered_piece == old(self).remembered_piece,
            match *cannot_start_with {
                Some(dis) => (exists|i: int|
                    0 <= i < pieces@.len() && allowed(dis@, #[trigger] pieces@[i])) ==> allowed(
                    dis@,
                    pieces@[pieces@.len() - 1],
                ),
                None => true,
            },
    {
        let mut new_pieces: Vec<String>;
        match self.style {
            RandomizerStyle::NBag => {
                new_pieces = self.n_bag();
            },
            RandomizerStyle::DoubleNBag => {
                new_pieces = self.double_n_bag();
            },
            RandomizerStyle::Minus1Bag => {
                new_pieces = self.minus_1_bag();
            },
            RandomizerStyle::FullRandom => {
                new_pieces = self.full_random();
            },
            RandomizerStyle::Classic => {
                new_pieces = self.classic();
            },
            RandomizerStyle::Streak => {
                new_pieces = self.streak();
            },
        }
        proof {
            if old(self).style is Minus1Bag && old(self).piece_list@.len() < 2 {
                assert(new_pieces@.to_multiset().len() == new_pieces@.len());
                assert(old(self).piece_list@.to_multiset().len() == old(self).piece_list@.len());
            }
        }
        let ghost before_fix = new_pieces@;
        if let Some(disallowed) = cannot_start_with {
            fix_starting_piece(&mut new_pieces, disallowed);
            proof {
                assert forall|k: int|
                    0 <= k < new_pieces@.len() implies before_fix.contains(
                    #[trigger] new_pieces@[k],
                ) by {
                    assert(new_pieces@.contains(new_pieces@[k]));
                    assert(before_fix.to_multiset().count(new_pieces@[k]) > 0);
                }
            }
        }
        new_pieces
    }
}

} // verus!
