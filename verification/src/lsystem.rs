//! A generic L-system: a rewriting system that maps each letter of a
//! sentence either to a replacement sequence (when the production rule
//! fires) or to itself, and can be iterated.

use core::marker::PhantomData;
use vstd::prelude::*;

verus! {

/// The per-letter seed handed to the production rule: the sentence seed
/// advanced by the letter's position, wrapping on overflow.
pub open spec fn seed_at(seed: u32, i: int) -> u32 {
    seed.wrapping_add(i as u32)
}

/// One letter's contribution to a rewriting pass: the production rule
/// replaced it with a sequence of its choosing, or declined (returned
/// nothing) and the letter survives as a clone of itself.
pub open spec fn step_result<Alphabet, P: Fn(&Alphabet, u32) -> Option<Vec<Alphabet>>>(
    p: P,
    letter: Alphabet,
    s: u32,
    seg: Seq<Alphabet>,
) -> bool
    where Alphabet: Clone
{
    (exists|v: Vec<Alphabet>|
        #[trigger] call_ensures(p, (&letter, s), Some(v)) && seg == v@) || (call_ensures(
        p,
        (&letter, s),
        Option::<Vec<Alphabet>>::None,
    ) && seg.len() == 1 && cloned(letter, seg[0]))
}

/// One full rewriting pass: the output is the concatenation, in order, of
/// one contribution per input letter, each produced under that letter's
/// seed.
pub open spec fn rewrites_to<Alphabet, P: Fn(&Alphabet, u32) -> Option<Vec<Alphabet>>>(
    p: P,
    input: Seq<Alphabet>,
    seed: u32,
    output: Seq<Alphabet>,
) -> bool
    where Alphabet: Clone
{
    exists|segs: Seq<Seq<Alphabet>>|
        {
            &&& segs.len() == input.len()
            &&& (#[trigger] segs.flatten()) == output
            &&& forall|i: int|
                0 <= i < input.len() ==> step_result(p, input[i], seed_at(seed, i), #[trigger] segs[i])
        }
}

/// An L-system over the letters of `Alphabet`, driven by a production rule
/// that maps a letter and a seed to an optional replacement.
#[verifier::reject_recursive_types(Alphabet)]
pub struct LSystem<Alphabet: Clone, P: Fn(&Alphabet, u32) -> Option<Vec<Alphabet>>> {
    producer: P,
    phantom: PhantomData<Alphabet>,
}

impl<Alphabet: Clone, P: Fn(&Alphabet, u32) -> Option<Vec<Alphabet>>> LSystem<Alphabet, P> {
    /// The production rule this system rewrites with.
    pub closed spec fn producer(self) -> P {
        self.producer
    }

    /// An L-system rewriting with `producer`.
    pub fn new(producer: P) -> (r: Self)
        ensures
            r.producer() == producer,
    {
        LSystem { producer, phantom: PhantomData }
    }

    /// One rewriting pass over `sentence`: each letter is replaced by what
    /// the production rule returns for it, or kept (cloned) when the rule
    /// declines. The rule sees the sentence seed advanced by the letter's
    /// position.
    pub fn apply_to(&self, sentence: &Vec<Alphabet>, seed: u32) -> (r: Vec<Alphabet>)
        requires
            forall|i: int|
                0 <= i < sentence.len() ==> call_requires(
                    self.producer(),
                    (&sentence[i], seed_at(seed, i)),
                ),
        ensures
            rewrites_to(self.producer(), sentence@, seed, r@),
    {
        let mut new_sentence: Vec<Alphabet> = Vec::new();
        let ghost mut segs: Seq<Seq<Alphabet>> = Seq::empty();
        let mut i: usize = 0;
        while i < sentence.len()
            invariant
                forall|j: int|
                    0 <= j < sentence.len() ==> call_requires(
                        self.producer(),
                        (&sentence[j], seed_at(seed, j)),
                    ),
                i <= sentence.len(),
                segs.len() == i,
                new_sentence@ == segs.flatten(),
                forall|j: int|
                    0 <= j < i ==> step_result(
                        self.producer(),
                        sentence@[j],
                        seed_at(seed, j),
                        #[trigger] segs[j],
                    ),
            decreases sentence.len() - i,
        {
            let letter = &sentence[i];
            let s = seed.wrapping_add(i as u32);
            proof {
                assert(s == seed_at(seed, i as int));
                assert(call_requires(self.producer(), (&sentence[i as int], s)));
            }
            match (self.producer)(letter, s) {
                Some(mut rhs) => {
                    proof {
                        segs.lemma_flatten_push(rhs@);
                        segs = segs.push(rhs@);
                    }
                    new_sentence.append(&mut rhs);
                },
                None => {
                    let kept = letter.clone();
                    let ghost one = seq![kept];
                    proof {
                        segs.lemma_flatten_push(one);
                        segs = segs.push(one);
                    }
                    new_sentence.push(kept);
                    proof {
                        assert(new_sentence@ =~= segs.flatten());
                    }
                },
            }
            i += 1;
        }
        proof {
            assert(segs.flatten() == new_sentence@);
        }
        new_sentence
    }

    /// Applies `iterations` rewriting passes, each with the same sentence
    /// seed. With no iterations the result is the empty sentence.
    pub fn iterate(&self, sentence: &Vec<Alphabet>, iterations: u32, seed: u32) -> (r: Vec<
        Alphabet,
    >)
        requires
            forall|a: Alphabet, s: u32| #[trigger] call_requires(self.producer(), (&a, s)),
        ensures
            iterations == 0 ==> r@ == Seq::<Alphabet>::empty(),
            iterations >= 1 ==> exists|chain: Seq<Seq<Alphabet>>|
                {
                    &&& chain.len() == iterations + 1
                    &&& chain[0] == sentence@
                    &&& (forall|k: int|
                        0 <= k < iterations ==> rewrites_to(
                            self.producer(),
                            #[trigger] chain[k],
                            seed,
                            chain[k + 1],
                        ))
                    &&& r@ == chain[iterations as int]
                },
    {
        if iterations == 0 {
            let empty: Vec<Alphabet> = Vec::new();
            return empty;
        }
        let mut ret_sentence = self.apply_to(sentence, seed);
        let ghost mut chain: Seq<Seq<Alphabet>> = seq![sentence@, ret_sentence@];
        let mut it: u32 = 1;
        while it < iterations
            invariant
                forall|a: Alphabet, s: u32| #[trigger] call_requires(self.producer(), (&a, s)),
                1 <= it <= iterations,
                chain.len() == it + 1,
                chain[0] == sentence@,
                forall|k: int|
                    0 <= k < it ==> rewrites_to(self.producer(), #[trigger] chain[k], seed, chain[k + 1]),
                ret_sentence@ == chain[it as int],
            decreases iterations - it,
        {
            let next = self.apply_to(&ret_sentence, seed);
            proof {
                chain = chain.push(next@);
            }
            ret_sentence = next;
            it += 1;
        }
        ret_sentence
    }
}

} // verus!
