//! Lane arrangement modifiers (Mirror, Random, Panic).
//!
//! These modifiers transform a note's visual lane at spawn time. Key-to-lane
//! mapping always stays on the original lane — the modifier only affects the
//! visual note position, not input.
use vstd::prelude::*;
use std::collections::HashMap;
use crate::ojn::{Channel, NoteEvent, NoteType, spec_channel_ok, spec_in_last_sixteenth};

verus! {

broadcast use vstd::std_specs::hash::group_hash_axioms;

/// Swaps two elements of a slice (std `slice::swap`): the element at `a`
/// takes the value at `b` and the other way round. Panics when either index
/// is out of bounds, which `requires` leaves out.
pub assume_specification<Elem>[ <[Elem]>::swap ](s: &mut [Elem], a: usize, b: usize)
    requires
        a < old(s)@.len(),
        b < old(s)@.len(),
    ensures
        final(s)@ == old(s)@.update(a as int, old(s)@[b as int]).update(b as int, old(s)@[a as int]),
;

// ---------------------------------------------------------------------------
// Deterministic random numbers
// ---------------------------------------------------------------------------

/// Seed actually used by the generator (zero is replaced).
pub open spec fn spec_seed(seed: u64) -> u64 {
    if seed == 0 {
        0x5DEECE66D
    } else {
        seed
    }
}

/// One step of the linear congruential generator.
#[verifier::opaque]
pub open spec fn lcg_next(x: u64) -> u64 {
    x.wrapping_mul(6364136223846793005).wrapping_add(1)
}

/// Fisher–Yates steps for indices `i, i-1, ..., 1`: the generator state and
/// the sequence after them.
pub open spec fn spec_shuffle_from<T>(state: u64, s: Seq<T>, i: int) -> (u64, Seq<T>)
    decreases i,
{
    if i < 1 {
        (state, s)
    } else {
        let st = lcg_next(state);
        let j = (st as int) % (i + 1);
        spec_shuffle_from(st, s.update(i, s[j]).update(j, s[i]), i - 1)
    }
}

/// A full shuffle of `s` from generator state `state`.
pub open spec fn spec_shuffle<T>(state: u64, s: Seq<T>) -> (u64, Seq<T>) {
    spec_shuffle_from(state, s, s.len() - 1)
}

/// Exchanging two positions keeps the length, the elements, and their
/// distinctness.
pub proof fn lemma_swap_keeps_elements<T>(s: Seq<T>, i: int, j: int)
    requires
        0 <= j <= i < s.len(),
    ensures
        ({
            let t = s.update(i, s[j]).update(j, s[i]);
            &&& t.len() == s.len()
            &&& forall|x: T| t.contains(x) <==> s.contains(x)
            &&& s.no_duplicates() ==> t.no_duplicates()
        }),
{
    let t = s.update(i, s[j]).update(j, s[i]);
    assert forall|x: T| t.contains(x) implies s.contains(x) by {
        let k = choose|k: int| 0 <= k < t.len() && t[k] == x;
        if k == i {
            assert(s[j] == x || s[i] == x);
        } else if k == j {
            assert(s[i] == x);
        } else {
            assert(s[k] == x);
        }
    }
    assert forall|x: T| s.contains(x) implies t.contains(x) by {
        let k = choose|k: int| 0 <= k < s.len() && s[k] == x;
        if k == i {
            assert(t[j] == x);
        } else if k == j {
            if i == j {
                assert(t[j] == x);
            } else {
                assert(t[i] == x);
            }
        } else {
            assert(t[k] == x);
        }
    }
    if s.no_duplicates() {
        assert forall|a: int, b: int| 0 <= a < t.len() && 0 <= b < t.len() && a != b implies t[a]
            != t[b] by {
            let pa = if a == i {
                j
            } else if a == j {
                i
            } else {
                a
            };
            let pb = if b == i {
                j
            } else if b == j {
                i
            } else {
                b
            };
            if i == j {
                assert(t[a] == s[a] && t[b] == s[b]);
            } else {
                assert(t[a] == s[pa]);
                assert(t[b] == s[pb]);
            }
        }
    }
}

/// A shuffle is a permutation: same length, same elements, and distinct
/// elements stay distinct.
pub proof fn lemma_shuffle_from_permutes<T>(state: u64, s: Seq<T>, i: int)
    requires
        i < s.len(),
    ensures
        ({
            let t = spec_shuffle_from(state, s, i).1;
            &&& t.len() == s.len()
            &&& forall|x: T| t.contains(x) <==> s.contains(x)
            &&& s.no_duplicates() ==> t.no_duplicates()
        }),
    decreases i,
{
    if i >= 1 {
        let st = lcg_next(state);
        let j = (st as int) % (i + 1);
        assert(0 <= j <= i);
        let t = s.update(i, s[j]).update(j, s[i]);
        assert(spec_shuffle_from(state, s, i) == spec_shuffle_from(st, t, i - 1));
        lemma_swap_keeps_elements(s, i, j);
        lemma_shuffle_from_permutes(st, t, i - 1);
        let r = spec_shuffle_from(st, t, i - 1).1;
        assert forall|x: T| r.contains(x) <==> s.contains(x) by {
            assert(r.contains(x) <==> t.contains(x));
            assert(t.contains(x) <==> s.contains(x));
        }
    }
}

/// A full shuffle is a permutation of its input.
pub proof fn lemma_shuffle_permutes<T>(state: u64, s: Seq<T>)
    ensures
        ({
            let t = spec_shuffle(state, s).1;
            &&& t.len() == s.len()
            &&& forall|x: T| t.contains(x) <==> s.contains(x)
            &&& s.no_duplicates() ==> t.no_duplicates()
        }),
{
    lemma_shuffle_from_permutes(state, s, s.len() - 1);
}

/// Exchanging two positions keeps the multiset of elements.
pub proof fn lemma_swap_keeps_multiset<T>(s: Seq<T>, i: int, j: int)
    requires
        0 <= i < s.len(),
        0 <= j < s.len(),
    ensures
        s.update(i, s[j]).update(j, s[i]).to_multiset() == s.to_multiset(),
{
    broadcast use
        vstd::seq_lib::to_multiset_update,
        vstd::seq_lib::to_multiset_contains,
        vstd::multiset::group_multiset_axioms,
    ;

    if i == j {
        assert(s.update(i, s[j]).update(j, s[i]) =~= s);
    } else {
        let u = s.update(i, s[j]);
        assert(u[j] == s[j]);
        assert(u.to_multiset() == s.to_multiset().insert(s[j]).remove(s[i]));
        assert(u.update(j, s[i]).to_multiset() == u.to_multiset().insert(s[i]).remove(s[j]));
        let m = s.to_multiset();
        assert(s.contains(s[i]));
        assert(m.count(s[i]) > 0);
        assert forall|x: T| #[trigger] m.insert(s[j]).remove(s[i]).insert(s[i]).remove(s[j]).count(x)
            == m.count(x) by {}
        assert(m.insert(s[j]).remove(s[i]).insert(s[i]).remove(s[j]) =~= m);
    }
}

/// The Fisher–Yates steps from index `i` down keep the multiset.
proof fn lemma_shuffle_from_keeps_multiset<T>(state: u64, s: Seq<T>, i: int)
    requires
        i < s.len(),
    ensures
        spec_shuffle_from(state, s, i).1.to_multiset() == s.to_multiset(),
    decreases i,
{
    if i >= 1 {
        let st = lcg_next(state);
        let j = (st as int) % (i + 1);
        let t = s.update(i, s[j]).update(j, s[i]);
        lemma_swap_keeps_multiset(s, i, j);
        lemma_shuffle_from_keeps_multiset(st, t, i - 1);
    }
}

/// A shuffle rearranges its input: the result has the same multiset of
/// elements. Equal seeds shuffle equal inputs the same way, and seed zero is
/// the fixed seed 0x5DEECE66D.
pub proof fn lemma_shuffle_keeps_multiset<T>(state: u64, s: Seq<T>)
    ensures
        spec_shuffle(state, s).1.to_multiset() == s.to_multiset(),
        spec_shuffle(state, s).1.len() == s.len(),
        spec_seed(0) == spec_seed(0x5DEECE66D),
{
    if s.len() > 0 {
        lemma_shuffle_from_keeps_multiset(state, s, s.len() - 1);
    }
    lemma_shuffle_permutes(state, s);
}

/// Small deterministic generator (64-bit LCG) used to shuffle lanes.
pub struct SeededRng(u64);

impl SeededRng {
    /// The generator state.
    pub closed spec fn state(self) -> u64 {
        self.0
    }

    /// A generator from `seed` (zero is replaced by a fixed non-zero seed).
    pub fn new(seed: u64) -> (r: Self)
        ensures
            r.state() == spec_seed(seed),
    {
        SeededRng(
            if seed == 0 {
                0x5DEECE66D
            } else {
                seed
            },
        )
    }

    /// Shuffle `slice` in place (Fisher–Yates, last index first).
    pub fn shuffle<T>(&mut self, slice: &mut [T])
        ensures
            (final(self).state(), final(slice)@) == spec_shuffle(old(self).state(), old(slice)@),
    {
        let len = slice.len();
        let mut n = len;
        while n > 1
            invariant
                n <= len,
                len == slice@.len(),
                spec_shuffle(old(self).state(), old(slice)@) == spec_shuffle_from(
                    self.state(),
                    slice@,
                    n - 1,
                ),
            decreases n,
        {
            let i = n - 1;
            let j = self.next_usize(i + 1);
            slice.swap(i, j);
            n = i;
        }
    }

    /// Advance the generator and return its new state.
    pub fn next_u64(&mut self) -> (r: u64)
        ensures
            r == lcg_next(old(self).state()),
            final(self).state() == r,
    {
        self.0 = self.0.wrapping_mul(6364136223846793005).wrapping_add(1);
        proof {
            reveal(lcg_next);
        }
        self.0
    }

    /// Advance the generator and reduce its new state below `bound`.
    pub fn next_usize(&mut self, bound: usize) -> (r: usize)
        requires
            bound > 0,
        ensures
            final(self).state() == lcg_next(old(self).state()),
            r == lcg_next(old(self).state()) % (bound as u64),
            r < bound,
    {
        let x = self.next_u64();
        (x % bound as u64) as usize
    }
}

// ---------------------------------------------------------------------------
// Permutations of the seven lanes
// ---------------------------------------------------------------------------

/// The lanes in their natural order.
pub open spec fn identity7() -> Seq<usize> {
    seq![0usize, 1, 2, 3, 4, 5, 6]
}

/// `p` maps the seven lanes one-to-one onto the seven lanes.
pub open spec fn is_perm7(p: Seq<usize>) -> bool {
    &&& p.len() == 7
    &&& forall|i: int| 0 <= i < 7 ==> p[i] < 7
    &&& p.no_duplicates()
    &&& forall|l: usize| l < 7 ==> p.contains(l)
}

/// The lane permutation drawn from `seed`.
pub open spec fn spec_lane_permutation(seed: u64) -> Seq<usize> {
    spec_shuffle(spec_seed(seed), identity7()).1
}

/// Every permutation drawn from a seed is a bijection of the seven lanes.
pub proof fn lemma_lane_permutation_is_perm7(seed: u64)
    ensures
        is_perm7(spec_lane_permutation(seed)),
{
    let id = identity7();
    let p = spec_lane_permutation(seed);
    lemma_shuffle_permutes(spec_seed(seed), id);
    assert(id.no_duplicates());
    assert forall|i: int| 0 <= i < 7 implies p[i] < 7 by {
        assert(p.contains(p[i]));
        assert(id.contains(p[i]));
    }
    assert forall|l: usize| l < 7 implies p.contains(l) by {
        assert(id[l as int] == l);
        assert(id.contains(l));
    }
}

/// The six generator steps that shuffle measure 0.
proof fn lemma_measure0_generator_steps()
    ensures
        lcg_next(0x5deece66du64) == 0x1d5d64132f65942au64,
        lcg_next(0x1d5d64132f65942au64) == 0xe6a9ed606dcde163u64,
        lcg_next(0xe6a9ed606dcde163u64) == 0x82b09291029fbb68u64,
        lcg_next(0x82b09291029fbb68u64) == 0xad88b7ada7948949u64,
        lcg_next(0xad88b7ada7948949u64) == 0x5a08c7b3b8b458d6u64,
        lcg_next(0x5a08c7b3b8b458d6u64) == 0xcd22e42e2c53c79fu64,
{
    assert(lcg_next(0x5deece66du64) == 0x1d5d64132f65942au64) by {
        reveal(lcg_next);
        assert(0x5deece66dnat * 6364136223846793005nat == 0x2068291ae1d5d64132f659429nat) by (nonlinear_arith);
        assert(0x2068291ae1d5d64132f659429nat % 0x10000000000000000nat == 0x1d5d64132f659429nat) by (nonlinear_arith);
    }
    assert(lcg_next(0x1d5d64132f65942au64) == 0xe6a9ed606dcde163u64) by {
        reveal(lcg_next);
        assert(0x1d5d64132f65942anat * 6364136223846793005nat == 0xa2180f577f2aa45e6a9ed606dcde162nat) by (nonlinear_arith);
        assert(0xa2180f577f2aa45e6a9ed606dcde162nat % 0x10000000000000000nat == 0xe6a9ed606dcde162nat) by (nonlinear_arith);
    }
    assert(lcg_next(0xe6a9ed606dcde163u64) == 0x82b09291029fbb68u64) by {
        reveal(lcg_next);
        assert(0xe6a9ed606dcde163nat * 6364136223846793005nat == 0x4f94416008614c3082b09291029fbb67nat) by (nonlinear_arith);
        assert(0x4f94416008614c3082b09291029fbb67nat % 0x10000000000000000nat == 0x82b09291029fbb67nat) by (nonlinear_arith);
    }
    assert(lcg_next(0x82b09291029fbb68u64) == 0xad88b7ada7948949u64) by {
        reveal(lcg_next);
        assert(0x82b09291029fbb68nat * 6364136223846793005nat == 0x2d1688e7a49d7428ad88b7ada7948948nat) by (nonlinear_arith);
        assert(0x2d1688e7a49d7428ad88b7ada7948948nat % 0x10000000000000000nat == 0xad88b7ada7948948nat) by (nonlinear_arith);
    }
    assert(lcg_next(0xad88b7ada7948949u64) == 0x5a08c7b3b8b458d6u64) by {
        reveal(lcg_next);
        assert(0xad88b7ada7948949nat * 6364136223846793005nat == 0x3bde8cead390cfc05a08c7b3b8b458d5nat) by (nonlinear_arith);
        assert(0x3bde8cead390cfc05a08c7b3b8b458d5nat % 0x10000000000000000nat == 0x5a08c7b3b8b458d5nat) by (nonlinear_arith);
    }
    assert(lcg_next(0x5a08c7b3b8b458d6u64) == 0xcd22e42e2c53c79fu64) by {
        reveal(lcg_next);
        assert(0x5a08c7b3b8b458d6nat * 6364136223846793005nat == 0x1f0fd74d442d055ccd22e42e2c53c79enat) by (nonlinear_arith);
        assert(0x1f0fd74d442d055ccd22e42e2c53c79enat % 0x10000000000000000nat == 0xcd22e42e2c53c79enat) by (nonlinear_arith);
    }
}

/// The permutation drawn for measure 0 is not the identity (it moves lane
/// 1 to lane 6).
pub proof fn lemma_measure0_permutation_not_identity()
    ensures
        spec_lane_permutation(0) != identity7(),
        spec_lane_permutation(0)[1] == 6,
{
    lemma_measure0_generator_steps();
    let x0: u64 = 0x5deece66d;
    let x1: u64 = 0x1d5d64132f65942a;
    let x2: u64 = 0xe6a9ed606dcde163;
    let x3: u64 = 0x82b09291029fbb68;
    let x4: u64 = 0xad88b7ada7948949;
    let x5: u64 = 0x5a08c7b3b8b458d6;
    let x6: u64 = 0xcd22e42e2c53c79f;
    assert(x1 % 7 == 3 && x2 % 6 == 5 && x3 % 5 == 4 && x4 % 4 == 1 && x5 % 3 == 2 && x6 % 2 == 1);
    let p0 = identity7();
    let p1 = p0.update(6, p0[3]).update(3, p0[6]);
    let p2 = p1.update(5, p1[5]).update(5, p1[5]);
    let p3 = p2.update(4, p2[4]).update(4, p2[4]);
    let p4 = p3.update(3, p3[1]).update(1, p3[3]);
    let p5 = p4.update(2, p4[2]).update(2, p4[2]);
    let p6 = p5.update(1, p5[1]).update(1, p5[1]);
    assert(spec_shuffle_from(x0, p0, 6) == spec_shuffle_from(x1, p1, 5));
    assert(spec_shuffle_from(x1, p1, 5) == spec_shuffle_from(x2, p2, 4));
    assert(spec_shuffle_from(x2, p2, 4) == spec_shuffle_from(x3, p3, 3));
    assert(spec_shuffle_from(x3, p3, 3) == spec_shuffle_from(x4, p4, 2));
    assert(spec_shuffle_from(x4, p4, 2) == spec_shuffle_from(x5, p5, 1));
    assert(spec_shuffle_from(x5, p5, 1) == spec_shuffle_from(x6, p6, 0));
    assert(p6[1] == 6);
    assert(identity7()[1] == 1);
}

/// Draw the permutation of the seven lanes for `seed`.
pub fn lane_permutation(seed: u64) -> (r: [usize; 7])
    ensures
        r@ == spec_lane_permutation(seed),
        is_perm7(r@),
{
    let mut rng = SeededRng::new(seed);
    let mut perm: Vec<usize> = vec![0, 1, 2, 3, 4, 5, 6];
    assert(perm@ == identity7());
    rng.shuffle(perm.as_mut_slice());
    proof {
        lemma_shuffle_permutes(spec_seed(seed), identity7());
        lemma_lane_permutation_is_perm7(seed);
    }
    let r = [perm[0], perm[1], perm[2], perm[3], perm[4], perm[5], perm[6]];
    assert(r@ =~= perm@);
    r
}

// ---------------------------------------------------------------------------
// Mirror and Random
// ---------------------------------------------------------------------------

/// Mirror: lane `l` is shown on lane `6 - l`.
pub struct MirrorModifier;

/// Mirrored lane (lanes past 6 collapse onto lane 0).
pub open spec fn spec_mirror(lane: usize) -> usize {
    if lane <= 6 {
        (6 - lane) as usize
    } else {
        0
    }
}

impl MirrorModifier {
    /// Lane shown for `lane`.
    pub fn transform(
        &self,
        lane: usize,
        _measure: u32,
        _note_type: NoteType,
        _is_release: bool,
        _occupied: &[usize],
    ) -> (r: usize)
        ensures
            r == spec_mirror(lane),
    {
        6usize.saturating_sub(lane)
    }
}

/// Mirroring twice gives back every lane.
pub proof fn lemma_mirror_involution(lane: usize)
    requires
        lane < 7,
    ensures
        spec_mirror(spec_mirror(lane)) == lane,
        spec_mirror(lane) < 7,
{
}

/// Random: one permutation of the lanes for the whole chart.
pub struct RandomModifier([usize; 7]);

impl RandomModifier {
    /// The permutation in use.
    pub closed spec fn perm(self) -> Seq<usize> {
        self.0@
    }

    /// A Random modifier drawing its permutation from `seed`.
    pub fn new(seed: u64) -> (r: Self)
        ensures
            r.perm() == spec_lane_permutation(seed),
            is_perm7(r.perm()),
    {
        RandomModifier(lane_permutation(seed))
    }

    /// Lane shown for `lane` (lanes past 6 are left as they are).
    pub fn transform(
        &self,
        lane: usize,
        _measure: u32,
        _note_type: NoteType,
        _is_release: bool,
        _occupied: &[usize],
    ) -> (r: usize)
        ensures
            r == (if lane < 7 {
                self.perm()[lane as int]
            } else {
                lane
            }),
    {
        if lane < 7 {
            self.0[lane]
        } else {
            lane
        }
    }
}


// ---------------------------------------------------------------------------
// Panic: pre-computation at load time
// ---------------------------------------------------------------------------

/// Pre-computed data for the Panic modifier, built once at load time.
pub struct PanicPrecomputed {
    /// Permutation for each measure: permutations[measure][orig_lane] = visual_lane.
    /// Seed = measure. Fully deterministic.
    pub permutations: Vec<[usize; 7]>,
    /// Hot visual mask for each measure: bit i set = visual lane i had a
    /// note active in the last 1/16 of the measure.
    pub hot_masks: Vec<u8>,
}

/// Largest measure among the events (0 when there is none).
pub open spec fn spec_max_measure(notes: Seq<NoteEvent>) -> u32
    decreases notes.len(),
{
    if notes.len() == 0 {
        0
    } else {
        let m = spec_max_measure(notes.drop_last());
        if notes.last().measure > m {
            notes.last().measure
        } else {
            m
        }
    }
}

/// Every event's measure is at most the maximum.
pub proof fn lemma_max_measure_bounds(notes: Seq<NoteEvent>)
    ensures
        forall|i: int| 0 <= i < notes.len() ==> notes[i].measure <= spec_max_measure(notes),
    decreases notes.len(),
{
    if notes.len() > 0 {
        lemma_max_measure_bounds(notes.drop_last());
        assert forall|i: int| 0 <= i < notes.len() implies notes[i].measure <= spec_max_measure(
            notes,
        ) by {
            if i < notes.len() - 1 {
                assert(notes.drop_last()[i] == notes[i]);
            }
        }
    }
}

/// Bit `v` of `mask` is set.
pub open spec fn is_hot(mask: u8, v: usize) -> bool {
    (mask >> v) & 1u8 == 1u8
}

/// `mask` with bit `v` set.
pub open spec fn with_hot(mask: u8, v: usize) -> u8 {
    mask | (1u8 << v)
}

/// State of the hold simulation that builds the hot masks.
pub struct HotSim {
    pub masks: Seq<u8>,
    /// original lane → visual lane, for holds in progress
    pub lock: Map<usize, usize>,
    /// measure whose permutation is frozen while holds are in progress
    pub frozen: Option<u32>,
}

/// Visual lane the simulation gives to `lane` in `measure`.
pub open spec fn spec_sim_visual(
    perms: Seq<Seq<usize>>,
    st: HotSim,
    lane: usize,
    measure: u32,
) -> usize {
    if st.lock.contains_key(lane) {
        st.lock[lane]
    } else {
        let pm = match st.frozen {
            Some(f) => f,
            None => measure,
        };
        perms[pm as int][lane as int]
    }
}

/// One event of the hold simulation: taps and releases in the last
/// sixteenth of their measure mark their visual lane hot; hold heads lock
/// their visual lane and freeze the permutation of the measure where the
/// first hold started.
pub open spec fn spec_hot_step(perms: Seq<Seq<usize>>, st: HotSim, n: NoteEvent) -> HotSim {
    match spec_lane_index_of(n.channel) {
        None => st,
        Some(lane) => if lane >= 7 {
            st
        } else {
            let m = n.measure as int;
            let visual = spec_sim_visual(perms, st, lane, n.measure);
            match n.note_type {
                NoteType::Tap => if spec_in_last_sixteenth(n) {
                    HotSim { masks: st.masks.update(m, with_hot(st.masks[m], visual)), ..st }
                } else {
                    st
                },
                NoteType::Hold => {
                    let lock = st.lock.insert(lane, visual);
                    HotSim {
                        lock,
                        frozen: if lock.len() == 1 {
                            Some(n.measure)
                        } else {
                            st.frozen
                        },
                        ..st
                    }
                },
                NoteType::Release => {
                    let masks = if spec_in_last_sixteenth(n) && st.lock.contains_key(lane) {
                        st.masks.update(m, with_hot(st.masks[m], st.lock[lane]))
                    } else {
                        st.masks
                    };
                    let lock = st.lock.remove(lane);
                    HotSim {
                        masks,
                        lock,
                        frozen: if lock.len() == 0 {
                            None
                        } else {
                            st.frozen
                        },
                    }
                },
            }
        },
    }
}

/// Lane index of a channel as the simulation reads it.
pub open spec fn spec_lane_index_of(c: Channel) -> Option<usize> {
    crate::ojn::spec_lane_index(c)
}

/// The simulation after the first `k` events.
pub open spec fn spec_hot_fold(perms: Seq<Seq<usize>>, notes: Seq<NoteEvent>, k: int) -> HotSim
    decreases k,
{
    if k <= 0 {
        HotSim {
            masks: Seq::new((spec_max_measure(notes) + 1) as nat, |i: int| 0u8),
            lock: Map::empty(),
            frozen: None,
        }
    } else {
        spec_hot_step(perms, spec_hot_fold(perms, notes, k - 1), notes[k - 1])
    }
}

/// The permutations of measures `0..=max` of the chart.
pub open spec fn spec_panic_perms(notes: Seq<NoteEvent>) -> Seq<Seq<usize>> {
    Seq::new(
        (spec_max_measure(notes) + 1) as nat,
        |m: int| spec_lane_permutation(m as u64),
    )
}

/// The hot masks of the chart.
pub open spec fn spec_panic_masks(notes: Seq<NoteEvent>) -> Seq<u8> {
    spec_hot_fold(spec_panic_perms(notes), notes, notes.len() as int).masks
}

/// The simulation keeps one mask per measure, masks within the seven lane
/// bits, locked visual lanes within the seven lanes, and a frozen measure of
/// the chart.
pub open spec fn hot_sim_bounded(st: HotSim, max: u32) -> bool {
    &&& st.masks.len() == max + 1
    &&& forall|m: int| 0 <= m < st.masks.len() ==> #[trigger] st.masks[m] < 128
    &&& forall|l: usize| #[trigger] st.lock.contains_key(l) ==> st.lock[l] < 7
    &&& st.frozen matches Some(f) ==> f <= max
}

/// Marking a lane hot keeps a mask within the seven lane bits.
proof fn lemma_with_hot_bounded(mask: u8, v: usize)
    requires
        mask < 128,
        v < 7,
    ensures
        with_hot(mask, v) < 128,
{
    assert(mask | (1u8 << v) < 128) by (bit_vector)
        requires
            mask < 128,
            v < 7,
    ;
}

/// The simulation stays bounded over the chart's events.
proof fn lemma_hot_fold_bounded(notes: Seq<NoteEvent>, k: int)
    requires
        0 <= k <= notes.len(),
    ensures
        hot_sim_bounded(
            spec_hot_fold(spec_panic_perms(notes), notes, k),
            spec_max_measure(notes),
        ),
    decreases k,
{
    let max = spec_max_measure(notes);
    let perms = spec_panic_perms(notes);
    if k > 0 {
        lemma_hot_fold_bounded(notes, k - 1);
        lemma_max_measure_bounds(notes);
        let st = spec_hot_fold(perms, notes, k - 1);
        let n = notes[k - 1];
        assert(n.measure <= max);
        let st2 = spec_hot_step(perms, st, n);
        assert(spec_hot_fold(perms, notes, k) == st2);
        if let Some(lane) = spec_lane_index_of(n.channel) {
            if lane < 7 {
                let pm = match st.frozen {
                    Some(f) => f,
                    None => n.measure,
                };
                lemma_lane_permutation_is_perm7(pm as u64);
                assert(perms[pm as int] == spec_lane_permutation(pm as u64));
                let visual = spec_sim_visual(perms, st, lane, n.measure);
                assert(visual < 7);
                let m = n.measure as int;
                if 0 <= m < st.masks.len() {
                    lemma_with_hot_bounded(st.masks[m], visual);
                    if st.lock.contains_key(lane) {
                        lemma_with_hot_bounded(st.masks[m], st.lock[lane]);
                    }
                }
                assert forall|i: int| 0 <= i < st2.masks.len() implies #[trigger] st2.masks[i] < 128 by {
                    if i != m {
                        assert(st2.masks[i] == st.masks[i]);
                    }
                }
            }
        }
    }
}

/// The pre-computation of a chart has one permutation and one mask per
/// measure `0..=max`; every mask uses only the seven lane bits, and the
/// permutation of measure 0 is not the identity.
pub proof fn lemma_panic_precompute_shape(notes: Seq<NoteEvent>)
    ensures
        spec_panic_perms(notes).len() == spec_max_measure(notes) + 1,
        spec_panic_masks(notes).len() == spec_max_measure(notes) + 1,
        forall|m: int| 0 <= m < spec_panic_masks(notes).len() ==> #[trigger] spec_panic_masks(notes)[m] < 128,
        spec_panic_perms(notes)[0] != identity7(),
{
    lemma_hot_fold_bounded(notes, notes.len() as int);
    lemma_measure0_permutation_not_identity();
    assert(spec_panic_perms(notes)[0] == spec_lane_permutation(0));
}

impl PanicPrecomputed {
    /// The permutations as sequences.
    pub open spec fn perms(self) -> Seq<Seq<usize>> {
        self.permutations@.map_values(|p: [usize; 7]| p@)
    }

    /// One permutation and one hot mask per measure; every permutation is a
    /// bijection of the lanes.
    pub open spec fn wf(self) -> bool {
        &&& self.permutations@.len() == self.hot_masks@.len()
        &&& forall|m: int| 0 <= m < self.permutations@.len() ==> is_perm7(#[trigger] self.permutations@[m]@)
    }

    /// Build pre-computed permutations and hot masks from the chart's note
    /// events, in chart order.
    pub fn build(notes: &[NoteEvent]) -> (r: Self)
        requires
            forall|i: int| 0 <= i < notes@.len() ==> spec_channel_ok(#[trigger] notes@[i].channel),
            spec_max_measure(notes@) + 1 <= usize::MAX,
        ensures
            r.wf(),
            r.perms() == spec_panic_perms(notes@),
            r.hot_masks@ == spec_panic_masks(notes@),
    {
        let ghost ns = notes@;
        // The largest measure.
        let mut max_measure: u32 = 0;
        let mut k: usize = 0;
        while k < notes.len()
            invariant
                k <= notes@.len(),
                ns == notes@,
                max_measure == spec_max_measure(ns.take(k as int)),
            decreases notes@.len() - k,
        {
            assert(ns.take(k as int + 1).drop_last() == ns.take(k as int));
            if notes[k].measure > max_measure {
                max_measure = notes[k].measure;
            }
            k = k + 1;
        }
        assert(ns.take(k as int) == ns);
        proof {
            lemma_max_measure_bounds(ns);
        }

        // Step 1: the permutation of each measure.
        let mut permutations: Vec<[usize; 7]> = Vec::new();
        let mut m: u64 = 0;
        while m <= max_measure as u64
            invariant
                m <= max_measure as u64 + 1,
                max_measure == spec_max_measure(ns),
                permutations@.len() == m,
                forall|i: int| 0 <= i < m ==> #[trigger] permutations@[i]@ == spec_lane_permutation(i as u64),
                forall|i: int| 0 <= i < m ==> is_perm7(#[trigger] permutations@[i]@),
            decreases max_measure as u64 + 1 - m,
        {
            let p = lane_permutation(m);
            permutations.push(p);
            m = m + 1;
        }
        let ghost perms = permutations@.map_values(|p: [usize; 7]| p@);
        assert(perms =~= spec_panic_perms(ns));

        // Step 2: simulate holds to build the hot masks.
        let mut hot_masks: Vec<u8> = vec![0u8; max_measure as usize + 1];
        let mut lane_lock_sim: HashMap<usize, usize> = HashMap::new();
        let mut frozen_measure: Option<u32> = None;
        assert(hot_masks@ =~= spec_hot_fold(perms, ns, 0).masks);
        let mut k: usize = 0;
        while k < notes.len()
            invariant
                k <= notes@.len(),
                ns == notes@,
                forall|i: int| 0 <= i < ns.len() ==> spec_channel_ok(#[trigger] ns[i].channel),
                forall|i: int| 0 <= i < ns.len() ==> (#[trigger] ns[i]).measure <= max_measure,
                max_measure == spec_max_measure(ns),
                permutations@.len() == max_measure + 1,
                perms == permutations@.map_values(|p: [usize; 7]| p@),
                forall|i: int| 0 <= i < permutations@.len() ==> is_perm7(#[trigger] permutations@[i]@),
                hot_masks@ == spec_hot_fold(perms, ns, k as int).masks,
                lane_lock_sim@ == spec_hot_fold(perms, ns, k as int).lock,
                frozen_measure == spec_hot_fold(perms, ns, k as int).frozen,
                hot_masks@.len() == max_measure + 1,
                frozen_measure matches Some(f) ==> f <= max_measure,
                forall|l: usize| #[trigger] lane_lock_sim@.contains_key(l) ==> lane_lock_sim@[l] < 7,
            decreases notes@.len() - k,
        {
            let note = &notes[k];
            let ghost st = spec_hot_fold(perms, ns, k as int);
            assert(spec_hot_fold(perms, ns, k as int + 1) == spec_hot_step(perms, st, ns[k as int]));
            match note.channel.lane_index() {
                None => {},
                Some(lane) => {
                    if lane < 7 {
                        let measure = note.measure;
                        let visual = match lane_lock_sim.get(&lane) {
                            Some(v) => *v,
                            None => {
                                let pm = match frozen_measure {
                                    Some(fm) => fm,
                                    None => measure,
                                };
                                let perm = &permutations[pm as usize];
                                assert(perms[pm as int] == perm@);
                                assert(perm@[lane as int] < 7);
                                perm[lane]
                            },
                        };
                        assert(visual == spec_sim_visual(perms, st, lane, measure));
                        assert(visual < 7);
                        let in_last = 16 * (note.position_index as u64) > 15 * (note.position_count as u64);
                        match note.note_type {
                            NoteType::Tap => {
                                if in_last {
                                    let cur = hot_masks[measure as usize];
                                    hot_masks.set(measure as usize, cur | (1u8 << visual));
                                }
                            },
                            NoteType::Hold => {
                                lane_lock_sim.insert(lane, visual);
                                if lane_lock_sim.len() == 1 {
                                    frozen_measure = Some(measure);
                                }
                            },
                            NoteType::Release => {
                                if in_last {
                                    match lane_lock_sim.get(&lane) {
                                        Some(vl) => {
                                            let vl = *vl;
                                            let cur = hot_masks[measure as usize];
                                            hot_masks.set(measure as usize, cur | (1u8 << vl));
                                        },
                                        None => {},
                                    }
                                }
                                lane_lock_sim.remove(&lane);
                                if lane_lock_sim.is_empty() {
                                    frozen_measure = None;
                                }
                            },
                        }
                    }
                },
            }
            k = k + 1;
        }
        PanicPrecomputed { permutations, hot_masks }
    }
}


// ---------------------------------------------------------------------------
// Panic: the modifier
// ---------------------------------------------------------------------------

/// Panic modifier.
///
/// Permutation is per-measure (seed = measure), BUT while holds are active
/// the permutation is frozen — it does not change even when new measures
/// start, until all active holds are released.
///
/// At each new measure, a best-effort swap is applied using the pre-computed
/// hot masks to avoid routing a new note to a lane that was used in the last
/// 1/16 of the previous measure.
pub struct PanicModifier {
    pub precomputed: PanicPrecomputed,
    /// Channel locking: original_lane → shuffled_lane for ACTIVE holds.
    pub lane_lock: HashMap<usize, usize>,
    /// Frozen permutation (with the measure it was taken in).
    pub frozen: Option<(u32, [usize; 7])>,
    /// Most recently prepared measure. Used to detect measure boundaries.
    pub last_prepared: u32,
    /// The measure where the current frozen window started.
    pub frozen_start_measure: Option<u32>,
}

/// The changing part of a Panic modifier.
pub struct PanicState {
    pub lane_lock: Map<usize, usize>,
    pub frozen: Option<(u32, Seq<usize>)>,
    pub last_prepared: u32,
    pub frozen_start: Option<u32>,
}

/// Index of the first entry of `perm` (from `k` on) whose hot bit equals
/// `want`; 7 when there is none.
pub open spec fn spec_first_with_hot(perm: Seq<usize>, mask: u8, want: bool, k: int) -> int
    decreases 7 - k,
{
    if k >= 7 {
        7
    } else if is_hot(mask, perm[k]) == want {
        k
    } else {
        spec_first_with_hot(perm, mask, want, k + 1)
    }
}

/// Best-effort swap: the first lane that was hot in the previous measure
/// trades places with the first lane that was not.
pub open spec fn spec_swap_hot(perm: Seq<usize>, mask: u8) -> Seq<usize> {
    let i = spec_first_with_hot(perm, mask, true, 0);
    let j = spec_first_with_hot(perm, mask, false, 0);
    if i < 7 && j < 7 {
        perm.update(i, perm[j]).update(j, perm[i])
    } else {
        perm
    }
}

/// Start of measure `m`: when no hold is in progress the frozen permutation
/// is dropped and, when lanes of the previous measure were hot, replaced by
/// the swapped permutation of `m`.
pub open spec fn spec_prepare(pre: PanicPrecomputed, st: PanicState, m: u32) -> PanicState {
    if st.last_prepared == m {
        st
    } else if st.lane_lock.len() != 0 {
        PanicState { last_prepared: m, ..st }
    } else {
        let hot = if m > 0 {
            pre.hot_masks@[m - 1]
        } else {
            0u8
        };
        PanicState {
            lane_lock: st.lane_lock,
            frozen: if hot != 0 {
                Some((m, spec_swap_hot(pre.perms()[m as int], hot)))
            } else {
                None
            },
            last_prepared: m,
            frozen_start: None,
        }
    }
}

/// The permutation in force for measure `m`: the frozen one while holds are
/// in progress; otherwise the one stored for `m` itself (the swapped
/// permutation that `spec_prepare` stored), else the measure's own.
pub open spec fn spec_frozen_or_fresh(pre: PanicPrecomputed, st: PanicState, m: u32) -> Seq<usize> {
    if st.lane_lock.len() == 0 {
        match st.frozen {
            Some((fm, p)) => if fm == m {
                p
            } else {
                pre.perms()[m as int]
            },
            None => pre.perms()[m as int],
        }
    } else {
        match st.frozen {
            Some((_, p)) => p,
            None => pre.perms()[m as int],
        }
    }
}

/// First lane of `perm` (from `k` on) that is not occupied.
pub open spec fn spec_first_free(occ: Seq<usize>, perm: Seq<usize>, k: int) -> Option<usize>
    decreases 7 - k,
{
    if k >= 7 {
        None
    } else if !occ.contains(perm[k]) {
        Some(perm[k])
    } else {
        spec_first_free(occ, perm, k + 1)
    }
}

/// Collision handling: the shuffled lane when free, else the first free
/// lane in permutation order, else the original lane.
pub open spec fn spec_pick_lane(occ: Seq<usize>, perm: Seq<usize>, shuffled: usize, lane: usize) -> usize {
    if !occ.contains(shuffled) {
        shuffled
    } else {
        match spec_first_free(occ, perm, 0) {
            Some(l) => l,
            None => lane,
        }
    }
}

/// Lane shown for one note, and the state afterwards.
pub open spec fn spec_panic_transform(
    pre: PanicPrecomputed,
    st: PanicState,
    lane: usize,
    m: u32,
    note_type: NoteType,
    is_release: bool,
    occ: Seq<usize>,
) -> (PanicState, usize) {
    let st1 = spec_prepare(pre, st, m);
    if is_release {
        (st1, if st1.lane_lock.contains_key(lane) {
            st1.lane_lock[lane]
        } else {
            lane
        })
    } else {
        let perm = spec_frozen_or_fresh(pre, st1, m);
        let shuffled = if lane < 7 {
            perm[lane as int]
        } else {
            lane
        };
        let st2 = if note_type == NoteType::Hold {
            let ll = st1.lane_lock.insert(lane, shuffled);
            if st1.lane_lock.len() == 0 {
                PanicState { lane_lock: ll, frozen: Some((m, perm)), frozen_start: Some(m), ..st1 }
            } else {
                PanicState { lane_lock: ll, ..st1 }
            }
        } else {
            st1
        };
        (st2, spec_pick_lane(occ, perm, shuffled, lane))
    }
}

/// A released lane leaves the lock; the frozen window ends with the last one.
pub open spec fn spec_panic_clear_release(st: PanicState, lane: usize) -> PanicState {
    let ll = st.lane_lock.remove(lane);
    PanicState {
        lane_lock: ll,
        frozen_start: if ll.len() == 0 {
            None
        } else {
            st.frozen_start
        },
        ..st
    }
}

/// The state never needs a permutation that the pre-computation lacks.
pub open spec fn spec_panic_accepts(
    pre: PanicPrecomputed,
    st: PanicState,
    m: u32,
    is_release: bool,
) -> bool {
    ||| m < pre.permutations@.len()
    ||| is_release && (st.last_prepared == m || st.lane_lock.len() != 0)
    ||| !is_release && st.lane_lock.len() != 0 && st.frozen is Some
}

/// Locked lanes 0..6 are shown on lanes 0..6 and a frozen permutation is a
/// bijection of the lanes.
pub open spec fn spec_panic_state_wf(st: PanicState) -> bool {
    &&& forall|l: usize| #[trigger] st.lane_lock.contains_key(l) && l < 7 ==> st.lane_lock[l] < 7
    &&& st.frozen matches Some((_, p)) ==> is_perm7(p)
}

/// Swapping two lanes of a bijection keeps it a bijection.
pub proof fn lemma_swap_keeps_perm7(p: Seq<usize>, i: int, j: int)
    requires
        is_perm7(p),
        0 <= i < 7,
        0 <= j < 7,
    ensures
        is_perm7(p.update(i, p[j]).update(j, p[i])),
{
    let (a, b) = if j <= i {
        (i, j)
    } else {
        (j, i)
    };
    lemma_swap_keeps_elements(p, a, b);
    let t = p.update(i, p[j]).update(j, p[i]);
    assert(t =~= p.update(a, p[b]).update(b, p[a]));
    assert forall|k: int| 0 <= k < 7 implies t[k] < 7 by {
        assert(t.contains(t[k]));
    }
}

/// The bounded searches stay in range.
pub proof fn lemma_first_with_hot_range(perm: Seq<usize>, mask: u8, want: bool, k: int)
    requires
        0 <= k,
    ensures
        k <= spec_first_with_hot(perm, mask, want, k) <= 7 || k > 7,
        spec_first_with_hot(perm, mask, want, k) < 7 ==> is_hot(
            mask,
            perm[spec_first_with_hot(perm, mask, want, k)],
        ) == want,
    decreases 7 - k,
{
    if k < 7 && is_hot(mask, perm[k]) != want {
        lemma_first_with_hot_range(perm, mask, want, k + 1);
    }
}

/// The lane picked after a collision is a lane of the permutation.
pub proof fn lemma_first_free_in_perm(occ: Seq<usize>, perm: Seq<usize>, k: int)
    requires
        0 <= k,
        perm.len() == 7,
    ensures
        spec_first_free(occ, perm, k) matches Some(l) ==> perm.contains(l) && !occ.contains(l),
    decreases 7 - k,
{
    if k < 7 && occ.contains(perm[k]) {
        lemma_first_free_in_perm(occ, perm, k + 1);
    }
}

/// Preparing a measure keeps the state well formed.
pub proof fn lemma_prepare_wf(pre: PanicPrecomputed, st: PanicState, m: u32)
    requires
        pre.wf(),
        spec_panic_state_wf(st),
        st.last_prepared != m && st.lane_lock.len() == 0 ==> m < pre.permutations@.len(),
    ensures
        spec_panic_state_wf(spec_prepare(pre, st, m)),
        spec_prepare(pre, st, m).lane_lock == st.lane_lock,
{
    if st.last_prepared != m && st.lane_lock.len() == 0 {
        let hot = if m > 0 {
            pre.hot_masks@[m - 1]
        } else {
            0u8
        };
        if hot != 0 {
            let p = pre.perms()[m as int];
            assert(p == pre.permutations@[m as int]@);
            lemma_first_with_hot_range(p, hot, true, 0);
            lemma_first_with_hot_range(p, hot, false, 0);
            let i = spec_first_with_hot(p, hot, true, 0);
            let j = spec_first_with_hot(p, hot, false, 0);
            if i < 7 && j < 7 {
                lemma_swap_keeps_perm7(p, i, j);
            }
        }
    }
}

impl PanicModifier {
    /// The changing part of the modifier.
    pub open spec fn state(&self) -> PanicState {
        PanicState {
            lane_lock: self.lane_lock@,
            frozen: match self.frozen {
                Some((m, p)) => Some((m, p@)),
                None => None,
            },
            last_prepared: self.last_prepared,
            frozen_start: self.frozen_start_measure,
        }
    }

    /// Pre-computation and state are well formed.
    pub open spec fn wf(&self) -> bool {
        &&& self.precomputed.wf()
        &&& spec_panic_state_wf(self.state())
    }

    /// A Panic modifier over `precomputed`, with no hold in progress.
    pub fn new(precomputed: PanicPrecomputed) -> (r: Self)
        requires
            precomputed.wf(),
        ensures
            r.wf(),
            r.precomputed == precomputed,
            r.state() == (PanicState {
                lane_lock: Map::empty(),
                frozen: None,
                last_prepared: u32::MAX,
                frozen_start: None,
            }),
    {
        PanicModifier {
            precomputed,
            lane_lock: HashMap::new(),
            frozen: None,
            last_prepared: u32::MAX,
            frozen_start_measure: None,
        }
    }

    /// Called at the start of each new measure (before its notes): when no
    /// hold is in progress, stores the measure's permutation with the
    /// best-effort swap applied.
    pub fn prepare_measure(&mut self, measure: u32)
        requires
            old(self).wf(),
            old(self).state().last_prepared != measure && old(self).state().lane_lock.len() == 0
                ==> measure < old(self).precomputed.permutations@.len(),
        ensures
            final(self).wf(),
            final(self).precomputed == old(self).precomputed,
            final(self).state() == spec_prepare(old(self).precomputed, old(self).state(), measure),
    {
        proof {
            lemma_prepare_wf(self.precomputed, self.state(), measure);
        }
        let last = self.last_prepared;
        if last == measure {
            return;
        }
        self.last_prepared = measure;

        let lane_lock_empty = self.lane_lock.is_empty();
        if lane_lock_empty {
            self.frozen = None;
            self.frozen_start_measure = None;
        }
        if !lane_lock_empty {
            return;
        }

        let frozen_perm = self.precomputed.permutations[measure as usize];
        let hot_mask = if measure > 0 {
            self.precomputed.hot_masks[(measure - 1) as usize]
        } else {
            0
        };

        if hot_mask != 0 {
            let ghost p = frozen_perm@;
            assert(p == self.precomputed.perms()[measure as int]);
            assert(is_perm7(p));
            let mut perm = frozen_perm;
            // First lane that was hot, then first lane that was not.
            let mut i: usize = 0;
            while i < 7 && (hot_mask >> perm[i]) & 1 != 1
                invariant
                    i <= 7,
                    perm@ == p,
                    is_perm7(p),
                    spec_first_with_hot(p, hot_mask, true, 0) == spec_first_with_hot(p, hot_mask, true, i as int),
                decreases 7 - i,
            {
                i = i + 1;
            }
            let mut j: usize = 0;
            while j < 7 && (hot_mask >> perm[j]) & 1 == 1
                invariant
                    j <= 7,
                    perm@ == p,
                    is_perm7(p),
                    spec_first_with_hot(p, hot_mask, false, 0) == spec_first_with_hot(p, hot_mask, false, j as int),
                decreases 7 - j,
            {
                j = j + 1;
            }
            if i < 7 && j < 7 {
                let vi = perm[i];
                let vj = perm[j];
                perm[i] = vj;
                perm[j] = vi;
            }
            assert(perm@ =~= spec_swap_hot(p, hot_mask));
            self.frozen = Some((measure, perm));
        }
    }

    /// Number of holds in progress.
    pub fn active_count(&self) -> (r: usize)
        ensures
            r == self.lane_lock@.len(),
    {
        self.lane_lock.len()
    }

    /// The permutation in force for `measure`.
    pub fn get_frozen_or_fresh(&self, measure: u32) -> (r: [usize; 7])
        requires
            self.wf(),
            self.lane_lock@.len() == 0 || self.frozen is None ==> measure
                < self.precomputed.permutations@.len(),
        ensures
            r@ == spec_frozen_or_fresh(self.precomputed, self.state(), measure),
            is_perm7(r@),
    {
        if self.active_count() == 0 {
            match &self.frozen {
                Some((fm, perm)) if *fm == measure => *perm,
                _ => self.precomputed.permutations[measure as usize],
            }
        } else {
            match &self.frozen {
                Some((_, perm)) => *perm,
                None => self.precomputed.permutations[measure as usize],
            }
        }
    }

    /// Visual lane of a note. Releases go where their hold went; holds
    /// lock their lane; a lane held by a long note is avoided when possible.
    pub fn transform(
        &mut self,
        lane: usize,
        measure: u32,
        note_type: NoteType,
        is_release: bool,
        occupied: &[usize],
    ) -> (r: usize)
        requires
            old(self).wf(),
            spec_panic_accepts(old(self).precomputed, old(self).state(), measure, is_release),
        ensures
            final(self).wf(),
            final(self).precomputed == old(self).precomputed,
            (final(self).state(), r) == spec_panic_transform(
                old(self).precomputed,
                old(self).state(),
                lane,
                measure,
                note_type,
                is_release,
                occupied@,
            ),
            lane < 7 ==> r < 7,
    {
        // Detect new measure and prepare permutation
        self.prepare_measure(measure);

        // RELEASE: look up stored lane (tail must match head)
        if is_release {
            return match self.lane_lock.get(&lane) {
                Some(v) => *v,
                None => lane,
            };
        }

        let perm = self.get_frozen_or_fresh(measure);
        let shuffled = if lane < 7 {
            perm[lane]
        } else {
            lane
        };

        // HOLD head: lock the lane; the first hold freezes the permutation.
        if matches!(note_type, NoteType::Hold) {
            let lane_lock_len_before = self.lane_lock.len();
            self.lane_lock.insert(lane, shuffled);
            if lane_lock_len_before == 0 {
                self.frozen = Some((measure, perm));
                self.frozen_start_measure = Some(measure);
            }
        }

        // Collision: redirect if the shuffled lane is occupied by a long note
        pick_lane(occupied, &perm, shuffled, lane)
    }

    /// A long note ended: its lane leaves the lock.
    pub fn clear_release(&mut self, lane: usize)
        requires
            old(self).wf(),
        ensures
            final(self).wf(),
            final(self).precomputed == old(self).precomputed,
            final(self).state() == spec_panic_clear_release(old(self).state(), lane),
    {
        self.lane_lock.remove(&lane);
        if self.lane_lock.is_empty() {
            self.frozen_start_measure = None;
        }
    }
}

/// The first free lane of a permutation from `k` on, or none.
proof fn lemma_first_free_is_first(occ: Seq<usize>, perm: Seq<usize>, k: int)
    requires
        0 <= k <= 7,
        perm.len() == 7,
    ensures
        match spec_first_free(occ, perm, k) {
            Some(l) => exists|m: int|
                k <= m < 7 && perm[m] == l && !occ.contains(l) && forall|j: int|
                    k <= j < m ==> occ.contains(#[trigger] perm[j]),
            None => forall|j: int| k <= j < 7 ==> occ.contains(#[trigger] perm[j]),
        },
    decreases 7 - k,
{
    if k < 7 && occ.contains(perm[k]) {
        lemma_first_free_is_first(occ, perm, k + 1);
        match spec_first_free(occ, perm, k + 1) {
            Some(l) => {
                let m = choose|m: int|
                    k + 1 <= m < 7 && perm[m] == l && !occ.contains(l) && forall|j: int|
                        k + 1 <= j < m ==> occ.contains(#[trigger] perm[j]);
                assert(k <= m < 7 && perm[m] == l && !occ.contains(l) && forall|j: int|
                    k <= j < m ==> occ.contains(#[trigger] perm[j]));
            },
            None => {},
        }
    }
}

/// Collision handling never lands on an occupied lane while the permutation
/// has a free one: a free shuffled lane is kept; else the lane is the first
/// lane of the permutation that is not occupied; the original lane comes back
/// only when every lane of the permutation is occupied.
pub proof fn lemma_pick_lane_avoids_occupied(occ: Seq<usize>, perm: Seq<usize>, shuffled: usize, lane: usize)
    requires
        perm.len() == 7,
    ensures
        ({
            let r = spec_pick_lane(occ, perm, shuffled, lane);
            &&& !occ.contains(shuffled) ==> r == shuffled
            &&& occ.contains(shuffled) && (exists|k: int| 0 <= k < 7 && !occ.contains(#[trigger] perm[k]))
                ==> !occ.contains(r) && exists|m: int|
                0 <= m < 7 && perm[m] == r && forall|j: int| 0 <= j < m ==> occ.contains(#[trigger] perm[j])
            &&& occ.contains(shuffled) && (forall|k: int| 0 <= k < 7 ==> occ.contains(#[trigger] perm[k]))
                ==> r == lane
        }),
{
    lemma_first_free_is_first(occ, perm, 0);
}

/// The shuffled lane when free, else the first free lane of `perm`, else
/// the original lane.
pub fn pick_lane(occupied: &[usize], perm: &[usize; 7], shuffled: usize, lane: usize) -> (r: usize)
    ensures
        r == spec_pick_lane(occupied@, perm@, shuffled, lane),
        r == shuffled || r == lane || perm@.contains(r),
{
    if !slice_contains(occupied, shuffled) {
        return shuffled;
    }
    let mut k: usize = 0;
    while k < 7
        invariant
            k <= 7,
            perm@.len() == 7,
            occupied@.contains(shuffled),
            spec_first_free(occupied@, perm@, 0) == spec_first_free(occupied@, perm@, k as int),
        decreases 7 - k,
    {
        let l = perm[k];
        if !slice_contains(occupied, l) {
            assert(spec_first_free(occupied@, perm@, k as int) == Some(l));
            assert(perm@.contains(l)) by {
                assert(perm@[k as int] == l);
            }
            return l;
        }
        k = k + 1;
    }
    lane
}

/// `x` occurs in `s`.
pub fn slice_contains(s: &[usize], x: usize) -> (r: bool)
    ensures
        r == s@.contains(x),
{
    let mut i: usize = 0;
    while i < s.len()
        invariant
            i <= s@.len(),
            forall|k: int| 0 <= k < i ==> s@[k] != x,
        decreases s@.len() - i,
    {
        if s[i] == x {
            return true;
        }
        i = i + 1;
    }
    false
}


// ---------------------------------------------------------------------------
// The common interface and the modifier set
// ---------------------------------------------------------------------------

/// A lane arrangement modifier.
pub trait LaneModifier {
    /// The modifier's own consistency condition.
    spec fn inv(&self) -> bool;

    /// The modifier can place notes of `measure` without leaving its data.
    spec fn accepts(&self, measure: u32, is_release: bool) -> bool;

    /// Visual lane of a note; lanes 0..6 stay within 0..6.
    fn transform(
        &mut self,
        lane: usize,
        measure: u32,
        note_type: NoteType,
        is_release: bool,
        occupied_lanes: &[usize],
    ) -> (r: usize)
        requires
            old(self).inv(),
            old(self).accepts(measure, is_release),
        ensures
            final(self).inv(),
            lane < 7 ==> r < 7,
    ;

    /// A long note on `lane` ended (no-op unless the modifier locks lanes).
    fn clear_release(&mut self, lane: usize)
        requires
            old(self).inv(),
        ensures
            final(self).inv(),
    {
    }

    /// A new measure starts (no-op unless the modifier changes per measure).
    fn prepare_measure(&mut self, measure: u32)
        requires
            old(self).inv(),
            old(self).accepts(measure, true),
        ensures
            final(self).inv(),
    {
    }
}

impl LaneModifier for MirrorModifier {
    open spec fn inv(&self) -> bool {
        true
    }

    open spec fn accepts(&self, measure: u32, is_release: bool) -> bool {
        true
    }

    fn transform(
        &mut self,
        lane: usize,
        measure: u32,
        note_type: NoteType,
        is_release: bool,
        occupied_lanes: &[usize],
    ) -> (r: usize)
        ensures
            r == spec_mirror(lane),
    {
        MirrorModifier::transform(self, lane, measure, note_type, is_release, occupied_lanes)
    }
}

impl LaneModifier for RandomModifier {
    open spec fn inv(&self) -> bool {
        is_perm7(self.perm())
    }

    open spec fn accepts(&self, measure: u32, is_release: bool) -> bool {
        true
    }

    fn transform(
        &mut self,
        lane: usize,
        measure: u32,
        note_type: NoteType,
        is_release: bool,
        occupied_lanes: &[usize],
    ) -> (r: usize)
        ensures
            final(self).perm() == old(self).perm(),
            r == (if lane < 7 {
                old(self).perm()[lane as int]
            } else {
                lane
            }),
    {
        RandomModifier::transform(self, lane, measure, note_type, is_release, occupied_lanes)
    }
}

impl LaneModifier for PanicModifier {
    open spec fn inv(&self) -> bool {
        self.wf()
    }

    open spec fn accepts(&self, measure: u32, is_release: bool) -> bool {
        spec_panic_accepts(self.precomputed, self.state(), measure, is_release)
    }

    fn transform(
        &mut self,
        lane: usize,
        measure: u32,
        note_type: NoteType,
        is_release: bool,
        occupied_lanes: &[usize],
    ) -> (r: usize)
        ensures
            final(self).precomputed == old(self).precomputed,
            (final(self).state(), r) == spec_panic_transform(
                old(self).precomputed,
                old(self).state(),
                lane,
                measure,
                note_type,
                is_release,
                occupied_lanes@,
            ),
    {
        PanicModifier::transform(self, lane, measure, note_type, is_release, occupied_lanes)
    }

    fn clear_release(&mut self, lane: usize)
        ensures
            final(self).precomputed == old(self).precomputed,
            final(self).state() == spec_panic_clear_release(old(self).state(), lane),
    {
        PanicModifier::clear_release(self, lane);
    }

    fn prepare_measure(&mut self, measure: u32)
        ensures
            final(self).precomputed == old(self).precomputed,
            final(self).state() == spec_prepare(old(self).precomputed, old(self).state(), measure),
    {
        PanicModifier::prepare_measure(self, measure);
    }
}

/// Lane arrangement chosen in the game options.
#[derive(Debug, Clone, Copy, PartialEq, Eq, Structural)]
pub enum ChannelMod {
    /// Lanes as charted
    Off,
    Random,
    Panic,
    Mirror,
}

/// One of the modifiers, or none.
enum MaybeLaneModifier {
    Off,
    Mirror(MirrorModifier),
    Random(RandomModifier),
    Panic(PanicModifier),
}

/// What a modifier set is: its kind and, for Random and Panic, its data.
pub enum ModifiersView {
    Off,
    Mirror,
    Random(Seq<usize>),
    Panic(PanicPrecomputed, PanicState),
}

/// Lane shown for one note by a modifier set, and the set afterwards.
pub open spec fn spec_modifiers_transform(
    v: ModifiersView,
    lane: usize,
    m: u32,
    note_type: NoteType,
    is_release: bool,
    occ: Seq<usize>,
) -> (ModifiersView, usize) {
    match v {
        ModifiersView::Off => (v, lane),
        ModifiersView::Mirror => (v, spec_mirror(lane)),
        ModifiersView::Random(p) => (v, if lane < 7 {
            p[lane as int]
        } else {
            lane
        }),
        ModifiersView::Panic(pre, st) => {
            let (st2, r) = spec_panic_transform(pre, st, lane, m, note_type, is_release, occ);
            (ModifiersView::Panic(pre, st2), r)
        },
    }
}

/// A modifier set after a long note on `lane` ended.
pub open spec fn spec_modifiers_clear_release(v: ModifiersView, lane: usize) -> ModifiersView {
    match v {
        ModifiersView::Panic(pre, st) => ModifiersView::Panic(pre, spec_panic_clear_release(st, lane)),
        _ => v,
    }
}

/// A modifier set after measure `m` starts.
pub open spec fn spec_modifiers_prepare(v: ModifiersView, m: u32) -> ModifiersView {
    match v {
        ModifiersView::Panic(pre, st) => ModifiersView::Panic(pre, spec_prepare(pre, st, m)),
        _ => v,
    }
}

/// The modifier set can place notes of measure `m`.
pub open spec fn spec_modifiers_accepts(v: ModifiersView, m: u32, is_release: bool) -> bool {
    match v {
        ModifiersView::Panic(pre, st) => spec_panic_accepts(pre, st, m, is_release),
        _ => true,
    }
}

/// The modifier set is consistent.
pub open spec fn spec_modifiers_wf(v: ModifiersView) -> bool {
    match v {
        ModifiersView::Random(p) => is_perm7(p),
        ModifiersView::Panic(pre, st) => pre.wf() && spec_panic_state_wf(st),
        _ => true,
    }
}

/// The modifier set that the options name.
pub open spec fn spec_modifiers_new(
    channel_mod: ChannelMod,
    seed: u64,
    pre: Option<PanicPrecomputed>,
) -> ModifiersView {
    match channel_mod {
        ChannelMod::Off => ModifiersView::Off,
        ChannelMod::Random => ModifiersView::Random(spec_lane_permutation(seed)),
        ChannelMod::Panic => ModifiersView::Panic(
            pre.unwrap(),
            PanicState {
                lane_lock: Map::empty(),
                frozen: None,
                last_prepared: u32::MAX,
                frozen_start: None,
            },
        ),
        ChannelMod::Mirror => ModifiersView::Mirror,
    }
}

/// The modifier set of a game.
pub struct Modifiers {
    inner: MaybeLaneModifier,
}

impl Modifiers {
    /// What the set is.
    pub closed spec fn view(&self) -> ModifiersView {
        match self.inner {
            MaybeLaneModifier::Off => ModifiersView::Off,
            MaybeLaneModifier::Mirror(_) => ModifiersView::Mirror,
            MaybeLaneModifier::Random(m) => ModifiersView::Random(m.perm()),
            MaybeLaneModifier::Panic(m) => ModifiersView::Panic(m.precomputed, m.state()),
        }
    }

    /// The set is consistent.
    pub open spec fn wf(&self) -> bool {
        spec_modifiers_wf(self.view())
    }

    /// The modifier set named by `channel_mod`; Panic needs its
    /// pre-computation, Random draws its permutation from `seed`.
    pub fn new(channel_mod: ChannelMod, seed: u64, panic_precomputed: Option<PanicPrecomputed>) -> (r: Self)
        requires
            channel_mod == ChannelMod::Panic ==> panic_precomputed is Some,
        ensures
            r.view() == spec_modifiers_new(channel_mod, seed, panic_precomputed),
            channel_mod == ChannelMod::Panic ==> (panic_precomputed.unwrap().wf() ==> r.wf()),
            channel_mod != ChannelMod::Panic ==> r.wf(),
    {
        let inner = match channel_mod {
            ChannelMod::Off => MaybeLaneModifier::Off,
            ChannelMod::Random => MaybeLaneModifier::Random(RandomModifier::new(seed)),
            ChannelMod::Panic => {
                let pre = panic_precomputed.unwrap();
                MaybeLaneModifier::Panic(
                    PanicModifier {
                        precomputed: pre,
                        lane_lock: HashMap::new(),
                        frozen: None,
                        last_prepared: u32::MAX,
                        frozen_start_measure: None,
                    },
                )
            },
            ChannelMod::Mirror => MaybeLaneModifier::Mirror(MirrorModifier),
        };
        Modifiers { inner }
    }

    /// Visual lane of a note under the set.
    pub fn transform_lane(
        &mut self,
        lane: usize,
        measure: u32,
        note_type: NoteType,
        is_release: bool,
        occupied_lanes: &[usize],
    ) -> (r: usize)
        requires
            old(self).wf(),
            spec_modifiers_accepts(old(self).view(), measure, is_release),
        ensures
            final(self).wf(),
            (final(self).view(), r) == spec_modifiers_transform(
                old(self).view(),
                lane,
                measure,
                note_type,
                is_release,
                occupied_lanes@,
            ),
            lane < 7 ==> r < 7,
    {
        match &mut self.inner {
            MaybeLaneModifier::Off => lane,
            MaybeLaneModifier::Mirror(m) => MirrorModifier::transform(m, lane, measure, note_type, is_release, occupied_lanes),
            MaybeLaneModifier::Random(m) => RandomModifier::transform(m, lane, measure, note_type, is_release, occupied_lanes),
            MaybeLaneModifier::Panic(m) => PanicModifier::transform(m, lane, measure, note_type, is_release, occupied_lanes),
        }
    }

    /// A long note on `lane` ended.
    pub fn clear_release(&mut self, lane: usize)
        requires
            old(self).wf(),
        ensures
            final(self).wf(),
            final(self).view() == spec_modifiers_clear_release(old(self).view(), lane),
    {
        match &mut self.inner {
            MaybeLaneModifier::Panic(m) => PanicModifier::clear_release(m, lane),
            _ => {},
        }
    }

    /// A new measure starts.
    pub fn prepare_measure(&mut self, measure: u32)
        requires
            old(self).wf(),
            spec_modifiers_accepts(old(self).view(), measure, true),
        ensures
            final(self).wf(),
            final(self).view() == spec_modifiers_prepare(old(self).view(), measure),
    {
        match &mut self.inner {
            MaybeLaneModifier::Panic(m) => PanicModifier::prepare_measure(m, measure),
            _ => {},
        }
    }
}


// ---------------------------------------------------------------------------
// Laws of the Panic modifier
// ---------------------------------------------------------------------------

/// Starting a measure never touches the locked lanes.
pub proof fn lemma_prepare_keeps_locks(pre: PanicPrecomputed, st: PanicState, m: u32)
    ensures
        spec_prepare(pre, st, m).lane_lock == st.lane_lock,
{
}

/// Placing a note changes no lock except the one a hold head sets on its
/// own lane: the lane of a hold in progress stays locked to the same visual
/// lane until its release is cleared.
pub proof fn lemma_transform_keeps_other_locks(
    pre: PanicPrecomputed,
    st: PanicState,
    lane: usize,
    m: u32,
    note_type: NoteType,
    is_release: bool,
    occ: Seq<usize>,
    k: usize,
)
    requires
        st.lane_lock.contains_key(k),
        k != lane || note_type != NoteType::Hold || is_release,
    ensures
        ({
            let st2 = spec_panic_transform(pre, st, lane, m, note_type, is_release, occ).0;
            st2.lane_lock.contains_key(k) && st2.lane_lock[k] == st.lane_lock[k]
        }),
{
}

/// Head and tail of a long note share their visual lane: the release of
/// `lane` lands where the hold head of `lane` was locked, and that is where
/// the head itself was shown unless its lane was occupied.
pub proof fn lemma_release_follows_hold(
    pre: PanicPrecomputed,
    st: PanicState,
    lane: usize,
    m1: u32,
    m2: u32,
    occ1: Seq<usize>,
    occ2: Seq<usize>,
)
    ensures
        ({
            let (st1, head) = spec_panic_transform(pre, st, lane, m1, NoteType::Hold, false, occ1);
            let (_, tail) = spec_panic_transform(pre, st1, lane, m2, NoteType::Release, true, occ2);
            &&& st1.lane_lock.contains_key(lane)
            &&& tail == st1.lane_lock[lane]
            &&& !occ1.contains(st1.lane_lock[lane]) ==> head == tail
        }),
{
}

/// While a hold is in progress the permutation is frozen: starting a new
/// measure keeps it, and notes are shuffled with it.
pub proof fn lemma_frozen_while_holding(
    pre: PanicPrecomputed,
    st: PanicState,
    lane: usize,
    m: u32,
    note_type: NoteType,
    occ: Seq<usize>,
)
    requires
        st.lane_lock.len() != 0,
        st.frozen is Some,
        lane < 7,
    ensures
        spec_prepare(pre, st, m).frozen == st.frozen,
        spec_frozen_or_fresh(pre, spec_prepare(pre, st, m), m) == st.frozen.unwrap().1,
        !occ.contains(st.frozen.unwrap().1[lane as int]) ==> spec_panic_transform(
            pre,
            st,
            lane,
            m,
            note_type,
            false,
            occ,
        ).1 == st.frozen.unwrap().1[lane as int],
{
}

/// The first hold head freezes the permutation in force at its measure.
pub proof fn lemma_first_hold_freezes(
    pre: PanicPrecomputed,
    st: PanicState,
    lane: usize,
    m: u32,
    occ: Seq<usize>,
)
    requires
        st.lane_lock.len() == 0,
    ensures
        ({
            let st2 = spec_panic_transform(pre, st, lane, m, NoteType::Hold, false, occ).0;
            let perm = spec_frozen_or_fresh(pre, spec_prepare(pre, st, m), m);
            st2.frozen == Some((m, perm)) && st2.frozen_start == Some(m)
        }),
{
}

/// At the start of a new measure with no hold in progress, a note on the
/// first lane that the measure's permutation sends to a lane hot at the end
/// of the previous measure is moved to a lane that was not hot (when one
/// exists and is free).
pub proof fn lemma_new_measure_avoids_hot(
    pre: PanicPrecomputed,
    st: PanicState,
    m: u32,
    note_type: NoteType,
    occ: Seq<usize>,
)
    requires
        pre.wf(),
        st.lane_lock.len() == 0,
        st.last_prepared != m,
        0 < m < pre.permutations@.len(),
        pre.hot_masks@[m - 1] != 0,
        spec_first_with_hot(pre.perms()[m as int], pre.hot_masks@[m - 1], true, 0) < 7,
        spec_first_with_hot(pre.perms()[m as int], pre.hot_masks@[m - 1], false, 0) < 7,
        !occ.contains(
            pre.perms()[m as int][spec_first_with_hot(pre.perms()[m as int], pre.hot_masks@[m - 1], false, 0)],
        ),
    ensures
        ({
            let p = pre.perms()[m as int];
            let hot = pre.hot_masks@[m - 1];
            let i = spec_first_with_hot(p, hot, true, 0);
            let j = spec_first_with_hot(p, hot, false, 0);
            let r = spec_panic_transform(pre, st, i as usize, m, note_type, false, occ).1;
            &&& is_hot(hot, p[i])
            &&& r == p[j]
            &&& !is_hot(hot, r)
        }),
{
    let p = pre.perms()[m as int];
    let hot = pre.hot_masks@[m - 1];
    lemma_first_with_hot_range(p, hot, true, 0);
    lemma_first_with_hot_range(p, hot, false, 0);
    let i = spec_first_with_hot(p, hot, true, 0);
    let j = spec_first_with_hot(p, hot, false, 0);
    let st1 = spec_prepare(pre, st, m);
    assert(st1.frozen == Some((m, spec_swap_hot(p, hot))));
    assert(spec_frozen_or_fresh(pre, st1, m) == spec_swap_hot(p, hot));
    if i != j {
        assert(spec_swap_hot(p, hot)[i] == p[j]);
    }
}

} // verus!
