//! The light-transport loop of a scene, as a state machine over the hits a
//! path makes.
//!
//! A path starts white. At each attempt the ray is intersected with every
//! sphere and the nearest hit is taken. A miss ends the path with the colour
//! accumulated so far (the background lights it); a hit tints the path by the
//! struck sphere's colour and a new ray leaves the hit point. A path that is
//! still hitting geometry after `max_bounces + 1` attempts is absorbed (black).
//!
//! Distances along a ray are handed over as integer keys that order as the
//! distances do; for the strictly positive distances that intersections
//! produce, the IEEE-754 bit pattern of the distance is such a key.
use vstd::prelude::*;

verus! {

/// `i` is the nearest hit among `keys`: a hit whose key is no larger than any
/// other, and strictly smaller than the key of every earlier hit.
pub open spec fn is_nearest(keys: Seq<Option<u64>>, i: int) -> bool {
    &&& 0 <= i < keys.len()
    &&& keys[i] is Some
    &&& forall|j: int|
        0 <= j < keys.len() && #[trigger] keys[j] is Some ==> keys[i]->0 <= keys[j]->0
    &&& forall|j: int| 0 <= j < i && #[trigger] keys[j] is Some ==> keys[i]->0 < keys[j]->0
}

/// No entry of `keys` is a hit.
pub open spec fn all_miss(keys: Seq<Option<u64>>) -> bool {
    forall|j: int| 0 <= j < keys.len() ==> #[trigger] keys[j] is None
}

/// The index of the nearest hit among the distance keys of a ray's hits, one
/// entry per sphere (`None` where the ray misses that sphere). Among equally
/// near hits the first is taken; `None` when the ray misses every sphere.
pub fn nearest(keys: &Vec<Option<u64>>) -> (r: Option<usize>)
    ensures
        r is None <==> all_miss(keys@),
        r matches Some(i) ==> is_nearest(keys@, i as int),
{
    let mut best: Option<usize> = None;
    let mut best_key: u64 = 0;
    let mut n: usize = 0;
    while n < keys.len()
        invariant
            n <= keys.len(),
            best is None <==> all_miss(keys@.take(n as int)),
            best matches Some(i) ==> {
                &&& i < n
                &&& keys@[i as int] == Some(best_key)
                &&& is_nearest(keys@.take(n as int), i as int)
            },
        decreases keys.len() - n,
    {
        let entry = keys[n];
        let ghost before = keys@.take(n as int);
        assert(keys@.take(n + 1) == before.push(entry));
        match entry {
            Some(k) => {
                let take = match best {
                    None => true,
                    Some(_) => k < best_key,
                };
                if take {
                    best = Some(n);
                    best_key = k;
                }
            },
            None => {},
        }
        n = n + 1;
    }
    assert(keys@.take(keys.len() as int) == keys@);
    best
}

/// What the tracer does after an attempt.
#[derive(Clone, Copy, Debug, PartialEq, Eq, Structural)]
pub enum Action {
    /// The ray hit the sphere with this index: tint the path by its colour
    /// and follow a new ray from the hit point.
    Bounce(usize),
    /// The ray escaped: the path ends with the colour accumulated so far.
    Escape,
    /// The bounce budget is spent: the path ends black.
    Absorb,
}

/// The action that follows an attempt whose nearest hit is `nearest`, on a
/// path that has bounced `bounces` times with a budget of `max_bounces`.
pub open spec fn advance(max_bounces: nat, bounces: nat, nearest: Option<usize>) -> Action {
    match nearest {
        None => Action::Escape,
        Some(i) => if bounces < max_bounces {
            Action::Bounce(i)
        } else {
            Action::Absorb
        },
    }
}

/// How a traced path ends, given the nearest hits of its attempts.
pub enum Fate {
    /// The path escaped after bouncing off these spheres, in order; its colour
    /// is the product of their colours (white when there are none).
    Escaped(Seq<usize>),
    /// The path spent its bounce budget and ends black.
    Absorbed,
    /// The attempts given run out before the path ends.
    Unfinished,
}

/// The spheres struck by a run of attempts that all hit.
pub open spec fn struck(looks: Seq<Option<usize>>) -> Seq<usize> {
    looks.map_values(|o: Option<usize>| o->0)
}

/// The fate of a path that has made `bounces` bounces of its budget of
/// `max_bounces`, when its next attempts find the nearest hits `looks`.
pub open spec fn fate(max_bounces: nat, bounces: nat, looks: Seq<Option<usize>>) -> Fate
    decreases looks.len(),
{
    if looks.len() == 0 {
        Fate::Unfinished
    } else {
        match advance(max_bounces, bounces, looks[0]) {
            Action::Escape => Fate::Escaped(Seq::empty()),
            Action::Absorb => Fate::Absorbed,
            Action::Bounce(i) => match fate(max_bounces, bounces + 1, looks.drop_first()) {
                Fate::Escaped(rest) => Fate::Escaped(seq![i] + rest),
                other => other,
            },
        }
    }
}

/// A path whose first attempt misses (as every attempt does in a scene
/// without spheres) escapes untinted, so it stays white whatever its budget.
pub proof fn lemma_first_miss_stays_white(max_bounces: nat, looks: Seq<Option<usize>>)
    requires
        looks.len() > 0,
        looks[0] is None,
    ensures
        fate(max_bounces, 0, looks) == Fate::Escaped(Seq::<usize>::empty()),
{
}

/// A path whose attempts hit `k` times and then miss, with `k` within the
/// budget, escapes tinted by exactly the spheres it hit, nearest first: one
/// sphere in the way tints it by that sphere alone, and a sphere hidden
/// behind a nearer one plays no part.
pub proof fn lemma_escape_after_hits(max_bounces: nat, looks: Seq<Option<usize>>, k: nat)
    requires
        k <= max_bounces,
        k < looks.len(),
        looks[k as int] is None,
        forall|j: int| 0 <= j < k ==> #[trigger] looks[j] is Some,
    ensures
        fate(max_bounces, 0, looks) == Fate::Escaped(struck(looks.take(k as int))),
{
    lemma_escape_from(max_bounces, 0, looks, k);
}

proof fn lemma_escape_from(max_bounces: nat, bounces: nat, looks: Seq<Option<usize>>, k: nat)
    requires
        bounces + k <= max_bounces,
        k < looks.len(),
        looks[k as int] is None,
        forall|j: int| 0 <= j < k ==> #[trigger] looks[j] is Some,
    ensures
        fate(max_bounces, bounces, looks) == Fate::Escaped(struck(looks.take(k as int))),
    decreases k,
{
    if k == 0 {
        assert(struck(looks.take(0)) =~= Seq::<usize>::empty());
    } else {
        let rest = looks.drop_first();
        assert forall|j: int| 0 <= j < k - 1 implies #[trigger] rest[j] is Some by {
            assert(looks[j + 1] is Some);
        }
        lemma_escape_from(max_bounces, bounces + 1, rest, (k - 1) as nat);
        assert(looks[0] is Some);
        assert(struck(looks.take(k as int)) =~= seq![looks[0]->0] + struck(
            rest.take(k - 1),
        ));
    }
}

/// A path whose first `max_bounces + 1` attempts all hit is absorbed.
pub proof fn lemma_absorbed_when_budget_spent(max_bounces: nat, looks: Seq<Option<usize>>)
    requires
        looks.len() > max_bounces,
        forall|j: int| 0 <= j <= max_bounces ==> #[trigger] looks[j] is Some,
    ensures
        fate(max_bounces, 0, looks) == Fate::Absorbed,
{
    lemma_absorbed_from(max_bounces, 0, looks);
}

proof fn lemma_absorbed_from(max_bounces: nat, bounces: nat, looks: Seq<Option<usize>>)
    requires
        bounces <= max_bounces,
        looks.len() > max_bounces - bounces,
        forall|j: int| 0 <= j <= max_bounces - bounces ==> #[trigger] looks[j] is Some,
    ensures
        fate(max_bounces, bounces, looks) == Fate::Absorbed,
    decreases max_bounces - bounces,
{
    assert(looks[0] is Some);
    if bounces < max_bounces {
        let rest = looks.drop_first();
        assert forall|j: int| 0 <= j <= max_bounces - (bounces + 1) implies #[trigger] rest[j] is Some by {
            assert(looks[j + 1] is Some);
        }
        lemma_absorbed_from(max_bounces, bounces + 1, rest);
    }
}

/// Every path ends within `max_bounces + 1` attempts: it has either escaped
/// or been absorbed by then.
pub proof fn lemma_path_ends_within_budget(max_bounces: nat, looks: Seq<Option<usize>>)
    requires
        looks.len() > max_bounces,
    ensures
        fate(max_bounces, 0, looks) !is Unfinished,
{
    if exists|k: int| 0 <= k <= max_bounces && #[trigger] looks[k] is None {
        let m = choose|k: int| 0 <= k <= max_bounces && #[trigger] looks[k] is None;
        let k = first_miss(looks, m);
        lemma_escape_after_hits(max_bounces, looks, k as nat);
    } else {
        lemma_absorbed_when_budget_spent(max_bounces, looks);
    }
}

/// The first miss among `looks`, given that the attempt at `m` misses.
proof fn first_miss(looks: Seq<Option<usize>>, m: int) -> (k: int)
    requires
        0 <= m < looks.len(),
        looks[m] is None,
    ensures
        0 <= k <= m,
        looks[k] is None,
        forall|j: int| 0 <= j < k ==> #[trigger] looks[j] is Some,
    decreases m,
{
    if exists|j: int| 0 <= j < m && #[trigger] looks[j] is None {
        let j = choose|j: int| 0 <= j < m && #[trigger] looks[j] is None;
        first_miss(looks, j)
    } else {
        m
    }
}

/// A light path being traced: its bounce budget and the bounces made so far.
pub struct Path {
    max_bounces: u32,
    bounces: u32,
}

impl Path {
    /// The bounce budget of the path.
    pub closed spec fn budget(&self) -> nat {
        self.max_bounces as nat
    }

    /// The number of bounces the path has made.
    pub closed spec fn made(&self) -> nat {
        self.bounces as nat
    }

    /// The path has not made more bounces than its budget allows.
    pub closed spec fn wf(&self) -> bool {
        self.bounces <= self.max_bounces
    }

    /// A fresh white path that may make up to `max_bounces` bounces, and so up
    /// to `max_bounces + 1` intersection attempts.
    pub fn new(max_bounces: u32) -> (r: Path)
        ensures
            r.wf(),
            r.budget() == max_bounces,
            r.made() == 0,
    {
        Path { max_bounces, bounces: 0 }
    }

    /// The bounce budget of the path.
    pub fn max_bounces(&self) -> (r: u32)
        ensures
            r == self.budget(),
    {
        self.max_bounces
    }

    /// The number of bounces the path has made.
    pub fn bounces(&self) -> (r: u32)
        ensures
            r == self.made(),
    {
        self.bounces
    }

    /// Records the outcome of one attempt, given the index of the nearest
    /// sphere hit (`None` on a miss), and says what to do next. A bounce is
    /// counted; an escape or an absorption leaves the path as it was.
    pub fn step(&mut self, nearest: Option<usize>) -> (r: Action)
        requires
            old(self).wf(),
        ensures
            final(self).wf(),
            r == advance(old(self).budget(), old(self).made(), nearest),
            final(self).budget() == old(self).budget(),
            final(self).made() == if r is Bounce {
                old(self).made() + 1
            } else {
                old(self).made()
            },
    {
        match nearest {
            None => Action::Escape,
            Some(i) => {
                if self.bounces < self.max_bounces {
                    self.bounces = self.bounces + 1;
                    Action::Bounce(i)
                } else {
                    Action::Absorb
                }
            },
        }
    }
}

} // verus!
