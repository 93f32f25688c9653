//! The bookkeeping of the particle sketch: which particle pulls at which,
//! which pairs are joined by a line, and what the keys switch.

use vstd::prelude::*;
use itertools::Itertools;

verus! {

/// The number of particles. The last one stays where it is.
pub const TEMPERS: usize = 5;

/// The keys that the sketch reacts to.
#[derive(Debug, Copy, Clone, PartialEq, Eq, Structural)]
pub enum Key {
    B,
    F,
    O,
    R,
    Key1,
    Key2,
    Key3,
    Key4,
    Other,
}

/// What a key asks for beyond what it switched.
#[derive(Debug, Copy, Clone, PartialEq, Eq, Structural)]
pub enum KeyEffect {
    /// Nothing more.
    Done,
    /// All particles are to be placed afresh.
    Respawn,
    /// The particle with this index is to gain mass.
    GainMass(usize),
    /// The particle with this index is to return to its default mass.
    DefaultMass(usize),
}

/// The overlays that can be switched on while a key is held.
#[derive(Debug, Copy, Clone, PartialEq, Eq, Structural)]
pub struct Overlays {
    pub show_bounding_box: bool,
    pub show_lines_to_fixed: bool,
    pub show_lines_to_other_tempers: bool,
}

/// The index of the particle that a number key stands for.
pub open spec fn spec_particle_of(key: Key) -> Option<usize> {
    match key {
        Key::Key1 => Some(0usize),
        Key::Key2 => Some(1usize),
        Key::Key3 => Some(2usize),
        Key::Key4 => Some(3usize),
        _ => None,
    }
}

/// The overlays after `key` went down (`held`) or up (not `held`).
pub open spec fn spec_switched(overlays: Overlays, key: Key, held: bool) -> Overlays {
    match key {
        Key::B => Overlays { show_bounding_box: held, ..overlays },
        Key::F => Overlays { show_lines_to_fixed: held, ..overlays },
        Key::O => Overlays { show_lines_to_other_tempers: held, ..overlays },
        _ => overlays,
    }
}

impl Overlays {
    /// No overlay is shown.
    pub fn new() -> (overlays: Self)
        ensures
            overlays == (Overlays {
                show_bounding_box: false,
                show_lines_to_fixed: false,
                show_lines_to_other_tempers: false,
            }),
    {
        Overlays {
            show_bounding_box: false,
            show_lines_to_fixed: false,
            show_lines_to_other_tempers: false,
        }
    }

    /// A key went down: B, F and O switch their overlay on, R asks for fresh
    /// particles, and a number key lets its particle gain mass.
    pub fn key_pressed(&mut self, key: Key) -> (effect: KeyEffect)
        ensures
            *final(self) == spec_switched(*old(self), key, true),
            effect == match spec_particle_of(key) {
                Some(index) => KeyEffect::GainMass(index),
                None => if key == Key::R {
                    KeyEffect::Respawn
                } else {
                    KeyEffect::Done
                },
            },
    {
        match key {
            Key::B => {
                self.show_bounding_box = true;
                KeyEffect::Done
            },
            Key::F => {
                self.show_lines_to_fixed = true;
                KeyEffect::Done
            },
            Key::O => {
                self.show_lines_to_other_tempers = true;
                KeyEffect::Done
            },
            Key::R => KeyEffect::Respawn,
            Key::Key1 => KeyEffect::GainMass(0),
            Key::Key2 => KeyEffect::GainMass(1),
            Key::Key3 => KeyEffect::GainMass(2),
            Key::Key4 => KeyEffect::GainMass(3),
            Key::Other => KeyEffect::Done,
        }
    }

    /// A key went up: B, F and O switch their overlay off, and a number key
    /// returns its particle to the default mass.
    pub fn key_released(&mut self, key: Key) -> (effect: KeyEffect)
        ensures
            *final(self) == spec_switched(*old(self), key, false),
            effect == match spec_particle_of(key) {
                Some(index) => KeyEffect::DefaultMass(index),
                None => KeyEffect::Done,
            },
    {
        match key {
            Key::B => {
                self.show_bounding_box = false;
                KeyEffect::Done
            },
            Key::F => {
                self.show_lines_to_fixed = false;
                KeyEffect::Done
            },
            Key::O => {
                self.show_lines_to_other_tempers = false;
                KeyEffect::Done
            },
            Key::Key1 => KeyEffect::DefaultMass(0),
            Key::Key2 => KeyEffect::DefaultMass(1),
            Key::Key3 => KeyEffect::DefaultMass(2),
            Key::Key4 => KeyEffect::DefaultMass(3),
            _ => KeyEffect::Done,
        }
    }
}

/// The particles that pull at particle `index` among `count`: all others, in
/// their order.
pub open spec fn spec_others(index: int, count: int) -> Seq<usize> {
    Seq::new((count - 1) as nat, |k: int| if k < index { k as usize } else { (k + 1) as usize })
}

/// The particles that pull at particle `index` among `count`.
pub fn others(index: usize, count: usize) -> (pulling: Vec<usize>)
    requires
        index < count,
    ensures
        pulling@ == spec_others(index as int, count as int),
{
    let mut pulling: Vec<usize> = Vec::new();
    let mut other: usize = 0;
    while other < count
        invariant
            index < count,
            other <= count,
            pulling@.len() == if other <= index { other as int } else { other - 1 },
            forall|k: int|
                0 <= k < pulling@.len() ==> pulling@[k] == spec_others(
                    index as int,
                    count as int,
                )[k],
        decreases count - other,
    {
        if other != index {
            pulling.push(other);
        }
        other = other + 1;
    }
    assert(pulling@ =~= spec_others(index as int, count as int));
    pulling
}

/// The particles that move: all but the last.
pub fn moving(count: usize) -> (free: usize)
    ensures
        free == if count == 0 { 0 } else { count - 1 },
{
    if count == 0 {
        0
    } else {
        count - 1
    }
}

/// The pairs that begin with `first` among `count` items, in rising order of
/// their second item.
pub open spec fn spec_pairs_with(first: int, count: int) -> Seq<(usize, usize)> {
    Seq::new(
        if first + 1 < count {
            (count - first - 1) as nat
        } else {
            0
        },
        |k: int| (first as usize, (first + 1 + k) as usize),
    )
}

/// The pairs of two different items among `count` whose first item is at
/// least `first`, each pair once with its smaller item first, in dictionary
/// order.
pub open spec fn spec_pairs_from(first: int, count: int) -> Seq<(usize, usize)>
    decreases count - first,
{
    if first >= count {
        Seq::empty()
    } else {
        spec_pairs_with(first, count) + spec_pairs_from(first + 1, count)
    }
}

/// `Itertools::combinations` with `k = 2`, on the indices from zero up to
/// `count`: every pair of two different indices once, the smaller index
/// first, in dictionary order. The crate advances its combinations "in
/// lexicographic order by increasing sequence", starting from the first `k`
/// indices.
#[verifier::external_body]
fn index_pairs(count: usize) -> (pairs: Vec<(usize, usize)>)
    ensures
        pairs@ == spec_pairs_from(0, count as int),
{
    (0..count).combinations(2).map(|pair| (pair[0], pair[1])).collect()
}

/// The pairs of moving particles that are joined by a line: every two of the
/// particles but the last.
pub fn line_pairs(count: usize) -> (pairs: Vec<(usize, usize)>)
    ensures
        pairs@ == spec_pairs_from(0, if count == 0 { 0 } else { count - 1 }),
        forall|k: int|
            0 <= k < pairs@.len() ==> (#[trigger] pairs@[k]).0 < pairs@[k].1 && pairs@[k].1 + 1
                < count,
{
    let free: usize = moving(count);
    let pairs: Vec<(usize, usize)> = index_pairs(free);
    proof {
        lemma_pairs_in_range(0, free as int);
    }
    pairs
}

/// Every listed pair has its smaller item first, and both items are below
/// `count`.
pub proof fn lemma_pairs_in_range(first: int, count: int)
    requires
        0 <= first,
        count <= usize::MAX,
    ensures
        forall|k: int|
            0 <= k < spec_pairs_from(first, count).len() ==> first <= (#[trigger] spec_pairs_from(
                first,
                count,
            )[k]).0 < spec_pairs_from(first, count)[k].1 < count,
    decreases count - first,
{
    if first < count {
        lemma_pairs_in_range(first + 1, count);
        let with = spec_pairs_with(first, count);
        let rest = spec_pairs_from(first + 1, count);
        assert forall|k: int| 0 <= k < spec_pairs_from(first, count).len() implies first <= (
        #[trigger] spec_pairs_from(first, count)[k]).0 < spec_pairs_from(first, count)[k].1
            < count by {
            if k < with.len() {
                assert(spec_pairs_from(first, count)[k] == with[k]);
            } else {
                assert(spec_pairs_from(first, count)[k] == rest[k - with.len()]);
            }
        }
    }
}

/// There are `n (n - 1) / 2` pairs among `n` items.
pub proof fn lemma_pairs_count(first: int, count: int)
    requires
        0 <= first <= count,
    ensures
        2 * spec_pairs_from(first, count).len() == (count - first) * (count - first - 1),
    decreases count - first,
{
    if first < count {
        lemma_pairs_count(first + 1, count);
        let width = count - first - 1;
        assert(spec_pairs_from(first, count).len() == width + spec_pairs_from(
            first + 1,
            count,
        ).len());
        assert((width + 1) * width == width * (width - 1) + 2 * width) by (nonlinear_arith);
    } else {
        assert((count - first) * (count - first - 1) == 0) by (nonlinear_arith)
            requires
                count - first == 0,
        ;
    }
}

} // verus!
