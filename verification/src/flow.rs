//! The epistemological flow: what one cycle of cognition knows about an
//! event, stage by stage.

use vstd::prelude::*;

verus! {

/// A sparse pattern: the set of active indices in a space of
/// `dimensionality` dimensions.
#[derive(Debug)]
pub struct DataEidos {
    active_indices: Vec<u32>,
    dimensionality: u32,
}

impl DataEidos {
    /// The active indices.
    pub closed spec fn indices(&self) -> Set<u32> {
        self.active_indices@.to_set()
    }

    /// The number of dimensions of the space.
    pub closed spec fn dims(&self) -> u32 {
        self.dimensionality
    }

    /// No index is held twice.
    pub closed spec fn wf(&self) -> bool {
        self.active_indices@.no_duplicates()
    }

    /// The number of dimensions of the space.
    pub fn dimensionality(&self) -> (dims: u32)
        ensures
            dims == self.dims(),
    {
        self.dimensionality
    }

    /// The pattern with no active index.
    pub fn new(dimensionality: u32) -> (eidos: Self)
        ensures
            eidos.wf(),
            eidos.indices() == Set::<u32>::empty(),
            eidos.dims() == dimensionality,
    {
        let eidos = DataEidos { active_indices: Vec::new(), dimensionality };
        assert(eidos.active_indices@.to_set() =~= Set::<u32>::empty());
        eidos
    }

    fn position(&self, index: u32) -> (found: Option<usize>)
        ensures
            match found {
                Some(i) => i < self.active_indices@.len() && self.active_indices@[i as int] == index,
                None => !self.active_indices@.contains(index),
            },
    {
        let mut i: usize = 0;
        while i < self.active_indices.len()
            invariant
                i <= self.active_indices@.len(),
                forall|j: int| 0 <= j < i ==> self.active_indices@[j] != index,
            decreases self.active_indices.len() - i,
        {
            if self.active_indices[i] == index {
                return Some(i);
            }
            i += 1;
        }
        None
    }

    /// Whether `index` is active.
    pub fn contains(&self, index: u32) -> (active: bool)
        ensures
            active == self.indices().contains(index),
    {
        match self.position(index) {
            Some(i) => {
                assert(self.active_indices@.contains(self.active_indices@[i as int]));
                true
            },
            None => false,
        }
    }

    /// The number of active indices.
    pub fn len(&self) -> (count: usize)
        requires
            self.wf(),
        ensures
            count == self.indices().len(),
            self.indices().finite(),
    {
        proof {
            self.active_indices@.unique_seq_to_set();
            vstd::seq_lib::seq_to_set_is_finite(self.active_indices@);
        }
        self.active_indices.len()
    }

    /// Makes `index` active; tells whether it was not active before.
    pub fn insert(&mut self, index: u32) -> (added: bool)
        requires
            old(self).wf(),
        ensures
            final(self).wf(),
            final(self).dims() == old(self).dims(),
            final(self).indices() == old(self).indices().insert(index),
            added == !old(self).indices().contains(index),
    {
        match self.position(index) {
            Some(i) => {
                assert(self.active_indices@.contains(self.active_indices@[i as int]));
                assert(self.indices() =~= self.indices().insert(index));
                false
            },
            None => {
                proof {
                    self.active_indices@.lemma_push_to_set_commute(index);
                }
                self.active_indices.push(index);
                true
            },
        }
    }

    /// Makes `index` inactive; tells whether it was active before.
    pub fn remove(&mut self, index: u32) -> (removed: bool)
        requires
            old(self).wf(),
        ensures
            final(self).wf(),
            final(self).dims() == old(self).dims(),
            final(self).indices() == old(self).indices().remove(index),
            removed == old(self).indices().contains(index),
    {
        match self.position(index) {
            Some(i) => {
                let ghost before = self.active_indices@;
                self.active_indices.remove(i);
                proof {
                    let after = self.active_indices@;
                    assert(before.contains(before[i as int]));
                    assert forall|x: u32| after.to_set().contains(x) <==> before.to_set().remove(
                        index,
                    ).contains(x) by {
                        if after.contains(x) {
                            let j = choose|j: int| 0 <= j < after.len() && after[j] == x;
                            if j < i {
                                assert(before[j] == x);
                            } else {
                                assert(before[j + 1] == x);
                            }
                        }
                        if before.contains(x) && x != index {
                            let j = choose|j: int| 0 <= j < before.len() && before[j] == x;
                            if j < i {
                                assert(after[j] == x);
                            } else {
                                assert(after[j - 1] == x);
                            }
                        }
                    }
                    assert(after.to_set() =~= before.to_set().remove(index));
                }
                true
            },
            None => {
                assert(self.indices() =~= self.indices().remove(index));
                false
            },
        }
    }

    /// The active indices, each once, in no particular order.
    pub fn to_vec(&self) -> (list: Vec<u32>)
        requires
            self.wf(),
        ensures
            list@.no_duplicates(),
            list@.to_set() == self.indices(),
    {
        self.active_indices.clone()
    }

    /// A copy of the pattern.
    pub fn duplicate(&self) -> (copy: Self)
        requires
            self.wf(),
        ensures
            copy.wf(),
            copy.indices() == self.indices(),
            copy.dims() == self.dims(),
    {
        DataEidos { active_indices: self.active_indices.clone(), dimensionality: self.dimensionality }
    }

    /// The pattern with every index of this one and, for each of them, the
    /// index `shift` further on, counted round a space of 2048 dimensions.
    pub open spec fn spread(indices: Set<u32>, shift: u32) -> Set<u32> {
        Set::new(|x: u32| indices.contains(x) || moved_from(indices, shift, x))
    }

    /// A copy of the pattern with, for each active index, the index
    /// `shift` further on made active too, counted round a space of 2048
    /// dimensions.
    pub fn shifted(&self, shift: u32) -> (wider: Self)
        requires
            self.wf(),
        ensures
            wider.wf(),
            wider.dims() == self.dims(),
            wider.indices() == DataEidos::spread(self.indices(), shift),
    {
        let mut wider = self.duplicate();
        let mut k: usize = 0;
        let ghost source = self.active_indices@;
        assert(wider.indices() =~= DataEidos::spread(source.take(0).to_set(), shift).union(
            source.to_set(),
        )) by {
            assert forall|x: u32| !moved_from(source.take(0).to_set(), shift, x) by {
                if moved_from(source.take(0).to_set(), shift, x) {
                    let idx = choose|idx: u32| #[trigger]
                        source.take(0).to_set().contains(idx) && x == (idx + shift) % 2048;
                    assert(source.take(0).contains(idx));
                }
            }
        }
        while k < self.active_indices.len()
            invariant
                k <= source.len(),
                source == self.active_indices@,
                wider.wf(),
                wider.dims() == self.dims(),
                wider.indices() == DataEidos::spread(source.take(k as int).to_set(), shift).union(
                    source.to_set(),
                ),
            decreases self.active_indices.len() - k,
        {
            let idx = self.active_indices[k];
            let moved: u64 = (idx as u64 + shift as u64) % 2048;
            let ghost seen = source.take(k as int).to_set();
            let ghost next = source.take(k + 1).to_set();
            wider.insert(moved as u32);
            proof {
                source.lemma_take_succ_push(k as int);
                source.take(k as int).lemma_push_to_set_commute(idx);
                assert(next =~= seen.insert(idx));
                assert forall|x: u32|
                    DataEidos::spread(next, shift).union(source.to_set()).contains(x)
                        <==> DataEidos::spread(seen, shift).union(source.to_set()).insert(
                        moved as u32,
                    ).contains(x) by {
                    assert(source.contains(source[k as int]));
                    if moved_from(next, shift, x) {
                        let from = choose|from: u32| #[trigger]
                            next.contains(from) && x == (from + shift) % 2048;
                        if from != idx {
                            assert(seen.contains(from));
                        }
                    }
                    if moved_from(seen, shift, x) {
                        let from = choose|from: u32| #[trigger]
                            seen.contains(from) && x == (from + shift) % 2048;
                        assert(next.contains(from));
                    }
                    if x == moved as u32 {
                        assert(next.contains(idx) && x == (idx + shift) % 2048);
                    }
                }
                assert(wider.indices() =~= DataEidos::spread(next, shift).union(source.to_set()));
            }
            k += 1;
        }
        proof {
            source.lemma_take_len();
            assert forall|x: u32| source.to_set().contains(x) implies DataEidos::spread(
                source.to_set(),
                shift,
            ).contains(x) by {}
            assert(wider.indices() =~= DataEidos::spread(self.indices(), shift));
        }
        wider
    }
}

/// Whether `x` is the index `shift` further on from one of `indices`,
/// counted round a space of 2048 dimensions.
pub open spec fn moved_from(indices: Set<u32>, shift: u32, x: u32) -> bool {
    exists|idx: u32| #[trigger] indices.contains(idx) && x == (idx + shift) % 2048
}

/// The feeling that an event leaves. The weight is in thousandths.
#[derive(Debug, Clone, Copy, PartialEq, Eq, Structural)]
pub enum Vedana {
    Pleasant { karma_weight_milli: i32 },
    Unpleasant { karma_weight_milli: i32 },
    Neutral,
}

/// What one cycle of cognition knows about an event: the raw event, the
/// feeling it leaves, the pattern perceived in it, the patterns related to
/// that one, and the intent formed.
#[derive(Debug)]
pub struct EpistemologicalFlow {
    pub rupa: Option<Vec<u8>>,
    pub vedana: Option<Vedana>,
    pub sanna: Option<DataEidos>,
    pub related_eidos: Option<Vec<DataEidos>>,
    pub sankhara: Option<String>,
}

impl Default for EpistemologicalFlow {
    fn default() -> (flow: Self)
        ensures
            flow.rupa.is_none(),
            flow.vedana.is_none(),
            flow.sanna.is_none(),
            flow.related_eidos.is_none(),
            flow.sankhara.is_none(),
    {
        EpistemologicalFlow {
            rupa: None,
            vedana: None,
            sanna: None,
            related_eidos: None,
            sankhara: None,
        }
    }
}

impl EpistemologicalFlow {
    /// Every pattern in the flow holds each of its indices once.
    pub open spec fn wf(&self) -> bool {
        &&& self.sanna matches Some(eidos) ==> eidos.wf()
        &&& self.related_eidos matches Some(list) ==> forall|i: int|
            0 <= i < list@.len() ==> (#[trigger] list@[i]).wf()
    }

    /// The flow that knows the raw event and nothing else.
    pub fn from_bytes(bytes: Vec<u8>) -> (flow: Self)
        ensures
            flow.wf(),
            flow.rupa == Some(bytes),
            flow.vedana.is_none(),
            flow.sanna.is_none(),
            flow.related_eidos.is_none(),
            flow.sankhara.is_none(),
    {
        EpistemologicalFlow {
            rupa: Some(bytes),
            vedana: None,
            sanna: None,
            related_eidos: None,
            sankhara: None,
        }
    }

    /// Sets the intent to a fixed text.
    pub fn set_static_intent(&mut self, intent: &'static str)
        ensures
            final(self).sankhara matches Some(text) && text@ == intent@,
            final(self).rupa == old(self).rupa,
            final(self).vedana == old(self).vedana,
            final(self).sanna == old(self).sanna,
            final(self).related_eidos == old(self).related_eidos,
    {
        self.sankhara = Some(intent.to_owned());
    }

    /// Sets the intent.
    pub fn set_interned_intent(&mut self, intent: String)
        ensures
            final(self).sankhara == Some(intent),
            final(self).rupa == old(self).rupa,
            final(self).vedana == old(self).vedana,
            final(self).sanna == old(self).sanna,
            final(self).related_eidos == old(self).related_eidos,
    {
        self.sankhara = Some(intent);
    }
}

} // verus!
