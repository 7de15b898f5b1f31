//! The five stages of one cycle of cognition, and the processor that runs
//! them in order: form, feeling, perception, formations, consciousness.

use vstd::prelude::*;
use vstd::string::{StrSliceExecFns, StringExecFns};
use vstd::utf8::encode_utf8;
use crate::flow::{DataEidos, EpistemologicalFlow, Vedana};
use crate::text::{has_infix, lowercase_of, str_contains, str_to_lowercase};

verus! {

/// The text that `bytes` decode to where every malformed sequence counts
/// as the replacement character, as `String::from_utf8_lossy` gives it.
pub uninterp spec fn lossy_text(bytes: Seq<u8>) -> Seq<char>;

/// `String::from_utf8_lossy`: the text of the bytes, with the replacement
/// character for what is not UTF-8.
#[verifier::external_body]
fn from_utf8_lossy(bytes: &Vec<u8>) -> (text: String)
    ensures
        text@ == lossy_text(bytes@),
{
    String::from_utf8_lossy(bytes).into_owned()
}

/// The intent to report an error.
pub const REPORT_ERROR: &'static str = "REPORT_ERROR";

/// A stage of the cycle knows its name.
pub trait Skandha {
    /// The name of the stage.
    spec fn name_text(&self) -> Seq<char>;

    /// The name of the stage.
    fn name(&self) -> (name: &'static str)
        ensures
            name@ == self.name_text(),
    ;
}

/// Form: takes in the raw event.
pub trait RupaSkandha: Skandha {
    /// Whether `flow` is what the stage makes of `event`.
    spec fn receives(&self, event: Vec<u8>, flow: EpistemologicalFlow) -> bool;

    fn process_event(&self, event: Vec<u8>) -> (flow: EpistemologicalFlow)
        ensures
            flow.wf(),
            self.receives(event, flow),
    ;
}

/// Feeling: attaches a feeling to the event.
pub trait VedanaSkandha: Skandha {
    /// Whether `after` is what the stage makes of `before`.
    spec fn feels(&self, before: EpistemologicalFlow, after: EpistemologicalFlow) -> bool;

    fn feel(&self, flow: &mut EpistemologicalFlow)
        requires
            old(flow).wf(),
        ensures
            final(flow).wf(),
            self.feels(*old(flow), *final(flow)),
    ;
}

/// Perception: recognises patterns in the event.
pub trait SannaSkandha: Skandha {
    /// Whether `after` is what the stage makes of `before`.
    spec fn perceives(&self, before: EpistemologicalFlow, after: EpistemologicalFlow) -> bool;

    fn perceive(&self, flow: &mut EpistemologicalFlow)
        requires
            old(flow).wf(),
        ensures
            final(flow).wf(),
            self.perceives(*old(flow), *final(flow)),
    ;
}

/// Formations: forms an intent.
pub trait SankharaSkandha: Skandha {
    /// Whether `after` is what the stage makes of `before`.
    spec fn intends(&self, before: EpistemologicalFlow, after: EpistemologicalFlow) -> bool;

    fn form_intent(&self, flow: &mut EpistemologicalFlow)
        requires
            old(flow).wf(),
        ensures
            final(flow).wf(),
            self.intends(*old(flow), *final(flow)),
    ;
}

/// Consciousness: sums the cycle up in an event to be born again, if any.
pub trait VinnanaSkandha: Skandha {
    /// Whether `reborn` is what the stage makes of `flow`.
    spec fn concludes(&self, flow: EpistemologicalFlow, reborn: Option<Vec<u8>>) -> bool;

    fn synthesize(&self, flow: &EpistemologicalFlow) -> (reborn: Option<Vec<u8>>)
        requires
            flow.wf(),
        ensures
            self.concludes(*flow, reborn),
    ;
}

#[derive(Debug, Clone, Copy)]
pub struct BasicRupaSkandha;

impl Skandha for BasicRupaSkandha {
    open spec fn name_text(&self) -> Seq<char> {
        "Basic Rupa (Form)"@
    }

    fn name(&self) -> (name: &'static str) {
        "Basic Rupa (Form)"
    }
}

impl RupaSkandha for BasicRupaSkandha {
    /// The flow knows the event and nothing else.
    open spec fn receives(&self, event: Vec<u8>, flow: EpistemologicalFlow) -> bool {
        &&& flow.rupa == Some(event)
        &&& flow.vedana.is_none()
        &&& flow.sanna.is_none()
        &&& flow.related_eidos.is_none()
        &&& flow.sankhara.is_none()
    }

    fn process_event(&self, event: Vec<u8>) -> (flow: EpistemologicalFlow) {
        EpistemologicalFlow::from_bytes(event)
    }
}

/// The feeling that a raw event leaves: unpleasant, with a weight of minus
/// one, where its text speaks of an error; else neutral.
pub open spec fn feeling_of(rupa: Option<Vec<u8>>) -> Vedana {
    match rupa {
        Some(bytes) => if has_infix(lossy_text(bytes@), "error"@) {
            Vedana::Unpleasant { karma_weight_milli: -1000i32 }
        } else {
            Vedana::Neutral
        },
        None => Vedana::Neutral,
    }
}

#[derive(Debug, Clone, Copy)]
pub struct BasicVedanaSkandha;

impl Skandha for BasicVedanaSkandha {
    open spec fn name_text(&self) -> Seq<char> {
        "Basic Vedana (Feeling)"@
    }

    fn name(&self) -> (name: &'static str) {
        "Basic Vedana (Feeling)"
    }
}

impl VedanaSkandha for BasicVedanaSkandha {
    /// The feeling is that of the raw event; nothing else changes.
    open spec fn feels(&self, before: EpistemologicalFlow, after: EpistemologicalFlow) -> bool {
        &&& after.vedana == Some(feeling_of(before.rupa))
        &&& after.rupa == before.rupa
        &&& after.sanna == before.sanna
        &&& after.related_eidos == before.related_eidos
        &&& after.sankhara == before.sankhara
    }

    fn feel(&self, flow: &mut EpistemologicalFlow) {
        let feeling = match &flow.rupa {
            Some(rupa) => {
                let content = from_utf8_lossy(rupa);
                if str_contains(content.as_str(), "error") {
                    Vedana::Unpleasant { karma_weight_milli: -1000 }
                } else {
                    Vedana::Neutral
                }
            },
            None => Vedana::Neutral,
        };
        flow.vedana = Some(feeling);
    }
}

/// The index that the byte `byte` at position `i` of an event activates.
pub open spec fn byte_index(i: int, byte: u8) -> u32 {
    ((i * 7 + byte) % 2048) as u32
}

/// The indices that the bytes of an event activate: one for each byte that
/// is not zero.
pub open spec fn byte_indices(bytes: Seq<u8>) -> Set<u32> {
    Set::new(
        |x: u32| exists|i: int| 0 <= i < bytes.len() && #[trigger] bytes[i] > 0 && x == byte_index(i, bytes[i]),
    )
}

/// The indices that the keywords in the lowercase text of an event
/// activate: thirteen times the length of each keyword found.
pub open spec fn keyword_indices(lowered: Seq<char>) -> Set<u32> {
    Set::new(
        |x: u32|
            {
                ||| has_infix(lowered, "error"@) && x == 65
                ||| has_infix(lowered, "warning"@) && x == 91
                ||| has_infix(lowered, "success"@) && x == 91
                ||| has_infix(lowered, "info"@) && x == 52
                ||| has_infix(lowered, "critical"@) && x == 104
            },
    )
}

/// The pattern perceived in a raw event.
pub open spec fn perceived(rupa: Option<Vec<u8>>) -> Set<u32> {
    match rupa {
        Some(bytes) => byte_indices(bytes@).union(
            keyword_indices(lowercase_of(lossy_text(bytes@))),
        ),
        None => Set::empty(),
    }
}

#[derive(Debug, Clone, Copy)]
pub struct BasicSannaSkandha;

impl Skandha for BasicSannaSkandha {
    open spec fn name_text(&self) -> Seq<char> {
        "Basic Sanna (Perception)"@
    }

    fn name(&self) -> (name: &'static str) {
        "Basic Sanna (Perception)"
    }
}

impl BasicSannaSkandha {
    /// The three patterns related to `eidos`: the first widens it by the
    /// next index after each active one, the second by the second next,
    /// the third by the third next.
    pub fn find_related_patterns(&self, eidos: &DataEidos) -> (related: Vec<DataEidos>)
        requires
            eidos.wf(),
        ensures
            related@.len() == 3,
            forall|i: int|
                0 <= i < 3 ==> {
                    &&& (#[trigger] related@[i]).wf()
                    &&& related@[i].dims() == eidos.dims()
                    &&& related@[i].indices() == DataEidos::spread(eidos.indices(), (i + 1) as u32)
                },
    {
        let mut related: Vec<DataEidos> = Vec::new();
        let mut i: u32 = 0;
        while i < 3
            invariant
                i <= 3,
                eidos.wf(),
                related@.len() == i,
                forall|j: int|
                    0 <= j < i ==> {
                        &&& (#[trigger] related@[j]).wf()
                        &&& related@[j].dims() == eidos.dims()
                        &&& related@[j].indices() == DataEidos::spread(
                            eidos.indices(),
                            (j + 1) as u32,
                        )
                    },
            decreases 3 - i,
        {
            related.push(eidos.shifted(i + 1));
            i += 1;
        }
        related
    }

    /// The pattern that the bytes of an event activate.
    fn perceive_bytes(eidos: &mut DataEidos, bytes: &Vec<u8>)
        requires
            old(eidos).wf(),
        ensures
            final(eidos).wf(),
            final(eidos).dims() == old(eidos).dims(),
            final(eidos).indices() == old(eidos).indices().union(byte_indices(bytes@)),
    {
        let ghost start = eidos.indices();
        let mut i: usize = 0;
        assert(eidos.indices() =~= start.union(byte_indices(bytes@.take(0))));
        while i < bytes.len()
            invariant
                i <= bytes@.len(),
                eidos.wf(),
                eidos.dims() == old(eidos).dims(),
                eidos.indices() == start.union(byte_indices(bytes@.take(i as int))),
            decreases bytes.len() - i,
        {
            let byte = bytes[i];
            let ghost seen = bytes@.take(i as int);
            let ghost next = bytes@.take(i + 1);
            let ghost before = eidos.indices();
            if byte > 0 {
                let index: u64 = ((i % 2048) as u64 * 7 + byte as u64) % 2048;
                assert(index == byte_index(i as int, byte)) by {
                    assert(((i % 2048) * 7 + byte) % 2048 == (i * 7 + byte) % 2048) by (nonlinear_arith);
                }
                eidos.insert(index as u32);
            }
            proof {
                assert forall|x: u32|
                    byte_indices(next).contains(x) <==> (byte_indices(seen).contains(x) || (byte
                        > 0 && x == byte_index(i as int, byte))) by {
                    if byte_indices(next).contains(x) {
                        let k = choose|k: int|
                            0 <= k < next.len() && #[trigger] next[k] > 0 && x == byte_index(
                                k,
                                next[k],
                            );
                        if k < i {
                            assert(seen[k] > 0 && x == byte_index(k, seen[k]));
                        }
                    }
                    if byte_indices(seen).contains(x) {
                        let k = choose|k: int|
                            0 <= k < seen.len() && #[trigger] seen[k] > 0 && x == byte_index(
                                k,
                                seen[k],
                            );
                        assert(next[k] > 0 && x == byte_index(k, next[k]));
                    }
                    if byte > 0 && x == byte_index(i as int, byte) {
                        assert(next[i as int] > 0 && x == byte_index(i as int, next[i as int]));
                    }
                }
                assert(eidos.indices() =~= start.union(byte_indices(next)));
            }
            i += 1;
        }
        assert(bytes@.take(bytes@.len() as int) == bytes@);
    }

    /// The pattern that the keywords in the lowercase text of an event
    /// activate.
    fn perceive_keywords(eidos: &mut DataEidos, lowered: &str)
        requires
            old(eidos).wf(),
        ensures
            final(eidos).wf(),
            final(eidos).dims() == old(eidos).dims(),
            final(eidos).indices() == old(eidos).indices().union(keyword_indices(lowered@)),
    {
        if str_contains(lowered, "error") {
            eidos.insert(65);
        }
        if str_contains(lowered, "warning") {
            eidos.insert(91);
        }
        if str_contains(lowered, "success") {
            eidos.insert(91);
        }
        if str_contains(lowered, "info") {
            eidos.insert(52);
        }
        if str_contains(lowered, "critical") {
            eidos.insert(104);
        }
        assert(eidos.indices() =~= old(eidos).indices().union(keyword_indices(lowered@)));
    }
}

impl SannaSkandha for BasicSannaSkandha {
    /// The pattern is the one perceived in the raw event, in 2048
    /// dimensions, and the related patterns are its three widenings;
    /// nothing else changes.
    open spec fn perceives(&self, before: EpistemologicalFlow, after: EpistemologicalFlow) -> bool {
        &&& after.sanna matches Some(eidos) && eidos.indices() == perceived(before.rupa)
            && eidos.dims() == 2048
        &&& after.related_eidos matches Some(related) && related@.len() == 3 && forall|i: int|
            0 <= i < 3 ==> (#[trigger] related@[i]).dims() == 2048 && related@[i].indices()
                == DataEidos::spread(perceived(before.rupa), (i + 1) as u32)
        &&& after.rupa == before.rupa
        &&& after.vedana == before.vedana
        &&& after.sankhara == before.sankhara
    }

    fn perceive(&self, flow: &mut EpistemologicalFlow) {
        let mut eidos = DataEidos::new(2048);
        match &flow.rupa {
            Some(rupa) => {
                Self::perceive_bytes(&mut eidos, rupa);
                let content = from_utf8_lossy(rupa);
                let lowered = str_to_lowercase(content.as_str());
                Self::perceive_keywords(&mut eidos, lowered.as_str());
                assert(eidos.indices() =~= perceived(flow.rupa));
            },
            None => {},
        }
        let related = self.find_related_patterns(&eidos);
        flow.sanna = Some(eidos);
        flow.related_eidos = Some(related);
    }
}

#[derive(Debug, Clone, Copy)]
pub struct BasicSankharaSkandha;

impl Skandha for BasicSankharaSkandha {
    open spec fn name_text(&self) -> Seq<char> {
        "Basic Sankhara (Formations)"@
    }

    fn name(&self) -> (name: &'static str) {
        "Basic Sankhara (Formations)"
    }
}

impl SankharaSkandha for BasicSankharaSkandha {
    /// An unpleasant feeling forms the intent to report an error; any
    /// other leaves the flow as it is.
    open spec fn intends(&self, before: EpistemologicalFlow, after: EpistemologicalFlow) -> bool {
        &&& if before.vedana matches Some(Vedana::Unpleasant { .. }) {
            after.sankhara matches Some(intent) && intent@ == REPORT_ERROR@
        } else {
            after.sankhara == before.sankhara
        }
        &&& after.rupa == before.rupa
        &&& after.vedana == before.vedana
        &&& after.sanna == before.sanna
        &&& after.related_eidos == before.related_eidos
    }

    fn form_intent(&self, flow: &mut EpistemologicalFlow) {
        match flow.vedana {
            Some(Vedana::Unpleasant { .. }) => {
                flow.set_static_intent(REPORT_ERROR);
            },
            _ => {},
        }
    }
}

/// The text that sums up a cycle with the intent `intent`.
pub open spec fn synthesis(intent: Seq<char>) -> Seq<char> {
    "Synthesized consciousness: Intent is '"@ + intent + "'"@
}

#[derive(Debug, Clone, Copy)]
pub struct BasicVinnanaSkandha;

impl Skandha for BasicVinnanaSkandha {
    open spec fn name_text(&self) -> Seq<char> {
        "Basic Vinnana (Consciousness)"@
    }

    fn name(&self) -> (name: &'static str) {
        "Basic Vinnana (Consciousness)"
    }
}

impl VinnanaSkandha for BasicVinnanaSkandha {
    /// A flow with an intent is born again as the UTF-8 bytes of its
    /// synthesis; one without ends the cycle.
    open spec fn concludes(&self, flow: EpistemologicalFlow, reborn: Option<Vec<u8>>) -> bool {
        match flow.sankhara {
            Some(intent) => reborn matches Some(bytes) && bytes@ == encode_utf8(
                synthesis(intent@),
            ),
            None => reborn.is_none(),
        }
    }

    fn synthesize(&self, flow: &EpistemologicalFlow) -> (reborn: Option<Vec<u8>>) {
        match &flow.sankhara {
            Some(intent) => {
                let conscious_event = String::from_str("Synthesized consciousness: Intent is '").concat(
                    intent.as_str(),
                ).concat("'");
                Some(conscious_event.as_str().as_bytes_vec())
            },
            None => None,
        }
    }
}

/// Runs the five stages in order.
pub struct SkandhaProcessor<R, V, S, K, N> {
    rupa: R,
    vedana: V,
    sanna: S,
    sankhara: K,
    vinnana: N,
}

impl<R: RupaSkandha, V: VedanaSkandha, S: SannaSkandha, K: SankharaSkandha, N: VinnanaSkandha> SkandhaProcessor<R, V, S, K, N> {
    /// The stage of form.
    pub closed spec fn rupa(&self) -> R {
        self.rupa
    }

    /// The stage of feeling.
    pub closed spec fn vedana(&self) -> V {
        self.vedana
    }

    /// The stage of perception.
    pub closed spec fn sanna(&self) -> S {
        self.sanna
    }

    /// The stage of formations.
    pub closed spec fn sankhara(&self) -> K {
        self.sankhara
    }

    /// The stage of consciousness.
    pub closed spec fn vinnana(&self) -> N {
        self.vinnana
    }

    pub fn new(rupa: R, vedana: V, sanna: S, sankhara: K, vinnana: N) -> (processor: Self)
        ensures
            processor.rupa() == rupa,
            processor.vedana() == vedana,
            processor.sanna() == sanna,
            processor.sankhara() == sankhara,
            processor.vinnana() == vinnana,
    {
        SkandhaProcessor { rupa, vedana, sanna, sankhara, vinnana }
    }

    /// Whether `reborn` is what the five stages, one after the other, make
    /// of `event`.
    pub open spec fn cycle(&self, event: Vec<u8>, reborn: Option<Vec<u8>>) -> bool {
        exists|
            received: EpistemologicalFlow,
            felt: EpistemologicalFlow,
            perceived: EpistemologicalFlow,
            intended: EpistemologicalFlow,
        |
            {
                &&& #[trigger] self.rupa().receives(event, received)
                &&& #[trigger] self.vedana().feels(received, felt)
                &&& #[trigger] self.sanna().perceives(felt, perceived)
                &&& #[trigger] self.sankhara().intends(perceived, intended)
                &&& self.vinnana().concludes(intended, reborn)
            }
    }

    /// Runs one full cycle on an event. The result is the event to be born
    /// again, if the cycle ends in one.
    pub fn run_epistemological_cycle(&self, event: Vec<u8>) -> (reborn: Option<Vec<u8>>)
        ensures
            self.cycle(event, reborn),
    {
        let mut flow = self.rupa.process_event(event);
        let ghost received = flow;
        self.vedana.feel(&mut flow);
        let ghost felt = flow;
        self.sanna.perceive(&mut flow);
        let ghost perceived = flow;
        self.sankhara.form_intent(&mut flow);
        let ghost intended = flow;
        let reborn = self.vinnana.synthesize(&flow);
        assert(self.rupa().receives(event, received) && self.vedana().feels(received, felt)
            && self.sanna().perceives(felt, perceived) && self.sankhara().intends(
            perceived,
            intended,
        ) && self.vinnana().concludes(intended, reborn));
        reborn
    }
}

} // verus!
