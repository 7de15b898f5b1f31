//! The layers of the cognitive architecture.

use vstd::prelude::*;

verus! {

/// A layer knows its name, for logs and telemetry.
pub trait AcaLayer {
    /// The name of the layer.
    spec fn name_text(&self) -> Seq<char>;

    /// The name of the layer: short and always the same.
    fn layer_name(&self) -> (name: &'static str)
        ensures
            name@ == self.name_text(),
    ;
}

/// The layer that takes in stimuli.
pub trait PerceptionLayer: AcaLayer {

}

/// The layer that represents and retrieves knowledge.
pub trait KnowledgeLayer: AcaLayer {

}

/// The layer that reasons and decides.
pub trait CognitionLayer: AcaLayer {

}

/// The layer that holds preferences, goals and values.
pub trait ValueLayer: AcaLayer {

}

/// The layer that watches and judges the system itself.
pub trait ReflectionLayer: AcaLayer {

}

/// The layer that acts on the outside.
pub trait ManifestationLayer: AcaLayer {

}

pub struct PlaceholderPerceptionLayer;

impl AcaLayer for PlaceholderPerceptionLayer {
    open spec fn name_text(&self) -> Seq<char> {
        "PlaceholderPerception"@
    }

    fn layer_name(&self) -> (name: &'static str) {
        "PlaceholderPerception"
    }
}

impl PerceptionLayer for PlaceholderPerceptionLayer {

}

pub struct PlaceholderKnowledgeLayer;

impl AcaLayer for PlaceholderKnowledgeLayer {
    open spec fn name_text(&self) -> Seq<char> {
        "PlaceholderKnowledge"@
    }

    fn layer_name(&self) -> (name: &'static str) {
        "PlaceholderKnowledge"
    }
}

impl KnowledgeLayer for PlaceholderKnowledgeLayer {

}

pub struct PlaceholderCognitionLayer;

impl AcaLayer for PlaceholderCognitionLayer {
    open spec fn name_text(&self) -> Seq<char> {
        "PlaceholderCognition"@
    }

    fn layer_name(&self) -> (name: &'static str) {
        "PlaceholderCognition"
    }
}

impl CognitionLayer for PlaceholderCognitionLayer {

}

pub struct PlaceholderValueLayer;

impl AcaLayer for PlaceholderValueLayer {
    open spec fn name_text(&self) -> Seq<char> {
        "PlaceholderValue"@
    }

    fn layer_name(&self) -> (name: &'static str) {
        "PlaceholderValue"
    }
}

impl ValueLayer for PlaceholderValueLayer {

}

pub struct PlaceholderReflectionLayer;

impl AcaLayer for PlaceholderReflectionLayer {
    open spec fn name_text(&self) -> Seq<char> {
        "PlaceholderReflection"@
    }

    fn layer_name(&self) -> (name: &'static str) {
        "PlaceholderReflection"
    }
}

impl ReflectionLayer for PlaceholderReflectionLayer {

}

pub struct PlaceholderManifestationLayer;

impl AcaLayer for PlaceholderManifestationLayer {
    open spec fn name_text(&self) -> Seq<char> {
        "PlaceholderManifestation"@
    }

    fn layer_name(&self) -> (name: &'static str) {
        "PlaceholderManifestation"
    }
}

impl ManifestationLayer for PlaceholderManifestationLayer {

}

} // verus!
