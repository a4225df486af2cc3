//! The configuration that a trace was recorded with.

use vstd::prelude::*;

verus! {

/// The tracer's configuration, as the text of a JSON object. A trace carries it along and hands it
/// to the validators; nothing here looks inside.
#[derive(Debug)]
pub struct TracerConfig {
    pub document: String,
}

impl TracerConfig {
    /// The configuration that sets nothing.
    pub open spec fn unset() -> Seq<char> {
        seq!['{', '}']
    }
}

impl View for TracerConfig {
    type V = Seq<char>;

    open spec fn view(&self) -> Seq<char> {
        self.document@
    }
}

impl Clone for TracerConfig {
    fn clone(&self) -> (res: TracerConfig)
        ensures
            res == *self,
    {
        TracerConfig { document: self.document.clone() }
    }
}

impl Default for TracerConfig {
    fn default() -> (res: TracerConfig)
        ensures
            res@ == TracerConfig::unset(),
    {
        proof {
            reveal_strlit("{}");
        }
        let res = TracerConfig { document: "{}".to_string() };
        assert(res@ =~= TracerConfig::unset());
        res
    }
}

/// A configuration is its document, and the one that sets nothing is an empty JSON object.
pub proof fn law_unset_is_an_empty_object(config: TracerConfig)
    ensures
        config@ == config.document@,
        TracerConfig::unset() == "{}"@,
{
    reveal_strlit("{}");
    assert(TracerConfig::unset() =~= "{}"@);
}

} // verus!
