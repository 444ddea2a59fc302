//! A generated plan, as the installer takes it.

use vstd::prelude::*;
use vstd::string::*;

verus! {

/// A generated module and where it came from.
#[derive(Debug, Clone)]
pub struct Plan {
    /// The name of the plan, which also names its module file.
    pub id: String,
    /// The request it answers.
    pub prompt: String,
    /// The module text as it was generated.
    pub module_source: String,
}

/// A [`Plan`] with its texts.
#[verifier::ext_equal]
pub struct PlanView {
    pub id: Seq<char>,
    pub prompt: Seq<char>,
    pub module_source: Seq<char>,
}

impl View for Plan {
    type V = PlanView;

    open spec fn view(&self) -> PlanView {
        PlanView { id: self.id@, prompt: self.prompt@, module_source: self.module_source@ }
    }
}

} // verus!
