//! The stage that the process runs in.

use vstd::prelude::*;

verus! {

/// Where the process runs.
#[derive(Clone, Copy, Debug, PartialEq, Eq, Structural)]
pub enum Stage {
    Local,
    Development,
    Production,
}

/// The one way in which reading a stage fails: the text names none.
#[derive(Clone, Copy, Debug, PartialEq, Eq, Structural)]
pub struct InvalidStage;

impl Stage {
    /// The name of the stage.
    pub open spec fn name(self) -> Seq<char> {
        match self {
            Stage::Local => "local"@,
            Stage::Development => "development"@,
            Stage::Production => "production"@,
        }
    }

    /// The stage that `text` names, if it names one. The names are taken as
    /// they are: `Local` and ` local` name nothing.
    pub open spec fn named(text: Seq<char>) -> Option<Stage> {
        if text == "local"@ {
            Some(Stage::Local)
        } else if text == "development"@ {
            Some(Stage::Development)
        } else if text == "production"@ {
            Some(Stage::Production)
        } else {
            None
        }
    }

    /// Reads a stage from its name.
    pub fn from_str(stage: &str) -> (read: Result<Stage, InvalidStage>)
        ensures
            read is Ok <==> Stage::named(stage@) is Some,
            read matches Ok(found) ==> Stage::named(stage@) == Some(found),
    {
        let text = stage.to_owned();
        if text == "local".to_owned() {
            Ok(Stage::Local)
        } else if text == "development".to_owned() {
            Ok(Stage::Development)
        } else if text == "production".to_owned() {
            Ok(Stage::Production)
        } else {
            Err(InvalidStage)
        }
    }

    /// The name of the stage.
    pub fn to_string(&self) -> (text: String)
        ensures
            text@ == self.name(),
    {
        match self {
            Stage::Local => "local".to_owned(),
            Stage::Development => "development".to_owned(),
            Stage::Production => "production".to_owned(),
        }
    }
}

impl InvalidStage {
    /// The message for a text that names no stage.
    pub fn message(&self) -> (text: String)
        ensures
            text@ == "Invalid stage"@,
    {
        "Invalid stage".to_owned()
    }
}

impl Default for Stage {
    /// A process that is told nothing runs in development.
    fn default() -> (stage: Stage)
        ensures
            stage == Stage::Development,
    {
        Stage::Development
    }
}

/// Every stage is read back from its own name.
pub proof fn lemma_stage_names_round_trip(stage: Stage)
    ensures
        Stage::named(stage.name()) == Some(stage),
{
    reveal_strlit("local");
    reveal_strlit("development");
    reveal_strlit("production");
    assert("local"@.len() != "development"@.len());
    assert("local"@.len() != "production"@.len());
    assert("development"@.len() != "production"@.len());
}

} // verus!
