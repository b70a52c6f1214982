//! The tool-choice oneof of a chat request.

use vstd::prelude::*;

verus! {

/// Which tools the model may call: a named option (such as `auto`) or one tool.
#[derive(Debug, Clone, PartialEq, Eq)]
pub enum Choice {
    OptionName(String),
    ToolName(String),
}

} // verus!
