//! The displaying side of the plugin: what is shown of a stored commit.

use crate::commit::{DatabaseCommit, DatabaseCommitView};
use crate::text::views;
use vstd::prelude::*;
use vstd::string::*;

verus! {

/// The colour scheme of a card on the timeline.
#[derive(Clone, Copy, Debug, PartialEq, Eq, Structural)]
pub enum Style {
    /// The first accent colour.
    Acc1,
    /// The second accent colour.
    Acc2,
}

/// The git plugin as the timeline shows it.
#[derive(Clone, Copy, Debug, PartialEq, Eq, Structural)]
pub struct Plugin {}

/// The card that is shown for one commit: a heading, and lines of text under
/// it.
#[derive(Clone, Debug, PartialEq, Eq)]
pub struct Component {
    pub style: Style,
    pub heading: String,
    pub lines: Vec<String>,
}

/// What a [`Component`] holds, with its texts as sequences of characters.
pub struct ComponentView {
    pub style: Style,
    pub heading: Seq<char>,
    pub lines: Seq<Seq<char>>,
}

impl View for Component {
    type V = ComponentView;

    open spec fn view(&self) -> ComponentView {
        ComponentView { style: self.style, heading: self.heading@, lines: views(self.lines@) }
    }
}

/// The card of a commit: headed by the repository's name, with the message
/// and then the author under it, in the plugin's colours.
pub open spec fn card_of(data: DatabaseCommitView) -> ComponentView {
    ComponentView {
        style: Style::Acc1,
        heading: data.repository_name,
        lines: seq![data.message, data.author],
    }
}

/// What is shown for the payload of an event: its card, or the reason why
/// the payload could not be had.
pub open spec fn component_outcome(data: Result<DatabaseCommitView, Seq<char>>) -> Result<
    ComponentView,
    Seq<char>,
> {
    match data {
        Ok(commit) => Ok(card_of(commit)),
        Err(cause) => Err(cause),
    }
}

/// The view of a payload that may have failed to arrive.
pub open spec fn data_view(data: Result<DatabaseCommit, String>) -> Result<
    DatabaseCommitView,
    Seq<char>,
> {
    match data {
        Ok(commit) => Ok(commit@),
        Err(cause) => Err(cause@),
    }
}

/// The view of a card that may have failed to be made.
pub open spec fn component_view(r: Result<Component, String>) -> Result<
    ComponentView,
    Seq<char>,
> {
    match r {
        Ok(card) => Ok(card@),
        Err(cause) => Err(cause@),
    }
}

impl Plugin {
    /// The plugin; it keeps nothing.
    pub fn new() -> (plugin: Plugin)
        ensures
            plugin == (Plugin {  }),
    {
        Plugin {  }
    }

    /// The colours of the plugin's cards.
    pub fn get_style(&self) -> (style: Style)
        ensures
            style == Style::Acc1,
    {
        Style::Acc1
    }

    /// The card for the payload of an event. A payload that could not be had
    /// gives its failure, unchanged.
    pub fn get_component(&self, data: &Result<DatabaseCommit, String>) -> (r: Result<
        Component,
        String,
    >)
        ensures
            component_view(r) == component_outcome(data_view(*data)),
    {
        match data {
            Err(cause) => Err(cause.clone()),
            Ok(commit) => {
                let mut lines: Vec<String> = Vec::new();
                lines.push(commit.message.clone());
                lines.push(commit.author.clone());
                proof {
                    assert(views(lines@) == seq![commit.message@, commit.author@]);
                }
                Ok(
                    Component {
                        style: self.get_style(),
                        heading: commit.repository_name.clone(),
                        lines,
                    },
                )
            },
        }
    }
}

} // verus!
