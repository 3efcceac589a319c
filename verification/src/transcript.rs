//! Tool-use events decoded from a session transcript.
//!
//! The surrounding binary parses each transcript line and flattens the
//! message content into [`RawContentItem`]s; `extract_tool_events` turns
//! those into the chronologically indexed event sequence the check engine
//! consumes.

use vstd::prelude::*;
use crate::strutil::str_eq;

verus! {

/// A tool use event extracted from the transcript.
#[derive(Debug, Clone)]
pub struct ToolUseEvent {
    pub tool_name: String,
    pub command: Option<String>,
    pub file_path: Option<String>,
    pub index: usize,
}

/// The mathematical value of a [`ToolUseEvent`].
#[verifier::ext_equal]
pub ghost struct ToolUseEventView {
    pub tool_name: Seq<char>,
    pub command: Option<Seq<char>>,
    pub file_path: Option<Seq<char>>,
    pub index: int,
}

impl View for ToolUseEvent {
    type V = ToolUseEventView;

    open spec fn view(&self) -> ToolUseEventView {
        ToolUseEventView {
            tool_name: self.tool_name@,
            command: self.command.deep_view(),
            file_path: self.file_path.deep_view(),
            index: self.index as int,
        }
    }
}

impl DeepView for ToolUseEvent {
    type V = ToolUseEventView;

    open spec fn deep_view(&self) -> ToolUseEventView {
        self@
    }
}

/// One content item of a transcript message, already reduced to plain
/// values: its declared type, the tool name, and the command or file path
/// found in the tool input.
#[derive(Debug, Clone)]
pub struct RawContentItem {
    pub item_type: Option<String>,
    pub name: Option<String>,
    pub command: Option<String>,
    pub file_path: Option<String>,
}

/// The mathematical value of a [`RawContentItem`].
#[verifier::ext_equal]
pub ghost struct RawContentItemView {
    pub item_type: Option<Seq<char>>,
    pub name: Option<Seq<char>>,
    pub command: Option<Seq<char>>,
    pub file_path: Option<Seq<char>>,
}

impl View for RawContentItem {
    type V = RawContentItemView;

    open spec fn view(&self) -> RawContentItemView {
        RawContentItemView {
            item_type: self.item_type.deep_view(),
            name: self.name.deep_view(),
            command: self.command.deep_view(),
            file_path: self.file_path.deep_view(),
        }
    }
}

impl DeepView for RawContentItem {
    type V = RawContentItemView;

    open spec fn deep_view(&self) -> RawContentItemView {
        self@
    }
}

/// Whether a content item denotes a tool use with a name.
pub open spec fn is_tool_use(item: RawContentItemView) -> bool {
    item.item_type == Some("tool_use"@) && item.name is Some
}

/// The event a single tool-use item gives rise to: the command is kept
/// only for shell executions, the file path only for file writes.
pub open spec fn event_of_item(item: RawContentItemView, index: int) -> ToolUseEventView {
    let name = item.name->Some_0;
    ToolUseEventView {
        tool_name: name,
        command: if name == "Bash"@ { item.command } else { None },
        file_path: if name == "Edit"@ || name == "Write"@ { item.file_path } else { None },
        index: index,
    }
}

/// The event sequence for a sequence of content items: one event per
/// tool-use item, indexed consecutively from zero in transcript order.
pub open spec fn events_of_items(items: Seq<RawContentItemView>) -> Seq<ToolUseEventView>
    decreases items.len(),
{
    if items.len() == 0 {
        Seq::empty()
    } else {
        let rest = events_of_items(items.drop_last());
        if is_tool_use(items.last()) {
            rest.push(event_of_item(items.last(), rest.len() as int))
        } else {
            rest
        }
    }
}

/// Turn the flattened content items of a transcript into tool-use events,
/// in transcript order, with strictly increasing indexes starting at zero.
pub fn extract_tool_events(items: &Vec<RawContentItem>) -> (events: Vec<ToolUseEvent>)
    ensures
        events.deep_view() == events_of_items(items.deep_view()),
        forall|k: int| 0 <= k < events.len() ==> events[k]@.index == k,
{
    let mut events: Vec<ToolUseEvent> = Vec::new();
    let mut i: usize = 0;
    while i < items.len()
        invariant
            i <= items.len(),
            events.deep_view() == events_of_items(items.deep_view().take(i as int)),
            events.len() <= i,
            forall|k: int| 0 <= k < events.len() ==> events[k]@.index == k,
        decreases items.len() - i,
    {
        let item = &items[i];
        let is_use = match &item.item_type {
            Some(t) => str_eq(t.as_str(), "tool_use"),
            None => false,
        };
        if is_use {
            match &item.name {
                Some(name) => {
                    let is_bash = str_eq(name.as_str(), "Bash");
                    let is_edit = str_eq(name.as_str(), "Edit") || str_eq(name.as_str(), "Write");
                    let event = ToolUseEvent {
                        tool_name: name.clone(),
                        command: if is_bash { item.command.clone() } else { None },
                        file_path: if is_edit { item.file_path.clone() } else { None },
                        index: events.len(),
                    };
                    events.push(event);
                },
                None => {},
            }
        }
        proof {
            let dv = items.deep_view();
            assert(dv.take(i + 1).drop_last() =~= dv.take(i as int));
            assert(dv.take(i + 1).last() == dv[i as int]);
            assert(dv[i as int] == items[i as int]@);
            assert(events.deep_view() =~= events_of_items(dv.take(i + 1)));
        }
        i += 1;
    }
    proof {
        assert(items.deep_view().take(items.len() as int) =~= items.deep_view());
    }
    events
}

} // verus!
