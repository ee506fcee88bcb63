//! The activity shown in the terminal title: a spinner while work runs, and
//! a blinking "Action Required" marker while the user is asked for
//! something. The two never show, or animate, together.

use vstd::prelude::*;
use crate::status::{spinner_frames, terminal_title_spinner_frame_at};
use crate::text::str_eq;

verus! {

/// Whether a title item names the activity spinner.
pub open spec fn is_activity_item(item: Seq<char>) -> bool {
    item == "activity"@ || item == "spinner"@
}

/// Whether some item names the activity spinner.
pub open spec fn some_activity_item(items: Seq<Seq<char>>) -> bool {
    exists|i: int| 0 <= i < items.len() && #[trigger] is_activity_item(items[i])
}

/// Whether the configured title items (all defaults where unset) include
/// the activity spinner.
pub open spec fn uses_activity(configured: Option<Seq<Seq<char>>>) -> bool {
    match configured {
        None => true,
        Some(items) => some_activity_item(items),
    }
}

/// The items as characters.
pub open spec fn item_views(items: Seq<String>) -> Seq<Seq<char>> {
    items.map_values(|s: String| s@)
}

/// Whether some item names the activity spinner.
fn any_activity_item(items: &Vec<String>) -> (r: bool)
    ensures
        r == some_activity_item(item_views(items@)),
{
    proof {
        reveal_strlit("activity");
        reveal_strlit("spinner");
    }
    let ghost views = item_views(items@);
    let mut i: usize = 0;
    while i < items.len()
        invariant
            i <= items.len(),
            views == item_views(items@),
            forall|j: int| 0 <= j < i ==> !#[trigger] is_activity_item(views[j]),
        decreases items.len() - i,
    {
        if str_eq(items[i].as_str(), "activity") || str_eq(items[i].as_str(), "spinner") {
            assert(is_activity_item(views[i as int]));
            return true;
        }
        i = i + 1;
    }
    false
}

/// Whether the configured title items include the activity spinner.
pub fn terminal_title_uses_activity(configured: &Option<Vec<String>>) -> (r: bool)
    ensures
        r == uses_activity(match configured {
            Some(v) => Some(item_views(v@)),
            None => None,
        }),
{
    match configured {
        None => true,
        Some(items) => any_activity_item(items),
    }
}

/// What the title's activity depends on.
#[derive(Clone, Copy, Debug)]
pub struct TitleActivityFacts {
    pub animations: bool,
    /// The bottom pane asks the user for something.
    pub requires_action: bool,
    /// The configured items include the activity spinner.
    pub uses_activity: bool,
    /// The parsed title items include the spinner.
    pub spinner_selected: bool,
    pub mcp_starting: bool,
    pub task_running: bool,
}

/// The marker shows while the user is asked for something.
pub open spec fn shows_action_required(f: TitleActivityFacts) -> bool {
    f.requires_action && f.uses_activity
}

/// Work is in progress and no marker shows.
pub open spec fn has_active_progress(f: TitleActivityFacts) -> bool {
    !shows_action_required(f) && (f.mcp_starting || f.task_running)
}

pub open spec fn animates_spinner(f: TitleActivityFacts) -> bool {
    f.animations && f.uses_activity && has_active_progress(f)
}

pub open spec fn animates_action_required(f: TitleActivityFacts) -> bool {
    f.animations && shows_action_required(f)
}

impl TitleActivityFacts {
    /// Whether the title shows the "Action Required" marker.
    pub fn terminal_title_shows_action_required(&self) -> (r: bool)
        ensures
            r == shows_action_required(*self),
    {
        self.requires_action && self.uses_activity
    }

    /// Whether work is in progress for the spinner to show.
    pub fn terminal_title_has_active_progress(&self) -> (r: bool)
        ensures
            r == has_active_progress(*self),
    {
        !self.terminal_title_shows_action_required() && (self.mcp_starting || self.task_running)
    }

    /// Whether the spinner is to be animated.
    pub fn should_animate_terminal_title_spinner(&self) -> (r: bool)
        ensures
            r == animates_spinner(*self),
    {
        self.animations && self.uses_activity && self.terminal_title_has_active_progress()
    }

    /// Whether the marker is to blink.
    pub fn should_animate_terminal_title_action_required(&self) -> (r: bool)
        ensures
            r == animates_action_required(*self),
    {
        self.animations && self.terminal_title_shows_action_required()
    }

    /// The spinner frame `elapsed_ms` after the animation began, where it
    /// shows.
    pub fn terminal_title_spinner_text_at(&self, elapsed_ms: u128) -> (r: Option<String>)
        ensures
            match r {
                Some(s) => self.animations && has_active_progress(*self)
                    && s@ == spinner_frames()[((elapsed_ms / 100) % 10) as int],
                None => !(self.animations && has_active_progress(*self)),
            },
    {
        if !self.animations || !self.terminal_title_has_active_progress() {
            return None;
        }
        Some(terminal_title_spinner_frame_at(elapsed_ms))
    }

    /// How often the title is redrawn for its animation, in milliseconds:
    /// each second while the marker blinks, each 100 ms while the spinner
    /// turns, not at all otherwise.
    pub fn terminal_title_animation_interval_ms(&self) -> (r: Option<u64>)
        ensures
            r == (if self.animations && self.requires_action && self.spinner_selected {
                Some(1000u64)
            } else if self.animations && self.spinner_selected && has_active_progress(*self) {
                Some(100u64)
            } else {
                None
            }),
    {
        if self.animations && self.requires_action && self.spinner_selected {
            Some(1000)
        } else if self.animations && self.spinner_selected && self.terminal_title_has_active_progress() {
            Some(100)
        } else {
            None
        }
    }
}

pub open spec fn action_required_prefix(hidden: bool) -> Seq<char> {
    if hidden { "[ . ] Action Required"@ } else { "[ ! ] Action Required"@ }
}

/// The marker `elapsed_ms` after the animation began: it blinks once a
/// second where animations are on.
pub fn action_required_terminal_title_prefix_at(animations: bool, elapsed_ms: u128) -> (s: &'static str)
    ensures
        s@ == action_required_prefix(animations && (elapsed_ms / 1000) % 2 == 1),
{
    proof {
        reveal_strlit("[ ! ] Action Required");
        reveal_strlit("[ . ] Action Required");
    }
    if !animations || (elapsed_ms / 1000) % 2 == 0 {
        "[ ! ] Action Required"
    } else {
        "[ . ] Action Required"
    }
}

/// The spinner and the marker never animate at the same time.
pub proof fn lemma_spinner_and_marker_exclusive(f: TitleActivityFacts)
    ensures
        !(animates_spinner(f) && animates_action_required(f)),
{
}

} // verus!
