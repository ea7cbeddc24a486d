use vstd::prelude::*;

verus! {

/// The key help shown beside the board.
pub struct InfoText {
    pub text: Vec<String>,
}

impl InfoText {
    pub fn new() -> (r: InfoText)
        ensures
            r.text@.len() == 3,
            r.text@[0]@ == "R: Shuffle"@,
            r.text@[1]@ == "V: Solved"@,
            r.text@[2]@ == "Esc: Quit"@,
    {
        let mut text: Vec<String> = Vec::new();
        text.push("R: Shuffle".to_owned());
        text.push("V: Solved".to_owned());
        text.push("Esc: Quit".to_owned());
        InfoText { text }
    }
}

/// What the pointer does to a button.
#[derive(Clone, Copy, Debug, PartialEq, Eq, Structural)]
pub enum Interaction {
    Clicked,
    Hovered,
    /// The pointer is elsewhere.
    Outside,
}

/// A button's interaction before the latest change and now.
#[derive(Clone, Copy, Debug, PartialEq, Eq, Structural)]
pub struct InteractionHistory {
    pub prev: Interaction,
    pub curr: Interaction,
}

/// Time that the pointer has rested on a button, in milliseconds, up to the delay.
#[derive(Clone, Copy, Debug, PartialEq, Eq, Structural)]
pub struct HoverTimer {
    pub elapsed_ms: u64,
}

/// Time the pointer rests on a button before its description shows, in milliseconds.
pub const HOVER_DELAY_MS: u64 = 700;

/// What a button carries to show its description on hover.
#[derive(Clone, Copy, Debug, PartialEq, Eq, Structural)]
pub struct ButtonInfoBundle {
    pub interaction_history: InteractionHistory,
    pub hover_timer: HoverTimer,
}

impl ButtonInfoBundle {
    pub fn new() -> (r: ButtonInfoBundle)
        ensures
            r.interaction_history == (InteractionHistory {
                prev: Interaction::Outside,
                curr: Interaction::Outside,
            }),
            r.hover_timer.elapsed_ms == 0,
    {
        ButtonInfoBundle {
            interaction_history: InteractionHistory { prev: Interaction::Outside, curr: Interaction::Outside },
            hover_timer: HoverTimer { elapsed_ms: 0 },
        }
    }
}

/// The texts of the statistics panel.
#[derive(Clone, Copy, Debug, PartialEq, Eq, Structural)]
pub enum PopupStatisticsTextType {
    Solves,
    Average,
    Best,
    Worst,
    Details,
}

/// One frame of a button's hover: the history after it, the timer after it, and
/// whether the description shows.
pub open spec fn hover_step(
    interaction: Interaction,
    changed: bool,
    history: InteractionHistory,
    elapsed_ms: u64,
    delta_ms: u64,
    visible: bool,
) -> (InteractionHistory, u64, bool) {
    let h = if changed {
        InteractionHistory { prev: history.curr, curr: interaction }
    } else {
        history
    };
    let v = if changed {
        false
    } else {
        visible
    };
    if h.prev == Interaction::Outside && interaction == Interaction::Hovered {
        let e0: int = if changed {
            0
        } else {
            elapsed_ms as int
        };
        let e1: int = if e0 + delta_ms >= HOVER_DELAY_MS {
            HOVER_DELAY_MS as int
        } else {
            e0 + delta_ms
        };
        let just_finished = e0 < HOVER_DELAY_MS && e0 + delta_ms >= HOVER_DELAY_MS;
        (h, e1 as u64, just_finished || v)
    } else {
        (h, elapsed_ms, v)
    }
}

/// One frame of a button's hover: a change of interaction hides the description
/// and is recorded; a pointer that came from outside and rests on the button
/// shows it once the hover delay has passed.
pub fn button_hover_system(
    interaction: Interaction,
    changed: bool,
    history: &mut InteractionHistory,
    hover_timer: &mut HoverTimer,
    delta_ms: u64,
    visible: bool,
) -> (r: bool)
    ensures
        (*final(history), final(hover_timer).elapsed_ms, r) == hover_step(
            interaction,
            changed,
            *old(history),
            old(hover_timer).elapsed_ms,
            delta_ms,
            visible,
        ),
{
    let mut vis = visible;
    if changed {
        history.prev = history.curr;
        history.curr = interaction;
        vis = false;
    }
    if history.prev == Interaction::Outside && interaction == Interaction::Hovered {
        if changed {
            hover_timer.elapsed_ms = 0;
        }
        let before = hover_timer.elapsed_ms;
        if before >= HOVER_DELAY_MS || delta_ms >= HOVER_DELAY_MS - before {
            hover_timer.elapsed_ms = HOVER_DELAY_MS;
            if before < HOVER_DELAY_MS {
                vis = true;
            }
        } else {
            hover_timer.elapsed_ms = before + delta_ms;
        }
    }
    vis
}

} // verus!
