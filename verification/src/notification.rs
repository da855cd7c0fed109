//! The notice that tells the user that the countdown is over.
//!
//! The library says what the notice holds; showing it on a desktop is left
//! to the program around it.

use vstd::prelude::*;

verus! {

/// A desktop notification, as plain values.
#[derive(Debug)]
pub struct Notice {
    pub summary: String,
    pub body: String,
    /// Name of the icon to show with it.
    pub icon: String,
    /// Whether the notice stays until the user dismisses it.
    pub sticky: bool,
}

/// The source of the notices that the timer gives.
pub struct NotificationService;

impl NotificationService {
    /// The notice of a finished countdown. It is always the same one.
    pub fn timer_complete() -> (notice: Notice)
        ensures
            notice.summary@ == "Ramen Timer"@,
            notice.body@ == "🍜 Your ramen is ready!"@,
            notice.icon@ == "dialog-information"@,
            notice.sticky,
    {
        Notice {
            summary: "Ramen Timer".to_string(),
            body: "🍜 Your ramen is ready!".to_string(),
            icon: "dialog-information".to_string(),
            sticky: true,
        }
    }
}

} // verus!
