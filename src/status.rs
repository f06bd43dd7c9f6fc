use vstd::prelude::*;

verus! {

/// How long a message stays shown, in milliseconds.
pub const MESSAGE_LIFETIME_MS: u64 = 5000;

/// A message for the bottom line, and when it was set.
///
/// Times are milliseconds on a clock the caller keeps.
pub struct StatusMessage {
    pub message: Option<String>,
    pub set_time: Option<u64>,
}

impl StatusMessage {
    pub fn new(initial_message: String, now: u64) -> (r: StatusMessage)
        ensures
            r.message == Some(initial_message),
            r.set_time == Some(now),
    {
        StatusMessage { message: Some(initial_message), set_time: Some(now) }
    }

    pub fn set_message(&mut self, message: String, now: u64)
        ensures
            final(self).message == Some(message),
            final(self).set_time == Some(now),
    {
        self.message = Some(message);
        self.set_time = Some(now);
    }

    /// The message, while it is younger than the lifetime at time `now`; an
    /// expired message is dropped.
    pub fn message(&mut self, now: u64) -> (r: Option<&String>)
        ensures
            old(self).set_time.is_some() && now.saturating_sub(old(self).set_time.unwrap())
                <= MESSAGE_LIFETIME_MS ==> r.is_some() == old(self).message.is_some() && (r.is_some()
                ==> *r.unwrap() == old(self).message.unwrap()) && *final(self) == *old(self),
            old(self).set_time.is_some() && now.saturating_sub(old(self).set_time.unwrap())
                > MESSAGE_LIFETIME_MS ==> r.is_none() && final(self).message.is_none()
                && final(self).set_time.is_none(),
            old(self).set_time.is_none() ==> r.is_none() && *final(self) == *old(self),
    {
        match self.set_time {
            None => None,
            Some(time) => {
                if now.saturating_sub(time) > MESSAGE_LIFETIME_MS {
                    self.message = None;
                    self.set_time = None;
                    None
                } else {
                    self.message.as_ref()
                }
            },
        }
    }
}

} // verus!
