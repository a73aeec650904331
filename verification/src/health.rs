use vstd::prelude::*;
use crate::clock::now_nanos;
use crate::polling::Response;

verus! {

/// Aggregate of recent polls: when the last one happened, how many polls in a
/// row got no answer, and the message of the last failed attempt.
#[derive(Clone, Debug)]
pub struct Health {
    pub last_poll_at: Option<i128>,
    pub consecutive_no_response: u32,
    pub last_error: Option<String>,
}

/// Message of the last attempt error of a response, if it failed.
pub open spec fn last_error_of<O>(r: Response<O>) -> Option<Seq<char>> {
    match r {
        Response::Success { .. } => None,
        Response::NoResponse { errors } => if errors@.len() == 0 {
            None
        } else {
            Some(errors@.last().message@)
        },
    }
}

pub open spec fn opt_string_view(s: Option<String>) -> Option<Seq<char>> {
    match s {
        Some(x) => Some(x@),
        None => None,
    }
}

impl Health {
    pub open spec fn is_initial(&self) -> bool {
        &&& self.last_poll_at is None
        &&& self.consecutive_no_response == 0
        &&& self.last_error is None
    }

    /// How `record(r)` turns `old` into `new`, apart from the poll time.
    pub open spec fn recorded<O>(old: Health, r: Response<O>, new: Health) -> bool {
        &&& new.last_poll_at is Some
        &&& new.consecutive_no_response == match r {
            Response::Success { .. } => 0,
            Response::NoResponse { .. } => old.consecutive_no_response + 1,
        }
        &&& opt_string_view(new.last_error) == last_error_of(r)
    }

    pub fn new() -> (h: Health)
        ensures
            h.is_initial(),
    {
        Health { last_poll_at: None, consecutive_no_response: 0, last_error: None }
    }

    /// Takes one poll result into account.
    pub fn record<O>(&mut self, r: &Response<O>)
        requires
            r is NoResponse ==> old(self).consecutive_no_response < u32::MAX,
        ensures
            Health::recorded(*old(self), *r, *final(self)),
    {
        self.last_poll_at = Some(now_nanos());
        match r {
            Response::Success { .. } => {
                self.consecutive_no_response = 0;
                self.last_error = None;
            },
            Response::NoResponse { errors } => {
                self.consecutive_no_response = self.consecutive_no_response + 1;
                if errors.len() == 0 {
                    self.last_error = None;
                } else {
                    self.last_error = Some(errors[errors.len() - 1].message.clone());
                }
            },
        }
    }
}

impl Default for Health {
    fn default() -> (h: Health)
        ensures
            h.is_initial(),
    {
        Health::new()
    }
}

} // verus!
