//! Alerts: what an alert shows, and what the answer to it means.

use vstd::prelude::*;

verus! {

/// How an alert was answered.
#[derive(Clone, Copy, Debug, PartialEq, Eq, Structural)]
pub enum Response {
    Default,
    Cancel,
}

/// An alert as it is to be shown.
#[derive(Clone, Copy, Debug)]
pub struct Alert<'a> {
    pub title: &'a str,
    pub msg: &'a str,
    pub default_button: &'a str,
    /// The label of the second button; without one the alert has none.
    pub cancel_button: Option<&'a str>,
}

/// The title of an alert that is given none.
pub open spec fn default_title() -> Seq<char> {
    "AutoPilot Alert"@
}

/// The label of the default button of an alert that is given none.
pub open spec fn default_label() -> Seq<char> {
    "OK"@
}

/// The label among those given that is not empty, if there is one.
pub open spec fn label_of(button: Option<&str>) -> Option<Seq<char>> {
    match button {
        Some(label) => if label@.len() == 0 {
            None
        } else {
            Some(label@)
        },
        None => None,
    }
}

/// The alert with the given attributes. Without a title it is titled
/// "AutoPilot Alert"; a default button without a label, or with an empty one,
/// is labelled "OK"; a cancel button without a label, or with an empty one,
/// is left out.
pub fn alert<'a>(
    msg: &'a str,
    title: Option<&'a str>,
    default_button: Option<&'a str>,
    cancel_button: Option<&'a str>,
) -> (shown: Alert<'a>)
    ensures
        shown.msg@ == msg@,
        shown.title@ == (match title {
            Some(t) => t@,
            None => default_title(),
        }),
        shown.default_button@ == (match label_of(default_button) {
            Some(label) => label,
            None => default_label(),
        }),
        match label_of(cancel_button) {
            Some(label) => shown.cancel_button matches Some(c) && c@ == label,
            None => shown.cancel_button is None,
        },
{
    let title = match title {
        Some(t) => t,
        None => "AutoPilot Alert",
    };
    let default_button = match default_button {
        Some(label) => if label.is_empty() {
            "OK"
        } else {
            label
        },
        None => "OK",
    };
    let cancel_button = match cancel_button {
        Some(label) => if label.is_empty() {
            None
        } else {
            Some(label)
        },
        None => None,
    };
    Alert { title, msg, default_button, cancel_button }
}

impl Response {
    /// What the response flags of a shown alert stand for: `0` for the
    /// default button, `1` and `3` for the other one, anything else for
    /// neither.
    pub open spec fn spec_from(value: u64) -> Option<Response> {
        if value == 0 {
            Some(Response::Default)
        } else if value == 1 || value == 3 {
            Some(Response::Cancel)
        } else {
            None
        }
    }

    /// What the outcome of showing an alert comes to: the response that the
    /// flags stand for where the alert was shown (`status` zero) and the
    /// flags stand for one, a cancellation otherwise.
    pub open spec fn spec_resolve(status: i32, flags: u64) -> Response {
        if status != 0 {
            Response::Cancel
        } else {
            match Response::spec_from(flags) {
                Some(response) => response,
                None => Response::Cancel,
            }
        }
    }

    /// The response that the response flags of a shown alert stand for.
    pub fn from(value: u64) -> (response: Option<Response>)
        ensures
            response == Response::spec_from(value),
    {
        if value == 0 {
            Some(Response::Default)
        } else if value == 3 || value == 1 {
            Some(Response::Cancel)
        } else {
            None
        }
    }

    /// The response that the outcome of showing an alert comes to.
    pub fn resolve(status: i32, flags: u64) -> (response: Response)
        ensures
            response == Response::spec_resolve(status, flags),
    {
        if status != 0 {
            Response::Cancel
        } else {
            match Response::from(flags) {
                Some(response) => response,
                None => Response::Cancel,
            }
        }
    }
}

} // verus!
