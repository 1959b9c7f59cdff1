//! Checking one file against its counterpart.

use vstd::prelude::*;

use crate::search::FindResult;
use crate::style::{CYAN, WHITE};

verus! {

/// The outcome of checking one file.
#[derive(Debug)]
pub enum CheckResult {
    /// The counterpart has the same content.
    Same,
    /// There is no counterpart, but a file with the same content at this path.
    Renamed(String),
    /// There is no counterpart, and a search found no file with the same content.
    RenamedNotFound,
    /// There is no counterpart, and the search for one took too long.
    RenamedTimedOut,
    /// There is no counterpart, and no search was asked for.
    Missing,
    /// The counterpart has another content.
    Differ,
}

impl CheckResult {
    /// The content of the file was found in the other directory.
    pub open spec fn is_success(self) -> bool {
        self is Same || self is Renamed
    }
}

/// A spinner on the status line.
#[derive(Debug)]
pub struct Spinner {
    pub msg: String,
    pub color: &'static str,
    /// The spinner of a search.
    pub finding: bool,
}

/// What happened while a file is checked.
#[derive(Debug)]
pub enum CheckEvent {
    /// The check begins.
    Begun,
    /// Whether there is a file at the expected path.
    Probed(bool),
    /// How the search for the file under another name ended.
    Searched(FindResult),
    /// Whether the two files are the same.
    Compared(bool),
}

/// What to do next to check a file.
#[derive(Debug)]
pub enum CheckNext {
    /// Look whether there is a file at the expected path.
    Probe,
    /// Search for the file under another name.
    Search,
    /// Compare the two files.
    Compare,
    /// The check is over.
    Done(CheckResult),
}

/// The next step of a check, with what it does to the spinner.
#[derive(Debug)]
pub struct CheckAction {
    /// The spinner that turns is stopped first.
    pub stop_spinner: bool,
    /// A spinner is started then.
    pub start_spinner: Option<Spinner>,
    pub next: CheckNext,
}

/// The check of one file.
#[derive(Debug)]
pub struct Check {
    /// Whether a missing file is searched for under another name.
    pub find_renamed: bool,
    /// Whether a spinner shows that the check is under way.
    pub live_ui: bool,
    /// The name under which the file is shown.
    pub name: String,
}

/// The result of a check that ended in a search.
pub open spec fn searched_result(found: FindResult) -> CheckResult {
    match found {
        FindResult::Found(path) => CheckResult::Renamed(path),
        FindResult::NotFound => CheckResult::RenamedNotFound,
        FindResult::TimedOut => CheckResult::RenamedTimedOut,
    }
}

impl Check {
    /// What to do after an event.
    pub open spec fn next(self, event: CheckEvent) -> CheckNext {
        match event {
            CheckEvent::Begun => CheckNext::Probe,
            CheckEvent::Probed(true) => CheckNext::Compare,
            CheckEvent::Probed(false) => if self.find_renamed {
                CheckNext::Search
            } else {
                CheckNext::Done(CheckResult::Missing)
            },
            CheckEvent::Searched(found) => CheckNext::Done(searched_result(found)),
            CheckEvent::Compared(same) => CheckNext::Done(
                if same {
                    CheckResult::Same
                } else {
                    CheckResult::Differ
                },
            ),
        }
    }

    /// An event makes a spinner stop.
    pub open spec fn stops_at(self, event: CheckEvent) -> bool {
        &&& self.live_ui
        &&& !(event is Begun)
        &&& event != CheckEvent::Probed(true)
    }

    /// The spinner that an event makes start, as its message, its color and whether it is
    /// that of a search.
    pub open spec fn starts_at(self, event: CheckEvent) -> Option<(Seq<char>, Seq<char>, bool)> {
        if !self.live_ui {
            None
        } else if event is Begun {
            Some(("Checking "@ + self.name@, WHITE@, false))
        } else if self.next(event) is Search {
            Some(("Find "@ + self.name@, CYAN@, true))
        } else {
            None
        }
    }

    /// Decides the next step of the check.
    pub fn check_one(&self, event: CheckEvent) -> (r: CheckAction)
        ensures
            r.next == self.next(event),
            r.stop_spinner == self.stops_at(event),
            match r.start_spinner {
                Some(s) => self.starts_at(event) == Some((s.msg@, s.color@, s.finding)),
                None => self.starts_at(event) is None,
            },
            match event {
                CheckEvent::Begun => r.next is Probe,
                CheckEvent::Probed(is_file) => if is_file {
                    r.next is Compare
                } else if self.find_renamed {
                    r.next is Search
                } else {
                    r.next == CheckNext::Done(CheckResult::Missing)
                },
                CheckEvent::Searched(FindResult::Found(path)) => r.next == CheckNext::Done(
                    CheckResult::Renamed(path),
                ),
                CheckEvent::Searched(FindResult::NotFound) => r.next == CheckNext::Done(
                    CheckResult::RenamedNotFound,
                ),
                CheckEvent::Searched(FindResult::TimedOut) => r.next == CheckNext::Done(
                    CheckResult::RenamedTimedOut,
                ),
                CheckEvent::Compared(same) => if same {
                    r.next == CheckNext::Done(CheckResult::Same)
                } else {
                    r.next == CheckNext::Done(CheckResult::Differ)
                },
            },
            r.stop_spinner <==> self.live_ui && match event {
                CheckEvent::Begun => false,
                CheckEvent::Probed(is_file) => !is_file,
                CheckEvent::Searched(_) => true,
                CheckEvent::Compared(_) => true,
            },
            r.start_spinner is Some <==> self.live_ui && match event {
                CheckEvent::Begun => true,
                CheckEvent::Probed(is_file) => !is_file && self.find_renamed,
                CheckEvent::Searched(_) => false,
                CheckEvent::Compared(_) => false,
            },
            r.start_spinner matches Some(s) ==> if event is Begun {
                &&& s.msg@ == "Checking "@ + self.name@
                &&& s.color@ == WHITE@
                &&& !s.finding
            } else {
                &&& s.msg@ == "Find "@ + self.name@
                &&& s.color@ == CYAN@
                &&& s.finding
            },
    {
        match event {
            CheckEvent::Begun => {
                let mut msg = String::new();
                msg.append("Checking ");
                msg.append(self.name.as_str());
                CheckAction {
                    stop_spinner: false,
                    start_spinner: if self.live_ui {
                        Some(Spinner { msg, color: WHITE, finding: false })
                    } else {
                        None
                    },
                    next: CheckNext::Probe,
                }
            },
            CheckEvent::Probed(is_file) => if is_file {
                CheckAction { stop_spinner: false, start_spinner: None, next: CheckNext::Compare }
            } else if self.find_renamed {
                let mut msg = String::new();
                msg.append("Find ");
                msg.append(self.name.as_str());
                CheckAction {
                    stop_spinner: self.live_ui,
                    start_spinner: if self.live_ui {
                        Some(Spinner { msg, color: CYAN, finding: true })
                    } else {
                        None
                    },
                    next: CheckNext::Search,
                }
            } else {
                CheckAction {
                    stop_spinner: self.live_ui,
                    start_spinner: None,
                    next: CheckNext::Done(CheckResult::Missing),
                }
            },
            CheckEvent::Searched(found) => CheckAction {
                stop_spinner: self.live_ui,
                start_spinner: None,
                next: CheckNext::Done(
                    match found {
                        FindResult::Found(path) => CheckResult::Renamed(path),
                        FindResult::NotFound => CheckResult::RenamedNotFound,
                        FindResult::TimedOut => CheckResult::RenamedTimedOut,
                    },
                ),
            },
            CheckEvent::Compared(same) => CheckAction {
                stop_spinner: self.live_ui,
                start_spinner: None,
                next: CheckNext::Done(
                    if same {
                        CheckResult::Same
                    } else {
                        CheckResult::Differ
                    },
                ),
            },
        }
    }
}

/// The events of a check that is answered as it asks: whether there is a counterpart, how the
/// search would end, and whether the two files are the same.
pub open spec fn check_events(
    c: Check,
    is_file: bool,
    found: FindResult,
    same: bool,
) -> Seq<CheckEvent> {
    if is_file {
        seq![CheckEvent::Begun, CheckEvent::Probed(true), CheckEvent::Compared(same)]
    } else if c.find_renamed {
        seq![CheckEvent::Begun, CheckEvent::Probed(false), CheckEvent::Searched(found)]
    } else {
        seq![CheckEvent::Begun, CheckEvent::Probed(false)]
    }
}

/// The event tells what `next` asks for.
pub open spec fn replies(next: CheckNext, event: CheckEvent) -> bool {
    match next {
        CheckNext::Probe => event is Probed,
        CheckNext::Search => event is Searched,
        CheckNext::Compare => event is Compared,
        CheckNext::Done(_) => false,
    }
}

/// The number of spinners that turn after the first `n` events.
pub open spec fn spinning(c: Check, events: Seq<CheckEvent>, n: nat) -> int
    decreases n,
{
    if n == 0 {
        0
    } else {
        let event = events[n - 1];
        spinning(c, events, (n - 1) as nat) - if c.stops_at(event) {
            1int
        } else {
            0
        } + if c.starts_at(event) is Some {
            1int
        } else {
            0
        }
    }
}

/// What a check says, after it got a reply to each of its questions: a file with a counterpart
/// is the same as it or differs from it, and one without is missing, or what the search found.
pub proof fn law_check_result(c: Check, is_file: bool, found: FindResult, same: bool)
    ensures
        forall|i: int|
            0 <= i < check_events(c, is_file, found, same).len() - 1 ==> replies(
                c.next(#[trigger] check_events(c, is_file, found, same)[i]),
                check_events(c, is_file, found, same)[i + 1],
            ),
        c.next(check_events(c, is_file, found, same).last()) == CheckNext::Done(
            if is_file && same {
                CheckResult::Same
            } else if is_file {
                CheckResult::Differ
            } else if c.find_renamed {
                searched_result(found)
            } else {
                CheckResult::Missing
            },
        ),
{
}

/// A file is the same only if it has a counterpart with the same content, and every other one
/// is reported as what it is: nothing else is ever said of it.
pub proof fn law_check_says_what_was_found(c: Check, event: CheckEvent, path: String)
    ensures
        c.next(event) == CheckNext::Done(CheckResult::Same) <==> event == CheckEvent::Compared(
            true,
        ),
        c.next(event) == CheckNext::Done(CheckResult::Differ) <==> event == CheckEvent::Compared(
            false,
        ),
        c.next(event) == CheckNext::Done(CheckResult::Missing) <==> event == CheckEvent::Probed(
            false,
        ) && !c.find_renamed,
        c.next(event) == CheckNext::Done(CheckResult::RenamedNotFound) <==> event
            == CheckEvent::Searched(FindResult::NotFound),
        c.next(event) == CheckNext::Done(CheckResult::RenamedTimedOut) <==> event
            == CheckEvent::Searched(FindResult::TimedOut),
        c.next(event) == CheckNext::Done(CheckResult::Renamed(path)) <==> event
            == CheckEvent::Searched(FindResult::Found(path)),
        c.next(event) is Probe <==> event is Begun,
        c.next(event) is Compare <==> event == CheckEvent::Probed(true),
        c.next(event) is Search <==> event == CheckEvent::Probed(false) && c.find_renamed,
{
}

/// The spinners say what is done with which file, and there are none where they are not wanted.
pub proof fn law_spinners_name_the_file(c: Check, event: CheckEvent)
    ensures
        !c.live_ui ==> c.starts_at(event) is None && !c.stops_at(event),
        c.live_ui && event is Begun ==> c.starts_at(event) == Some(
            ("Checking "@ + c.name@, WHITE@, false),
        ),
        c.live_ui && event == CheckEvent::Probed(false) && c.find_renamed ==> c.starts_at(event)
            == Some(("Find "@ + c.name@, CYAN@, true)),
        c.live_ui ==> (c.starts_at(event) is Some <==> event is Begun || event
            == CheckEvent::Probed(false) && c.find_renamed),
        c.live_ui ==> (c.stops_at(event) <==> !(event is Begun) && event != CheckEvent::Probed(
            true,
        )),
{
}

/// No two spinners ever turn at once, and none is left when the check is over.
pub proof fn law_spinners_are_stopped(
    c: Check,
    is_file: bool,
    found: FindResult,
    same: bool,
    n: nat,
)
    requires
        n <= check_events(c, is_file, found, same).len(),
    ensures
        0 <= spinning(c, check_events(c, is_file, found, same), n) <= 1,
        n == check_events(c, is_file, found, same).len() ==> spinning(
            c,
            check_events(c, is_file, found, same),
            n,
        ) == 0,
{
    reveal_with_fuel(spinning, 4);
}

} // verus!
