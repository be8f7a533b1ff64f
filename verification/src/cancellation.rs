//! Cancellation that is polled while a document is made.

use vstd::prelude::*;

verus! {

/// A point of publication at which cancellation is polled. Pages are counted from zero.
#[derive(Debug, Clone, Copy, PartialEq, Eq, Structural)]
pub enum PollPoint {
    /// Before the document is begun.
    Begin,
    /// Before a page.
    Page(usize),
    /// Behind the loading of a page, before its transform.
    Loaded(usize),
    /// Behind the transform of a page, before it is added to the document.
    Transformed(usize),
    /// Behind all pages, before the document is handed out.
    End,
}

/// The points of a publication: it has so many pages, which are loaded and transformed where they
/// are stored pages.
pub struct Course {
    pub pages: int,
    pub stored: bool,
}

impl PollPoint {
    /// Whether a publication comes to this point.
    pub open spec fn belongs(self, course: Course) -> bool {
        match self {
            PollPoint::Begin | PollPoint::End => true,
            PollPoint::Page(i) => i < course.pages,
            PollPoint::Loaded(i) | PollPoint::Transformed(i) => course.stored && i < course.pages,
        }
    }

    /// How many pages are in the document at this point.
    pub open spec fn pages_before(self, course: Course) -> int {
        match self {
            PollPoint::Begin => 0,
            PollPoint::Page(i) | PollPoint::Loaded(i) | PollPoint::Transformed(i) => i as int,
            PollPoint::End => course.pages,
        }
    }

    /// The place of this point among all points.
    pub open spec fn place(self, course: Course) -> int {
        match self {
            PollPoint::Begin => 0,
            PollPoint::Page(i) => 3 * i + 1,
            PollPoint::Loaded(i) => 3 * i + 2,
            PollPoint::Transformed(i) => 3 * i + 3,
            PollPoint::End => 3 * course.pages + 1,
        }
    }
}

/// What polling for cancellation can answer at each point.
pub struct Polls {
    /// Whether it can answer that the work was cancelled.
    pub stops: spec_fn(PollPoint) -> bool,
    /// Whether it can answer that the work goes on.
    pub goes_on: spec_fn(PollPoint) -> bool,
}

/// What a poll can answer.
pub open spec fn polls_of<C: Fn(PollPoint) -> bool>(poll: C) -> Polls {
    Polls {
        stops: |point: PollPoint| call_ensures(poll, (point,), true),
        goes_on: |point: PollPoint| call_ensures(poll, (point,), false),
    }
}

/// Whether a poll can be called at every point.
pub open spec fn can_poll<C: Fn(PollPoint) -> bool>(poll: C) -> bool {
    forall|point: PollPoint| #[trigger] call_requires(poll, (point,))
}

/// Work that nobody can cancel.
pub open spec fn uncancelled() -> Polls {
    Polls { stops: |point: PollPoint| false, goes_on: |point: PollPoint| true }
}

impl Polls {
    /// Whether the poll at every point before a given one answered that the work goes on.
    pub open spec fn reached(self, at: PollPoint, course: Course) -> bool {
        forall|point: PollPoint|
            point.belongs(course) && point.place(course) < at.place(course) ==> #[trigger] (
            self.goes_on)(point)
    }

    /// Whether the poll at a point and at every point before it answered that the work goes on.
    pub open spec fn passed(self, at: PollPoint, course: Course) -> bool {
        self.reached(at, course) && (self.goes_on)(at)
    }

    /// Whether the poll at a point is the first that answered that the work was cancelled.
    pub open spec fn stopped(self, at: PollPoint, course: Course) -> bool {
        at.belongs(course) && self.reached(at, course) && (self.stops)(at)
    }

    /// Whether the poll at every point answered that the work goes on.
    pub open spec fn finished(self, course: Course) -> bool {
        self.passed(PollPoint::End, course)
    }
}

/// A publication that came to an end passed every point.
pub proof fn finished_passed_every_point(polls: Polls, course: Course, point: PollPoint)
    requires
        0 <= course.pages,
        polls.finished(course),
        point.belongs(course),
    ensures
        (polls.goes_on)(point),
{
    if point != PollPoint::End {
        assert(point.place(course) < PollPoint::End.place(course));
    }
}

/// Nobody stops work that cannot be cancelled.
pub proof fn lemma_never_stopped<C: Fn(PollPoint) -> bool>(poll: C)
    requires
        forall|point: PollPoint, stop: bool| #[trigger] call_ensures(poll, (point,), stop) ==> !stop,
    ensures
        forall|at: PollPoint, course: Course| !#[trigger] polls_of(poll).stopped(at, course),
        forall|at: PollPoint, course: Course| #[trigger] uncancelled().passed(at, course),
{
    assert forall|at: PollPoint, course: Course| !#[trigger] polls_of(poll).stopped(at, course) by {
        assert(!(polls_of(poll).stops)(at));
    }
}

} // verus!
