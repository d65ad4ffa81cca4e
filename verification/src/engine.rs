//! The engine: every decision of the main loop, with the I/O left out.
//! Each tick the loop feeds it the pending input events, asks it whether
//! a new run of the command is due (and with which generation number),
//! hands it whatever results arrived on the channel, and finally asks it
//! for a frame if anything changed.
use vstd::prelude::*;

use crate::interval::Scheduler;
use crate::interval::due_spec;
use crate::render::Frame;
use crate::render::Viewport;
use crate::render::frame_spec;
use crate::view::InputEvent;
use crate::view::PendingResult;
use crate::view::Step;
use crate::view::ViewState;
use crate::view::admit_spec;
use crate::view::clamp_spec;
use crate::view::event_quits;
use crate::view::event_redraws;
use crate::view::events_quit;
use crate::view::events_redraw;
use crate::view::step_events;
use crate::view::init_model;
use crate::view::outcome_wf;
use crate::view::refresh_spec;
use crate::view::step_event;
use crate::view::ViewModel;

verus! {

/// The view state, the scheduler, the generation counter, the constrain
/// flag, and the dirty flag that gates redraws.
pub struct Engine {
    pub view: ViewState,
    pub sched: Scheduler,
    pub generation: u64,
    pub constrain: bool,
    pub dirty: bool,
}

impl Engine {
    pub open spec fn inv(&self) -> bool {
        self.view.inv()
    }

    /// A fresh engine: initial view state, nothing dispatched yet, the
    /// first run due one interval after `now`.
    pub fn new(interval_nanos: u64, constrain: bool, now: u128) -> (e: Engine)
        ensures
            e.view@ == init_model(),
            e.sched.interval_nanos == interval_nanos,
            e.sched.last_trigger == now,
            e.generation == 0,
            e.constrain == constrain,
            e.dirty == false,
            e.inv(),
    {
        Engine {
            view: ViewState::new(),
            sched: Scheduler::new(interval_nanos, now),
            generation: 0,
            constrain,
            dirty: false,
        }
    }

    /// Feeds one input event to the view state machine; an effective
    /// event marks the frame dirty.  Returns whether the loop stops.
    pub fn handle_event(&mut self, ev: InputEvent, height: u16) -> (r: Step)
        requires
            old(self).inv(),
            height >= 1,
        ensures
            final(self).view@ == step_event(old(self).view@, ev, height),
            final(self).dirty == (old(self).dirty || event_redraws(old(self).view@, ev, height)),
            final(self).sched == old(self).sched,
            final(self).generation == old(self).generation,
            final(self).constrain == old(self).constrain,
            final(self).inv(),
            r == (if event_quits(old(self).view@, ev) {
                Step::Quit
            } else {
                Step::Continue
            }),
    {
        let (step, redraw) = self.view.handle_event(ev, height);
        if redraw {
            self.dirty = true;
        }
        step
    }

    /// Feeds a whole tick's events to the state machine, in order, and
    /// stops at the first quit event, as the loop does.
    pub fn process_events(&mut self, events: &Vec<InputEvent>, height: u16) -> (r: Step)
        requires
            old(self).inv(),
            height >= 1,
        ensures
            final(self).view@ == step_events(old(self).view@, events@, height),
            final(self).dirty == (old(self).dirty || events_redraw(
                old(self).view@,
                events@,
                height,
            )),
            final(self).sched == old(self).sched,
            final(self).generation == old(self).generation,
            final(self).constrain == old(self).constrain,
            final(self).inv(),
            r == (if events_quit(old(self).view@, events@, height) {
                Step::Quit
            } else {
                Step::Continue
            }),
    {
        let ghost v0 = old(self).view@;
        let ghost d0 = old(self).dirty;
        proof {
            assert(events@.skip(0) =~= events@);
        }
        let mut i: usize = 0;
        while i < events.len()
            invariant
                i <= events@.len(),
                height >= 1,
                self.inv(),
                v0 == old(self).view@,
                d0 == old(self).dirty,
                step_events(v0, events@, height) == step_events(
                    self.view@,
                    events@.skip(i as int),
                    height,
                ),
                events_quit(v0, events@, height) == events_quit(
                    self.view@,
                    events@.skip(i as int),
                    height,
                ),
                (d0 || events_redraw(v0, events@, height)) == (self.dirty || events_redraw(
                    self.view@,
                    events@.skip(i as int),
                    height,
                )),
                self.sched == old(self).sched,
                self.generation == old(self).generation,
                self.constrain == old(self).constrain,
            decreases events@.len() - i,
        {
            proof {
                assert(events@.skip(i as int)[0] == events@[i as int]);
                assert(events@.skip(i as int).drop_first() =~= events@.skip(i + 1));
            }
            let ghost pre = self.view@;
            let ev = events[i];
            let step = self.handle_event(ev, height);
            if step == Step::Quit {
                proof {
                    assert(event_quits(pre, events@.skip(i as int)[0]));
                    assert(step_events(pre, events@.skip(i as int), height) == pre);
                    assert(events_quit(pre, events@.skip(i as int), height));
                    assert(!events_redraw(pre, events@.skip(i as int), height));
                    assert(step_event(pre, ev, height) == pre);
                }
                return Step::Quit;
            }
            i = i + 1;
        }
        proof {
            assert(events@.skip(i as int) =~= Seq::<InputEvent>::empty());
        }
        Step::Continue
    }

    /// Ends an event-processing pass: in constrained mode the cursor is
    /// clamped back into the buffer's valid range.
    pub fn finish_events(&mut self, height: u16)
        requires
            old(self).inv(),
            height >= 1,
        ensures
            final(self).view@ == (if old(self).constrain {
                ViewModel {
                    cursor: clamp_spec(
                        old(self).view@.cursor,
                        old(self).view@.buffer.len() as int,
                        height as int,
                    ),
                    ..old(self).view@
                }
            } else {
                old(self).view@
            }),
            final(self).dirty == old(self).dirty,
            final(self).sched == old(self).sched,
            final(self).generation == old(self).generation,
            final(self).constrain == old(self).constrain,
            final(self).inv(),
    {
        if self.constrain {
            self.view.clamp_cursor(height);
        }
    }

    /// Asks the scheduler whether a run is due at `now`.  If so, assigns
    /// the next generation number, records the trigger, and returns the
    /// generation the caller must tag the dispatched run with.  Once the
    /// counter is exhausted no further run is ever dispatched.
    pub fn poll_timer(&mut self, now: u128) -> (r: Option<u64>)
        requires
            old(self).inv(),
        ensures
            final(self).view == old(self).view,
            final(self).dirty == old(self).dirty,
            final(self).constrain == old(self).constrain,
            final(self).inv(),
            old(self).generation == u64::MAX ==> r is None && final(self).sched == old(
                self,
            ).sched && final(self).generation == old(self).generation,
            old(self).generation < u64::MAX ==> {
                let fired = due_spec(now, old(self).sched.last_trigger, old(self).sched.interval_nanos);
                &&& r == (if fired {
                    Some((old(self).generation + 1) as u64)
                } else {
                    None::<u64>
                })
                &&& final(self).generation == (if fired {
                    old(self).generation + 1
                } else {
                    old(self).generation as int
                })
                &&& final(self).sched.interval_nanos == old(self).sched.interval_nanos
                &&& final(self).sched.last_trigger == (if fired {
                    now
                } else {
                    old(self).sched.last_trigger
                })
            },
    {
        if self.generation == u64::MAX {
            return None;
        }
        if self.sched.check(now) {
            self.generation = self.generation + 1;
            Some(self.generation)
        } else {
            None
        }
    }

    /// Hands one result from the channel to the staleness resolver; an
    /// admitted result marks the frame dirty.  Returns whether it was
    /// admitted.
    pub fn on_result(&mut self, result: PendingResult) -> (admitted: bool)
        requires
            old(self).inv(),
            outcome_wf(result.outcome),
        ensures
            final(self).view@ == admit_spec(old(self).view@, result@.generation, result@.lines),
            admitted == (result@.generation >= old(self).view@.highest),
            final(self).dirty == (old(self).dirty || admitted),
            final(self).sched == old(self).sched,
            final(self).generation == old(self).generation,
            final(self).constrain == old(self).constrain,
            final(self).inv(),
    {
        let admitted = self.view.resolve(result);
        if admitted {
            self.dirty = true;
        }
        admitted
    }

    /// If the frame is dirty, recompiles the search pattern as needed,
    /// draws the frame, and clears the dirty flag; on a clean tick it
    /// does nothing, so unchanged state is never redrawn.
    pub fn prepare_frame(&mut self, viewport: Viewport) -> (r: Option<Frame>)
        requires
            old(self).inv(),
            viewport.height >= 1,
        ensures
            final(self).inv(),
            r is Some == old(self).dirty,
            !old(self).dirty ==> *final(self) == *old(self),
            old(self).dirty ==> {
                &&& final(self).view@ == refresh_spec(old(self).view@)
                &&& final(self).dirty == false
                &&& final(self).sched == old(self).sched
                &&& final(self).generation == old(self).generation
                &&& final(self).constrain == old(self).constrain
                &&& (r matches Some(f) && frame_spec(final(self).view@, f, viewport))
            },
    {
        if !self.dirty {
            return None;
        }
        self.view.refresh_pattern();
        let frame = self.view.render(viewport);
        self.dirty = false;
        Some(frame)
    }
}

} // verus!
