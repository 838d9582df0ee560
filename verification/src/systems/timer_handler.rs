//! Timers. The timer source hands the handler an event whenever a timer
//! goes off; once per tick the handler publishes what it was handed on the
//! channel of each kind of timer, so that no other system deals with the
//! timer source.

use crate::component::event::{
    AFKTimerEvent, PingTimerEvent, ScoreBoardTimerEvent, TimerEvent, TimerEventType,
};
use crate::event::EventChannel;
use crate::types::Instant;
use vstd::prelude::*;

verus! {

pub struct TimerHandler {
    channel: Vec<TimerEvent>,
}

pub struct TimerHandlerData<'a> {
    pub scoreboard: &'a mut EventChannel<ScoreBoardTimerEvent>,
    pub afk_timer: &'a mut EventChannel<AFKTimerEvent>,
    pub ping_timer: &'a mut EventChannel<PingTimerEvent>,
}

/// The instants of the events of `events` that are of kind `ty`, in order.
pub open spec fn instants_of(events: Seq<TimerEvent>, ty: TimerEventType) -> Seq<Instant>
    decreases events.len(),
{
    if events.len() == 0 {
        Seq::empty()
    } else if events.last().ty == ty {
        instants_of(events.drop_last(), ty).push(events.last().instant)
    } else {
        instants_of(events.drop_last(), ty)
    }
}

/// Publishes each of `events` on the channel of its kind.
fn publish(
    events: &Vec<TimerEvent>,
    scoreboard: &mut EventChannel<ScoreBoardTimerEvent>,
    afk_timer: &mut EventChannel<AFKTimerEvent>,
    ping_timer: &mut EventChannel<PingTimerEvent>,
)
    requires
        old(scoreboard).wf(),
        old(afk_timer).wf(),
        old(ping_timer).wf(),
    ensures
        final(scoreboard).wf(),
        final(afk_timer).wf(),
        final(ping_timer).wf(),
        final(scoreboard)@ == old(scoreboard)@.write_all(
            instants_of(events@, TimerEventType::ScoreBoard).map_values(
                |t: Instant| ScoreBoardTimerEvent(t),
            ),
        ),
        final(afk_timer)@ == old(afk_timer)@.write_all(
            instants_of(events@, TimerEventType::AFKTimeout).map_values(
                |t: Instant| AFKTimerEvent(t),
            ),
        ),
        final(ping_timer)@ == old(ping_timer)@.write_all(
            instants_of(events@, TimerEventType::PingDispatch).map_values(
                |t: Instant| PingTimerEvent(t),
            ),
        ),
{
    let mut i: usize = 0;
    proof {
        let none = events@.take(0);
        assert(old(scoreboard)@.written + instants_of(none, TimerEventType::ScoreBoard).map_values(
            |t: Instant| ScoreBoardTimerEvent(t),
        ) =~= old(scoreboard)@.written);
        assert(old(afk_timer)@.written + instants_of(none, TimerEventType::AFKTimeout).map_values(
            |t: Instant| AFKTimerEvent(t),
        ) =~= old(afk_timer)@.written);
        assert(old(ping_timer)@.written + instants_of(none, TimerEventType::PingDispatch).map_values(
            |t: Instant| PingTimerEvent(t),
        ) =~= old(ping_timer)@.written);
    }
    while i < events.len()
        invariant
            i <= events@.len(),
            scoreboard.wf(),
            afk_timer.wf(),
            ping_timer.wf(),
            scoreboard@ == old(scoreboard)@.write_all(
                instants_of(events@.take(i as int), TimerEventType::ScoreBoard).map_values(
                    |t: Instant| ScoreBoardTimerEvent(t),
                ),
            ),
            afk_timer@ == old(afk_timer)@.write_all(
                instants_of(events@.take(i as int), TimerEventType::AFKTimeout).map_values(
                    |t: Instant| AFKTimerEvent(t),
                ),
            ),
            ping_timer@ == old(ping_timer)@.write_all(
                instants_of(events@.take(i as int), TimerEventType::PingDispatch).map_values(
                    |t: Instant| PingTimerEvent(t),
                ),
            ),
        decreases events@.len() - i,
    {
        let evt = events[i];
        proof {
            assert(events@.take(i + 1).drop_last() =~= events@.take(i as int));
        }
        match evt.ty {
            TimerEventType::ScoreBoard => {
                scoreboard.single_write(ScoreBoardTimerEvent(evt.instant));
                proof {
                    assert(scoreboard@.written =~= old(scoreboard)@.written + instants_of(
                        events@.take(i + 1),
                        TimerEventType::ScoreBoard,
                    ).map_values(|t: Instant| ScoreBoardTimerEvent(t)));
                }
            },
            TimerEventType::AFKTimeout => {
                afk_timer.single_write(AFKTimerEvent(evt.instant));
                proof {
                    assert(afk_timer@.written =~= old(afk_timer)@.written + instants_of(
                        events@.take(i + 1),
                        TimerEventType::AFKTimeout,
                    ).map_values(|t: Instant| AFKTimerEvent(t)));
                }
            },
            TimerEventType::PingDispatch => {
                ping_timer.single_write(PingTimerEvent(evt.instant));
                proof {
                    assert(ping_timer@.written =~= old(ping_timer)@.written + instants_of(
                        events@.take(i + 1),
                        TimerEventType::PingDispatch,
                    ).map_values(|t: Instant| PingTimerEvent(t)));
                }
            },
        }
        i += 1;
    }
    proof {
        assert(events@.take(i as int) =~= events@);
    }
}

impl TimerHandler {
    /// A handler that was handed nothing yet.
    pub fn new() -> (r: Self)
        ensures
            r.pending() == Seq::<TimerEvent>::empty(),
    {
        Self { channel: Vec::new() }
    }

    /// What the handler was handed and has not published, oldest first.
    pub closed spec fn pending(&self) -> Seq<TimerEvent> {
        self.channel@
    }

    /// Hands the handler an event of the timer source.
    pub fn deliver(&mut self, event: TimerEvent)
        ensures
            final(self).pending() == old(self).pending().push(event),
    {
        self.channel.push(event);
    }

    /// Publishes what the handler was handed since the last run: each
    /// event goes, in the order of arrival, on the channel of its kind.
    pub fn run(&mut self, data: TimerHandlerData<'_>)
        requires
            old(data.scoreboard).wf(),
            old(data.afk_timer).wf(),
            old(data.ping_timer).wf(),
        ensures
            final(self).pending() == Seq::<TimerEvent>::empty(),
            final(data.scoreboard).wf(),
            final(data.afk_timer).wf(),
            final(data.ping_timer).wf(),
            final(data.scoreboard)@ == old(data.scoreboard)@.write_all(
                instants_of(old(self).pending(), TimerEventType::ScoreBoard).map_values(
                    |t: Instant| ScoreBoardTimerEvent(t),
                ),
            ),
            final(data.afk_timer)@ == old(data.afk_timer)@.write_all(
                instants_of(old(self).pending(), TimerEventType::AFKTimeout).map_values(
                    |t: Instant| AFKTimerEvent(t),
                ),
            ),
            final(data.ping_timer)@ == old(data.ping_timer)@.write_all(
                instants_of(old(self).pending(), TimerEventType::PingDispatch).map_values(
                    |t: Instant| PingTimerEvent(t),
                ),
            ),
    {
        let mut events: Vec<TimerEvent> = Vec::new();
        std::mem::swap(&mut self.channel, &mut events);
        publish(&events, data.scoreboard, data.afk_timer, data.ping_timer);
    }
}

} // verus!
