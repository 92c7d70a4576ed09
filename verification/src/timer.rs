//! Timers: the context hands out timer ids and queues start and stop
//! requests for the platform to carry out at the next paint.
use vstd::prelude::*;
use crate::cx::{Cx, CxPlatform, Timer, TimerRequest};

verus! {

impl<T> Cx<T> {
    /// Starts a timer: hands out the next timer id and queues a start
    /// request with it. The interval is kept by the caller under that id.
    pub fn start_timer(&mut self, repeats: bool) -> (timer: Timer)
        requires
            old(self).timer_id < u64::MAX,
        ensures
            timer.timer_id == old(self).timer_id + 1,
            final(self).timer_id == timer.timer_id,
            final(self).platform.start_timer@ == old(self).platform.start_timer@.push(
                TimerRequest { timer_id: timer.timer_id, repeats }),
            final(self).platform.stop_timer == old(self).platform.stop_timer,
            final(self).platform.post_id == old(self).platform.post_id,
            final(self).platform.text_clipboard_response == old(self).platform.text_clipboard_response,
            *final(self) == (Cx { timer_id: final(self).timer_id, platform: final(self).platform, ..*old(self) }),
    {
        self.timer_id = self.timer_id + 1;
        self.platform.start_timer.push(TimerRequest { timer_id: self.timer_id, repeats });
        Timer { timer_id: self.timer_id }
    }

    /// Stops a running timer: queues a stop request with its id and marks
    /// the handle stopped (id 0). A stopped handle is left as it is.
    pub fn stop_timer(&mut self, timer: &mut Timer)
        ensures
            old(timer).timer_id != 0 ==> {
                &&& final(self).platform.stop_timer@ == old(self).platform.stop_timer@.push(old(timer).timer_id)
                &&& final(timer).timer_id == 0
            },
            old(timer).timer_id == 0 ==> {
                &&& final(self).platform.stop_timer@ == old(self).platform.stop_timer@
                &&& final(timer).timer_id == 0
            },
            final(self).platform.start_timer == old(self).platform.start_timer,
            final(self).platform.post_id == old(self).platform.post_id,
            final(self).platform.text_clipboard_response == old(self).platform.text_clipboard_response,
            *final(self) == (Cx { platform: final(self).platform, ..*old(self) }),
    {
        if timer.timer_id != 0 {
            self.platform.stop_timer.push(timer.timer_id);
            timer.timer_id = 0;
        }
    }

    /// Hides the on-screen text input method; on this platform there is
    /// nothing to do.
    pub fn hide_text_ime(&mut self)
        ensures
            *final(self) == *old(self),
    {
    }
}

impl CxPlatform {
    /// Creates a platform queue with nothing queued.
    pub fn new() -> (r: Self)
        ensures
            r.post_id == 0,
            r.start_timer@ == Seq::<TimerRequest>::empty(),
            r.stop_timer@ == Seq::<u64>::empty(),
            r.text_clipboard_response is None,
    {
        CxPlatform { post_id: 0, start_timer: Vec::new(), stop_timer: Vec::new(), text_clipboard_response: None }
    }

    /// Takes every queued start request, most recent first, leaving the
    /// queue empty.
    pub fn take_start_timers(&mut self) -> (taken: Vec<TimerRequest>)
        ensures
            taken@ == old(self).start_timer@.reverse(),
            final(self).start_timer@ == Seq::<TimerRequest>::empty(),
            final(self).stop_timer == old(self).stop_timer,
            final(self).post_id == old(self).post_id,
            final(self).text_clipboard_response == old(self).text_clipboard_response,
    {
        let mut taken: Vec<TimerRequest> = Vec::new();
        while self.start_timer.len() > 0
            invariant
                old(self).start_timer@.reverse() == taken@ + self.start_timer@.reverse(),
                self.stop_timer == old(self).stop_timer,
                self.post_id == old(self).post_id,
                self.text_clipboard_response == old(self).text_clipboard_response,
            decreases self.start_timer@.len(),
        {
            let ghost before = self.start_timer@;
            let r = self.start_timer.pop().unwrap();
            taken.push(r);
            assert(before.reverse() =~= seq![r] + self.start_timer@.reverse());
            assert(taken@ + self.start_timer@.reverse() =~= taken@.drop_last() + before.reverse());
        }
        assert(self.start_timer@.reverse() =~= Seq::<TimerRequest>::empty());
        assert(taken@ =~= taken@ + self.start_timer@.reverse());
        taken
    }

    /// Takes every queued stop request, most recent first, leaving the
    /// queue empty.
    pub fn take_stop_timers(&mut self) -> (taken: Vec<u64>)
        ensures
            taken@ == old(self).stop_timer@.reverse(),
            final(self).stop_timer@ == Seq::<u64>::empty(),
            final(self).start_timer == old(self).start_timer,
            final(self).post_id == old(self).post_id,
            final(self).text_clipboard_response == old(self).text_clipboard_response,
    {
        let mut taken: Vec<u64> = Vec::new();
        while self.stop_timer.len() > 0
            invariant
                old(self).stop_timer@.reverse() == taken@ + self.stop_timer@.reverse(),
                self.start_timer == old(self).start_timer,
                self.post_id == old(self).post_id,
                self.text_clipboard_response == old(self).text_clipboard_response,
            decreases self.stop_timer@.len(),
        {
            let ghost before = self.stop_timer@;
            let r = self.stop_timer.pop().unwrap();
            taken.push(r);
            assert(before.reverse() =~= seq![r] + self.stop_timer@.reverse());
            assert(taken@ + self.stop_timer@.reverse() =~= taken@.drop_last() + before.reverse());
        }
        assert(self.stop_timer@.reverse() =~= Seq::<u64>::empty());
        assert(taken@ =~= taken@ + self.stop_timer@.reverse());
        taken
    }
}

} // verus!
