//! In-memory platform backend for tests: hands out window ids and queues
//! events, which are delivered in the order they were pushed.

use vstd::prelude::*;
use crate::host_event::{CursorStyle, HostError, HostEvent, WindowId};
use crate::window::WindowConfig;

verus! {

/// In-memory platform for tests.
pub struct MockPlatform {
    next_window_id: u64,
    event_queue: Vec<HostEvent>,
    exit_requested: bool,
    init_called: bool,
    shutdown_called: bool,
}

impl MockPlatform {
    /// The id the next created window gets.
    pub closed spec fn next_id(&self) -> u64 {
        self.next_window_id
    }

    /// The queued events, oldest first.
    pub closed spec fn queue(&self) -> Seq<HostEvent> {
        self.event_queue@
    }

    /// Whether `init` was called.
    pub closed spec fn spec_init_called(&self) -> bool {
        self.init_called
    }

    /// Whether `shutdown` was called.
    pub closed spec fn spec_shutdown_called(&self) -> bool {
        self.shutdown_called
    }

    /// Whether `request_exit` was called.
    pub closed spec fn spec_exit_requested(&self) -> bool {
        self.exit_requested
    }

    /// Create a new mock platform.
    pub fn new() -> (r: Self)
        ensures
            r.next_id() == 1,
            r.queue() == Seq::<HostEvent>::empty(),
            !r.spec_init_called(),
            !r.spec_shutdown_called(),
            !r.spec_exit_requested(),
    {
        MockPlatform {
            next_window_id: 1,
            event_queue: Vec::new(),
            exit_requested: false,
            init_called: false,
            shutdown_called: false,
        }
    }

    /// The id the next created window gets.
    pub fn next_window_id(&self) -> (r: u64)
        ensures
            r == self.next_id(),
    {
        self.next_window_id
    }

    /// Returns true if `init` was called.
    pub fn init_called(&self) -> (r: bool)
        ensures
            r == self.spec_init_called(),
    {
        self.init_called
    }

    /// Returns true if `shutdown` was called.
    pub fn shutdown_called(&self) -> (r: bool)
        ensures
            r == self.spec_shutdown_called(),
    {
        self.shutdown_called
    }

    /// Returns true if `request_exit` was called.
    pub fn exit_requested(&self) -> (r: bool)
        ensures
            r == self.spec_exit_requested(),
    {
        self.exit_requested
    }

    /// Initialize the platform; always succeeds.
    pub fn init(&mut self) -> (r: Result<(), HostError>)
        ensures
            r is Ok,
            final(self).spec_init_called(),
            final(self).next_id() == old(self).next_id(),
            final(self).queue() == old(self).queue(),
            final(self).spec_shutdown_called() == old(self).spec_shutdown_called(),
            final(self).spec_exit_requested() == old(self).spec_exit_requested(),
    {
        self.init_called = true;
        Ok(())
    }

    /// Create a window: returns the next id, counting up from 1.
    pub fn create_window(&mut self, config: WindowConfig) -> (r: Result<WindowId, HostError>)
        requires
            old(self).next_id() < u64::MAX,
        ensures
            r == Ok::<WindowId, HostError>(WindowId(old(self).next_id())),
            final(self).next_id() == old(self).next_id() + 1,
            final(self).queue() == old(self).queue(),
            final(self).spec_init_called() == old(self).spec_init_called(),
            final(self).spec_shutdown_called() == old(self).spec_shutdown_called(),
            final(self).spec_exit_requested() == old(self).spec_exit_requested(),
    {
        let id = WindowId(self.next_window_id);
        self.next_window_id = self.next_window_id + 1;
        Ok(id)
    }

    /// Take every queued event, oldest first, leaving the queue empty.
    pub fn poll_events(&mut self) -> (r: Vec<HostEvent>)
        ensures
            r@ == old(self).queue(),
            final(self).queue() == Seq::<HostEvent>::empty(),
            final(self).next_id() == old(self).next_id(),
            final(self).spec_init_called() == old(self).spec_init_called(),
            final(self).spec_shutdown_called() == old(self).spec_shutdown_called(),
            final(self).spec_exit_requested() == old(self).spec_exit_requested(),
    {
        let mut taken: Vec<HostEvent> = Vec::new();
        std::mem::swap(&mut taken, &mut self.event_queue);
        taken
    }

    /// Record that an exit was requested.
    pub fn request_exit(&mut self)
        ensures
            final(self).spec_exit_requested(),
            final(self).next_id() == old(self).next_id(),
            final(self).queue() == old(self).queue(),
            final(self).spec_init_called() == old(self).spec_init_called(),
            final(self).spec_shutdown_called() == old(self).spec_shutdown_called(),
    {
        self.exit_requested = true;
    }

    /// Record that the platform was shut down.
    pub fn shutdown(&mut self)
        ensures
            final(self).spec_shutdown_called(),
            final(self).next_id() == old(self).next_id(),
            final(self).queue() == old(self).queue(),
            final(self).spec_init_called() == old(self).spec_init_called(),
            final(self).spec_exit_requested() == old(self).spec_exit_requested(),
    {
        self.shutdown_called = true;
    }

    /// Cursor styles have no effect on the mock.
    pub fn set_cursor_style(&mut self, style: CursorStyle)
        ensures
            final(self).next_id() == old(self).next_id(),
            final(self).queue() == old(self).queue(),
            final(self).spec_init_called() == old(self).spec_init_called(),
            final(self).spec_shutdown_called() == old(self).spec_shutdown_called(),
            final(self).spec_exit_requested() == old(self).spec_exit_requested(),
    {
    }

    /// Queue an event.
    pub fn push_event(&mut self, event: HostEvent)
        ensures
            final(self).queue() == old(self).queue().push(event),
            final(self).next_id() == old(self).next_id(),
            final(self).spec_init_called() == old(self).spec_init_called(),
            final(self).spec_shutdown_called() == old(self).spec_shutdown_called(),
            final(self).spec_exit_requested() == old(self).spec_exit_requested(),
    {
        self.event_queue.push(event);
    }
}

impl Default for MockPlatform {
    fn default() -> (r: Self)
        ensures
            r.next_id() == 1,
            r.queue() == Seq::<HostEvent>::empty(),
            !r.spec_init_called(),
            !r.spec_shutdown_called(),
            !r.spec_exit_requested(),
    {
        MockPlatform::new()
    }
}

} // verus!
