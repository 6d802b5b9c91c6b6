//! The life cycle of a visualization session.
//!
//! A session owns three long-lived resources: the processor with the
//! displayed bands, the datagram sender with its periodic send loop, and the
//! capture stream. [`SessionState`] records which of them exist and decides,
//! for every control call, what has to be created, reused or shut down. The
//! caller performs those actions and reports back.

use vstd::prelude::*;

verus! {

/// What a [`SessionState`] records.
pub struct SessionView {
    pub is_running: bool,
    pub has_processor: bool,
    pub has_sender: bool,
    pub has_stream: bool,
    /// Name of the device to capture from; nothing for the default device.
    pub selected_output_device_id: Option<Seq<char>>,
}

/// Which resources a session holds, and whether it is running.
pub struct SessionState {
    is_running: bool,
    has_processor: bool,
    has_sender: bool,
    has_stream: bool,
    selected_output_device_id: Option<String>,
}

/// What starting a session has to create. Whatever is not created is reused.
#[derive(Clone, Copy, Debug, PartialEq, Eq, Structural)]
pub struct StartPlan {
    /// Create the processor; otherwise hand the new configuration to the
    /// existing one.
    pub create_processor: bool,
    /// Bind a sender and start its send loop.
    pub create_sender: bool,
    /// Build the capture stream.
    pub create_stream: bool,
}

/// What stopping a session has to shut down.
#[derive(Clone, Copy, Debug, PartialEq, Eq, Structural)]
pub struct StopPlan {
    /// Pause the capture stream, so that it writes no further bands.
    pub pause_stream: bool,
    /// End the send loop and drop the sender.
    pub stop_sender: bool,
}

/// What a configuration update has to do.
#[derive(Clone, Copy, Debug, PartialEq, Eq, Structural)]
pub struct ConfigPlan {
    /// Hand the new configuration to the processor.
    pub update_processor: bool,
    /// The capture device differs from the one selected so far.
    pub device_changed: bool,
}

/// The name a device selection stands for.
pub open spec fn device_name(device: Option<String>) -> Option<Seq<char>> {
    match device {
        Some(name) => Some(name@),
        None => None,
    }
}

impl View for SessionState {
    type V = SessionView;

    closed spec fn view(&self) -> SessionView {
        SessionView {
            is_running: self.is_running,
            has_processor: self.has_processor,
            has_sender: self.has_sender,
            has_stream: self.has_stream,
            selected_output_device_id: device_name(self.selected_output_device_id),
        }
    }
}

impl SessionView {
    /// The state of a session that holds nothing.
    pub open spec fn idle() -> SessionView {
        SessionView {
            is_running: false,
            has_processor: false,
            has_sender: false,
            has_stream: false,
            selected_output_device_id: None,
        }
    }

    /// What a start from this state has to create: each resource that does
    /// not exist yet.
    pub open spec fn start_plan(self) -> StartPlan {
        StartPlan {
            create_processor: !self.has_processor,
            create_sender: !self.has_sender,
            create_stream: !self.has_stream,
        }
    }

    /// The state after a start has succeeded: everything exists and the
    /// session runs. A device named by the new configuration becomes the
    /// selected one.
    pub open spec fn started(self, requested: Option<Seq<char>>) -> SessionView {
        SessionView {
            is_running: true,
            has_processor: true,
            has_sender: true,
            has_stream: true,
            selected_output_device_id: if requested is Some {
                requested
            } else {
                self.selected_output_device_id
            },
        }
    }

    /// What a stop from this state has to shut down.
    pub open spec fn stop_plan(self) -> StopPlan {
        StopPlan { pause_stream: self.has_stream, stop_sender: self.has_sender }
    }

    /// The state after a stop: the sender is gone and the session no longer
    /// runs; the paused stream and the processor stay for the next start.
    pub open spec fn stopped(self) -> SessionView {
        SessionView { is_running: false, has_sender: false, ..self }
    }

    /// What a configuration update in this state has to do.
    pub open spec fn config_plan(self, requested: Option<Seq<char>>) -> ConfigPlan {
        ConfigPlan {
            update_processor: self.has_processor,
            device_changed: self.selected_output_device_id != requested,
        }
    }

    /// The state after a configuration update: only the selected device can
    /// change; no resource is created or torn down.
    pub open spec fn reconfigured(self, requested: Option<Seq<char>>) -> SessionView {
        SessionView { selected_output_device_id: requested, ..self }
    }
}

impl SessionState {
    /// The state of a session that holds nothing.
    pub fn new() -> (state: Self)
        ensures
            state@ == SessionView::idle(),
    {
        SessionState {
            is_running: false,
            has_processor: false,
            has_sender: false,
            has_stream: false,
            selected_output_device_id: None,
        }
    }

    /// Whether the session runs.
    pub fn is_running(&self) -> (running: bool)
        ensures
            running == self@.is_running,
    {
        self.is_running
    }

    /// The name of the selected capture device.
    pub fn selected_output_device_id(&self) -> (device: &Option<String>)
        ensures
            device_name(*device) == self@.selected_output_device_id,
    {
        &self.selected_output_device_id
    }

    /// Decides what a start has to create. The state changes only once the
    /// start is reported as complete.
    pub fn plan_start(&self) -> (plan: StartPlan)
        ensures
            plan == self@.start_plan(),
    {
        StartPlan {
            create_processor: !self.has_processor,
            create_sender: !self.has_sender,
            create_stream: !self.has_stream,
        }
    }

    /// Records that a start has succeeded.
    pub fn complete_start(&mut self, requested_device: Option<String>)
        ensures
            final(self)@ == old(self)@.started(device_name(requested_device)),
    {
        self.is_running = true;
        self.has_processor = true;
        self.has_sender = true;
        self.has_stream = true;
        if requested_device.is_some() {
            self.selected_output_device_id = requested_device;
        }
    }

    /// Decides what a stop has to shut down, and records the stop.
    pub fn stop(&mut self) -> (plan: StopPlan)
        ensures
            plan == old(self)@.stop_plan(),
            final(self)@ == old(self)@.stopped(),
    {
        let plan = StopPlan { pause_stream: self.has_stream, stop_sender: self.has_sender };
        self.has_sender = false;
        self.is_running = false;
        plan
    }

    /// Decides what a configuration update has to do, and records the
    /// device it selects.
    pub fn update_config(&mut self, requested_device: Option<String>) -> (plan: ConfigPlan)
        ensures
            plan == old(self)@.config_plan(device_name(requested_device)),
            final(self)@ == old(self)@.reconfigured(device_name(requested_device)),
    {
        let device_changed = match (&self.selected_output_device_id, &requested_device) {
            (Some(current), Some(requested)) => !(*current == *requested),
            (None, None) => false,
            _ => true,
        };
        let plan = ConfigPlan { update_processor: self.has_processor, device_changed };
        self.selected_output_device_id = requested_device;
        plan
    }
}

/// Stopping leaves no sender behind and the session not running, from every
/// state; and a start straight after a stop creates a sender again while it
/// reuses the stream and the processor that were there.
pub proof fn lemma_stop_then_start(state: SessionView)
    ensures
        !state.stopped().is_running,
        !state.stopped().has_sender,
        state.stopped().start_plan().create_sender,
        state.stopped().start_plan().create_stream == !state.has_stream,
        state.stopped().start_plan().create_processor == !state.has_processor,
{
}

} // verus!
