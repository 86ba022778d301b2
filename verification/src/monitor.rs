//! The task that keeps sensor and display together: it greets, brings the sensor up, and then in
//! pass after pass reads the angles and shows them. The task decides; its owner carries out each
//! command and reports back.
use vstd::prelude::*;

use crate::canvas;
use crate::clock;
use crate::crc;
use crate::display;
use crate::display::DrawOp;
use crate::frame;
use crate::frame::SensorError;
use crate::sensor;
use crate::sensor::{AngleRead, AngleReadings, ReadProgress, Reply, Request, Startup, StartupProgress};
use crate::text;
use crate::ui;
use crate::ui::{Screen, ScreenMode, Service, Timings, UiState};

verus! {

/// How long the greeting stays up, in milliseconds.
pub const SPLASH_MS: u64 = 5000;

/// The pause between two passes, in milliseconds.
pub const PASS_PAUSE_MS: u64 = 100;

/// The pause between two passes if the sensor did not come up, in milliseconds.
pub const FAILED_PASS_PAUSE_MS: u64 = 250;

/// The pause between two turns of the LED, in milliseconds.
pub const LED_PAUSE_MS: u64 = 250;

/// What has to be carried out next.
#[derive(Debug, PartialEq, Eq)]
pub enum Command {
    /// Draw these into the frame buffer, in order.
    Draw(Vec<DrawOp>),
    /// Send the changed lines of the frame buffer to the display.
    Flush,
    /// Tell the display that it is still looked after.
    KeepAlive,
    /// Exchange these bytes with the sensor.
    Transfer([u8; 4]),
    /// Let this many milliseconds pass.
    Sleep(u64),
}

/// A command, with drawing as what it draws and bytes as the frame that they carry.
pub enum Order {
    Draw(Seq<display::Drawing>),
    Flush,
    KeepAlive,
    Transfer(u32),
    Sleep(u64),
}

impl View for Command {
    type V = Order;

    open spec fn view(&self) -> Order {
        match *self {
            Command::Draw(ops) => Order::Draw(display::drawings(ops@)),
            Command::Flush => Order::Flush,
            Command::KeepAlive => Order::KeepAlive,
            Command::Transfer(bytes) => Order::Transfer(frame::word_of(bytes@) as u32),
            Command::Sleep(millis) => Order::Sleep(millis),
        }
    }
}

/// How a command went.
#[derive(Clone, Copy, Debug, PartialEq, Eq)]
pub enum Completion {
    /// It was carried out.
    Done,
    /// The bytes that came back, or `None` if the transfer failed.
    Transferred(Option<[u8; 4]>),
}

/// The report on a command.
#[derive(Clone, Copy, Debug, PartialEq, Eq)]
pub struct Event {
    /// The tick at which it was finished.
    pub now: u64,
    /// How long the LED task took when it last ran, in microseconds.
    pub led_us: u32,
    pub completion: Completion,
}

/// What the task waits for.
#[derive(Clone, Copy, Debug, PartialEq, Eq, Structural)]
pub enum Phase {
    /// The greeting is being drawn.
    DrawingSplash,
    /// The greeting is being flushed.
    FlushingSplash,
    /// The greeting stays up.
    ShowingSplash,
    /// The sensor is being brought up.
    Starting(Startup),
    /// The angles are being read.
    Reading(AngleRead),
    /// The screen is being put up that is to show why the sensor did not come up.
    Preparing { error: SensorError },
    /// The outcome is being drawn.
    Drawing { needs_flush: bool },
    /// What was drawn is being flushed.
    Flushing,
    /// The display is being told that it is still looked after.
    KeepingAlive,
    /// The pause between two passes.
    Sleeping,
}

impl Phase {
    /// The phase is part of a pass, which the pause after it is not.
    pub open spec fn in_pass(self) -> bool {
        ||| self is Reading
        ||| self is Preparing
        ||| self is Drawing
        ||| self is Flushing
        ||| self is KeepingAlive
    }

    /// The phase ends with a transfer.
    pub open spec fn awaits_transfer(self) -> bool {
        match self {
            Phase::Starting(startup) => startup.pending() is Transfer,
            Phase::Reading(_) => true,
            _ => false,
        }
    }
}

/// The task.
pub struct Monitor {
    phase: Phase,
    ui_state: UiState,
    refresh_count: u32,
    timings: Timings,
    /// Why the sensor did not come up.
    startup_error: Option<SensorError>,
    /// The tick of the last report.
    seen: u64,
    loop_started: u64,
    sensor_started: u64,
    cpu_started: u64,
    flush_started: u64,
    /// The timings of this pass so far.
    sensor_us: u32,
    cpu_us: u32,
}

/// The state of the task, with text as its characters.
#[verifier::ext_equal]
pub struct MonitorModel {
    pub phase: Phase,
    pub screen: Screen,
    pub refresh_count: u32,
    pub timings: Timings,
    pub startup_error: Option<SensorError>,
    pub seen: u64,
    pub loop_started: u64,
    pub sensor_started: u64,
    pub cpu_started: u64,
    pub flush_started: u64,
    pub sensor_us: u32,
    pub cpu_us: u32,
}

impl View for Monitor {
    type V = MonitorModel;

    closed spec fn view(&self) -> MonitorModel {
        MonitorModel {
            phase: self.phase,
            screen: self.ui_state@,
            refresh_count: self.refresh_count,
            timings: self.timings,
            startup_error: self.startup_error,
            seen: self.seen,
            loop_started: self.loop_started,
            sensor_started: self.sensor_started,
            cpu_started: self.cpu_started,
            flush_started: self.flush_started,
            sensor_us: self.sensor_us,
            cpu_us: self.cpu_us,
        }
    }
}

impl MonitorModel {
    /// What holds of the task at all times: a startup under way stands at a request of its script,
    /// the sensor is read only if it came up, a screen is put up by itself only if it did not, and
    /// no time that was noted lies ahead.
    pub open spec fn wf(self) -> bool {
        &&& match self.phase {
            Phase::Starting(startup) => startup.wf(),
            Phase::Preparing { error } => self.startup_error == Some(error) && self.screen.mode
                == Some(ScreenMode::Error),
            _ => true,
        }
        &&& self.startup_error is Some ==> self.phase is Preparing || self.phase is Drawing
            || self.phase is Flushing || self.phase is KeepingAlive || self.phase is Sleeping
        &&& self.screen.last_flush_at <= self.seen
        &&& self.phase is Reading ==> self.loop_started <= self.sensor_started <= self.seen
        &&& self.phase is Drawing ==> self.loop_started <= self.cpu_started <= self.seen
        &&& self.phase is Flushing ==> self.loop_started <= self.flush_started <= self.seen
        &&& self.loop_started <= self.seen
    }

    /// The report can be one on the command that is out: it brings a response exactly if that is a
    /// transfer, time does not run backwards, and the pass is not too long to be told.
    pub open spec fn accepts(self, event: Event) -> bool {
        &&& event.completion is Transferred <==> self.phase.awaits_transfer()
        &&& self.seen <= event.now
        &&& self.phase.in_pass() ==> clock::measurable(self.loop_started, event.now)
    }
}

/// The bytes that a report brings.
pub open spec fn received(event: Event) -> Option<Seq<u8>> {
    match event.completion {
        Completion::Transferred(Some(bytes)) => Some(bytes@),
        _ => None,
    }
}

/// The task and its command once it goes on to show an outcome.
pub open spec fn drawing_step(
    task: MonitorModel,
    outcome: Result<AngleReadings, SensorError>,
    event: Event,
) -> (MonitorModel, Order) {
    let timings = Timings { led_us: event.led_us, ..task.timings };
    (
        MonitorModel {
            phase: Phase::Drawing {
                needs_flush: ui::outcome_drawings(
                    ui::prepared_screen(task.screen, outcome),
                    outcome,
                    task.refresh_count,
                    timings,
                ).len() > 0,
            },
            screen: ui::rendered_screen(task.screen, outcome, task.refresh_count, timings),
            timings,
            cpu_started: event.now,
            ..task
        },
        Order::Draw(ui::render_drawings(task.screen, outcome, task.refresh_count, timings)),
    )
}

/// The task and its command once it begins a pass: the pass is counted, and the angles are read if
/// the sensor came up, or else the reason why it did not is shown, for which the screen of the
/// errors is put up first if another is up.
pub open spec fn begin_step(task: MonitorModel, event: Event) -> (MonitorModel, Order) {
    let begun = MonitorModel {
        refresh_count: task.refresh_count.wrapping_add(1),
        loop_started: event.now,
        ..task
    };
    match task.startup_error {
        Some(error) => if task.screen.mode == Some(ScreenMode::Error) {
            drawing_step(begun, Err(error), event)
        } else {
            (
                MonitorModel {
                    phase: Phase::Preparing { error },
                    screen: ui::blank_screen(Some(ScreenMode::Error), task.screen.last_flush_at),
                    ..begun
                },
                Order::Draw(ui::screen_drawings(ScreenMode::Error)),
            )
        },
        None => (
            MonitorModel {
                phase: Phase::Reading(AngleRead::SentX),
                sensor_started: event.now,
                ..begun
            },
            Order::Transfer(AngleRead::SentX.pending()),
        ),
    }
}

/// The task and its command once it ends a pass: the timings of the pass are published, and the
/// pause follows. A pass without a sensor leaves the timing of the sensor as it was.
pub open spec fn end_step(task: MonitorModel, flush_us: u32, event: Event) -> (
    MonitorModel,
    Order,
) {
    (
        MonitorModel {
            phase: Phase::Sleeping,
            timings: Timings {
                led_us: task.timings.led_us,
                sensor_us: if task.startup_error is Some {
                    task.timings.sensor_us
                } else {
                    task.sensor_us
                },
                cpu_us: task.cpu_us,
                flush_us,
                loop_us: clock::elapsed_micros(task.loop_started, event.now),
            },
            ..task
        },
        Order::Sleep(
            if task.startup_error is Some {
                FAILED_PASS_PAUSE_MS
            } else {
                PASS_PAUSE_MS
            },
        ),
    )
}

/// The order that carries out a request of the startup.
pub open spec fn order_for(request: Request) -> Order {
    match request {
        Request::Transfer(word) => Order::Transfer(word),
        Request::Wait(millis) => Order::Sleep(millis),
    }
}

/// The reply that a report brings to a request of the startup.
pub open spec fn reply_in(event: Event) -> Reply {
    if event.completion is Transferred {
        Reply::Response(frame::accepted(received(event)))
    } else {
        Reply::Waited
    }
}

/// The task after a report, and the command that it then gives.
pub open spec fn next(before: MonitorModel, event: Event) -> (MonitorModel, Order) {
    let task = MonitorModel { seen: event.now, ..before };
    match task.phase {
        Phase::DrawingSplash => (
            MonitorModel { phase: Phase::FlushingSplash, ..task },
            Order::Flush,
        ),
        Phase::FlushingSplash => (
            MonitorModel { phase: Phase::ShowingSplash, ..task },
            Order::Sleep(SPLASH_MS),
        ),
        Phase::ShowingSplash => (
            MonitorModel { phase: Phase::Starting(Startup { place: 0 }), ..task },
            order_for(sensor::startup_script()[0]),
        ),
        Phase::Starting(startup) => match sensor::startup_verdict(
            startup.place(),
            reply_in(event),
        ) {
            Some(Ok(_)) => begin_step(task, event),
            Some(Err(error)) => begin_step(
                MonitorModel { startup_error: Some(error), ..task },
                event,
            ),
            None => {
                let place = startup.place() + 1;
                (
                    MonitorModel {
                        phase: Phase::Starting(Startup { place: place as u8 }),
                        ..task
                    },
                    order_for(sensor::startup_script()[place as int]),
                )
            },
        },
        Phase::Reading(read) => match read.after(frame::accepted(received(event))) {
            ReadProgress::Next(further, word) => (
                MonitorModel { phase: Phase::Reading(further), ..task },
                Order::Transfer(word),
            ),
            ReadProgress::Finished(outcome) => drawing_step(
                MonitorModel {
                    sensor_us: clock::elapsed_micros(task.sensor_started, event.now),
                    ..task
                },
                outcome,
                event,
            ),
        },
        Phase::Preparing { error } => drawing_step(task, Err(error), event),
        Phase::Drawing { needs_flush } => {
            let measured = MonitorModel {
                cpu_us: clock::elapsed_micros(task.cpu_started, event.now),
                ..task
            };
            match ui::service_needed(task.screen, needs_flush, event.now) {
                Service::Flush => (
                    MonitorModel { phase: Phase::Flushing, flush_started: event.now, ..measured },
                    Order::Flush,
                ),
                Service::KeepAlive => (
                    MonitorModel { phase: Phase::KeepingAlive, ..measured },
                    Order::KeepAlive,
                ),
                Service::Leave => end_step(measured, 0, event),
            }
        },
        Phase::Flushing => end_step(
            MonitorModel {
                screen: Screen { last_flush_at: event.now, ..task.screen },
                ..task
            },
            clock::elapsed_micros(task.flush_started, event.now),
            event,
        ),
        Phase::KeepingAlive => end_step(
            MonitorModel {
                screen: Screen { last_flush_at: event.now, ..task.screen },
                ..task
            },
            0,
            event,
        ),
        Phase::Sleeping => begin_step(task, event),
    }
}

/// The task at its start: nothing has been counted, timed or shown.
pub open spec fn initial(now: u64) -> MonitorModel {
    MonitorModel {
        phase: Phase::DrawingSplash,
        screen: ui::blank_screen(None, now),
        refresh_count: 0,
        timings: Timings { led_us: 0, sensor_us: 0, cpu_us: 0, flush_us: 0, loop_us: 0 },
        startup_error: None,
        seen: now,
        loop_started: now,
        sensor_started: now,
        cpu_started: now,
        flush_started: now,
        sensor_us: 0,
        cpu_us: 0,
    }
}

/// The command that carries out a request of the startup.
fn command_for(request: Request) -> (command: Command)
    ensures
        command@ == order_for(request),
{
    match request {
        Request::Transfer(word) => Command::Transfer(frame::request_bytes(word)),
        Request::Wait(millis) => Command::Sleep(millis),
    }
}

impl Monitor {
    /// Starts the task at tick `now`, with the greeting.
    pub fn start(now: u64) -> (started: (Monitor, Command))
        ensures
            started.0@ == initial(now),
            started.0@.wf(),
            started.1@ == Order::Draw(display::splash()),
    {
        let monitor = Monitor {
            phase: Phase::DrawingSplash,
            ui_state: UiState::new(now),
            refresh_count: 0,
            timings: Timings { led_us: 0, sensor_us: 0, cpu_us: 0, flush_us: 0, loop_us: 0 },
            startup_error: None,
            seen: now,
            loop_started: now,
            sensor_started: now,
            cpu_started: now,
            flush_started: now,
            sensor_us: 0,
            cpu_us: 0,
        };
        (monitor, Command::Draw(display::draw_splash()))
    }

    /// Whether the report can be one on the command that is out.
    pub fn accepts(&self, event: &Event) -> (fits: bool)
        requires
            self@.wf(),
        ensures
            fits == self@.accepts(*event),
    {
        let awaits_transfer: bool = match self.phase {
            Phase::Starting(startup) => startup.awaits_transfer(),
            Phase::Reading(_) => true,
            _ => false,
        };
        let brings_transfer: bool = match event.completion {
            Completion::Transferred(_) => true,
            Completion::Done => false,
        };
        let in_pass: bool = match self.phase {
            Phase::Reading(_) => true,
            Phase::Preparing { .. } => true,
            Phase::Drawing { .. } => true,
            Phase::Flushing => true,
            Phase::KeepingAlive => true,
            _ => false,
        };
        brings_transfer == awaits_transfer && self.seen <= event.now && (!in_pass
            || clock::is_measurable(self.loop_started, event.now))
    }

    /// Goes on to show an outcome.
    fn show(&mut self, outcome: Result<AngleReadings, SensorError>, event: Event) -> (command:
        Command)
        ensures
            (final(self)@, command@) == drawing_step(old(self)@, outcome, event),
    {
        self.timings.led_us = event.led_us;
        self.cpu_started = event.now;
        let mut ops: Vec<DrawOp> = Vec::new();
        let needs_flush: bool = ui::render(
            &mut ops,
            &mut self.ui_state,
            outcome,
            self.refresh_count,
            self.timings,
        );
        self.phase = Phase::Drawing { needs_flush };
        proof {
            let expected = drawing_step(old(self)@, outcome, event);
            assert(display::drawings(ops@) =~= expected.1->Draw_0);
            assert(self@ =~= expected.0);
        }
        Command::Draw(ops)
    }

    /// Begins a pass.
    fn begin_pass(&mut self, event: Event) -> (command: Command)
        ensures
            (final(self)@, command@) == begin_step(old(self)@, event),
    {
        self.refresh_count = self.refresh_count.wrapping_add(1);
        self.loop_started = event.now;
        match self.startup_error {
            Some(error) => match self.ui_state.screen_mode {
                Some(ScreenMode::Error) => self.show(Err(error), event),
                _ => {
                    let mut ops: Vec<DrawOp> = Vec::new();
                    ui::prepare_error_screen(&mut ops, &mut self.ui_state);
                    self.phase = Phase::Preparing { error };
                    proof {
                        let expected = begin_step(old(self)@, event);
                        assert(display::drawings(ops@) =~= expected.1->Draw_0);
                        assert(self@ =~= expected.0);
                    }
                    Command::Draw(ops)
                },
            },
            None => {
                self.sensor_started = event.now;
                let (read, word) = AngleRead::begin();
                self.phase = Phase::Reading(read);
                assert(self@ =~= begin_step(old(self)@, event).0);
                Command::Transfer(frame::request_bytes(word))
            },
        }
    }

    /// Ends a pass.
    fn end_pass(&mut self, flush_us: u32, event: Event) -> (command: Command)
        requires
            clock::measurable(old(self)@.loop_started, event.now),
        ensures
            (final(self)@, command@) == end_step(old(self)@, flush_us, event),
    {
        let loop_us: u32 = clock::elapsed_micros_u32(self.loop_started, event.now);
        let pause: u64 = match self.startup_error {
            Some(_) => FAILED_PASS_PAUSE_MS,
            None => {
                self.timings.sensor_us = self.sensor_us;
                PASS_PAUSE_MS
            },
        };
        self.timings.cpu_us = self.cpu_us;
        self.timings.flush_us = flush_us;
        self.timings.loop_us = loop_us;
        self.phase = Phase::Sleeping;
        assert(self@ =~= end_step(old(self)@, flush_us, event).0);
        Command::Sleep(pause)
    }

    /// Takes the report on the command that is out and says what has to be carried out next.
    #[verifier::spinoff_prover]
    #[verifier::rlimit(40)]
    pub fn step(&mut self, event: Event) -> (command: Command)
        requires
            old(self)@.wf(),
            old(self)@.accepts(event),
        ensures
            (final(self)@, command@) == next(old(self)@, event),
            final(self)@.wf(),
    {
        let transferred: Option<[u8; 4]> = match event.completion {
            Completion::Transferred(bytes) => bytes,
            Completion::Done => None,
        };
        self.seen = event.now;
        let ghost task = self@;
        match self.phase {
            Phase::DrawingSplash => {
                self.phase = Phase::FlushingSplash;
                assert(self@ =~= next(old(self)@, event).0);
                Command::Flush
            },
            Phase::FlushingSplash => {
                self.phase = Phase::ShowingSplash;
                assert(self@ =~= next(old(self)@, event).0);
                Command::Sleep(SPLASH_MS)
            },
            Phase::ShowingSplash => {
                let (startup, request) = Startup::begin();
                self.phase = Phase::Starting(startup);
                assert(self@ =~= next(old(self)@, event).0);
                command_for(request)
            },
            Phase::Starting(mut startup) => {
                let reply: Reply = match event.completion {
                    Completion::Transferred(bytes) => Reply::Response(frame::accept_response(bytes)),
                    Completion::Done => Reply::Waited,
                };
                match startup.advance(reply) {
                    StartupProgress::Next(request) => {
                        self.phase = Phase::Starting(startup);
                        assert(self@ =~= next(old(self)@, event).0);
                        command_for(request)
                    },
                    StartupProgress::Finished(Ok(_)) => self.begin_pass(event),
                    StartupProgress::Finished(Err(error)) => {
                        self.startup_error = Some(error);
                        assert(self@ =~= (MonitorModel { startup_error: Some(error), ..task }));
                        self.begin_pass(event)
                    },
                }
            },
            Phase::Reading(read) => {
                match read.advance(frame::accept_response(transferred)) {
                    ReadProgress::Next(further, word) => {
                        self.phase = Phase::Reading(further);
                        assert(self@ =~= next(old(self)@, event).0);
                        Command::Transfer(frame::request_bytes(word))
                    },
                    ReadProgress::Finished(outcome) => {
                        self.sensor_us = clock::elapsed_micros_u32(self.sensor_started, event.now);
                        assert(self@ =~= (MonitorModel {
                            sensor_us: clock::elapsed_micros(task.sensor_started, event.now),
                            ..task
                        }));
                        self.show(outcome, event)
                    },
                }
            },
            Phase::Preparing { error } => self.show(Err(error), event),
            Phase::Drawing { needs_flush } => {
                self.cpu_us = clock::elapsed_micros_u32(self.cpu_started, event.now);
                let ghost measured = self@;
                assert(measured =~= (MonitorModel {
                    cpu_us: clock::elapsed_micros(task.cpu_started, event.now),
                    ..task
                }));
                match ui::flush_or_keepalive(&self.ui_state, needs_flush, event.now) {
                    Service::Flush => {
                        self.flush_started = event.now;
                        self.phase = Phase::Flushing;
                        assert(self@ =~= next(old(self)@, event).0);
                        Command::Flush
                    },
                    Service::KeepAlive => {
                        self.phase = Phase::KeepingAlive;
                        assert(self@ =~= next(old(self)@, event).0);
                        Command::KeepAlive
                    },
                    Service::Leave => self.end_pass(0, event),
                }
            },
            Phase::Flushing => {
                self.ui_state.last_flush_at = event.now;
                let flush_us: u32 = clock::elapsed_micros_u32(self.flush_started, event.now);
                assert(self@ =~= (MonitorModel {
                    screen: Screen { last_flush_at: event.now, ..task.screen },
                    ..task
                }));
                self.end_pass(flush_us, event)
            },
            Phase::KeepingAlive => {
                self.ui_state.last_flush_at = event.now;
                assert(self@ =~= (MonitorModel {
                    screen: Screen { last_flush_at: event.now, ..task.screen },
                    ..task
                }));
                self.end_pass(0, event)
            },
            Phase::Sleeping => self.begin_pass(event),
        }
    }
}

/// A task that was just started is well-formed.
pub proof fn start_is_well_formed(now: u64)
    ensures
        initial(now).wf(),
{
}

/// Whatever report a task takes, it stays well-formed, so that what holds of one report holds of
/// each in a row of them.
pub proof fn reports_keep_the_task_well_formed(task: MonitorModel, event: Event)
    requires
        task.wf(),
        task.accepts(event),
    ensures
        next(task, event).0.wf(),
{
}

/// A sensor that did not come up is not tried again: the task never exchanges a frame with it, keeps
/// the screen of the errors up and shows there in every pass why it did not come up, and pauses
/// longer between two passes.
pub proof fn failed_startup_is_final(task: MonitorModel, event: Event, error: SensorError)
    requires
        task.wf(),
        task.accepts(event),
        task.startup_error == Some(error),
    ensures
        next(task, event).0.startup_error == Some(error),
        !(next(task, event).1 is Transfer),
        next(task, event).1 is Sleep ==> next(task, event).1 == Order::Sleep(FAILED_PASS_PAUSE_MS),
        next(task, event).1 is Draw ==> next(task, event).0.screen.mode == Some(ScreenMode::Error),
        next(task, event).0.phase is Drawing ==> shows(next(task, event).0, Err(error)),
        next(task, event).1 is Draw <==> (task.phase is Sleeping || task.phase is Preparing),
        task.phase is Preparing ==> next(task, event).0.phase is Drawing,
{
}

/// A sensor that came up stays in use, whatever becomes of a reading.
pub proof fn started_sensor_stays_in_use(task: MonitorModel, event: Event)
    requires
        task.wf(),
        task.accepts(event),
        task.startup_error is None,
        task.phase.in_pass() || task.phase is Sleeping,
    ensures
        next(task, event).0.startup_error is None,
        next(task, event).0.phase.in_pass() || next(task, event).0.phase is Sleeping,
        next(task, event).1 is Sleep ==> next(task, event).1 == Order::Sleep(PASS_PAUSE_MS),
        task.phase is Sleeping ==> next(task, event).1 is Transfer,
{
}

/// The sensor is given nothing but its commands, each with the checksum that it has to carry.
pub proof fn only_intact_commands_are_sent(task: MonitorModel, event: Event)
    requires
        task.wf(),
        task.accepts(event),
    ensures
        next(task, event).1 matches Order::Transfer(word) ==> frame::is_command(word)
            && crc::intact(word),
{
    if let Order::Transfer(word) = next(task, event).1 {
        assert(frame::is_command(word));
        frame::commands_are_intact(word);
    }
}

/// The task counts each pass once, when it begins.
pub proof fn passes_are_counted(task: MonitorModel, event: Event)
    requires
        task.wf(),
        task.accepts(event),
    ensures
        next(task, event).0.refresh_count == (if !task.phase.in_pass() && next(
            task,
            event,
        ).0.phase.in_pass() {
            task.refresh_count.wrapping_add(1)
        } else {
            task.refresh_count
        }),
{
}

/// The screen is the one for the outcome, and its fields show the outcome and the count.
pub open spec fn shows(task: MonitorModel, outcome: Result<AngleReadings, SensorError>) -> bool {
    &&& task.screen.mode == Some(ui::mode_for(outcome))
    &&& task.screen.refresh == text::refresh_line(task.refresh_count)
    &&& match outcome {
        Ok(readings) => {
            &&& task.screen.x == text::axis_line('X', readings.x_raw as int)
            &&& task.screen.y == text::axis_line('Y', readings.y_raw as int)
            &&& task.screen.z == text::axis_line('Z', readings.z_raw as int)
        },
        Err(error) => {
            &&& task.screen.message == text::error_message(error)
            &&& task.screen.detail == text::error_detail(error)
        },
    }
}

/// The outcome of a reading, be it angles or an error, is what the screen then shows.
pub proof fn outcome_reaches_the_screen(
    task: MonitorModel,
    event: Event,
    read: AngleRead,
    outcome: Result<AngleReadings, SensorError>,
)
    requires
        task.phase == Phase::Reading(read),
        read.after(frame::accepted(received(event))) == ReadProgress::Finished(outcome),
    ensures
        shows(next(task, event).0, outcome),
        next(task, event).1 is Draw,
{
}

/// The status fields show these timings.
pub open spec fn shows_timings(task: MonitorModel, timings: Timings) -> bool {
    &&& task.screen.led == text::timing_line("LED "@, timings.led_us)
    &&& task.screen.sensor == text::timing_line("SNS "@, timings.sensor_us)
    &&& task.screen.cpu == text::timing_line("CPU "@, timings.cpu_us)
    &&& task.screen.flush == text::timing_line("FLU "@, timings.flush_us)
    &&& task.screen.pass == text::timing_line("LOP "@, timings.loop_us)
}

/// A pass shows the timings that were published last, those of the pass before it, and the timing
/// of the LED task as it is at that moment. It publishes none before it ends.
pub proof fn published_timings_are_shown(task: MonitorModel, event: Event)
    requires
        task.wf(),
        task.accepts(event),
    ensures
        next(task, event).0.phase is Drawing ==> shows_timings(
            next(task, event).0,
            Timings { led_us: event.led_us, ..task.timings },
        ),
        !(next(task, event).0.phase is Sleeping) ==> next(task, event).0.timings == (Timings {
            led_us: next(task, event).0.timings.led_us,
            ..task.timings
        }),
{
}

/// If the display shows in every field what the state of the task says, it still does so after the
/// next command, be it a drawing or not, was carried out.
pub proof fn display_follows_the_task(task: MonitorModel, event: Event, shown: canvas::Canvas)
    requires
        canvas::agrees(task.screen, shown),
    ensures
        canvas::agrees(
            next(task, event).0.screen,
            match next(task, event).1 {
                Order::Draw(list) => canvas::all_drawn(shown, list),
                _ => shown,
            },
        ),
{
    let timings = Timings { led_us: event.led_us, ..task.timings };
    canvas::new_screen_is_blank(shown, ScreenMode::Error, task.screen.last_flush_at);
    match task.phase {
        Phase::Reading(read) => {
            if let ReadProgress::Finished(outcome) = read.after(frame::accepted(received(event))) {
                canvas::display_follows_the_state(
                    task.screen,
                    shown,
                    outcome,
                    task.refresh_count,
                    timings,
                );
            }
        },
        Phase::Starting(startup) => {
            if let Some(Err(error)) = sensor::startup_verdict(startup.place(), reply_in(event)) {
                canvas::display_follows_the_state(
                    task.screen,
                    shown,
                    Err(error),
                    task.refresh_count.wrapping_add(1),
                    timings,
                );
            } else if let Some(error) = task.startup_error {
                canvas::display_follows_the_state(
                    task.screen,
                    shown,
                    Err(error),
                    task.refresh_count.wrapping_add(1),
                    timings,
                );
            }
        },
        Phase::Sleeping => {
            if let Some(error) = task.startup_error {
                canvas::display_follows_the_state(
                    task.screen,
                    shown,
                    Err(error),
                    task.refresh_count.wrapping_add(1),
                    timings,
                );
            }
        },
        Phase::Preparing { error } => {
            canvas::display_follows_the_state(
                task.screen,
                shown,
                Err(error),
                task.refresh_count,
                timings,
            );
        },
        _ => {},
    }
}

/// How far the task is from the next pause.
pub open spec fn steps_to_pause(phase: Phase) -> nat {
    match phase {
        Phase::DrawingSplash => 19,
        Phase::FlushingSplash => 18,
        Phase::ShowingSplash => 17,
        Phase::Starting(startup) => if startup.place() < 10 {
            (16 - startup.place()) as nat
        } else {
            0
        },
        Phase::Reading(AngleRead::SentX) => 6,
        Phase::Reading(AngleRead::SentY) => 5,
        Phase::Reading(AngleRead::SentZ { .. }) => 4,
        Phase::Reading(AngleRead::SentStatus { .. }) => 3,
        Phase::Preparing { .. } => 3,
        Phase::Drawing { .. } => 2,
        Phase::Flushing => 1,
        Phase::KeepingAlive => 1,
        Phase::Sleeping => 0,
    }
}

/// Whatever is reported, the task comes closer to a pause with each report until it pauses.
pub proof fn every_pass_ends(task: MonitorModel, event: Event)
    requires
        task.wf(),
        task.accepts(event),
        !(task.phase is Sleeping),
    ensures
        steps_to_pause(next(task, event).0.phase) < steps_to_pause(task.phase),
        next(task, event).0.phase is Sleeping ==> next(task, event).1 is Sleep,
{
}

/// What is on the screen is behind the count exactly while a pass has not been drawn yet.
pub open spec fn in_step(task: MonitorModel) -> bool {
    match task.phase {
        Phase::DrawingSplash => task.screen.mode is None,
        Phase::FlushingSplash => task.screen.mode is None,
        Phase::ShowingSplash => task.screen.mode is None,
        Phase::Starting(_) => task.screen.mode is None,
        Phase::Reading(_) => task.screen.mode is None || task.screen.refresh
            != text::refresh_line(task.refresh_count),
        Phase::Preparing { .. } => task.screen.refresh != text::refresh_line(
            task.refresh_count,
        ),
        Phase::Drawing { needs_flush } => needs_flush && task.screen.refresh
            == text::refresh_line(task.refresh_count),
        Phase::KeepingAlive => false,
        _ => task.screen.refresh == text::refresh_line(task.refresh_count),
    }
}

proof fn lemma_count_changes_the_line(refresh_count: u32)
    ensures
        text::refresh_line(refresh_count) != text::refresh_line(
            refresh_count.wrapping_add(1),
        ),
{
    text::refresh_line_counts_to_100000(refresh_count, refresh_count.wrapping_add(1));
}

proof fn lemma_outdated_screen_is_flushed(
    screen: Screen,
    outcome: Result<AngleReadings, SensorError>,
    refresh_count: u32,
    timings: Timings,
)
    requires
        screen.mode is None || screen.refresh != text::refresh_line(refresh_count),
    ensures
        ui::outcome_drawings(
            ui::prepared_screen(screen, outcome),
            outcome,
            refresh_count,
            timings,
        ).len() > 0,
{
    ui::whatever_is_drawn_is_flushed(screen, outcome, refresh_count, timings);
}

/// A task that was just started is in step.
pub proof fn start_is_in_step(now: u64)
    ensures
        in_step(initial(now)),
{
}

/// A task that is in step stays so, and every pass of it ends with a flush, so that the display
/// never needs a sign of life besides.
pub proof fn every_pass_is_flushed(task: MonitorModel, event: Event)
    requires
        task.wf(),
        task.accepts(event),
        in_step(task),
    ensures
        in_step(next(task, event).0),
        task.phase is Drawing ==> next(task, event).1 is Flush,
        !(next(task, event).1 is KeepAlive),
        task.phase.in_pass() && next(task, event).1 is Sleep ==> next(
            task,
            event,
        ).0.screen.last_flush_at == event.now,
{
    lemma_count_changes_the_line(task.refresh_count);
    text::refresh_line_fits(task.refresh_count.wrapping_add(1));
    let timings = Timings { led_us: event.led_us, ..task.timings };
    match task.phase {
        Phase::Reading(read) => {
            if let ReadProgress::Finished(outcome) = read.after(frame::accepted(received(event))) {
                lemma_outdated_screen_is_flushed(task.screen, outcome, task.refresh_count, timings);
            }
        },
        Phase::Starting(startup) => {
            if let Some(Err(error)) = sensor::startup_verdict(startup.place(), reply_in(event)) {
                lemma_outdated_screen_is_flushed(
                    task.screen,
                    Err(error),
                    task.refresh_count.wrapping_add(1),
                    timings,
                );
            }
        },
        Phase::Sleeping => {
            if let Some(error) = task.startup_error {
                lemma_outdated_screen_is_flushed(
                    task.screen,
                    Err(error),
                    task.refresh_count.wrapping_add(1),
                    timings,
                );
            }
        },
        Phase::Preparing { error } => {
            lemma_outdated_screen_is_flushed(task.screen, Err(error), task.refresh_count, timings);
        },
        _ => {},
    }
}

/// The replies that reports bring to the requests of the startup.
pub open spec fn replies_in(events: Seq<Event>) -> Seq<Reply> {
    events.map_values(|event: Event| reply_in(event))
}

/// The task after the reports that it takes until the startup is settled.
pub open spec fn after_startup(task: MonitorModel, events: Seq<Event>) -> MonitorModel
    decreases events.len(),
{
    if events.len() == 0 || !(task.phase is Starting) {
        task
    } else {
        after_startup(next(task, events[0]).0, events.drop_first())
    }
}

/// Each report is one on the request of the startup that is out when it comes.
pub open spec fn fitting(place: nat, events: Seq<Event>) -> bool {
    forall|i: int|
        0 <= i < events.len() && place + i < 10 ==> sensor::answers(
            reply_in(#[trigger] events[i]),
            sensor::startup_script()[place + i],
        )
}

/// The task takes the startup as the replies settle it: a success leads to the first reading, and
/// a failure is kept, and the screen put up that is to show it unless it is up already.
pub proof fn startup_outcome_is_kept(
    task: MonitorModel,
    startup: Startup,
    events: Seq<Event>,
    verdict: Result<(), SensorError>,
)
    requires
        task.phase == Phase::Starting(startup),
        task.startup_error is None,
        startup.wf(),
        fitting(startup.place(), events),
        sensor::startup_run(startup.place(), replies_in(events)) == Some(verdict),
    ensures
        verdict is Ok ==> after_startup(task, events).startup_error is None && after_startup(
            task,
            events,
        ).phase == Phase::Reading(AngleRead::SentX),
        verdict matches Err(error) ==> after_startup(task, events).startup_error == Some(error)
            && (task.screen.mode != Some(ScreenMode::Error) ==> after_startup(task, events).phase
            == (Phase::Preparing { error })),
    decreases events.len(),
{
    let replies = replies_in(events);
    let event = events[0];
    assert(replies[0] == reply_in(event));
    let (then, _) = next(task, event);
    let rest = events.drop_first();
    if sensor::startup_verdict(startup.place(), reply_in(event)) is None {
        assert(replies.drop_first() =~= replies_in(rest));
        assert(sensor::answers(reply_in(event), sensor::startup_script()[startup.place() as int]));
        assert forall|i: int| 0 <= i < rest.len() && startup.place() + 1 + i < 10 implies
            sensor::answers(
            reply_in(#[trigger] rest[i]),
            sensor::startup_script()[startup.place() + 1 + i],
        ) by {
            assert(rest[i] == events[i + 1]);
        }
        startup_outcome_is_kept(then, Startup { place: (startup.place + 1) as u8 }, rest, verdict);
    } else {
        reveal_with_fuel(after_startup, 3);
    }
}

/// The task after a row of reports.
pub open spec fn after(task: MonitorModel, events: Seq<Event>) -> MonitorModel
    decreases events.len(),
{
    if events.len() == 0 {
        task
    } else {
        next(after(task, events.drop_last()), events.last()).0
    }
}

/// The command that the task gives on the last of a row of reports.
pub open spec fn last_order(task: MonitorModel, events: Seq<Event>) -> Order {
    next(after(task, events.drop_last()), events.last()).1
}

proof fn lemma_one_more_report(task: MonitorModel, events: Seq<Event>, n: int)
    requires
        0 <= n < events.len(),
    ensures
        after(task, events.take(n + 1)) == next(after(task, events.take(n)), events[n]).0,
        last_order(task, events.take(n + 1)) == next(after(task, events.take(n)), events[n]).1,
{
    assert(events.take(n + 1).drop_last() =~= events.take(n));
    assert(events.take(n + 1).last() == events[n]);
}

/// Each report in a row is one on the command that is out when it comes.
pub open spec fn accepts_all(task: MonitorModel, events: Seq<Event>) -> bool {
    forall|n: int|
        0 <= n < events.len() ==> #[trigger] after(task, events.take(n)).accepts(events[n])
}

/// From its start on, the task is well-formed and in step, whatever is reported: the display is
/// flushed in every pass and never needs a sign of life besides, and the sensor is given nothing
/// but its commands.
pub proof fn every_run_is_in_order(now: u64, events: Seq<Event>)
    requires
        accepts_all(initial(now), events),
    ensures
        after(initial(now), events).wf(),
        in_step(after(initial(now), events)),
        events.len() > 0 ==> !(last_order(initial(now), events) is KeepAlive),
        events.len() > 0 ==> (last_order(initial(now), events) matches Order::Transfer(word)
            ==> frame::is_command(word) && crc::intact(word)),
    decreases events.len(),
{
    let start = initial(now);
    if events.len() == 0 {
        start_is_well_formed(now);
        start_is_in_step(now);
    } else {
        let rest = events.drop_last();
        assert forall|n: int| 0 <= n < rest.len() implies #[trigger] after(
            start,
            rest.take(n),
        ).accepts(rest[n]) by {
            assert(rest.take(n) =~= events.take(n));
            assert(after(start, events.take(n)).accepts(events[n]));
        }
        every_run_is_in_order(now, rest);
        assert(events.take(events.len() - 1) =~= rest);
        let task = after(start, rest);
        assert(task.accepts(events.last()));
        reports_keep_the_task_well_formed(task, events.last());
        every_pass_is_flushed(task, events.last());
        only_intact_commands_are_sent(task, events.last());
    }
}

/// A pass on a sensor that came up, with every response accepted: the three angle commands and the
/// status command go out, one on each report, the outcome in the last three responses is drawn and
/// flushed, and the pause follows, with the timings of this pass published.
pub proof fn pass_in_full(task: MonitorModel, events: Seq<Event>, responses: Seq<u32>)
    requires
        task.phase is Sleeping,
        task.startup_error is None,
        in_step(task),
        events.len() == 7,
        responses.len() == 4,
        forall|i: int|
            0 <= i < 4 ==> frame::accepted(received(events[i + 1])) == Ok::<u32, SensorError>(
                #[trigger] responses[i],
            ),
    ensures
        last_order(task, events.take(1)) == Order::Transfer(frame::SCL3300_READ_ANG_X),
        last_order(task, events.take(2)) == Order::Transfer(frame::SCL3300_READ_ANG_Y),
        last_order(task, events.take(3)) == Order::Transfer(frame::SCL3300_READ_ANG_Z),
        last_order(task, events.take(4)) == Order::Transfer(frame::SCL3300_READ_STATUS),
        last_order(task, events.take(5)) is Draw,
        last_order(task, events.take(6)) is Flush,
        last_order(task, events) == Order::Sleep(PASS_PAUSE_MS),
        shows(
            after(task, events),
            sensor::readings_of(responses[1], responses[2], responses[3]),
        ),
        after(task, events).phase is Sleeping,
        after(task, events).startup_error is None,
        in_step(after(task, events)),
        after(task, events).refresh_count == task.refresh_count.wrapping_add(1),
        after(task, events).screen.last_flush_at == events[6].now,
        after(task, events).timings == (Timings {
            led_us: events[4].led_us,
            sensor_us: clock::elapsed_micros(events[0].now, events[4].now),
            cpu_us: clock::elapsed_micros(events[4].now, events[5].now),
            flush_us: clock::elapsed_micros(events[5].now, events[6].now),
            loop_us: clock::elapsed_micros(events[0].now, events[6].now),
        }),
{
    lemma_one_more_report(task, events, 0);
    lemma_one_more_report(task, events, 1);
    lemma_one_more_report(task, events, 2);
    lemma_one_more_report(task, events, 3);
    lemma_one_more_report(task, events, 4);
    lemma_one_more_report(task, events, 5);
    lemma_one_more_report(task, events, 6);
    assert(events.take(7) =~= events);
    let t0 = after(task, events.take(0));
    assert(t0 == task);
    let t1 = after(task, events.take(1));
    assert(t1.phase == Phase::Reading(AngleRead::SentX));
    assert(frame::accepted(received(events[1])) == Ok::<u32, SensorError>(responses[0]));
    let t2 = after(task, events.take(2));
    assert(t2.phase == Phase::Reading(AngleRead::SentY));
    assert(frame::accepted(received(events[2])) == Ok::<u32, SensorError>(responses[1]));
    let t3 = after(task, events.take(3));
    assert(t3.phase == Phase::Reading(AngleRead::SentZ { x_response: responses[1] }));
    assert(frame::accepted(received(events[3])) == Ok::<u32, SensorError>(responses[2]));
    let t4 = after(task, events.take(4));
    assert(t4.phase == Phase::Reading(
        AngleRead::SentStatus { x_response: responses[1], y_response: responses[2] },
    ));
    assert(frame::accepted(received(events[4])) == Ok::<u32, SensorError>(responses[3]));
    let outcome = sensor::readings_of(responses[1], responses[2], responses[3]);
    let t5 = after(task, events.take(5));
    outcome_reaches_the_screen(t4, events[4], t4.phase->Reading_0, outcome);
    lemma_count_changes_the_line(task.refresh_count);
    lemma_outdated_screen_is_flushed(
        t4.screen,
        outcome,
        t4.refresh_count,
        Timings { led_us: events[4].led_us, ..t4.timings },
    );
    assert(t5.phase == Phase::Drawing { needs_flush: true });
    let t6 = after(task, events.take(6));
    assert(t6.phase is Flushing);
    let t7 = after(task, events.take(7));
    assert(t7.phase is Sleeping);
}

/// A pass on a sensor that did not come up, with the screen of the errors already up: the reason is
/// drawn and flushed, and the longer pause follows, with the timings of this pass published. The
/// timing of the sensor stays as it was.
pub proof fn failed_pass_in_full(task: MonitorModel, events: Seq<Event>, error: SensorError)
    requires
        task.phase is Sleeping,
        task.startup_error == Some(error),
        task.screen.mode == Some(ScreenMode::Error),
        in_step(task),
        events.len() == 3,
    ensures
        last_order(task, events.take(1)) is Draw,
        last_order(task, events.take(2)) is Flush,
        last_order(task, events) == Order::Sleep(FAILED_PASS_PAUSE_MS),
        shows(after(task, events), Err(error)),
        after(task, events).phase is Sleeping,
        after(task, events).startup_error == Some(error),
        in_step(after(task, events)),
        after(task, events).refresh_count == task.refresh_count.wrapping_add(1),
        after(task, events).screen.last_flush_at == events[2].now,
        after(task, events).timings == (Timings {
            led_us: events[0].led_us,
            sensor_us: task.timings.sensor_us,
            cpu_us: clock::elapsed_micros(events[0].now, events[1].now),
            flush_us: clock::elapsed_micros(events[1].now, events[2].now),
            loop_us: clock::elapsed_micros(events[0].now, events[2].now),
        }),
{
    lemma_one_more_report(task, events, 0);
    lemma_one_more_report(task, events, 1);
    lemma_one_more_report(task, events, 2);
    assert(events.take(3) =~= events);
    assert(after(task, events.take(0)) == task);
    lemma_count_changes_the_line(task.refresh_count);
    lemma_outdated_screen_is_flushed(
        task.screen,
        Err(error),
        task.refresh_count.wrapping_add(1),
        Timings { led_us: events[0].led_us, ..task.timings },
    );
    assert(after(task, events.take(1)).phase == Phase::Drawing { needs_flush: true });
    assert(after(task, events.take(2)).phase is Flushing);
}

/// What a command stands for keeps all that it says: the list of things to draw, the frame that the
/// bytes spell, the milliseconds.
pub proof fn orders_keep_what_is_commanded(command: Command)
    ensures
        command matches Command::Draw(ops) ==> command@ == Order::Draw(display::drawings(ops@)),
        command is Flush <==> command@ is Flush,
        command is KeepAlive <==> command@ is KeepAlive,
        command matches Command::Transfer(bytes) ==> command@ == Order::Transfer(
            (bytes@[0] * 0x100_0000 + bytes@[1] * 0x1_0000 + bytes@[2] * 0x100 + bytes@[3]) as u32,
        ),
        command matches Command::Sleep(millis) ==> command@ == Order::Sleep(millis),
{
}

/// At its start the task has counted, timed and shown nothing, knows of no failure, and greets.
pub proof fn task_starts_afresh(now: u64)
    ensures
        initial(now).phase is DrawingSplash,
        initial(now).refresh_count == 0,
        initial(now).startup_error is None,
        initial(now).seen == now,
        initial(now).timings == (Timings {
            led_us: 0,
            sensor_us: 0,
            cpu_us: 0,
            flush_us: 0,
            loop_us: 0,
        }),
        initial(now).screen == ui::blank_screen(None, now),
{
}

/// A report that comes no sooner than the last, that brings a response exactly if the last command
/// was a transfer, and that leaves the pass short enough to be told, is accepted.
pub proof fn fitting_report_is_accepted(before: MonitorModel, event: Event, report: Event)
    requires
        before.wf(),
        before.accepts(event),
    ensures
        next(before, event).0.accepts(report) <==> {
            &&& report.completion is Transferred <==> next(before, event).1 is Transfer
            &&& event.now <= report.now
            &&& next(before, event).0.phase.in_pass() ==> (report.now - next(
                before,
                event,
            ).0.loop_started) * 15_625 <= 0xFFFF_FFFF_FFFF_FFFF
        },
{
}

/// Each command is the one that the task then waits for.
pub proof fn command_is_what_is_waited_for(task: MonitorModel, event: Event)
    requires
        task.wf(),
        task.accepts(event),
    ensures
        ({
            let (then, order) = next(task, event);
            match then.phase {
                Phase::DrawingSplash => false,
                Phase::FlushingSplash => order == Order::Flush,
                Phase::ShowingSplash => order == Order::Sleep(5000),
                Phase::Starting(startup) => match startup.pending() {
                    Request::Transfer(word) => order == Order::Transfer(word),
                    Request::Wait(millis) => order == Order::Sleep(millis),
                },
                Phase::Reading(read) => order == Order::Transfer(read.pending()),
                Phase::Preparing { .. } => order == Order::Draw(
                    ui::screen_drawings(ScreenMode::Error),
                ),
                Phase::Drawing { needs_flush } => order is Draw && (needs_flush <==> order->Draw_0
                    .len() > 0),
                Phase::Flushing => order == Order::Flush,
                Phase::KeepingAlive => order == Order::KeepAlive,
                Phase::Sleeping => order == Order::Sleep(
                    if then.startup_error is Some {
                        250
                    } else {
                        100
                    },
                ),
            }
        }),
{
    let (then, order) = next(task, event);
    let timings = Timings { led_us: event.led_us, ..task.timings };
    match task.phase {
        Phase::Reading(read) => {
            if let ReadProgress::Finished(outcome) = read.after(frame::accepted(received(event))) {
                ui::whatever_is_drawn_is_flushed(
                    task.screen,
                    outcome,
                    task.refresh_count,
                    timings,
                );
            }
        },
        Phase::Preparing { error } => {
            ui::whatever_is_drawn_is_flushed(task.screen, Err(error), task.refresh_count, timings);
        },
        Phase::Sleeping => {
            if let Some(error) = task.startup_error {
                ui::whatever_is_drawn_is_flushed(
                    task.screen,
                    Err(error),
                    task.refresh_count.wrapping_add(1),
                    timings,
                );
            }
        },
        _ => {},
    }
}

/// The greeting goes from drawing over flushing and showing to the first request of the startup.
pub proof fn greeting_leads_to_the_startup(task: MonitorModel, event: Event)
    requires
        task.wf(),
        task.accepts(event),
    ensures
        task.phase is DrawingSplash <==> next(task, event).0.phase is FlushingSplash,
        task.phase is FlushingSplash <==> next(task, event).0.phase is ShowingSplash,
        task.phase is ShowingSplash ==> (next(task, event).0.phase matches Phase::Starting(startup)
            && startup.place == 0),
{
}

/// What a report on a transfer means for a startup under way: a transfer that failed and a response
/// that does not carry its checksum end it with their error; else the status at the eighth request
/// and the identification at the tenth decide, and every other response leads to the next request.
pub proof fn startup_takes_a_response(task: MonitorModel, event: Event, bytes: [u8; 4], word: u32)
    requires
        task.wf(),
        task.accepts(event),
        task.phase is Starting,
        event.completion == Completion::Transferred(Some(bytes)),
        word == bytes@[0] * 0x100_0000 + bytes@[1] * 0x1_0000 + bytes@[2] * 0x100 + bytes@[3],
    ensures
        ({
            let place = task.phase->Starting_0.place;
            let then = next(task, event).0;
            let sealed = crc::checksum(
                (bytes@[0] * 0x1_0000 + bytes@[1] * 0x100 + bytes@[2]) as u32,
            ) == bytes@[3];
            let status = (word / 0x100_0000) % 4;
            let failure = if !sealed {
                Some(SensorError::Crc)
            } else if place == 7 && status != 1 {
                Some(SensorError::StartupStatus(status as u8))
            } else if place == 9 && (word / 0x100) % 0x100 != 0xC1 {
                Some(SensorError::WhoAmI(((word / 0x100) % 0x1_0000) as u16))
            } else {
                None
            };
            &&& then.startup_error == failure
            &&& failure is None && place == 9 ==> then.phase == Phase::Reading(AngleRead::SentX)
            &&& failure is None && place < 9 ==> (then.phase matches Phase::Starting(startup)
                && startup.place == place + 1)
            &&& failure is Some ==> then.phase.in_pass() && !(then.phase is Reading)
        }),
{
    frame::accepted_response_is_what_came(bytes@);
    sensor::reply_settles_the_startup(
        task.phase->Starting_0.place as nat,
        word,
        SensorError::Crc,
    );
}

/// A transfer of the startup that failed ends it as such, and a rest that is over leads to the next
/// request.
pub proof fn startup_takes_another_report(task: MonitorModel, event: Event)
    requires
        task.wf(),
        task.accepts(event),
        task.phase is Starting,
    ensures
        event.completion == Completion::Transferred(None) ==> next(task, event).0.startup_error
            == Some(SensorError::Spi),
        event.completion is Done ==> next(task, event).0.startup_error is None && (next(
            task,
            event,
        ).0.phase matches Phase::Starting(startup) && startup.place == task.phase->Starting_0.place
            + 1),
{
}

/// What a report means for a reading under way: a transfer that failed and a response that does not
/// carry its checksum are shown as such, and else the reading goes on with the frame that came.
pub proof fn reading_takes_a_report(task: MonitorModel, event: Event, bytes: [u8; 4], word: u32)
    requires
        task.wf(),
        task.accepts(event),
        task.phase is Reading,
        word == bytes@[0] * 0x100_0000 + bytes@[1] * 0x1_0000 + bytes@[2] * 0x100 + bytes@[3],
    ensures
        ({
            let then = next(task, event).0;
            let sealed = crc::checksum(
                (bytes@[0] * 0x1_0000 + bytes@[1] * 0x100 + bytes@[2]) as u32,
            ) == bytes@[3];
            &&& event.completion == Completion::Transferred(None) ==> then.phase is Drawing
                && shows(then, Err(SensorError::Spi))
            &&& event.completion == Completion::Transferred(Some(bytes)) && !sealed
                ==> then.phase is Drawing && shows(then, Err(SensorError::Crc))
            &&& event.completion == Completion::Transferred(Some(bytes)) && sealed ==> match (
            task.phase->Reading_0.after(Ok(word))) {
                ReadProgress::Next(read, _) => then.phase == Phase::Reading(read),
                ReadProgress::Finished(outcome) => then.phase is Drawing && shows(then, outcome),
            }
            &&& then.startup_error is None
        }),
{
    frame::accepted_response_is_what_came(bytes@);
}

/// After a pause the angles are read if the sensor came up; else the reason why it did not is shown,
/// at once if the screen for it is up, and else after that was put up.
pub proof fn pass_begins_after_a_pause(task: MonitorModel, event: Event)
    requires
        task.wf(),
        task.accepts(event),
        task.phase is Sleeping,
    ensures
        task.startup_error is None ==> next(task, event).0.phase == Phase::Reading(
            AngleRead::SentX,
        ),
        task.startup_error matches Some(error) ==> (task.screen.mode == Some(ScreenMode::Error)
            ==> next(task, event).0.phase is Drawing && shows(next(task, event).0, Err(error))),
        task.startup_error matches Some(error) ==> (task.screen.mode != Some(ScreenMode::Error)
            ==> next(task, event).0.phase == (Phase::Preparing { error })),
{
}

/// What was drawn is flushed if anything was; else the display is told that it is looked after if it
/// was not served for half a second, which is 16384 ticks; and then the pause follows.
pub proof fn drawing_leads_to_a_pause(task: MonitorModel, event: Event)
    requires
        task.wf(),
        task.accepts(event),
    ensures
        task.phase matches Phase::Drawing { needs_flush } ==> (needs_flush <==> next(
            task,
            event,
        ).0.phase is Flushing),
        task.phase matches Phase::Drawing { needs_flush } ==> (!needs_flush && event.now
            - task.screen.last_flush_at >= 16384 <==> next(task, event).0.phase is KeepingAlive),
        task.phase is Drawing ==> next(task, event).0.phase is Flushing || next(
            task,
            event,
        ).0.phase is KeepingAlive || next(task, event).0.phase is Sleeping,
        task.phase is Flushing || task.phase is KeepingAlive ==> next(task, event).0.phase
            is Sleeping,
{
}

/// The outcome that a task shows when it goes on to draw: that of the reading that a response ends,
/// or why the sensor did not come up.
pub open spec fn outcome_to_show(task: MonitorModel, event: Event) -> Result<
    AngleReadings,
    SensorError,
> {
    match task.phase {
        Phase::Reading(read) => match read.after(frame::accepted(received(event))) {
            ReadProgress::Finished(outcome) => outcome,
            ReadProgress::Next(_, _) => Err(SensorError::Spi),
        },
        _ => Err(next(task, event).0.startup_error->0),
    }
}

/// A task that goes on to draw commands what it takes to get from the screen that is up to the one
/// that shows the outcome, with the count and the timings that it then has.
pub proof fn drawing_takes_the_screen_to_the_outcome(task: MonitorModel, event: Event)
    requires
        task.wf(),
        task.accepts(event),
        next(task, event).0.phase is Drawing,
    ensures
        ({
            let (then, order) = next(task, event);
            let outcome = outcome_to_show(task, event);
            &&& order == Order::Draw(
                ui::render_drawings(task.screen, outcome, then.refresh_count, then.timings),
            )
            &&& then.screen == ui::rendered_screen(
                task.screen,
                outcome,
                then.refresh_count,
                then.timings,
            )
            &&& then.timings == (Timings { led_us: event.led_us, ..task.timings })
        }),
{
}

/// The lines of the screen change with a drawing alone, and the time of the last service with the
/// end of a flush or of a sign of life alone.
pub proof fn screen_changes_with_a_drawing_alone(task: MonitorModel, event: Event)
    requires
        task.wf(),
        task.accepts(event),
    ensures
        next(task, event).0.screen.last_flush_at == (if task.phase is Flushing || task.phase
            is KeepingAlive {
            event.now
        } else {
            task.screen.last_flush_at
        }),
        !(next(task, event).1 is Draw) ==> next(task, event).0.screen == (Screen {
            last_flush_at: next(task, event).0.screen.last_flush_at,
            ..task.screen
        }),
        next(task, event).0.phase is Preparing ==> next(task, event).0.screen == ui::blank_screen(
            Some(ScreenMode::Error),
            task.screen.last_flush_at,
        ),
{
}

/// The times that a pass notes: its own start and that of the reading when it begins, that of the
/// drawing when the outcome is known, and that of a flush when it is commanded.
pub proof fn times_are_noted_when_they_begin(task: MonitorModel, event: Event)
    requires
        task.wf(),
        task.accepts(event),
    ensures
        ({
            let then = next(task, event).0;
            &&& then.seen == event.now
            &&& then.loop_started == (if !task.phase.in_pass() && then.phase.in_pass() {
                event.now
            } else {
                task.loop_started
            })
            &&& then.sensor_started == (if !(task.phase is Reading) && then.phase is Reading {
                event.now
            } else {
                task.sensor_started
            })
            &&& then.cpu_started == (if then.phase is Drawing {
                event.now
            } else {
                task.cpu_started
            })
            &&& then.flush_started == (if then.phase is Flushing {
                event.now
            } else {
                task.flush_started
            })
        }),
{
}

/// The timings that a pass takes: the reading up to the response that ends it, the drawing up to its
/// report, the flush up to its report, which is nothing where none is needed, and the whole pass up
/// to its pause. They are published together when the pass ends, that of the reading only if there
/// was one.
pub proof fn timings_are_taken_and_published(task: MonitorModel, event: Event)
    requires
        task.wf(),
        task.accepts(event),
    ensures
        ({
            let then = next(task, event).0;
            &&& then.sensor_us == (if task.phase is Reading && then.phase is Drawing {
                clock::elapsed_micros(task.sensor_started, event.now)
            } else {
                task.sensor_us
            })
            &&& then.cpu_us == (if task.phase is Drawing {
                clock::elapsed_micros(task.cpu_started, event.now)
            } else {
                task.cpu_us
            })
            &&& then.phase is Sleeping ==> then.timings == (Timings {
                led_us: task.timings.led_us,
                sensor_us: if task.startup_error is Some {
                    task.timings.sensor_us
                } else {
                    then.sensor_us
                },
                cpu_us: then.cpu_us,
                flush_us: if task.phase is Flushing {
                    clock::elapsed_micros(task.flush_started, event.now)
                } else {
                    0
                },
                loop_us: clock::elapsed_micros(task.loop_started, event.now),
            })
            &&& !(then.phase is Sleeping) ==> then.timings == (Timings {
                led_us: if then.phase is Drawing {
                    event.led_us
                } else {
                    task.timings.led_us
                },
                ..task.timings
            })
        }),
{
}

/// From the bus to the digits: after a pass in which the responses with the operation codes of the
/// three axes and the status 1 were accepted, each axis of the screen, read back, says the angle for
/// the number whose two's complement pattern is the data of its own response.
pub proof fn angles_get_from_the_bus_to_the_screen(
    task: MonitorModel,
    events: Seq<Event>,
    responses: Seq<u32>,
)
    requires
        task.phase is Sleeping,
        task.startup_error is None,
        in_step(task),
        events.len() == 7,
        responses.len() == 4,
        forall|i: int|
            0 <= i < 4 ==> frame::accepted(received(events[i + 1])) == Ok::<u32, SensorError>(
                #[trigger] responses[i],
            ),
        responses[1] / 0x100_0000 == 0x25,
        responses[2] / 0x100_0000 == 0x29,
        responses[3] / 0x100_0000 == 0x2D,
    ensures
        shows_data(after(task, events).screen.x, 'X', responses[1]),
        shows_data(after(task, events).screen.y, 'Y', responses[2]),
        shows_data(after(task, events).screen.z, 'Z', responses[3]),
{
    pass_in_full(task, events, responses);
    sensor::readings_are_the_data(responses[1], responses[2], responses[3]);
    let readings = sensor::readings_of(responses[1], responses[2], responses[3])->Ok_0;
    text::axis_line_reads_back('X', readings.x_raw);
    text::axis_line_reads_back('Y', readings.y_raw);
    text::axis_line_reads_back('Z', readings.z_raw);
    let screen = after(task, events).screen;
    assert(ui::says(screen.x, readings.x_raw as int));
    assert(ui::says(screen.y, readings.y_raw as int));
    assert(ui::says(screen.z, readings.z_raw as int));
}

/// The line of the axis shows the angle for the number whose pattern is the data of the response.
pub open spec fn shows_data(line: Seq<char>, axis: char, response: u32) -> bool {
    &&& text::is_angle_line(line, axis)
    &&& exists|raw: int|
        -0x8000 <= raw < 0x8000 && (raw - response as int / 0x100) % 0x1_0000 == 0
            && #[trigger] ui::says(line, raw)
}

/// Only a startup under way can bring up a failure, and one that does goes on to the screen that
/// shows it.
pub proof fn failure_comes_of_the_startup_alone(task: MonitorModel, event: Event)
    requires
        task.wf(),
        task.accepts(event),
    ensures
        !(task.phase is Starting) ==> next(task, event).0.startup_error == task.startup_error,
        task.phase is Starting ==> (next(task, event).0.startup_error matches Some(error)
            ==> if task.screen.mode == Some(ScreenMode::Error) {
            next(task, event).0.phase is Drawing && shows(next(task, event).0, Err(error))
        } else {
            next(task, event).0.phase == (Phase::Preparing { error })
        }),
        task.phase matches Phase::Preparing { error } ==> next(task, event).0.phase is Drawing
            && shows(next(task, event).0, Err(error)),
{
}

} // verus!
