//! The dashboard's state: every discovered device with its two windows, and
//! what is drawn for them on each tick.

use crate::layout::{chart_areas, chart_areas_of, left_half, right_half, row_of, Rect};
use crate::window::{axis_upper, points_of, shifted, x_axis_bounds, TelemetryWindow, CAPACITY};
use vstd::prelude::*;

verus! {

/// Why a dashboard could not be started.
#[derive(Clone, Copy, Debug, PartialEq, Eq, Structural)]
pub enum StartupError {
    /// No device was discovered.
    NoDevices,
}

/// Why a tick's readings were not recorded.
#[derive(Clone, Copy, Debug, PartialEq, Eq, Structural)]
pub enum TickError {
    /// The readings do not pair up with the devices one to one.
    ReadingCount,
}

/// One tick's readings of one device.
#[derive(Clone, Copy, Debug, PartialEq, Eq, Structural)]
pub struct Reading {
    pub clock: u32,
    pub temperature: u32,
}

/// A key of the keyboard, as far as the dashboard tells keys apart.
#[derive(Clone, Copy, Debug, PartialEq, Eq, Structural)]
pub enum Key {
    Char(char),
    Other,
}

/// What the terminal reported since the last tick.
#[derive(Clone, Copy, Debug, PartialEq, Eq, Structural)]
pub enum InputEvent {
    /// A key went down.
    KeyPress(Key),
    /// Anything else: a key released or repeated, the mouse, a resize.
    Other,
}

/// Whether `key` asks the dashboard to stop.
pub open spec fn is_quit_key(key: Key) -> bool {
    key == Key::Char('q') || key == Key::Char('Q')
}

/// Whether `event` asks the dashboard to stop.
pub open spec fn is_quit_event(event: InputEvent) -> bool {
    match event {
        InputEvent::KeyPress(key) => is_quit_key(key),
        InputEvent::Other => false,
    }
}

/// Title of a device's clock chart.
pub open spec fn clock_title_of(name: Seq<char>) -> Seq<char> {
    "NVIDIA GPU Clock - "@ + name
}

/// Title of a device's temperature chart.
pub open spec fn temperature_title_of(name: Seq<char>) -> Seq<char> {
    "NVIDIA GPU Temperature - "@ + name
}

/// `String::push_str` of the standard library: afterwards `text` reads as
/// before, followed by `tail`.
#[verifier::external_body]
fn push_text(text: &mut String, tail: &str)
    ensures
        final(text)@ == old(text)@ + tail@,
{
    text.push_str(tail)
}

/// `prefix` followed by `name`.
fn titled(prefix: &str, name: &str) -> (title: String)
    ensures
        title@ == prefix@ + name@,
{
    let mut title = String::new();
    push_text(&mut title, prefix);
    push_text(&mut title, name);
    assert(title@ =~= prefix@ + name@);
    title
}

/// Everything the rendering surface needs to draw one line chart.
#[derive(Debug)]
pub struct ChartPlan {
    /// Text in the chart's border.
    pub title: String,
    /// Where the chart goes.
    pub area: Rect,
    /// The line, as `(time, value)` pairs, oldest first.
    pub points: Vec<(i32, u32)>,
    /// Ends of the time axis.
    pub x_bounds: (i32, i32),
    /// Ends of the value axis.
    pub y_bounds: (u32, u32),
}

impl ChartPlan {
    /// The plan draws `samples` under `title` in `area`.
    pub open spec fn shows(&self, title: Seq<char>, area: Rect, samples: Seq<u32>) -> bool {
        &&& self.title@ == title
        &&& self.area == area
        &&& self.points@ == points_of(samples)
        &&& self.x_bounds.0 == -(CAPACITY as int)
        &&& self.x_bounds.1 == 0
        &&& self.y_bounds.0 == 0
        &&& self.y_bounds.1 == axis_upper(samples[CAPACITY - 1])
    }
}

/// The two charts of one device.
#[derive(Debug)]
pub struct DeviceCharts {
    pub clock: ChartPlan,
    pub temperature: ChartPlan,
}

/// What a device looks like to a contract.
pub struct DeviceView {
    pub name: Seq<char>,
    pub core_clock: Seq<u32>,
    pub temperature: Seq<u32>,
}

/// One device: its label and the history of its two metrics.
#[derive(Debug)]
pub struct GPUInfo {
    core_clock: TelemetryWindow,
    temperature: TelemetryWindow,
    device_name: String,
}

impl View for GPUInfo {
    type V = DeviceView;

    closed spec fn view(&self) -> DeviceView {
        DeviceView {
            name: self.device_name@,
            core_clock: self.core_clock@,
            temperature: self.temperature@,
        }
    }
}

impl GPUInfo {
    /// Both windows hold exactly `CAPACITY` samples.
    #[verifier::type_invariant]
    spec fn holds_capacity(&self) -> bool {
        self.core_clock@.len() == CAPACITY && self.temperature@.len() == CAPACITY
    }

    /// A newly discovered device: both histories are all zero.
    pub fn new(device_name: String) -> (gpu: GPUInfo)
        ensures
            gpu@.name == device_name@,
            gpu@.core_clock == Seq::new(CAPACITY as nat, |i: int| 0u32),
            gpu@.temperature == Seq::new(CAPACITY as nat, |i: int| 0u32),
    {
        GPUInfo { core_clock: TelemetryWindow::new(), temperature: TelemetryWindow::new(), device_name }
    }

    /// The device's display label.
    pub fn device_name(&self) -> (name: &str)
        ensures
            name@ == self@.name,
    {
        self.device_name.as_str()
    }

    /// History of the core clock.
    pub fn core_clock(&self) -> (window: &TelemetryWindow)
        ensures
            window@ == self@.core_clock,
    {
        &self.core_clock
    }

    /// History of the temperature.
    pub fn temperature(&self) -> (window: &TelemetryWindow)
        ensures
            window@ == self@.temperature,
    {
        &self.temperature
    }

    /// Appends one tick's readings to the two histories.
    pub fn record(&mut self, reading: Reading)
        ensures
            final(self)@.name == old(self)@.name,
            final(self)@.core_clock == shifted(old(self)@.core_clock, reading.clock),
            final(self)@.temperature == shifted(old(self)@.temperature, reading.temperature),
        no_unwind
    {
        proof {
            use_type_invariant(&*self);
        }
        self.core_clock.push(reading.clock);
        self.temperature.push(reading.temperature);
    }

    /// The device's two charts, the clock in `clock_rect` and the
    /// temperature in `temp_rect`, each titled with the device's name.
    pub fn render_device(&self, clock_rect: Rect, temp_rect: Rect) -> (charts: DeviceCharts)
        ensures
            charts.clock.shows(clock_title_of(self@.name), clock_rect, self@.core_clock),
            charts.temperature.shows(
                temperature_title_of(self@.name),
                temp_rect,
                self@.temperature,
            ),
    {
        let clock = ChartPlan {
            title: titled("NVIDIA GPU Clock - ", self.device_name.as_str()),
            area: clock_rect,
            points: self.core_clock.as_points(),
            x_bounds: x_axis_bounds(),
            y_bounds: self.core_clock.axis_bounds(),
        };
        let temperature = ChartPlan {
            title: titled("NVIDIA GPU Temperature - ", self.device_name.as_str()),
            area: temp_rect,
            points: self.temperature.as_points(),
            x_bounds: x_axis_bounds(),
            y_bounds: self.temperature.axis_bounds(),
        };
        DeviceCharts { clock, temperature }
    }
}

/// What the dashboard looks like to a contract.
pub struct AppView {
    pub devices: Seq<DeviceView>,
    pub exit: bool,
}

/// The dashboard: the discovered devices in discovery order, and whether a
/// stop was asked for.
#[derive(Debug)]
pub struct NvidiaApp {
    gpus: Vec<GPUInfo>,
    exit: bool,
}

impl View for NvidiaApp {
    type V = AppView;

    closed spec fn view(&self) -> AppView {
        AppView { devices: Seq::new(self.gpus@.len(), |i: int| self.gpus@[i]@), exit: self.exit }
    }
}

/// The devices after each has recorded its reading of one tick.
pub open spec fn after_tick(devices: Seq<DeviceView>, readings: Seq<Reading>) -> Seq<DeviceView> {
    Seq::new(
        devices.len(),
        |i: int|
            DeviceView {
                name: devices[i].name,
                core_clock: shifted(devices[i].core_clock, readings[i].clock),
                temperature: shifted(devices[i].temperature, readings[i].temperature),
            },
    )
}

/// The devices as first discovered under `names`: every history all zero.
pub open spec fn discovered(names: Seq<String>) -> Seq<DeviceView> {
    Seq::new(
        names.len(),
        |i: int|
            DeviceView {
                name: names[i]@,
                core_clock: Seq::new(CAPACITY as nat, |k: int| 0u32),
                temperature: Seq::new(CAPACITY as nat, |k: int| 0u32),
            },
    )
}

impl NvidiaApp {
    /// A dashboard always has at least one device.
    #[verifier::type_invariant]
    spec fn has_devices(&self) -> bool {
        self.gpus@.len() >= 1
    }

    /// Starts a dashboard for the devices discovered under `names`, in that
    /// order. Without a device there is no dashboard.
    pub fn new(names: &Vec<String>) -> (started: Result<NvidiaApp, StartupError>)
        ensures
            names@.len() == 0 <==> started == Err::<NvidiaApp, StartupError>(
                StartupError::NoDevices,
            ),
            names@.len() >= 1 <==> started is Ok,
            started is Ok ==> {
                &&& !started->Ok_0@.exit
                &&& started->Ok_0@.devices == discovered(names@)
            },
    {
        if names.len() == 0 {
            return Err(StartupError::NoDevices);
        }
        let mut gpus: Vec<GPUInfo> = Vec::new();
        let mut i: usize = 0;
        while i < names.len()
            invariant
                i <= names@.len(),
                gpus@.len() == i,
                forall|k: int| 0 <= k < i ==> (#[trigger] gpus@[k])@ == discovered(names@)[k],
            decreases names@.len() - i,
        {
            let gpu = GPUInfo::new(names[i].clone());
            gpus.push(gpu);
            i += 1;
        }
        let app = NvidiaApp { gpus, exit: false };
        assert(app@.devices =~= discovered(names@));
        Ok(app)
    }

    /// Number of devices on the dashboard.
    pub fn device_count(&self) -> (count: usize)
        ensures
            count == self@.devices.len(),
            count >= 1,
    {
        proof {
            use_type_invariant(self);
        }
        self.gpus.len()
    }

    /// The device at position `index` in discovery order.
    pub fn gpu(&self, index: usize) -> (gpu: &GPUInfo)
        requires
            index < self@.devices.len(),
        ensures
            gpu@ == self@.devices[index as int],
    {
        &self.gpus[index]
    }

    /// Whether a stop was asked for.
    pub fn should_exit(&self) -> (stop: bool)
        ensures
            stop == self@.exit,
    {
        self.exit
    }

    /// Records one tick: device `i` takes `readings[i]` into its two
    /// histories. Nothing changes unless there is one reading per device.
    pub fn update_state(&mut self, readings: &Vec<Reading>) -> (recorded: Result<(), TickError>)
        ensures
            final(self)@.devices.len() == old(self)@.devices.len(),
            final(self)@.exit == old(self)@.exit,
            readings@.len() == old(self)@.devices.len() <==> recorded is Ok,
            recorded is Ok ==> final(self)@.devices == after_tick(old(self)@.devices, readings@),
            recorded is Err ==> recorded == Err::<(), TickError>(TickError::ReadingCount)
                && final(self)@ == old(self)@,
    {
        proof {
            use_type_invariant(&*self);
        }
        if readings.len() != self.gpus.len() {
            return Err(TickError::ReadingCount);
        }
        let mut i: usize = 0;
        while i < self.gpus.len()
            invariant
                readings@.len() == old(self).gpus@.len(),
                self.gpus@.len() == old(self).gpus@.len(),
                self.exit == old(self).exit,
                i <= self.gpus@.len(),
                self.gpus@.len() >= 1,
                forall|k: int|
                    0 <= k < i ==> (#[trigger] self.gpus@[k])@ == after_tick(
                        old(self)@.devices,
                        readings@,
                    )[k],
                forall|k: int|
                    i <= k < self.gpus@.len() ==> (#[trigger] self.gpus@[k])@ == old(
                        self,
                    ).gpus@[k]@,
            decreases self.gpus@.len() - i,
        {
            self.gpus[i].record(readings[i]);
            i += 1;
        }
        assert(self@.devices =~= after_tick(old(self)@.devices, readings@));
        Ok(())
    }

    /// The charts of one frame on `canvas`: one row per device, the clock
    /// chart in its left half and the temperature chart in its right half.
    pub fn draw(&self, canvas: Rect) -> (frame: Vec<DeviceCharts>)
        requires
            canvas.wf(),
        ensures
            frame@.len() == self@.devices.len(),
            forall|i: int|
                0 <= i < frame@.len() ==> {
                    &&& (#[trigger] frame@[i]).clock.shows(
                        clock_title_of(self@.devices[i].name),
                        left_half(row_of(canvas, self@.devices.len() as int, i)),
                        self@.devices[i].core_clock,
                    )
                    &&& frame@[i].temperature.shows(
                        temperature_title_of(self@.devices[i].name),
                        right_half(row_of(canvas, self@.devices.len() as int, i)),
                        self@.devices[i].temperature,
                    )
                },
    {
        proof {
            use_type_invariant(self);
        }
        let count = self.gpus.len();
        let areas = chart_areas(canvas, count);
        let mut frame: Vec<DeviceCharts> = Vec::new();
        let mut i: usize = 0;
        while i < count
            invariant
                count == self.gpus@.len(),
                count == self@.devices.len(),
                i <= count,
                areas@ == chart_areas_of(canvas, count as int),
                areas@.len() == count,
                frame@.len() == i,
                forall|k: int|
                    0 <= k < i ==> {
                        &&& (#[trigger] frame@[k]).clock.shows(
                            clock_title_of(self@.devices[k].name),
                            left_half(row_of(canvas, count as int, k)),
                            self@.devices[k].core_clock,
                        )
                        &&& frame@[k].temperature.shows(
                            temperature_title_of(self@.devices[k].name),
                            right_half(row_of(canvas, count as int, k)),
                            self@.devices[k].temperature,
                        )
                    },
            decreases count - i,
        {
            assert(self.gpus@[i as int]@ == self@.devices[i as int]);
            let halves = areas[i];
            let charts = self.gpus[i].render_device(halves.0, halves.1);
            frame.push(charts);
            i += 1;
        }
        frame
    }

    /// Takes in what the terminal reported: a press of `q` or `Q` asks the
    /// dashboard to stop, anything else changes nothing.
    pub fn handle_events(&mut self, event: InputEvent)
        ensures
            final(self)@.devices == old(self)@.devices,
            final(self)@.exit == (old(self)@.exit || is_quit_event(event)),
    {
        match event {
            InputEvent::KeyPress(key) => {
                self.handle_key_event(key);
            },
            InputEvent::Other => {},
        }
    }

    /// Takes in a key press: `q` or `Q` asks the dashboard to stop.
    pub fn handle_key_event(&mut self, key: Key)
        ensures
            final(self)@.devices == old(self)@.devices,
            final(self)@.exit == (old(self)@.exit || is_quit_key(key)),
    {
        match key {
            Key::Char(c) => {
                if c == 'q' || c == 'Q' {
                    self.exit();
                }
            },
            Key::Other => {},
        }
    }

    /// Asks the dashboard to stop after the current tick.
    pub fn exit(&mut self)
        ensures
            final(self)@.devices == old(self)@.devices,
            final(self)@.exit,
    {
        proof {
            use_type_invariant(&*self);
        }
        self.exit = true;
    }
}

} // verus!
