use gpu_telemetry::dashboard::{
    GPUInfo, InputEvent, Key, NvidiaApp, Reading, StartupError, TickError,
};
use gpu_telemetry::layout::Rect;

fn app_with(names: &[&str]) -> NvidiaApp {
    let names: Vec<String> = names.iter().map(|n| n.to_string()).collect();
    NvidiaApp::new(&names).unwrap()
}

#[test]
fn no_devices_is_a_startup_error() {
    let names: Vec<String> = Vec::new();
    let started = NvidiaApp::new(&names);
    assert!(matches!(started, Err(StartupError::NoDevices)));
}

#[test]
fn devices_keep_discovery_order_and_start_at_zero() {
    let app = app_with(&["RTX 4090", "RTX 3060"]);
    assert_eq!(app.device_count(), 2);
    assert!(!app.should_exit());
    assert_eq!(app.gpu(0).device_name(), "RTX 4090");
    assert_eq!(app.gpu(1).device_name(), "RTX 3060");
    for i in 0..2 {
        assert_eq!(app.gpu(i).core_clock().samples(), &vec![0u32; 30]);
        assert_eq!(app.gpu(i).temperature().samples(), &vec![0u32; 30]);
    }
}

#[test]
fn one_device_thirty_five_ticks() {
    let mut app = app_with(&["RTX 4090"]);
    for clock in 1..=35u32 {
        let recorded = app.update_state(&vec![Reading { clock, temperature: 40 + clock }]);
        assert_eq!(recorded, Ok(()));
    }
    let expected: Vec<u32> = (6..=35).collect();
    let gpu = app.gpu(0);
    assert_eq!(gpu.core_clock().samples(), &expected);
    assert_eq!(gpu.core_clock().current(), 35);
    assert_eq!(gpu.core_clock().axis_bounds().1 as f64, 35.0);
    let expected_temperature: Vec<u32> = (46..=75).collect();
    assert_eq!(gpu.temperature().samples(), &expected_temperature);

    let frame = app.draw(Rect { x: 0, y: 0, width: 80, height: 24 });
    assert_eq!(frame.len(), 1);
    assert_eq!(frame[0].clock.y_bounds, (0, 35));
    assert_eq!(frame[0].clock.points[0], (-29, 6));
    assert_eq!(frame[0].clock.points[29], (0, 35));
    assert_eq!(frame[0].temperature.y_bounds, (0, 75));
}

#[test]
fn two_idle_devices_draw_flat_lines_under_a_floor_of_one() {
    let app = app_with(&["A", "B"]);
    let frame = app.draw(Rect { x: 0, y: 0, width: 100, height: 40 });
    assert_eq!(frame.len(), 2);
    for charts in &frame {
        for plan in [&charts.clock, &charts.temperature] {
            assert_eq!(plan.y_bounds.0 as f64, 0.0);
            assert_eq!(plan.y_bounds.1 as f64, 1.0);
            assert_eq!(plan.x_bounds, (-30, 0));
            assert_eq!(plan.points.len(), 30);
            for (i, point) in plan.points.iter().enumerate() {
                assert_eq!(*point, (i as i32 - 29, 0));
            }
        }
    }
}

#[test]
fn draw_places_each_device_in_its_row() {
    let mut app = app_with(&["A", "B", "C"]);
    let readings = vec![
        Reading { clock: 1200, temperature: 55 },
        Reading { clock: 0, temperature: 0 },
        Reading { clock: 300, temperature: 71 },
    ];
    assert_eq!(app.update_state(&readings), Ok(()));
    let frame = app.draw(Rect { x: 1, y: 2, width: 81, height: 25 });
    assert_eq!(frame.len(), 3);
    assert_eq!(frame[0].clock.area, Rect { x: 1, y: 2, width: 41, height: 9 });
    assert_eq!(frame[0].temperature.area, Rect { x: 42, y: 2, width: 40, height: 9 });
    assert_eq!(frame[1].clock.area, Rect { x: 1, y: 11, width: 41, height: 8 });
    assert_eq!(frame[1].temperature.area, Rect { x: 42, y: 11, width: 40, height: 8 });
    assert_eq!(frame[2].clock.area, Rect { x: 1, y: 19, width: 41, height: 8 });
    assert_eq!(frame[2].temperature.area, Rect { x: 42, y: 19, width: 40, height: 8 });
    assert_eq!(frame[0].clock.y_bounds, (0, 1200));
    assert_eq!(frame[0].temperature.y_bounds, (0, 55));
    assert_eq!(frame[1].clock.y_bounds, (0, 1));
    assert_eq!(frame[1].temperature.y_bounds, (0, 1));
    assert_eq!(frame[2].clock.points[29], (0, 300));
    assert_eq!(frame[2].temperature.points[29], (0, 71));
}

#[test]
fn chart_titles_carry_the_device_name() {
    let app = app_with(&["RTX 4090", ""]);
    let frame = app.draw(Rect { x: 0, y: 0, width: 80, height: 24 });
    assert_eq!(frame[0].clock.title, "NVIDIA GPU Clock - RTX 4090");
    assert_eq!(frame[0].temperature.title, "NVIDIA GPU Temperature - RTX 4090");
    assert_eq!(frame[1].clock.title, "NVIDIA GPU Clock - ");
    assert_eq!(frame[1].temperature.title, "NVIDIA GPU Temperature - ");
}

#[test]
fn render_device_uses_the_given_areas() {
    let mut gpu = GPUInfo::new("Tesla".to_string());
    gpu.record(Reading { clock: 7, temperature: 0 });
    let left = Rect { x: 0, y: 0, width: 10, height: 5 };
    let right = Rect { x: 10, y: 0, width: 9, height: 5 };
    let charts = gpu.render_device(left, right);
    assert_eq!(charts.clock.area, left);
    assert_eq!(charts.temperature.area, right);
    assert_eq!(charts.clock.title, "NVIDIA GPU Clock - Tesla");
    assert_eq!(charts.clock.y_bounds, (0, 7));
    assert_eq!(charts.temperature.y_bounds, (0, 1));
    assert_eq!(charts.clock.points[29], (0, 7));
    assert_eq!(charts.clock.points[28], (-1, 0));
}

#[test]
fn update_state_needs_one_reading_per_device() {
    let mut app = app_with(&["A", "B"]);
    let reading = Reading { clock: 9, temperature: 9 };
    assert_eq!(app.update_state(&vec![reading]), Err(TickError::ReadingCount));
    assert_eq!(app.update_state(&vec![]), Err(TickError::ReadingCount));
    assert_eq!(
        app.update_state(&vec![reading, reading, reading]),
        Err(TickError::ReadingCount)
    );
    for i in 0..2 {
        assert_eq!(app.gpu(i).core_clock().samples(), &vec![0u32; 30]);
        assert_eq!(app.gpu(i).temperature().samples(), &vec![0u32; 30]);
    }
    assert_eq!(app.update_state(&vec![reading, Reading { clock: 1, temperature: 2 }]), Ok(()));
    assert_eq!(app.gpu(0).core_clock().current(), 9);
    assert_eq!(app.gpu(1).core_clock().current(), 1);
    assert_eq!(app.gpu(1).temperature().current(), 2);
}

#[test]
fn q_asks_to_stop() {
    let mut app = app_with(&["A"]);
    app.handle_key_event(Key::Char('q'));
    assert!(app.should_exit());
    let mut app = app_with(&["A"]);
    app.handle_key_event(Key::Char('Q'));
    assert!(app.should_exit());
}

#[test]
fn other_keys_change_nothing() {
    let mut app = app_with(&["A"]);
    app.handle_key_event(Key::Char('x'));
    app.handle_key_event(Key::Char('w'));
    app.handle_key_event(Key::Other);
    assert!(!app.should_exit());
    assert_eq!(app.device_count(), 1);
}

#[test]
fn only_key_presses_are_looked_at() {
    let mut app = app_with(&["A"]);
    app.handle_events(InputEvent::Other);
    assert!(!app.should_exit());
    app.handle_events(InputEvent::KeyPress(Key::Char('a')));
    assert!(!app.should_exit());
    app.handle_events(InputEvent::KeyPress(Key::Char('q')));
    assert!(app.should_exit());
    app.handle_events(InputEvent::KeyPress(Key::Other));
    assert!(app.should_exit());
}

#[test]
fn exit_is_sticky_and_keeps_the_devices() {
    let mut app = app_with(&["A", "B"]);
    app.exit();
    assert!(app.should_exit());
    app.exit();
    assert!(app.should_exit());
    assert_eq!(app.device_count(), 2);
    assert_eq!(app.gpu(1).device_name(), "B");
}
