use hyprland_preview_share_picker::image::Transforms;
use hyprland_preview_share_picker::output::{Geometry, Output, OutputEvent, OutputMode, OutputRecords, Subpixel};
use hyprland_preview_share_picker::util::MonitorTransformExt;

fn geometry(make: &str, transform: Transforms) -> Geometry {
    Geometry {
        x: 0,
        y: 0,
        physical_width: 600,
        physical_height: 340,
        subpixel: Subpixel::HorizontalRgb,
        make: make.to_string(),
        model: "M".to_string(),
        transform,
    }
}

#[test]
fn enumeration_completes_each_bound_output() {
    let mut records = OutputRecords::new();
    records.bind_output();
    records.bind_output();
    records.bind_output();
    for i in 0..3 {
        records.handle_event(OutputEvent::Name(format!("DP-{i}")));
        records.handle_event(OutputEvent::Scale(i + 1));
        if i == 1 {
            records.handle_event(OutputEvent::Description("second".to_string()));
            records.handle_event(OutputEvent::Geometry(geometry("Acme", Transforms::Normal)));
            records.handle_event(OutputEvent::Mode(OutputMode { mode: 3, width: 1920, height: 1080, refresh: 60000 }));
        }
        records.handle_event(OutputEvent::Done);
    }
    assert_eq!(records.completed(), 3);
    let names: Vec<_> = records.outputs.iter().map(|o| o.name.clone().unwrap()).collect();
    assert_eq!(names, vec!["DP-0", "DP-1", "DP-2"]);
    assert_eq!(records.outputs[2].scale, Some(3));
    assert_eq!(records.outputs[1].description.as_deref(), Some("second"));
    assert_eq!(records.outputs[1].geometry.as_ref().unwrap().make, "Acme");
    assert_eq!(records.outputs[1].mode.unwrap().width, 1920);
    assert!(records.outputs[0].description.is_none());
    assert!(records.outputs[2].geometry.is_none());
}

#[test]
fn events_without_pending_output_are_dropped() {
    let mut records = OutputRecords::new();
    records.handle_event(OutputEvent::Name("X".to_string()));
    records.handle_event(OutputEvent::Done);
    assert_eq!(records.completed(), 0);
    assert!(records.outputs.is_empty());
}

#[test]
fn later_event_overwrites_field() {
    let mut records = OutputRecords::new();
    records.bind_output();
    records.handle_event(OutputEvent::Scale(1));
    records.handle_event(OutputEvent::Scale(2));
    records.handle_event(OutputEvent::Done);
    assert_eq!(records.outputs[0].scale, Some(2));
}

#[test]
fn rotated_output_swaps_mode_size() {
    let mut output = Output::empty();
    output.geometry = Some(geometry("A", Transforms::Flipped270));
    output.mode = Some(OutputMode { mode: 1, width: 2560, height: 1440, refresh: 144000 });
    output.apply_transform();
    let mode = output.mode.unwrap();
    assert_eq!((mode.width, mode.height), (1440, 2560));
}

#[test]
fn upright_output_keeps_mode_size() {
    let mut output = Output::empty();
    output.geometry = Some(geometry("A", Transforms::Normal180));
    output.mode = Some(OutputMode { mode: 1, width: 2560, height: 1440, refresh: 144000 });
    output.apply_transform();
    let mode = output.mode.unwrap();
    assert_eq!((mode.width, mode.height), (2560, 1440));
    assert!(Transforms::Normal90.swaps_dimensions());
    assert!(!Transforms::Flipped.swaps_dimensions());
}
