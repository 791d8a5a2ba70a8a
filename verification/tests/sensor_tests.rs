use tt_rc_pro::config::SensorNeeds;
use tt_rc_pro::sensor::{
    fps_fields, gpu_metrics_activity, hwmon_probe, needs_any_temp, temp_accepted, GpuSensorState, TempSensor,
    FRAMETIME_SLOTS, GPU_EDGE_HIGH_MILLIDEG,
};

#[test]
fn frametime_history_default() {
    let s: GpuSensorState<f32> = GpuSensorState::default();
    assert!(s.frametime_history.is_empty());
    assert_eq!(s.fps_file_path, "/tmp/tt-rc-pro-fps");
}

#[test]
fn frametime_history_keeps_latest_slots() {
    let mut s: GpuSensorState<f32> = GpuSensorState::default();
    for i in 0..(FRAMETIME_SLOTS + 50) {
        s.push_frametime(i as f32);
        assert!(s.frametime_history.len() <= FRAMETIME_SLOTS);
    }
    assert_eq!(s.frametime_history.len(), FRAMETIME_SLOTS);
    assert_eq!(s.frametime_history[0], 50.0);
    assert_eq!(*s.frametime_history.last().unwrap(), (FRAMETIME_SLOTS + 49) as f32);
}

#[test]
fn missing_frametime_clears_history() {
    let mut s: GpuSensorState<f32> = GpuSensorState::default();
    s.record_frametime(Some(6.9));
    s.record_frametime(Some(7.1));
    assert_eq!(s.frametime_history, vec![6.9, 7.1]);
    s.record_frametime(None);
    assert!(s.frametime_history.is_empty());
}

#[test]
fn gpu_metrics_revisions() {
    let mut v1 = vec![0u8; 12];
    v1[2] = 1;
    v1[10] = 0x2c;
    v1[11] = 0x01;
    assert_eq!(gpu_metrics_activity(&v1), Some(300));
    let mut v2 = vec![0u8; 8];
    v2[2] = 2;
    v2[6] = 67;
    assert_eq!(gpu_metrics_activity(&v2), Some(67));
    v2[2] = 3;
    assert_eq!(gpu_metrics_activity(&v2), Some(67));
    v2[6] = 0xff;
    v2[7] = 0xff;
    assert_eq!(gpu_metrics_activity(&v2), None, "0xFFFF means not available");
    v2[2] = 4;
    v2[6] = 1;
    assert_eq!(gpu_metrics_activity(&v2), None, "unknown revision");
    assert_eq!(gpu_metrics_activity(&[0, 0, 1]), None, "shorter than the header");
    assert_eq!(gpu_metrics_activity(&[0, 0, 1, 0, 0, 0, 0, 0, 0, 0, 5]), None, "revision 1 too short");
}

#[test]
fn fps_file_fields() {
    assert_eq!(fps_fields("144 6.94\n"), (Some("144".to_string()), Some("6.94".to_string())));
    assert_eq!(fps_fields("  60\t16.67  extra"), (Some("60".to_string()), Some("16.67".to_string())));
    assert_eq!(fps_fields("60\n"), (Some("60".to_string()), None));
    assert_eq!(fps_fields(" \n "), (None, None));
    assert_eq!(fps_fields(""), (None, None));
    assert_eq!(fps_fields("60\u{a0}7"), (Some("60".to_string()), Some("7".to_string())));
}

#[test]
fn hwmon_devices() {
    let all = SensorNeeds::all();
    assert_eq!(hwmon_probe("k10temp\n", &all), Some((TempSensor::Cpu, "Tctl")));
    assert_eq!(hwmon_probe("amdgpu\n", &all), Some((TempSensor::Gpu, "edge")));
    assert_eq!(hwmon_probe("nvme", &all), Some((TempSensor::Nvme, "Composite")));
    assert_eq!(hwmon_probe("acpitz\n", &all), None);
    let mut some = SensorNeeds::none();
    assert!(!needs_any_temp(&some));
    assert_eq!(hwmon_probe("k10temp\n", &some), None);
    some.gpu_temp = true;
    assert!(needs_any_temp(&some));
    assert_eq!(hwmon_probe("amdgpu", &some), Some((TempSensor::Gpu, "edge")));
}

#[test]
fn gpu_edge_needs_high_limit_of_100() {
    assert_eq!(GPU_EDGE_HIGH_MILLIDEG, 100000);
    assert!(temp_accepted(TempSensor::Gpu, Some("100000\n")));
    assert!(!temp_accepted(TempSensor::Gpu, Some("95000\n")), "another GPU's limit");
    assert!(!temp_accepted(TempSensor::Gpu, Some("garbage")));
    assert!(!temp_accepted(TempSensor::Gpu, None), "no limit to read");
    assert!(temp_accepted(TempSensor::Cpu, None));
    assert!(temp_accepted(TempSensor::Nvme, Some("84850")));
}
