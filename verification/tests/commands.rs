use fancurve::commands::{
    call_nv_settings, call_nv_settings_off, call_sudo_nop, call_xhost_add, call_xhost_remove,
    i8_dec_string, set_nv_fans, u8_dec_string,
};

#[test]
fn u8_rendering() {
    assert_eq!(u8_dec_string(0).as_str(), "0");
    assert_eq!(u8_dec_string(7).as_str(), "7");
    assert_eq!(u8_dec_string(10).as_str(), "10");
    assert_eq!(u8_dec_string(43).as_str(), "43");
    assert_eq!(u8_dec_string(100).as_str(), "100");
    assert_eq!(u8_dec_string(255).as_str(), "255");
}

#[test]
fn i8_rendering() {
    assert_eq!(i8_dec_string(0).as_str(), "0");
    assert_eq!(i8_dec_string(127).as_str(), "127");
    assert_eq!(i8_dec_string(-5).as_str(), "-5");
    assert_eq!(i8_dec_string(-128).as_str(), "-128");
}

#[test]
fn nv_settings_command_line() {
    let c = call_nv_settings(43, 44);
    assert_eq!(c.label.as_str(), "nvidia-settings");
    assert_eq!(c.program.as_str(), "sudo");
    let args: Vec<&str> = c.args.iter().map(|a| a.as_str()).collect();
    assert_eq!(
        args,
        vec![
            "nvidia-settings",
            "-a",
            "*:1[gpu:0]/GPUFanControlState=1",
            "-a",
            "*:1[fan-0]/GPUTargetFanSpeed=43",
            "-a",
            "*:1[fan-1]/GPUTargetFanSpeed=44",
        ]
    );
}

#[test]
fn nv_settings_command_line_negative_speeds() {
    let c = call_nv_settings(-5, -128);
    assert_eq!(c.args[4].as_str(), "*:1[fan-0]/GPUTargetFanSpeed=-5");
    assert_eq!(c.args[6].as_str(), "*:1[fan-1]/GPUTargetFanSpeed=-128");
}

#[test]
fn nv_settings_off_command_line() {
    let c = call_nv_settings_off();
    assert_eq!(c.label.as_str(), "nvidia-settings");
    assert_eq!(c.program.as_str(), "sudo");
    let args: Vec<&str> = c.args.iter().map(|a| a.as_str()).collect();
    assert_eq!(args, vec!["nvidia-settings", "-a", "*:1[gpu:0]/GPUFanControlState=0"]);
}

#[test]
fn xhost_command_lines() {
    let add = call_xhost_add();
    assert_eq!(add.label.as_str(), "xhost add root");
    assert_eq!(add.program.as_str(), "xhost");
    assert_eq!(add.args.len(), 1);
    assert_eq!(add.args[0].as_str(), "-si:localuser:root");

    let remove = call_xhost_remove();
    assert_eq!(remove.label.as_str(), "xhost remove root");
    assert_eq!(remove.program.as_str(), "xhost");
    assert_eq!(remove.args.len(), 1);
    assert_eq!(remove.args[0].as_str(), "-si:localuser:root");
}

#[test]
fn sudo_nop_command_line() {
    let c = call_sudo_nop();
    assert_eq!(c.label.as_str(), "sudo loop");
    assert_eq!(c.program.as_str(), "sudo");
    assert_eq!(c.args.len(), 1);
    assert_eq!(c.args[0].as_str(), "true");
}

#[test]
fn set_nv_fans_quantizes_then_builds() {
    // 43.5 duty with a 43 floor quantizes to (43, 44).
    let c = set_nv_fans(43_500_000, 43_000_000);
    assert_eq!(c.args[4].as_str(), "*:1[fan-0]/GPUTargetFanSpeed=43");
    assert_eq!(c.args[6].as_str(), "*:1[fan-1]/GPUTargetFanSpeed=44");
}
