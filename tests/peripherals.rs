use py32_hal_core::adc::{Adc, Resolution, SampleTime, TEMPERATURE_CHANNEL, VREF_CHANNEL};
use py32_hal_core::build_cfg::{set_target_cfgs, CfgKind, CfgSet};
use py32_hal_core::bridge::{InterruptHandler, WakeTarget};
use py32_hal_core::dma::{AnyChannel, Channel, NoDma};

fn lines(c: &CfgSet) -> Vec<(CfgKind, String)> {
    c.lines().iter().map(|l| (l.kind, l.name.clone())).collect()
}

#[test]
fn enable_reports_each_flag_once() {
    let mut c = CfgSet::new();
    assert!(c.enable("a"));
    assert!(!c.enable("a"));
    assert!(c.declare("a"));
    assert!(!c.declare("a"));
    assert_eq!(lines(&c), vec![(CfgKind::Enable, "a".to_string()), (CfgKind::Declare, "a".to_string())]);
}

#[test]
fn enable_all_and_declare_all_skip_repeats() {
    let mut c = CfgSet::new();
    c.enable_all(&["x", "y", "x"]);
    c.declare_all(&["y", "z"]);
    assert_eq!(
        lines(&c),
        vec![
            (CfgKind::Enable, "x".to_string()),
            (CfgKind::Enable, "y".to_string()),
            (CfgKind::Declare, "y".to_string()),
            (CfgKind::Declare, "z".to_string()),
        ]
    );
}

#[test]
fn set_declares_and_maybe_enables() {
    let mut c = CfgSet::new();
    c.set("on", true);
    c.set("off", false);
    assert_eq!(
        lines(&c),
        vec![
            (CfgKind::Enable, "on".to_string()),
            (CfgKind::Declare, "on".to_string()),
            (CfgKind::Declare, "off".to_string()),
        ]
    );
}

fn enabled_for(target: &str) -> Vec<String> {
    let mut c = CfgSet::new();
    set_target_cfgs(&mut c, target);
    c.lines().iter().filter(|l| l.kind == CfgKind::Enable).map(|l| l.name.clone()).collect()
}

#[test]
fn target_flags_for_cortex_m0() {
    assert_eq!(enabled_for("thumbv6m-none-eabi"), vec!["cortex_m", "armv6m"]);
}

#[test]
fn target_flags_for_hard_float_cortex_m4() {
    assert_eq!(enabled_for("thumbv7em-none-eabihf"), vec!["cortex_m", "armv7m", "armv7em", "has_fpu"]);
}

#[test]
fn target_flags_for_armv8m() {
    assert_eq!(enabled_for("thumbv8m.base-none-eabi"), vec!["cortex_m", "armv8m", "armv8m_base"]);
    assert_eq!(enabled_for("thumbv8m.main-none-eabihf"), vec!["cortex_m", "armv8m", "armv8m_main", "has_fpu"]);
}

#[test]
fn target_flags_for_host() {
    assert!(enabled_for("x86_64-unknown-linux-gnu").is_empty());
    let mut c = CfgSet::new();
    set_target_cfgs(&mut c, "x86_64-unknown-linux-gnu");
    assert_eq!(c.lines().len(), 8);
    assert_eq!(c.lines()[7].name, "has_fpu");
}

#[test]
fn adc_internal_channels() {
    let mut adc = Adc::new();
    assert!(!adc.vref_enabled && !adc.temperature_enabled);
    let v = adc.enable_vref();
    assert_eq!(v.channel(), VREF_CHANNEL);
    assert_eq!(v.channel(), 12);
    let t = adc.enable_temperature();
    assert_eq!(t.channel(), TEMPERATURE_CHANNEL);
    assert_eq!(t.channel(), 11);
    assert!(adc.vref_enabled && adc.temperature_enabled);
}

#[test]
fn adc_configuration() {
    let mut adc = Adc::new();
    assert_eq!(adc.sample_time.to_bits(), 0);
    assert_eq!(adc.resolution, Resolution::Bits12);
    adc.set_sample_time(SampleTime::from_bits(13));
    assert_eq!(adc.sample_time.to_bits(), 5);
    adc.set_resolution(Resolution::Bits8);
    assert_eq!(adc.resolution.to_bits(), 2);
}

#[test]
fn dma_channel_degrades_to_its_index() {
    let ch = AnyChannel::new(4);
    assert_eq!(ch.id(), 4);
    assert_eq!(ch.degrade(), AnyChannel { id: 4 });
    let _ = NoDma;
}

#[test]
fn adc_conversion_through_the_bridge() {
    let mut adc = Adc::new();
    adc.set_sample_time(SampleTime::from_bits(3));
    assert_eq!(adc.start_conversion(), 3);
    assert!(adc.state.irq_enabled());
    assert!(!adc.poll_conversion(WakeTarget { task: 2 }));
    adc.state.complete();
    assert_eq!(InterruptHandler::on_interrupt(&mut adc.state), Some(WakeTarget { task: 2 }));
    assert!(!adc.state.irq_enabled());
    assert!(adc.poll_conversion(WakeTarget { task: 2 }));
}
