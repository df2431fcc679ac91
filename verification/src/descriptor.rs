//! What the plugin tells a host about itself: its identity and its ports.
//!
//! The order of the ports is part of the interface: a host wires its
//! buffers to them by index.

use vstd::prelude::*;
use crate::binary32::ZERO;
use crate::controls::{
    LEARN_WINDOW_MAX, LEARN_WINDOW_MIN, NOISE_FLOOR_DB_MAX, NOISE_FLOOR_DB_MIN, ONE,
};

verus! {

/// Index of the left audio input.
pub const LEFT_IN: usize = 0;

/// Index of the right audio input.
pub const RIGHT_IN: usize = 1;

/// Index of the left audio output.
pub const LEFT_OUT: usize = 2;

/// Index of the right audio output.
pub const RIGHT_OUT: usize = 3;

/// Index of the learn toggle.
pub const LEARN: usize = 4;

/// Index of the learn window.
pub const LEARN_WINDOW: usize = 5;

/// Index of the noise floor.
pub const NOISE_FLOOR: usize = 6;

/// The identifier under which hosts know the plugin.
pub const UNIQUE_ID: u64 = 400;

/// What flows through a port, and in which direction.
#[derive(Clone, Copy, Debug, PartialEq, Eq, Structural)]
pub enum PortKind {
    AudioInput,
    AudioOutput,
    ControlInput,
}

/// How a host should present a control.
#[derive(Clone, Copy, Debug, PartialEq, Eq, Structural)]
pub enum Hint {
    /// The control is a switch.
    Toggled,
    /// The control is best shown on a logarithmic scale.
    Logarithmic,
}

/// Where in its range a control starts out.
#[derive(Clone, Copy, Debug, PartialEq, Eq, Structural)]
pub enum DefaultValue {
    /// At zero, which for a switch is off.
    Value0,
    /// In the lower part of the range.
    Low,
    /// In the middle of the range.
    Middle,
}

/// One port. The bounds are binary32 bit patterns.
#[derive(Clone, Copy, Debug)]
pub struct PortInfo {
    pub name: &'static str,
    pub kind: PortKind,
    pub hint: Option<Hint>,
    pub default: Option<DefaultValue>,
    pub lower_bound: Option<u32>,
    pub upper_bound: Option<u32>,
}

/// The plugin as a host sees it.
#[derive(Debug)]
pub struct PluginInfo {
    pub unique_id: u64,
    pub label: &'static str,
    pub name: &'static str,
    pub maker: &'static str,
    pub copyright: &'static str,
    pub ports: Vec<PortInfo>,
}

/// An audio port: no hint, no default, no bounds.
pub open spec fn audio_port(name: &'static str, kind: PortKind) -> PortInfo {
    PortInfo { name, kind, hint: None, default: None, lower_bound: None, upper_bound: None }
}

/// A control input with its hint, its default and its range.
pub open spec fn control_port(
    name: &'static str,
    hint: Option<Hint>,
    default: DefaultValue,
    lower: u32,
    upper: u32,
) -> PortInfo {
    PortInfo {
        name,
        kind: PortKind::ControlInput,
        hint,
        default: Some(default),
        lower_bound: Some(lower),
        upper_bound: Some(upper),
    }
}

/// The ports of the plugin, by index.
pub open spec fn port_table() -> Seq<PortInfo> {
    seq![
        audio_port("Left Audio In", PortKind::AudioInput),
        audio_port("Right Audio In", PortKind::AudioInput),
        audio_port("Left Audio Out", PortKind::AudioOutput),
        audio_port("Right Audio Out", PortKind::AudioOutput),
        control_port("Learn", Some(Hint::Toggled), DefaultValue::Value0, ZERO, ONE),
        control_port(
            "Learn Window (seconds)",
            None,
            DefaultValue::Middle,
            LEARN_WINDOW_MIN,
            LEARN_WINDOW_MAX,
        ),
        control_port(
            "Noise Floor",
            Some(Hint::Logarithmic),
            DefaultValue::Low,
            NOISE_FLOOR_DB_MIN,
            NOISE_FLOOR_DB_MAX,
        ),
    ]
}

/// Whether `info` describes the plugin.
pub open spec fn describes_plugin(info: PluginInfo) -> bool {
    &&& info.unique_id == UNIQUE_ID
    &&& info.label == "goldilocks"
    &&& info.name == "Goldilocks FIR denosier"
    &&& info.maker == "Daniel Hill"
    &&& info.copyright == "MIT"
    &&& info.ports@ == port_table()
}

fn audio(name: &'static str, kind: PortKind) -> (r: PortInfo)
    ensures
        r == audio_port(name, kind),
{
    PortInfo { name, kind, hint: None, default: None, lower_bound: None, upper_bound: None }
}

fn control(
    name: &'static str,
    hint: Option<Hint>,
    default: DefaultValue,
    lower: u32,
    upper: u32,
) -> (r: PortInfo)
    ensures
        r == control_port(name, hint, default, lower, upper),
{
    PortInfo {
        name,
        kind: PortKind::ControlInput,
        hint,
        default: Some(default),
        lower_bound: Some(lower),
        upper_bound: Some(upper),
    }
}

/// Describes plugin number `index` of this library. There is one plugin, at
/// index 0.
pub fn get_ladspa_descriptor(index: u64) -> (r: Option<PluginInfo>)
    ensures
        index == 0 ==> r is Some && describes_plugin(r.unwrap()),
        index != 0 ==> r is None,
{
    if index != 0 {
        return None;
    }
    let mut ports: Vec<PortInfo> = Vec::with_capacity(7);
    ports.push(audio("Left Audio In", PortKind::AudioInput));
    ports.push(audio("Right Audio In", PortKind::AudioInput));
    ports.push(audio("Left Audio Out", PortKind::AudioOutput));
    ports.push(audio("Right Audio Out", PortKind::AudioOutput));
    ports.push(control("Learn", Some(Hint::Toggled), DefaultValue::Value0, ZERO, ONE));
    ports.push(
        control(
            "Learn Window (seconds)",
            None,
            DefaultValue::Middle,
            LEARN_WINDOW_MIN,
            LEARN_WINDOW_MAX,
        ),
    );
    ports.push(
        control(
            "Noise Floor",
            Some(Hint::Logarithmic),
            DefaultValue::Low,
            NOISE_FLOOR_DB_MIN,
            NOISE_FLOOR_DB_MAX,
        ),
    );
    assert(ports@ =~= port_table());
    Some(
        PluginInfo {
            unique_id: UNIQUE_ID,
            label: "goldilocks",
            name: "Goldilocks FIR denosier",
            maker: "Daniel Hill",
            copyright: "MIT",
            ports,
        },
    )
}

} // verus!
