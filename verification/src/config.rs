//! The configuration: global audio settings, a default preset and custom
//! presets, read from a document and checked against the rules; and the
//! choice of what to play from a preset and command-line overrides.
use vstd::prelude::*;
use crate::document::Document;
use crate::document::Level;
use crate::document::Node;
use crate::document::kdl_document;
use crate::document::parse_kdl;
use crate::tree::NodeView;
use crate::tree::node_views;
use crate::document::DocumentView;
use crate::tree::ValueView;
use crate::document::NodeError;
use crate::document::NodeFault;
use crate::document::Number;
use crate::document::Value;
use crate::document::child;
use crate::document::first_argument;
use crate::document::get_child;
use crate::document::get_first_argument;
use crate::document::get_property;
use crate::document::node_problem;
use crate::document::property;
use crate::document::validate_node;
use crate::noise::Noise;
use crate::noise::noise_named;
use crate::text::str_eq;
use crate::ipc::is_valid_preset_name;
use crate::ipc::lemma_valid_preset_name_exactly;
use crate::ipc::spec_format;
use crate::ipc::MessageView;
use crate::ipc::IpcError;
use crate::text::is_control_char;
use crate::text::is_white_space;
use crate::ipc::valid_preset_name;

verus! {

broadcast use crate::tree::lemma_node_view;

/// A property that the configuration reads.
#[derive(Clone, Copy, Debug, PartialEq, Eq, Structural)]
pub enum Key {
    Preset,
    Inherits,
    Carrier,
    Beat,
}

/// The name of a property.
pub open spec fn key_name(k: Key) -> Seq<char> {
    match k {
        Key::Preset => "preset"@,
        Key::Inherits => "inherits"@,
        Key::Carrier => "carrier"@,
        Key::Beat => "beat"@,
    }
}

impl Key {
    /// The name of this property.
    pub fn as_str(self) -> (r: &'static str)
        ensures
            r@ == key_name(self),
    {
        match self {
            Key::Preset => "preset",
            Key::Inherits => "inherits",
            Key::Carrier => "carrier",
            Key::Beat => "beat",
        }
    }
}

/// Which volume a node sets: the tone's or the noise's.
#[derive(Clone, Copy, Debug, PartialEq, Eq, Structural)]
pub enum Slot {
    Volume,
    NoiseVolume,
}

/// Which part of a playback setting is out of range.
#[derive(Clone, Copy, Debug, PartialEq, Eq, Structural)]
pub enum PlaybackError {
    /// Frequencies outside `20..=1000` Hz, or a difference outside `0.1..=40` Hz.
    Frequencies,
    /// A volume outside `0..=0.25`.
    Volumes,
}

/// A configuration that breaks a rule (the model of [`ConfigError`]).
pub enum ConfigErrorView {
    InvalidKdl,
    Node(NodeError),
    UnknownNode { name: Seq<char> },
    DuplicateDefault,
    DuplicateAudio,
    DefaultNeedsPreset,
    NotAString { key: Key },
    NotANumber { key: Key },
    NotFinite { key: Key },
    NeedsFiniteNumber { slot: Slot },
    VolumeRange { slot: Slot },
    NoiseNeedsType,
    Noise,
    AudioRange,
    InvalidBuiltIn,
    PresetNeedsName,
    InvalidPresetName,
    DuplicatePreset { name: Seq<char> },
    UnknownPreset { name: Seq<char> },
    PresetNeedsTone { name: Seq<char> },
    ToneNeedsCarrier,
    ToneNeedsBeat,
    InvalidPreset { name: Seq<char>, cause: PlaybackError },
    InvalidDefault { name: Seq<char> },
    EarsAndCarrier,
    EarsApart,
    CarrierApart,
    Playback { cause: PlaybackError },
}

/// A configuration that breaks a rule.
#[derive(Debug)]
pub enum ConfigError {
    /// Text that is not a KDL document.
    InvalidKdl,
    /// A node with properties, arguments or children it may not have.
    Node(NodeFault),
    /// A top-level node other than `default`, `audio` and `preset`.
    UnknownNode { name: String },
    DuplicateDefault,
    DuplicateAudio,
    DefaultNeedsPreset,
    NotAString { key: Key },
    NotANumber { key: Key },
    NotFinite { key: Key },
    NeedsFiniteNumber { slot: Slot },
    VolumeRange { slot: Slot },
    NoiseNeedsType,
    /// A noise type other than `off`, `white`, `pink`, `brown`.
    Noise,
    AudioRange,
    InvalidBuiltIn,
    PresetNeedsName,
    InvalidPresetName,
    /// A custom preset named like a built-in or an earlier custom preset.
    DuplicatePreset { name: String },
    /// A preset name that names no preset.
    UnknownPreset { name: String },
    PresetNeedsTone { name: String },
    ToneNeedsCarrier,
    ToneNeedsBeat,
    InvalidPreset { name: String, cause: PlaybackError },
    InvalidDefault { name: String },
    /// Both ear frequencies and carrier/beat were given.
    EarsAndCarrier,
    /// Only one of the two ear frequencies was given.
    EarsApart,
    /// Only one of carrier and beat was given.
    CarrierApart,
    /// What would be played is out of range.
    Playback { cause: PlaybackError },
}

impl View for ConfigError {
    type V = ConfigErrorView;

    open spec fn view(&self) -> ConfigErrorView {
        match self {
            ConfigError::InvalidKdl => ConfigErrorView::InvalidKdl,
            ConfigError::Node(f) => ConfigErrorView::Node(f@),
            ConfigError::UnknownNode { name } => ConfigErrorView::UnknownNode { name: name@ },
            ConfigError::DuplicateDefault => ConfigErrorView::DuplicateDefault,
            ConfigError::DuplicateAudio => ConfigErrorView::DuplicateAudio,
            ConfigError::DefaultNeedsPreset => ConfigErrorView::DefaultNeedsPreset,
            ConfigError::NotAString { key } => ConfigErrorView::NotAString { key: *key },
            ConfigError::NotANumber { key } => ConfigErrorView::NotANumber { key: *key },
            ConfigError::NotFinite { key } => ConfigErrorView::NotFinite { key: *key },
            ConfigError::NeedsFiniteNumber { slot } => ConfigErrorView::NeedsFiniteNumber {
                slot: *slot,
            },
            ConfigError::VolumeRange { slot } => ConfigErrorView::VolumeRange { slot: *slot },
            ConfigError::NoiseNeedsType => ConfigErrorView::NoiseNeedsType,
            ConfigError::Noise => ConfigErrorView::Noise,
            ConfigError::AudioRange => ConfigErrorView::AudioRange,
            ConfigError::InvalidBuiltIn => ConfigErrorView::InvalidBuiltIn,
            ConfigError::PresetNeedsName => ConfigErrorView::PresetNeedsName,
            ConfigError::InvalidPresetName => ConfigErrorView::InvalidPresetName,
            ConfigError::DuplicatePreset { name } => ConfigErrorView::DuplicatePreset {
                name: name@,
            },
            ConfigError::UnknownPreset { name } => ConfigErrorView::UnknownPreset { name: name@ },
            ConfigError::PresetNeedsTone { name } => ConfigErrorView::PresetNeedsTone {
                name: name@,
            },
            ConfigError::ToneNeedsCarrier => ConfigErrorView::ToneNeedsCarrier,
            ConfigError::ToneNeedsBeat => ConfigErrorView::ToneNeedsBeat,
            ConfigError::InvalidPreset { name, cause } => ConfigErrorView::InvalidPreset {
                name: name@,
                cause: *cause,
            },
            ConfigError::InvalidDefault { name } => ConfigErrorView::InvalidDefault {
                name: name@,
            },
            ConfigError::EarsAndCarrier => ConfigErrorView::EarsAndCarrier,
            ConfigError::EarsApart => ConfigErrorView::EarsApart,
            ConfigError::CarrierApart => ConfigErrorView::CarrierApart,
            ConfigError::Playback { cause } => ConfigErrorView::Playback { cause: *cause },
        }
    }
}

/// The audio settings of a preset: tone volume, noise kind, noise volume.
#[derive(Clone, Copy, Debug, PartialEq, Eq, Structural)]
pub struct Audio {
    pub volume: Level,
    pub noise: Noise,
    pub noise_volume: Level,
}

/// The global audio defaults: tone volume 0.10, no noise, noise volume 0.04.
pub open spec fn spec_default_audio() -> Audio {
    Audio {
        volume: Level { code: 0x3fb9_9999_9999_999a },
        noise: Noise::Off,
        noise_volume: Level { code: 0x3fa4_7ae1_47ae_147b },
    }
}

/// The global audio defaults (see [`spec_default_audio`]).
pub fn default_audio() -> (r: Audio)
    ensures
        r == spec_default_audio(),
{
    Audio {
        volume: Level { code: 0x3fb9_9999_9999_999a },
        noise: Noise::Off,
        noise_volume: Level { code: 0x3fa4_7ae1_47ae_147b },
    }
}

/// Whether both volumes of `a` lie in `0..=0.25`.
pub open spec fn audio_in_range(a: Audio) -> bool {
    a.volume.in_range() && a.noise_volume.in_range()
}

/// The model of a result that carries a configuration error.
pub open spec fn err_view<T>(r: Result<T, ConfigError>) -> Result<T, ConfigErrorView> {
    match r {
        Ok(t) => Ok(t),
        Err(e) => Err(e@),
    }
}

/// The text of property `key` of `node`: absent, a string, or an error.
pub open spec fn spec_string(node: NodeView, key: Key) -> Result<Option<Seq<char>>, ConfigErrorView> {
    match property(node, key_name(key)) {
        None => Ok(None),
        Some(ValueView::Text(s)) => Ok(Some(s)),
        Some(_) => Err(ConfigErrorView::NotAString { key }),
    }
}

/// Reads property `key` of `node` as text (see [`spec_string`]).
pub fn string<'a>(node: &'a Node, key: Key) -> (r: Result<Option<&'a String>, ConfigError>)
    ensures
        match (r, spec_string(node@, key)) {
            (Ok(Some(s)), Ok(Some(t))) => s@ == t,
            (Ok(None), Ok(None)) => true,
            (Err(e), Err(f)) => e@ == f,
            _ => false,
        },
{
    match get_property(node, key.as_str()) {
        None => Ok(None),
        Some(Value::Text(s)) => Ok(Some(s)),
        Some(_) => Err(ConfigError::NotAString { key }),
    }
}

/// The number in property `key` of `node`: absent, a finite number, or an
/// error.
pub open spec fn spec_number(node: NodeView, key: Key) -> Result<Option<Number>, ConfigErrorView> {
    match property(node, key_name(key)) {
        None => Ok(None),
        Some(ValueView::Number(n)) => if n.finite() {
            Ok(Some(n))
        } else {
            Err(ConfigErrorView::NotFinite { key })
        },
        Some(_) => Err(ConfigErrorView::NotANumber { key }),
    }
}

/// Reads property `key` of `node` as a finite number (see [`spec_number`]).
pub fn number(node: &Node, key: Key) -> (r: Result<Option<Number>, ConfigError>)
    ensures
        err_view(r) == spec_number(node@, key),
{
    match get_property(node, key.as_str()) {
        None => Ok(None),
        Some(Value::Number(n)) => {
            if n.finite() {
                Ok(Some(*n))
            } else {
                Err(ConfigError::NotFinite { key })
            }
        },
        Some(_) => Err(ConfigError::NotANumber { key }),
    }
}

/// The first argument of `node` as a finite number.
pub open spec fn spec_argument(node: NodeView, slot: Slot) -> Result<Number, ConfigErrorView> {
    match first_argument(node) {
        Some(ValueView::Number(n)) => if n.finite() {
            Ok(n)
        } else {
            Err(ConfigErrorView::NeedsFiniteNumber { slot })
        },
        _ => Err(ConfigErrorView::NeedsFiniteNumber { slot }),
    }
}

/// Reads the first argument of `node` as a finite number.
pub fn argument(node: &Node, slot: Slot) -> (r: Result<Number, ConfigError>)
    ensures
        err_view(r) == spec_argument(node@, slot),
{
    match get_first_argument(node) {
        Some(Value::Number(n)) => {
            if n.finite() {
                Ok(*n)
            } else {
                Err(ConfigError::NeedsFiniteNumber { slot })
            }
        },
        _ => Err(ConfigError::NeedsFiniteNumber { slot }),
    }
}

/// The volume that `node` sets: its first argument, a number in `0..=0.25`.
pub open spec fn spec_volume(node: NodeView, slot: Slot) -> Result<Level, ConfigErrorView> {
    match spec_argument(node, slot) {
        Err(e) => Err(e),
        Ok(n) => if n.volume_ok() {
            Ok(n.level())
        } else {
            Err(ConfigErrorView::VolumeRange { slot })
        },
    }
}

/// Reads the volume that `node` sets (see [`spec_volume`]).
pub fn volume(node: &Node, slot: Slot) -> (r: Result<Level, ConfigError>)
    ensures
        err_view(r) == spec_volume(node@, slot),
{
    let n = argument(node, slot)?;
    if !n.volume_ok() {
        return Err(ConfigError::VolumeRange { slot });
    }
    Ok(n.level())
}

/// The first problem among the audio children of a node, from position `i`
/// on: a `volume` child takes one argument and nothing else; a `noise` child
/// takes one argument and at most a `volume` child, which takes one
/// argument and nothing else. Other children are not looked at.
pub open spec fn audio_nodes_problem(cs: Seq<NodeView>, i: int) -> Option<NodeError>
    decreases cs.len() - i,
{
    if i < 0 || i >= cs.len() {
        None
    } else {
        let c = cs[i];
        if c.name == "volume"@ {
            match node_problem(c, 1, seq![], seq![]) {
                Some(e) => Some(e),
                None => audio_nodes_problem(cs, i + 1),
            }
        } else if c.name == "noise"@ {
            match node_problem(c, 1, seq![], seq!["volume"]) {
                Some(e) => Some(e),
                None => match child(c, "volume"@) {
                    Some(v) => match node_problem(v, 1, seq![], seq![]) {
                        Some(e) => Some(e),
                        None => audio_nodes_problem(cs, i + 1),
                    },
                    None => audio_nodes_problem(cs, i + 1),
                },
            }
        } else {
            audio_nodes_problem(cs, i + 1)
        }
    }
}

/// Checks the audio children of `node` (see [`audio_nodes_problem`]).
pub fn validate_audio_nodes(node: &Node) -> (r: Result<(), NodeFault>)
    ensures
        match r {
            Ok(()) => audio_nodes_problem(node@.children, 0) is None,
            Err(f) => audio_nodes_problem(node@.children, 0) == Some(f@),
        },
{
    let none: [&str; 0] = [];
    let volume_only = ["volume"];
    assert(none@ =~= seq![]);
    assert(volume_only@ =~= seq!["volume"]);
    let mut i: usize = 0;
    while i < node.children.len()
        invariant
            i <= node.children@.len(),
            none@ == Seq::<&str>::empty(),
            volume_only@ == seq!["volume"],
            audio_nodes_problem(node@.children, 0) == audio_nodes_problem(
                node@.children,
                i as int,
            ),
        decreases node.children.len() - i,
    {
        let c = &node.children[i];
        if str_eq(c.name.as_str(), "volume") {
            validate_node(c, 1, &none, &none)?;
        } else if str_eq(c.name.as_str(), "noise") {
            validate_node(c, 1, &none, &volume_only)?;
            match get_child(c, "volume") {
                Some(v) => {
                    validate_node(v, 1, &none, &none)?;
                },
                None => {},
            }
        }
        i = i + 1;
    }
    Ok(())
}

/// The audio settings that `node` makes of `base`: its `volume` child sets
/// the tone volume, its `noise` child the kind of noise and, through its own
/// `volume` child, the noise volume; both volumes must end in range.
pub open spec fn spec_parse_audio(node: NodeView, base: Audio) -> Result<Audio, ConfigErrorView> {
    match audio_nodes_problem(node.children, 0) {
        Some(e) => Err(ConfigErrorView::Node(e)),
        None => {
            let r1: Result<Audio, ConfigErrorView> = match child(node, "volume"@) {
                Some(v) => match spec_volume(v, Slot::Volume) {
                    Ok(l) => Ok(Audio { volume: l, noise: base.noise, noise_volume: base.noise_volume }),
                    Err(e) => Err(e),
                },
                None => Ok(base),
            };
            let r2: Result<Audio, ConfigErrorView> = match r1 {
                Err(e) => Err(e),
                Ok(a1) => match child(node, "noise"@) {
                    None => Ok(a1),
                    Some(n) => match first_argument(n) {
                        Some(ValueView::Text(s)) => match noise_named(s) {
                            Some(k) => {
                                let a2 = Audio { volume: a1.volume, noise: k, noise_volume: a1.noise_volume };
                                match child(n, "volume"@) {
                                    Some(vn) => match spec_volume(vn, Slot::NoiseVolume) {
                                        Ok(l) => Ok(Audio { volume: a2.volume, noise: a2.noise, noise_volume: l }),
                                        Err(e) => Err(e),
                                    },
                                    None => Ok(a2),
                                }
                            },
                            None => Err(ConfigErrorView::Noise),
                        },
                        _ => Err(ConfigErrorView::NoiseNeedsType),
                    },
                },
            };
            match r2 {
                Err(e) => Err(e),
                Ok(a) => if audio_in_range(a) {
                    Ok(a)
                } else {
                    Err(ConfigErrorView::AudioRange)
                },
            }
        },
    }
}

/// Reads the audio settings of `node` over `base` (see [`spec_parse_audio`]).
pub fn parse_audio(node: &Node, base: Audio) -> (r: Result<Audio, ConfigError>)
    ensures
        err_view(r) == spec_parse_audio(node@, base),
{
    match validate_audio_nodes(node) {
        Err(f) => {
            return Err(ConfigError::Node(f));
        },
        Ok(()) => {},
    }
    let mut audio = base;
    match get_child(node, "volume") {
        Some(v) => {
            audio.volume = volume(v, Slot::Volume)?;
        },
        None => {},
    }
    match get_child(node, "noise") {
        Some(n) => {
            match get_first_argument(n) {
                Some(Value::Text(s)) => {
                    match Noise::parse(s.as_str()) {
                        Ok(k) => {
                            audio.noise = k;
                        },
                        Err(_) => {
                            return Err(ConfigError::Noise);
                        },
                    }
                },
                _ => {
                    return Err(ConfigError::NoiseNeedsType);
                },
            }
            match get_child(n, "volume") {
                Some(vn) => {
                    audio.noise_volume = volume(vn, Slot::NoiseVolume)?;
                },
                None => {},
            }
        },
        None => {},
    }
    if !(audio.volume.in_range() && audio.noise_volume.in_range()) {
        return Err(ConfigError::AudioRange);
    }
    Ok(audio)
}

/// A preset that comes with the program. Frequencies are encodings of
/// 64-bit floats.
#[derive(Clone, Copy, Debug)]
pub struct Preset {
    pub name: &'static str,
    pub left: u64,
    pub right: u64,
    pub description: &'static str,
}

/// The model of a built-in preset.
pub struct PresetInfo {
    pub name: Seq<char>,
    pub left: u64,
    pub right: u64,
    pub description: Seq<char>,
}

/// The built-in presets, in order: calm (195/205 Hz), study (400/415 Hz),
/// focus (113/127 Hz), wind-down (197/203 Hz).
pub open spec fn spec_built_ins() -> Seq<PresetInfo> {
    seq![
        PresetInfo {
            name: "calm"@,
            left: 0x4068_6000_0000_0000,
            right: 0x4069_a000_0000_0000,
            description: "10 Hz, alpha; quiet-break routine"@,
        },
        PresetInfo {
            name: "study"@,
            left: 0x4079_0000_0000_0000,
            right: 0x4079_f000_0000_0000,
            description: "15 Hz, beta; study routine"@,
        },
        PresetInfo {
            name: "focus"@,
            left: 0x405c_4000_0000_0000,
            right: 0x405f_c000_0000_0000,
            description: "14 Hz, beta; work-block routine"@,
        },
        PresetInfo {
            name: "wind-down"@,
            left: 0x4068_a000_0000_0000,
            right: 0x4069_6000_0000_0000,
            description: "6 Hz, theta; pre-rest routine"@,
        },
    ]
}

/// The model of a built-in preset value.
pub open spec fn preset_info(p: Preset) -> PresetInfo {
    PresetInfo { name: p.name@, left: p.left, right: p.right, description: p.description@ }
}

/// The built-in presets (see [`spec_built_ins`]).
pub fn built_ins() -> (r: Vec<Preset>)
    ensures
        r@.len() == spec_built_ins().len(),
        forall|i: int| 0 <= i < r@.len() ==> preset_info(#[trigger] r@[i]) == spec_built_ins()[i],
{
    let v = vec![
        Preset {
            name: "calm",
            left: 0x4068_6000_0000_0000,
            right: 0x4069_a000_0000_0000,
            description: "10 Hz, alpha; quiet-break routine",
        },
        Preset {
            name: "study",
            left: 0x4079_0000_0000_0000,
            right: 0x4079_f000_0000_0000,
            description: "15 Hz, beta; study routine",
        },
        Preset {
            name: "focus",
            left: 0x405c_4000_0000_0000,
            right: 0x405f_c000_0000_0000,
            description: "14 Hz, beta; work-block routine",
        },
        Preset {
            name: "wind-down",
            left: 0x4068_a000_0000_0000,
            right: 0x4069_6000_0000_0000,
            description: "6 Hz, theta; pre-rest routine",
        },
    ];
    assert(forall|i: int| 0 <= i < v@.len() ==> preset_info(#[trigger] v@[i]) == spec_built_ins()[i]);
    v
}

/// A preset defined in the configuration file.
#[derive(Debug)]
pub struct UserPreset {
    pub name: String,
    pub left: u64,
    pub right: u64,
    pub audio: Audio,
}

/// The model of a custom preset.
pub struct PresetView {
    pub name: Seq<char>,
    pub left: u64,
    pub right: u64,
    pub audio: Audio,
}

impl View for UserPreset {
    type V = PresetView;

    open spec fn view(&self) -> PresetView {
        PresetView { name: self.name@, left: self.left, right: self.right, audio: self.audio }
    }
}

/// A checked configuration: the default preset's name, the global audio
/// settings, and the custom presets in the order they were defined.
#[derive(Debug)]
pub struct Config {
    pub default: String,
    pub audio: Audio,
    pub presets: Vec<UserPreset>,
}

/// The model of a configuration.
pub struct ConfigView {
    pub default: Seq<char>,
    pub audio: Audio,
    pub presets: Seq<PresetView>,
}

impl View for Config {
    type V = ConfigView;

    open spec fn view(&self) -> ConfigView {
        ConfigView {
            default: self.default@,
            audio: self.audio,
            presets: self.presets@.map_values(|p: UserPreset| p@),
        }
    }
}

/// The position of the first built-in preset named `name`.
pub open spec fn built_in_index(name: Seq<char>) -> Option<int> {
    let b = spec_built_ins();
    if b[0].name == name {
        Some(0)
    } else if b[1].name == name {
        Some(1)
    } else if b[2].name == name {
        Some(2)
    } else if b[3].name == name {
        Some(3)
    } else {
        None
    }
}

/// The position of the first of `ps[i..]` named `name`.
pub open spec fn custom_index(ps: Seq<PresetView>, name: Seq<char>, i: int) -> Option<int>
    decreases ps.len() - i,
{
    if i < 0 || i >= ps.len() {
        None
    } else if ps[i].name == name {
        Some(i)
    } else {
        custom_index(ps, name, i + 1)
    }
}

pub proof fn lemma_custom_index(ps: Seq<PresetView>, name: Seq<char>, i: int)
    ensures
        custom_index(ps, name, i) matches Some(j) ==> i <= j < ps.len() && ps[j].name == name,
    decreases ps.len() - i,
{
    if 0 <= i < ps.len() && ps[i].name != name {
        lemma_custom_index(ps, name, i + 1);
    }
}

/// What the preset `name` plays in configuration `c`: the frequencies of the
/// built-in preset of that name with the global audio settings, else those
/// of the first custom preset of that name with its own audio settings.
pub open spec fn spec_resolve_preset(c: ConfigView, name: Seq<char>) -> Result<
    (u64, u64, Audio),
    ConfigErrorView,
> {
    match built_in_index(name) {
        Some(i) => Ok((spec_built_ins()[i].left, spec_built_ins()[i].right, c.audio)),
        None => match custom_index(c.presets, name, 0) {
            Some(j) => Ok((c.presets[j].left, c.presets[j].right, c.presets[j].audio)),
            None => Err(ConfigErrorView::UnknownPreset { name }),
        },
    }
}

/// Whether `name` names a built-in preset.
pub fn built_in_named(name: &str) -> (r: Option<Preset>)
    ensures
        match r {
            Some(p) => built_in_index(name@) matches Some(i) && preset_info(p) == spec_built_ins()[i],
            None => built_in_index(name@) is None,
        },
{
    let b = built_ins();
    let mut i: usize = 0;
    while i < b.len()
        invariant
            i <= b@.len(),
            b@.len() == 4,
            forall|k: int| 0 <= k < 4 ==> preset_info(#[trigger] b@[k]) == spec_built_ins()[k],
            forall|k: int| 0 <= k < i ==> spec_built_ins()[k].name != name@,
        decreases b.len() - i,
    {
        if str_eq(b[i].name, name) {
            return Some(b[i]);
        }
        i = i + 1;
    }
    None
}

/// The position of the first preset in `presets` named `name`.
fn custom_named(presets: &Vec<UserPreset>, name: &str) -> (r: Option<usize>)
    ensures
        match r {
            Some(j) => j < presets@.len() && custom_index(
                presets@.map_values(|p: UserPreset| p@),
                name@,
                0,
            ) == Some(j as int),
            None => custom_index(presets@.map_values(|p: UserPreset| p@), name@, 0) is None,
        },
{
    let ghost ps = presets@.map_values(|p: UserPreset| p@);
    let mut i: usize = 0;
    while i < presets.len()
        invariant
            i <= presets@.len(),
            ps == presets@.map_values(|p: UserPreset| p@),
            custom_index(ps, name@, 0) == custom_index(ps, name@, i as int),
        decreases presets.len() - i,
    {
        if str_eq(presets[i].name.as_str(), name) {
            assert(ps[i as int].name == name@);
            return Some(i);
        }
        i = i + 1;
    }
    None
}

/// What preset `name` plays (see [`spec_resolve_preset`]).
pub fn resolve_preset(config: &Config, name: &str) -> (r: Result<(u64, u64, Audio), ConfigError>)
    ensures
        err_view(r) == spec_resolve_preset(config@, name@),
{
    match built_in_named(name) {
        Some(p) => {
            return Ok((p.left, p.right, config.audio));
        },
        None => {},
    }
    match custom_named(&config.presets, name) {
        Some(j) => Ok((config.presets[j].left, config.presets[j].right, config.presets[j].audio)),
        None => Err(ConfigError::UnknownPreset { name: String::from_str(name) }),
    }
}

/// What the top-level nodes have set so far, read in order.
pub struct Setup {
    pub default: Seq<char>,
    pub audio: Audio,
    pub has_default: bool,
    pub has_audio: bool,
}

/// Before any node is read: default preset `calm`, default audio.
pub open spec fn initial_setup() -> Setup {
    Setup { default: "calm"@, audio: spec_default_audio(), has_default: false, has_audio: false }
}

/// Reads the top-level nodes from position `i` on: `default` names the
/// default preset, `audio` sets the global audio, `preset` nodes are checked
/// for their shape only; each of `default` and `audio` may appear once and
/// no other node may appear.
pub open spec fn setup_from(nodes: Seq<NodeView>, i: int, st: Setup) -> Result<Setup, ConfigErrorView>
    decreases nodes.len() - i,
{
    if i < 0 || i >= nodes.len() {
        Ok(st)
    } else {
        let n = nodes[i];
        if n.name == "default"@ {
            match node_problem(n, 0, seq!["preset"], seq![]) {
                Some(e) => Err(ConfigErrorView::Node(e)),
                None => if st.has_default {
                    Err(ConfigErrorView::DuplicateDefault)
                } else {
                    match spec_string(n, Key::Preset) {
                        Err(e) => Err(e),
                        Ok(None) => Err(ConfigErrorView::DefaultNeedsPreset),
                        Ok(Some(d)) => setup_from(
                            nodes,
                            i + 1,
                            Setup {
                                default: d,
                                audio: st.audio,
                                has_default: true,
                                has_audio: st.has_audio,
                            },
                        ),
                    }
                },
            }
        } else if n.name == "audio"@ {
            match node_problem(n, 0, seq![], seq!["volume", "noise"]) {
                Some(e) => Err(ConfigErrorView::Node(e)),
                None => if st.has_audio {
                    Err(ConfigErrorView::DuplicateAudio)
                } else {
                    match spec_parse_audio(n, spec_default_audio()) {
                        Err(e) => Err(e),
                        Ok(a) => setup_from(
                            nodes,
                            i + 1,
                            Setup {
                                default: st.default,
                                audio: a,
                                has_default: st.has_default,
                                has_audio: true,
                            },
                        ),
                    }
                },
            }
        } else if n.name == "preset"@ {
            match node_problem(n, 1, seq!["inherits"], seq!["tone", "volume", "noise"]) {
                Some(e) => Err(ConfigErrorView::Node(e)),
                None => match audio_nodes_problem(n.children, 0) {
                    Some(e) => Err(ConfigErrorView::Node(e)),
                    None => match child(n, "tone"@) {
                        Some(t) => match node_problem(t, 0, seq!["carrier", "beat"], seq![]) {
                            Some(e) => Err(ConfigErrorView::Node(e)),
                            None => setup_from(nodes, i + 1, st),
                        },
                        None => setup_from(nodes, i + 1, st),
                    },
                },
            }
        } else {
            Err(ConfigErrorView::UnknownNode { name: n.name })
        }
    }
}

/// The frequencies of a preset's `tone` node as worked out from its carrier
/// and beat: the encodings of `carrier - beat / 2` and `carrier + beat / 2`,
/// and whether they make a playable pair (both in `20..=1000` Hz, differing
/// by `0.1..=40` Hz). `preset` is the position of the preset among the
/// document's `preset` nodes.
#[derive(Clone, Copy, Debug, PartialEq, Eq, Structural)]
pub struct Tone {
    pub preset: usize,
    pub left: u64,
    pub right: u64,
    pub playable: bool,
}

/// The carrier and beat of the `tone` node of preset number `preset` (its
/// position among the `preset` nodes), whose frequencies are to be worked out.
#[derive(Clone, Copy, Debug, PartialEq, Eq, Structural)]
pub struct ToneRequest {
    pub preset: usize,
    pub carrier: Number,
    pub beat: Number,
}

/// The first of `tones[k..]` for preset number `i`.
pub open spec fn tone_from(tones: Seq<Tone>, i: int, k: int) -> Option<Tone>
    decreases tones.len() - k,
{
    if k < 0 || k >= tones.len() {
        None
    } else if tones[k].preset == i {
        Some(tones[k])
    } else {
        tone_from(tones, i, k + 1)
    }
}

/// The custom presets read from position `i` on, after `ps`: each `preset`
/// node has a valid name of its own (not a built-in's, not an earlier
/// preset's), starts from the global audio or from the preset it inherits,
/// takes its frequencies from its tone or from that preset, its audio from
/// its children, and must be playable.
/// The custom preset that the `preset` node `n` stands for after the
/// presets `ps` (its tone's frequencies are those for preset number
/// `ps.len()`): it has a valid name of
/// its own (not a built-in's, not an earlier preset's), starts from the
/// global audio or from the preset it inherits, takes its frequencies from
/// its tone or from that preset, its audio from its children, and must be
/// playable.
pub open spec fn read_preset(
    n: NodeView,
    default: Seq<char>,
    audio: Audio,
    tones: Seq<Tone>,
    ps: Seq<PresetView>,
) -> Result<PresetView, ConfigErrorView> {
    match first_argument(n) {
        Some(ValueView::Text(s)) => {
            let name = s;
            if !is_valid_preset_name(name) {
                Err(ConfigErrorView::InvalidPresetName)
            } else if built_in_index(name) is Some || custom_index(ps, name, 0) is Some {
                Err(ConfigErrorView::DuplicatePreset { name })
            } else {
                match spec_string(n, Key::Inherits) {
                    Err(e) => Err(e),
                    Ok(inh) => {
                        let inherited = match inh {
                            Some(x) => x,
                            None => Seq::<char>::empty(),
                        };
                        let c = ConfigView { default, audio, presets: ps };
                        let base: Result<(u64, u64, Audio), ConfigErrorView> = if inherited.len()
                            == 0 {
                            Ok((0u64, 0u64, audio))
                        } else {
                            spec_resolve_preset(c, inherited)
                        };
                        match base {
                            Err(e) => Err(e),
                            Ok((bl, br, ba)) => {
                                let freq: Result<(u64, u64, bool), ConfigErrorView> = match child(
                                    n,
                                    "tone"@,
                                ) {
                                    Some(t) => match spec_number(t, Key::Carrier) {
                                        Err(e) => Err(e),
                                        Ok(None) => Err(ConfigErrorView::ToneNeedsCarrier),
                                        Ok(Some(_)) => match spec_number(t, Key::Beat) {
                                            Err(e) => Err(e),
                                            Ok(None) => Err(ConfigErrorView::ToneNeedsBeat),
                                            Ok(Some(_)) => match tone_from(tones, ps.len() as int, 0) {
                                                Some(tn) => Ok((tn.left, tn.right, tn.playable)),
                                                None => Ok((0u64, 0u64, false)),
                                            },
                                        },
                                    },
                                    None => if inherited.len() > 0 {
                                        Ok((bl, br, true))
                                    } else {
                                        Err(ConfigErrorView::PresetNeedsTone { name })
                                    },
                                };
                                match freq {
                                    Err(e) => Err(e),
                                    Ok((l, r, playable)) => match spec_parse_audio(n, ba) {
                                        Err(e) => Err(e),
                                        Ok(a) => if !playable {
                                            Err(
                                                ConfigErrorView::InvalidPreset {
                                                    name,
                                                    cause: PlaybackError::Frequencies,
                                                },
                                            )
                                        } else if !audio_in_range(a) {
                                            Err(
                                                ConfigErrorView::InvalidPreset {
                                                    name,
                                                    cause: PlaybackError::Volumes,
                                                },
                                            )
                                        } else {
                                            Ok(PresetView { name, left: l, right: r, audio: a })
                                        },
                                    },
                                }
                            },
                        }
                    },
                }
            }
        },
        _ => Err(ConfigErrorView::PresetNeedsName),
    }
}

pub open spec fn presets_from(
    nodes: Seq<NodeView>,
    i: int,
    default: Seq<char>,
    audio: Audio,
    tones: Seq<Tone>,
    ps: Seq<PresetView>,
) -> Result<Seq<PresetView>, ConfigErrorView>
    decreases nodes.len() - i,
{
    if i < 0 || i >= nodes.len() {
        Ok(ps)
    } else if nodes[i].name != "preset"@ {
        presets_from(nodes, i + 1, default, audio, tones, ps)
    } else {
        match read_preset(nodes[i], default, audio, tones, ps) {
            Err(e) => Err(e),
            Ok(p) => presets_from(nodes, i + 1, default, audio, tones, ps.push(p)),
        }
    }
}

/// The configuration that a document stands for, given the frequencies
/// worked out for its presets' tones, or the first rule it breaks.
pub open spec fn spec_parse_config(doc: DocumentView, tones: Seq<Tone>) -> Result<
    ConfigView,
    ConfigErrorView,
> {
    match setup_from(doc.nodes, 0, initial_setup()) {
        Err(e) => Err(e),
        Ok(st) => if !audio_in_range(st.audio) {
            Err(ConfigErrorView::InvalidBuiltIn)
        } else {
            match presets_from(doc.nodes, 0, st.default, st.audio, tones, Seq::empty()) {
                Err(e) => Err(e),
                Ok(ps) => {
                    let c = ConfigView { default: st.default, audio: st.audio, presets: ps };
                    if spec_resolve_preset(c, st.default) is Err {
                        Err(ConfigErrorView::InvalidDefault { name: st.default })
                    } else {
                        Ok(c)
                    }
                },
            }
        },
    }
}

/// The model of a parse result.
pub open spec fn config_view(r: Result<Config, ConfigError>) -> Result<ConfigView, ConfigErrorView> {
    match r {
        Ok(c) => Ok(c@),
        Err(e) => Err(e@),
    }
}

/// The tone worked out for the preset at position `i`, if any.
fn find_tone(tones: &[Tone], i: usize) -> (r: Option<Tone>)
    ensures
        r == tone_from(tones@, i as int, 0),
{
    let mut k: usize = 0;
    while k < tones.len()
        invariant
            k <= tones@.len(),
            tone_from(tones@, i as int, 0) == tone_from(tones@, i as int, k as int),
        decreases tones.len() - k,
    {
        if tones[k].preset == i {
            return Some(tones[k]);
        }
        k = k + 1;
    }
    None
}

/// Reads the top-level nodes (see [`setup_from`]); returns the default
/// preset's name and the global audio.
fn read_setup(nodes: &Vec<Node>) -> (r: Result<(String, Audio), ConfigError>)
    ensures
        match (r, setup_from(node_views(nodes@), 0, initial_setup())) {
            (Ok((d, a)), Ok(st)) => d@ == st.default && a == st.audio,
            (Err(e), Err(f)) => e@ == f,
            _ => false,
        },
{
    let mut default = String::from_str("calm");
    let mut audio = default_audio();
    let mut has_default = false;
    let mut has_audio = false;
    let preset_only = ["preset"];
    let none: [&str; 0] = [];
    let audio_children = ["volume", "noise"];
    let inherits_only = ["inherits"];
    let preset_children = ["tone", "volume", "noise"];
    let tone_properties = ["carrier", "beat"];
    assert(preset_only@ =~= seq!["preset"]);
    assert(none@ =~= seq![]);
    assert(audio_children@ =~= seq!["volume", "noise"]);
    assert(inherits_only@ =~= seq!["inherits"]);
    assert(preset_children@ =~= seq!["tone", "volume", "noise"]);
    assert(tone_properties@ =~= seq!["carrier", "beat"]);
    let mut i: usize = 0;
    while i < nodes.len()
        invariant
            i <= nodes@.len(),
            preset_only@ == seq!["preset"],
            none@ == Seq::<&str>::empty(),
            audio_children@ == seq!["volume", "noise"],
            inherits_only@ == seq!["inherits"],
            preset_children@ == seq!["tone", "volume", "noise"],
            tone_properties@ == seq!["carrier", "beat"],
            setup_from(node_views(nodes@), 0, initial_setup()) == setup_from(
                node_views(nodes@),
                i as int,
                Setup { default: default@, audio, has_default, has_audio },
            ),
        decreases nodes.len() - i,
    {
        let n = &nodes[i];
        if str_eq(n.name.as_str(), "default") {
            match validate_node(n, 0, &preset_only, &none) {
                Err(f) => {
                    return Err(ConfigError::Node(f));
                },
                Ok(()) => {},
            }
            if has_default {
                return Err(ConfigError::DuplicateDefault);
            }
            match string(n, Key::Preset)? {
                None => {
                    return Err(ConfigError::DefaultNeedsPreset);
                },
                Some(d) => {
                    default = d.clone();
                    has_default = true;
                },
            }
        } else if str_eq(n.name.as_str(), "audio") {
            match validate_node(n, 0, &none, &audio_children) {
                Err(f) => {
                    return Err(ConfigError::Node(f));
                },
                Ok(()) => {},
            }
            if has_audio {
                return Err(ConfigError::DuplicateAudio);
            }
            audio = parse_audio(n, default_audio())?;
            has_audio = true;
        } else if str_eq(n.name.as_str(), "preset") {
            match validate_node(n, 1, &inherits_only, &preset_children) {
                Err(f) => {
                    return Err(ConfigError::Node(f));
                },
                Ok(()) => {},
            }
            match validate_audio_nodes(n) {
                Err(f) => {
                    return Err(ConfigError::Node(f));
                },
                Ok(()) => {},
            }
            match get_child(n, "tone") {
                Some(t) => {
                    match validate_node(t, 0, &tone_properties, &none) {
                        Err(f) => {
                            return Err(ConfigError::Node(f));
                        },
                        Ok(()) => {},
                    }
                },
                None => {},
            }
        } else {
            return Err(ConfigError::UnknownNode { name: n.name.clone() });
        }
        i = i + 1;
    }
    Ok((default, audio))
}

/// Reads the custom presets (see [`presets_from`]) into a configuration
/// with the given default preset and global audio.
fn read_presets(nodes: &Vec<Node>, default: &String, audio: Audio, tones: &[Tone]) -> (r: Result<
    Config,
    ConfigError,
>)
    ensures
        match (r, presets_from(node_views(nodes@), 0, default@, audio, tones@, Seq::empty())) {
            (Ok(c), Ok(ps)) => c@ == ConfigView { default: default@, audio, presets: ps },
            (Err(e), Err(f)) => e@ == f,
            _ => false,
        },
{
    let ghost d0 = default@;
    let mut config = Config { default: default.clone(), audio, presets: Vec::new() };
    assert(config@.presets =~= Seq::<PresetView>::empty());
    let mut i: usize = 0;
    while i < nodes.len()
        invariant
            i <= nodes@.len(),
            d0 == default@,
            config@.default == d0,
            config@.audio == audio,
            presets_from(node_views(nodes@), 0, d0, audio, tones@, Seq::empty()) == presets_from(
                node_views(nodes@),
                i as int,
                d0,
                audio,
                tones@,
                config@.presets,
            ),
        decreases nodes.len() - i,
    {
        let n = &nodes[i];
        if str_eq(n.name.as_str(), "preset") {
            assert(node_views(nodes@)[i as int].name == "preset"@);
            let name: &String = match get_first_argument(n) {
                Some(Value::Text(s)) => s,
                _ => {
                    return Err(ConfigError::PresetNeedsName);
                },
            };
            if !valid_preset_name(name.as_str()) {
                return Err(ConfigError::InvalidPresetName);
            }
            if built_in_named(name.as_str()).is_some() || custom_named(
                &config.presets,
                name.as_str(),
            ).is_some() {
                return Err(ConfigError::DuplicatePreset { name: name.clone() });
            }
            let inherited = string(n, Key::Inherits)?;
            let no_base = match inherited {
                None => true,
                Some(x) => x.as_str().unicode_len() == 0,
            };
            let (bl, br, ba) = if no_base {
                (0u64, 0u64, config.audio)
            } else {
                resolve_preset(&config, inherited.unwrap().as_str())?
            };
            let (l, r, playable) = match get_child(n, "tone") {
                Some(t) => {
                    if number(t, Key::Carrier)?.is_none() {
                        return Err(ConfigError::ToneNeedsCarrier);
                    }
                    if number(t, Key::Beat)?.is_none() {
                        return Err(ConfigError::ToneNeedsBeat);
                    }
                    match find_tone(tones, config.presets.len()) {
                        Some(tn) => (tn.left, tn.right, tn.playable),
                        None => (0u64, 0u64, false),
                    }
                },
                None => {
                    if no_base {
                        return Err(ConfigError::PresetNeedsTone { name: name.clone() });
                    }
                    (bl, br, true)
                },
            };
            let a = parse_audio(n, ba)?;
            if !playable {
                return Err(
                    ConfigError::InvalidPreset { name: name.clone(), cause: PlaybackError::Frequencies },
                );
            }
            if !(a.volume.in_range() && a.noise_volume.in_range()) {
                return Err(
                    ConfigError::InvalidPreset { name: name.clone(), cause: PlaybackError::Volumes },
                );
            }
            let ghost before = config@.presets;
            config.presets.push(UserPreset { name: name.clone(), left: l, right: r, audio: a });
            assert(config@.presets =~= before.push(
                PresetView { name: name@, left: l, right: r, audio: a },
            ));
        }
        i = i + 1;
    }
    Ok(config)
}

/// Reads a configuration document. `tones` holds the frequencies worked out
/// for the presets' tones, as [`tone_requests`] asks for them; a preset with
/// a tone but no entry in `tones` counts as unplayable.
pub fn parse_config(doc: &Document, tones: &[Tone]) -> (r: Result<Config, ConfigError>)
    ensures
        config_view(r) == spec_parse_config(doc@, tones@),
{
    let (default, audio) = read_setup(&doc.nodes)?;
    if !(audio.volume.in_range() && audio.noise_volume.in_range()) {
        return Err(ConfigError::InvalidBuiltIn);
    }
    let config = read_presets(&doc.nodes, &default, audio, tones)?;
    match resolve_preset(&config, config.default.as_str()) {
        Err(_) => Err(ConfigError::InvalidDefault { name: config.default.clone() }),
        Ok(_) => Ok(config),
    }
}

/// The configuration that the KDL text `text` stands for, given the
/// frequencies worked out for its presets' tones, or why it stands for none.
pub open spec fn spec_parse_config_text(text: Seq<char>, tones: Seq<Tone>) -> Result<
    ConfigView,
    ConfigErrorView,
> {
    match kdl_document(text) {
        None => Err(ConfigErrorView::InvalidKdl),
        Some(d) => spec_parse_config(d, tones),
    }
}

/// Reads a configuration from its KDL text (see [`spec_parse_config_text`]);
/// `tones` holds the frequencies worked out for what
/// [`text_tone_requests`] asks for.
pub fn parse_config_text(text: &str, tones: &[Tone]) -> (r: Result<Config, ConfigError>)
    ensures
        config_view(r) == spec_parse_config_text(text@, tones@),
{
    match parse_kdl(text) {
        None => Err(ConfigError::InvalidKdl),
        Some(doc) => parse_config(&doc, tones),
    }
}

/// The tones whose frequencies [`parse_config_text`] needs for `text`, or
/// `None` where the text is not a KDL document.
pub fn text_tone_requests(text: &str) -> (r: Option<Vec<ToneRequest>>)
    ensures
        match kdl_document(text@) {
            None => r is None,
            Some(d) => r matches Some(v) && v@ == requests_from(d.nodes, 0, 0),
        },
{
    match parse_kdl(text) {
        None => None,
        Some(doc) => Some(tone_requests(&doc)),
    }
}

/// The tones to work out, from position `i` on, where `k` presets came
/// before: one request for each `preset` node whose first `tone` child has
/// numbers for `carrier` and `beat`, in document order, numbered by the
/// preset's position among the `preset` nodes.
pub open spec fn requests_from(nodes: Seq<NodeView>, i: int, k: int) -> Seq<ToneRequest>
    decreases nodes.len() - i,
{
    if i < 0 || i >= nodes.len() {
        Seq::empty()
    } else {
        let n = nodes[i];
        if n.name == "preset"@ {
            let rest = requests_from(nodes, i + 1, k + 1);
            match child(n, "tone"@) {
                Some(t) => match (property(t, "carrier"@), property(t, "beat"@)) {
                    (Some(ValueView::Number(c)), Some(ValueView::Number(b))) => seq![
                        ToneRequest { preset: k as usize, carrier: c, beat: b },
                    ] + rest,
                    _ => rest,
                },
                None => rest,
            }
        } else {
            requests_from(nodes, i + 1, k)
        }
    }
}

/// The tones whose frequencies [`parse_config`] needs (see [`requests_from`]).
pub fn tone_requests(doc: &Document) -> (r: Vec<ToneRequest>)
    ensures
        r@ == requests_from(doc@.nodes, 0, 0),
{
    let mut out: Vec<ToneRequest> = Vec::new();
    let mut i: usize = 0;
    let mut k: usize = 0;
    while i < doc.nodes.len()
        invariant
            i <= doc.nodes@.len(),
            k <= i,
            requests_from(doc@.nodes, 0, 0) == out@ + requests_from(doc@.nodes, i as int, k as int),
        decreases doc.nodes.len() - i,
    {
        let n = &doc.nodes[i];
        let ghost before = out@;
        if str_eq(n.name.as_str(), "preset") {
            match get_child(n, "tone") {
                Some(t) => {
                    match (get_property(t, "carrier"), get_property(t, "beat")) {
                        (Some(Value::Number(c)), Some(Value::Number(b))) => {
                            out.push(ToneRequest { preset: k, carrier: *c, beat: *b });
                            assert(out@ + requests_from(doc@.nodes, i + 1, k + 1) =~= before
                                + requests_from(doc@.nodes, i as int, k as int));
                        },
                        _ => {},
                    }
                },
                None => {},
            }
            k = k + 1;
        }
        i = i + 1;
    }
    assert(out@ + requests_from(doc@.nodes, i as int, k as int) =~= out@);
    out
}

/// What a player was asked to play: a preset, optionally overridden.
/// Frequencies are encodings of 64-bit floats.
#[derive(Debug)]
pub struct Options {
    pub preset: Option<String>,
    pub carrier: Option<u64>,
    pub beat: Option<u64>,
    pub left: Option<u64>,
    pub right: Option<u64>,
    pub volume: Option<Level>,
    pub noise: Option<Noise>,
    pub noise_volume: Option<Level>,
}

/// The model of [`Options`].
pub struct OptionsView {
    pub preset: Option<Seq<char>>,
    pub carrier: Option<u64>,
    pub beat: Option<u64>,
    pub left: Option<u64>,
    pub right: Option<u64>,
    pub volume: Option<Level>,
    pub noise: Option<Noise>,
    pub noise_volume: Option<Level>,
}

impl View for Options {
    type V = OptionsView;

    open spec fn view(&self) -> OptionsView {
        OptionsView {
            preset: match self.preset {
                Some(p) => Some(p@),
                None => None,
            },
            carrier: self.carrier,
            beat: self.beat,
            left: self.left,
            right: self.right,
            volume: self.volume,
            noise: self.noise,
            noise_volume: self.noise_volume,
        }
    }
}

impl Default for Options {
    fn default() -> (r: Options)
        ensures
            r@ == (OptionsView {
                preset: None,
                carrier: None,
                beat: None,
                left: None,
                right: None,
                volume: None,
                noise: None,
                noise_volume: None,
            }),
    {
        Options {
            preset: None,
            carrier: None,
            beat: None,
            left: None,
            right: None,
            volume: None,
            noise: None,
            noise_volume: None,
        }
    }
}

impl Options {
    /// An independent copy.
    pub fn duplicate(&self) -> (r: Options)
        ensures
            r@ == self@,
    {
        Options {
            preset: match &self.preset {
                Some(p) => Some(p.clone()),
                None => None,
            },
            carrier: self.carrier,
            beat: self.beat,
            left: self.left,
            right: self.right,
            volume: self.volume,
            noise: self.noise,
            noise_volume: self.noise_volume,
        }
    }
}

/// Options that select the preset `name` and override nothing.
pub open spec fn spec_command_options(name: Seq<char>) -> OptionsView {
    OptionsView {
        preset: Some(name),
        carrier: None,
        beat: None,
        left: None,
        right: None,
        volume: None,
        noise: None,
        noise_volume: None,
    }
}

/// Options that select the preset `name` and override nothing.
pub fn command_options(name: &str) -> (r: Options)
    ensures
        r@ == spec_command_options(name@),
{
    Options {
        preset: Some(String::from_str(name)),
        carrier: None,
        beat: None,
        left: None,
        right: None,
        volume: None,
        noise: None,
        noise_volume: None,
    }
}

/// Where the frequencies to play come from. Values are encodings of 64-bit
/// floats.
#[derive(Clone, Copy, Debug, PartialEq, Eq, Structural)]
pub enum Frequencies {
    /// The selected preset's left and right frequencies.
    Preset { left: u64, right: u64 },
    /// Left and right frequencies given directly.
    Ears { left: u64, right: u64 },
    /// A carrier and a beat, to play `carrier ∓ beat / 2`.
    Tone { carrier: u64, beat: u64 },
}

/// What to play: frequencies and audio settings.
#[derive(Clone, Copy, Debug, PartialEq, Eq, Structural)]
pub struct Resolution {
    pub frequencies: Frequencies,
    pub audio: Audio,
}

/// The name of the preset that options select in a configuration.
pub open spec fn selected_preset(o: OptionsView, c: ConfigView) -> Seq<char> {
    match o.preset {
        Some(p) => p,
        None => c.default,
    }
}

/// What options select in a configuration, before any range check: the
/// selected preset's audio with the overridden settings replaced; its
/// frequencies unless either both ear frequencies or both carrier and beat
/// are given. Mixing ear frequencies with carrier/beat, or giving one of a
/// pair alone, is refused.
pub open spec fn spec_selection(o: OptionsView, c: ConfigView) -> Result<Resolution, ConfigErrorView> {
    match spec_resolve_preset(c, selected_preset(o, c)) {
        Err(e) => Err(e),
        Ok((pl, pr, a0)) => {
            let ears = o.left is Some || o.right is Some;
            let tone = o.carrier is Some || o.beat is Some;
            if ears && tone {
                Err(ConfigErrorView::EarsAndCarrier)
            } else {
                let f: Result<Frequencies, ConfigErrorView> = match (
                    o.left,
                    o.right,
                    o.carrier,
                    o.beat,
                ) {
                    (Some(l), Some(r), _, _) => Ok(Frequencies::Ears { left: l, right: r }),
                    (None, None, Some(cr), Some(b)) => Ok(Frequencies::Tone { carrier: cr, beat: b }),
                    (None, None, None, None) => Ok(Frequencies::Preset { left: pl, right: pr }),
                    (Some(_), None, _, _) => Err(ConfigErrorView::EarsApart),
                    (None, Some(_), _, _) => Err(ConfigErrorView::EarsApart),
                    _ => Err(ConfigErrorView::CarrierApart),
                };
                match f {
                    Err(e) => Err(e),
                    Ok(f) => Ok(
                        Resolution {
                            frequencies: f,
                            audio: Audio {
                                volume: match o.volume {
                                    Some(v) => v,
                                    None => a0.volume,
                                },
                                noise: match o.noise {
                                    Some(n) => n,
                                    None => a0.noise,
                                },
                                noise_volume: match o.noise_volume {
                                    Some(v) => v,
                                    None => a0.noise_volume,
                                },
                            },
                        },
                    ),
                }
            }
        },
    }
}

/// What `options` select in `config` (see [`spec_selection`]), before the
/// range check that [`resolve`] makes.
pub fn select(options: &Options, config: &Config) -> (r: Result<Resolution, ConfigError>)
    ensures
        err_view(r) == spec_selection(options@, config@),
{
    let name: &str = match &options.preset {
        Some(p) => p.as_str(),
        None => config.default.as_str(),
    };
    let (pl, pr, a0) = resolve_preset(config, name)?;
    let ears = options.left.is_some() || options.right.is_some();
    let tone = options.carrier.is_some() || options.beat.is_some();
    if ears && tone {
        return Err(ConfigError::EarsAndCarrier);
    }
    let f = match (options.left, options.right, options.carrier, options.beat) {
        (Some(l), Some(r), _, _) => Frequencies::Ears { left: l, right: r },
        (None, None, Some(c), Some(b)) => Frequencies::Tone { carrier: c, beat: b },
        (None, None, None, None) => Frequencies::Preset { left: pl, right: pr },
        (Some(_), None, _, _) => {
            return Err(ConfigError::EarsApart);
        },
        (None, Some(_), _, _) => {
            return Err(ConfigError::EarsApart);
        },
        _ => {
            return Err(ConfigError::CarrierApart);
        },
    };
    let audio = Audio {
        volume: match options.volume {
            Some(v) => v,
            None => a0.volume,
        },
        noise: match options.noise {
            Some(n) => n,
            None => a0.noise,
        },
        noise_volume: match options.noise_volume {
            Some(v) => v,
            None => a0.noise_volume,
        },
    };
    Ok(Resolution { frequencies: f, audio })
}

/// The range check of what is to be played: the frequencies first (whether
/// they are a playable pair is `frequencies_ok`), then both volumes.
pub open spec fn spec_check_playback(frequencies_ok: bool, audio: Audio) -> Result<(), ConfigErrorView> {
    if !frequencies_ok {
        Err(ConfigErrorView::Playback { cause: PlaybackError::Frequencies })
    } else if !audio_in_range(audio) {
        Err(ConfigErrorView::Playback { cause: PlaybackError::Volumes })
    } else {
        Ok(())
    }
}

/// Checks what is to be played (see [`spec_check_playback`]).
pub fn check_playback(frequencies_ok: bool, audio: Audio) -> (r: Result<(), ConfigError>)
    ensures
        err_view(r) == spec_check_playback(frequencies_ok, audio),
{
    if !frequencies_ok {
        return Err(ConfigError::Playback { cause: PlaybackError::Frequencies });
    }
    if !(audio.volume.in_range() && audio.noise_volume.in_range()) {
        return Err(ConfigError::Playback { cause: PlaybackError::Volumes });
    }
    Ok(())
}

/// What options make of a configuration: what they select (see
/// [`spec_selection`]), refused unless it can be played. `frequencies_ok`
/// says whether the frequencies selected form a playable pair (both in
/// `20..=1000` Hz, differing by `0.1..=40` Hz); they are checked before the
/// volumes, which must lie in `0..=0.25`.
pub open spec fn spec_resolve(o: OptionsView, c: ConfigView, frequencies_ok: bool) -> Result<
    Resolution,
    ConfigErrorView,
> {
    match spec_selection(o, c) {
        Err(e) => Err(e),
        Ok(res) => match spec_check_playback(frequencies_ok, res.audio) {
            Err(e) => Err(e),
            Ok(()) => Ok(res),
        },
    }
}

/// What `options` make of `config` (see [`spec_resolve`]); `frequencies_ok`
/// is the verdict on the frequencies that [`select`] gives for them.
pub fn resolve(options: &Options, config: &Config, frequencies_ok: bool) -> (r: Result<
    Resolution,
    ConfigError,
>)
    ensures
        err_view(r) == spec_resolve(options@, config@, frequencies_ok),
{
    let res = select(options, config)?;
    check_playback(frequencies_ok, res.audio)?;
    Ok(res)
}

/// What is resolved can be played: its volumes lie in `0..=0.25` and its
/// frequencies were found playable.
pub proof fn lemma_resolve_checked(o: OptionsView, c: ConfigView, frequencies_ok: bool)
    ensures
        spec_resolve(o, c, frequencies_ok) matches Ok(res) ==> {
            &&& frequencies_ok
            &&& audio_in_range(res.audio)
            &&& spec_selection(o, c) == Ok::<Resolution, ConfigErrorView>(res)
        },
        (spec_selection(o, c) matches Ok(res) && frequencies_ok && audio_in_range(res.audio))
            ==> spec_resolve(o, c, frequencies_ok) == spec_selection(o, c),
        (spec_selection(o, c) is Ok && !frequencies_ok) ==> spec_resolve(o, c, frequencies_ok)
            == Err::<Resolution, ConfigErrorView>(
            ConfigErrorView::Playback { cause: PlaybackError::Frequencies },
        ),
        (spec_selection(o, c) matches Ok(res) && frequencies_ok && !audio_in_range(res.audio))
            ==> spec_resolve(o, c, frequencies_ok) == Err::<Resolution, ConfigErrorView>(
            ConfigErrorView::Playback { cause: PlaybackError::Volumes },
        ),
        spec_selection(o, c) is Err ==> spec_resolve(o, c, frequencies_ok) == spec_selection(o, c),
{
}

/// Custom presets as a checked configuration holds them: valid names, none
/// a built-in's name, no two alike, and volumes in range.
pub open spec fn presets_ok(ps: Seq<PresetView>) -> bool {
    &&& forall|k: int|
        0 <= k < ps.len() ==> {
            &&& is_valid_preset_name(#[trigger] ps[k].name)
            &&& built_in_index(ps[k].name) is None
            &&& audio_in_range(ps[k].audio)
        }
    &&& forall|k: int, m: int| 0 <= k < m < ps.len() ==> #[trigger] ps[k].name != #[trigger] ps[m].name
}

proof fn lemma_custom_index_none(ps: Seq<PresetView>, name: Seq<char>, i: int)
    requires
        0 <= i,
        custom_index(ps, name, i) is None,
    ensures
        forall|k: int| i <= k < ps.len() ==> #[trigger] ps[k].name != name,
    decreases ps.len() - i,
{
    if i < ps.len() {
        lemma_custom_index_none(ps, name, i + 1);
    }
}

proof fn lemma_presets_from_ok(
    nodes: Seq<NodeView>,
    i: int,
    default: Seq<char>,
    audio: Audio,
    tones: Seq<Tone>,
    ps: Seq<PresetView>,
)
    requires
        presets_ok(ps),
    ensures
        presets_from(nodes, i, default, audio, tones, ps) matches Ok(r) ==> presets_ok(r),
    decreases nodes.len() - i,
{
    if 0 <= i < nodes.len() {
        if nodes[i].name != "preset"@ {
            lemma_presets_from_ok(nodes, i + 1, default, audio, tones, ps);
        } else if let Ok(p) = read_preset(nodes[i], default, audio, tones, ps) {
            lemma_read_preset_facts(nodes[i], default, audio, tones, ps);
            lemma_custom_index_none(ps, p.name, 0);
            let next = ps.push(p);
            assert(presets_ok(next)) by {
                assert forall|k: int, m: int|
                    0 <= k < m < next.len() implies #[trigger] next[k].name
                    != #[trigger] next[m].name by {
                    if m == ps.len() {
                        assert(ps[k].name != p.name);
                    }
                }
            }
            lemma_presets_from_ok(nodes, i + 1, default, audio, tones, next);
        }
    }
}

/// What a successfully read configuration guarantees: its default preset
/// exists; its custom presets have valid names of their own, no two alike
/// and none a built-in's; and every volume in it is in range.
pub proof fn lemma_config_checked(doc: DocumentView, tones: Seq<Tone>)
    ensures
        spec_parse_config(doc, tones) matches Ok(c) ==> {
            &&& spec_resolve_preset(c, c.default) is Ok
            &&& presets_ok(c.presets)
            &&& audio_in_range(c.audio)
        },
{
    if let Ok(st) = setup_from(doc.nodes, 0, initial_setup()) {
        lemma_presets_from_ok(doc.nodes, 0, st.default, st.audio, tones, Seq::empty());
    }
}

/// A `preset` node of a shape that reading the top-level nodes accepts.
pub open spec fn preset_shape_ok(n: NodeView) -> bool {
    &&& n.name == "preset"@
    &&& node_problem(n, 1, seq!["inherits"], seq!["tone", "volume", "noise"]) is None
    &&& audio_nodes_problem(n.children, 0) is None
    &&& child(n, "tone"@) matches Some(t) ==> node_problem(t, 0, seq!["carrier", "beat"], seq![])
        is None
}

proof fn lemma_setup_suffix(a: Seq<NodeView>, i: int, b: Seq<NodeView>, j: int, st: Setup)
    requires
        0 <= i <= a.len(),
        0 <= j <= b.len(),
        a.len() - i == b.len() - j,
        forall|m: int| i <= m < a.len() ==> #[trigger] a[m] == b[m - i + j],
    ensures
        setup_from(a, i, st) == setup_from(b, j, st),
    decreases a.len() - i,
{
    if i < a.len() {
        assert(a[i] == b[j]);
        assert forall|s: Setup| #[trigger] setup_from(a, i + 1, s) == setup_from(b, j + 1, s) by {
            lemma_setup_suffix(a, i + 1, b, j + 1, s);
        }
        let n = a[i];
        if let Ok(Some(d)) = spec_string(n, Key::Preset) {
            let s2 = Setup { default: d, audio: st.audio, has_default: true, has_audio: st.has_audio };
            assert(setup_from(a, i + 1, s2) == setup_from(b, j + 1, s2));
        }
        if let Ok(au) = spec_parse_audio(n, spec_default_audio()) {
            let s3 = Setup { default: st.default, audio: au, has_default: st.has_default, has_audio: true };
            assert(setup_from(a, i + 1, s3) == setup_from(b, j + 1, s3));
        }
        assert(setup_from(a, i + 1, st) == setup_from(b, j + 1, st));
    } else {
        assert(j == b.len());
    }
}

proof fn lemma_setup_skips_preset(nodes: Seq<NodeView>, i: int, k: int, p: NodeView, st: Setup)
    requires
        0 <= i <= k <= nodes.len(),
        preset_shape_ok(p),
    ensures
        setup_from(nodes.insert(k, p), i, st) == setup_from(nodes, i, st),
    decreases k - i,
{
    let ins = nodes.insert(k, p);
    if i == k {
        reveal_strlit("preset");
        reveal_strlit("default");
        reveal_strlit("audio");
        assert(ins[k] == p);
        assert forall|m: int| k + 1 <= m < ins.len() implies #[trigger] ins[m] == nodes[m - (k
            + 1) + k] by {}
        lemma_setup_suffix(ins, k + 1, nodes, k, st);
        assert("preset"@ =~= seq!['p', 'r', 'e', 's', 'e', 't']);
        assert("default"@ =~= seq!['d', 'e', 'f', 'a', 'u', 'l', 't']);
        assert("audio"@ =~= seq!['a', 'u', 'd', 'i', 'o']);
    } else {
        assert(ins[i] == nodes[i]);
        assert forall|s: Setup| #[trigger] setup_from(ins, i + 1, s) == setup_from(nodes, i + 1, s) by {
            lemma_setup_skips_preset(nodes, i + 1, k, p, s);
        }
        let n = nodes[i];
        if let Ok(Some(d)) = spec_string(n, Key::Preset) {
            let s2 = Setup { default: d, audio: st.audio, has_default: true, has_audio: st.has_audio };
            assert(setup_from(ins, i + 1, s2) == setup_from(nodes, i + 1, s2));
        }
        if let Ok(au) = spec_parse_audio(n, spec_default_audio()) {
            let s3 = Setup { default: st.default, audio: au, has_default: st.has_default, has_audio: true };
            assert(setup_from(ins, i + 1, s3) == setup_from(nodes, i + 1, s3));
        }
        assert(setup_from(ins, i + 1, st) == setup_from(nodes, i + 1, st));
    }
}

/// The global audio settings and the default preset do not depend on where
/// `preset` nodes stand among the other nodes: inserting a well-formed
/// `preset` node anywhere leaves what the top-level nodes set unchanged, so
/// every preset starts from the same global audio.
pub proof fn lemma_global_audio_order_independent(nodes: Seq<NodeView>, k: int, p: NodeView)
    requires
        0 <= k <= nodes.len(),
        preset_shape_ok(p),
    ensures
        setup_from(nodes.insert(k, p), 0, initial_setup()) == setup_from(
            nodes,
            0,
            initial_setup(),
        ),
{
    lemma_setup_skips_preset(nodes, 0, k, p, initial_setup());
}

/// The `preset` nodes among `nodes[i..]`, in document order.
pub open spec fn preset_nodes_from(nodes: Seq<NodeView>, i: int) -> Seq<NodeView>
    decreases nodes.len() - i,
{
    if i < 0 || i >= nodes.len() {
        Seq::empty()
    } else if nodes[i].name == "preset"@ {
        seq![nodes[i]] + preset_nodes_from(nodes, i + 1)
    } else {
        preset_nodes_from(nodes, i + 1)
    }
}

/// A `preset` node that neither inherits nor sets any audio: it plays with
/// the global audio.
pub open spec fn plain_preset(n: NodeView) -> bool {
    &&& property(n, "inherits"@) is None
    &&& child(n, "volume"@) is None
    &&& child(n, "noise"@) is None
}

/// What the presets read from position `i` on add to `ps`: one preset per
/// `preset` node, in document order, named by the node's first argument; a
/// plain preset gets the global audio.
pub open spec fn presets_follow(
    nodes: Seq<NodeView>,
    i: int,
    audio: Audio,
    ps: Seq<PresetView>,
    out: Seq<PresetView>,
) -> bool {
    let pn = preset_nodes_from(nodes, i);
    &&& out.len() == ps.len() + pn.len()
    &&& out.take(ps.len() as int) == ps
    &&& forall|j: int|
        0 <= j < pn.len() ==> {
            &&& first_argument(#[trigger] pn[j]) == Some(ValueView::Text(out[ps.len() + j].name))
            &&& plain_preset(pn[j]) ==> out[ps.len() + j].audio == audio
        }
}

proof fn lemma_follow_step(
    nodes: Seq<NodeView>,
    i: int,
    audio: Audio,
    ps: Seq<PresetView>,
    p: PresetView,
    out: Seq<PresetView>,
)
    requires
        0 <= i < nodes.len(),
        nodes[i].name == "preset"@,
        first_argument(nodes[i]) == Some(ValueView::Text(p.name)),
        plain_preset(nodes[i]) ==> p.audio == audio,
        presets_follow(nodes, i + 1, audio, ps.push(p), out),
    ensures
        presets_follow(nodes, i, audio, ps, out),
{
    let pn = preset_nodes_from(nodes, i);
    let rest = preset_nodes_from(nodes, i + 1);
    assert(pn =~= seq![nodes[i]] + rest);
    let k = ps.len() as int;
    assert(out.take(k + 1) == ps.push(p));
    assert forall|m: int| 0 <= m < k implies out.take(k)[m] == ps[m] by {
        assert(out.take(k + 1)[m] == ps.push(p)[m]);
    }
    assert(out.take(k) =~= ps);
    assert(out[k] == p) by {
        assert(out.take(k + 1)[k] == ps.push(p)[k]);
    }
    assert forall|j: int| 0 <= j < pn.len() implies {
        &&& first_argument(#[trigger] pn[j]) == Some(ValueView::Text(out[ps.len() + j].name))
        &&& plain_preset(pn[j]) ==> out[ps.len() + j].audio == audio
    } by {
        if j > 0 {
            assert(pn[j] == rest[j - 1]);
            assert(ps.push(p).len() + (j - 1) == ps.len() + j);
        }
    }
}

/// A preset read from a node is named by the node's first argument, with a
/// valid name of its own and volumes in range, and a plain preset gets the
/// global audio.
proof fn lemma_read_preset_facts(
    n: NodeView,
    default: Seq<char>,
    audio: Audio,
    tones: Seq<Tone>,
    ps: Seq<PresetView>,
)
    ensures
        read_preset(n, default, audio, tones, ps) matches Ok(p) ==> {
            &&& first_argument(n) == Some(ValueView::Text(p.name))
            &&& plain_preset(n) ==> p.audio == audio
            &&& is_valid_preset_name(p.name)
            &&& built_in_index(p.name) is None
            &&& custom_index(ps, p.name, 0) is None
            &&& audio_in_range(p.audio)
        },
{
}

proof fn lemma_presets_follow(
    nodes: Seq<NodeView>,
    i: int,
    default: Seq<char>,
    audio: Audio,
    tones: Seq<Tone>,
)
    requires
        0 <= i,
    ensures
        forall|ps: Seq<PresetView>|
            #[trigger] presets_from(nodes, i, default, audio, tones, ps) is Ok ==> presets_follow(
                nodes,
                i,
                audio,
                ps,
                presets_from(nodes, i, default, audio, tones, ps)->Ok_0,
            ),
    decreases nodes.len() - i,
{
    if i >= nodes.len() {
        assert forall|ps: Seq<PresetView>|
            #[trigger] presets_from(nodes, i, default, audio, tones, ps) is Ok implies presets_follow(
                nodes,
                i,
                audio,
                ps,
                presets_from(nodes, i, default, audio, tones, ps)->Ok_0,
            ) by {
            let out = presets_from(nodes, i, default, audio, tones, ps)->Ok_0;
            assert(out.take(ps.len() as int) =~= ps);
        }
    } else {
        lemma_presets_follow(nodes, i + 1, default, audio, tones);
        assert forall|ps: Seq<PresetView>|
            #[trigger] presets_from(nodes, i, default, audio, tones, ps) is Ok implies presets_follow(
                nodes,
                i,
                audio,
                ps,
                presets_from(nodes, i, default, audio, tones, ps)->Ok_0,
            ) by {
            let out = presets_from(nodes, i, default, audio, tones, ps)->Ok_0;
            if nodes[i].name != "preset"@ {
                assert(presets_from(nodes, i, default, audio, tones, ps) == presets_from(
                    nodes,
                    i + 1,
                    default,
                    audio,
                    tones,
                    ps,
                ));
            } else {
                let p = read_preset(nodes[i], default, audio, tones, ps)->Ok_0;
                lemma_read_preset_facts(nodes[i], default, audio, tones, ps);
                assert(presets_from(nodes, i, default, audio, tones, ps) == presets_from(
                    nodes,
                    i + 1,
                    default,
                    audio,
                    tones,
                    ps.push(p),
                ));
                lemma_follow_step(nodes, i, audio, ps, p, out);
            }
        }
    }
}

/// What a configuration read from a document holds of its custom presets:
/// one per `preset` node, in document order, each named by its node's first
/// argument; and a preset that neither inherits nor sets any audio plays
/// with the global audio, wherever the `audio` node stands.
pub proof fn lemma_presets_in_document_order(doc: DocumentView, tones: Seq<Tone>)
    ensures
        spec_parse_config(doc, tones) matches Ok(c) ==> {
            let pn = preset_nodes_from(doc.nodes, 0);
            &&& c.presets.len() == pn.len()
            &&& forall|j: int|
                0 <= j < pn.len() ==> {
                    &&& first_argument(#[trigger] pn[j]) == Some(ValueView::Text(c.presets[j].name))
                    &&& plain_preset(pn[j]) ==> c.presets[j].audio == c.audio
                }
        },
{
    if let Ok(st) = setup_from(doc.nodes, 0, initial_setup()) {
        lemma_presets_follow(doc.nodes, 0, st.default, st.audio, tones);
        if let Ok(ps) = presets_from(doc.nodes, 0, st.default, st.audio, tones, Seq::empty()) {
            assert(presets_follow(doc.nodes, 0, st.audio, Seq::empty(), ps));
        }
    }
}

/// The custom presets that the `preset` nodes `pn` stand for, in order,
/// after `ps`.
pub open spec fn presets_over(
    pn: Seq<NodeView>,
    default: Seq<char>,
    audio: Audio,
    tones: Seq<Tone>,
    ps: Seq<PresetView>,
) -> Result<Seq<PresetView>, ConfigErrorView>
    decreases pn.len(),
{
    if pn.len() == 0 {
        Ok(ps)
    } else {
        match read_preset(pn[0], default, audio, tones, ps) {
            Err(e) => Err(e),
            Ok(p) => presets_over(pn.drop_first(), default, audio, tones, ps.push(p)),
        }
    }
}

proof fn lemma_presets_over(
    nodes: Seq<NodeView>,
    i: int,
    default: Seq<char>,
    audio: Audio,
    tones: Seq<Tone>,
)
    requires
        0 <= i,
    ensures
        forall|ps: Seq<PresetView>|
            #[trigger] presets_from(nodes, i, default, audio, tones, ps) == presets_over(
                preset_nodes_from(nodes, i),
                default,
                audio,
                tones,
                ps,
            ),
    decreases nodes.len() - i,
{
    if i < nodes.len() {
        lemma_presets_over(nodes, i + 1, default, audio, tones);
        assert forall|ps: Seq<PresetView>|
            #[trigger] presets_from(nodes, i, default, audio, tones, ps) == presets_over(
                preset_nodes_from(nodes, i),
                default,
                audio,
                tones,
                ps,
            ) by {
            if nodes[i].name == "preset"@ {
                let rest = preset_nodes_from(nodes, i + 1);
                let pn = preset_nodes_from(nodes, i);
                assert(pn == seq![nodes[i]] + rest);
                assert(pn.drop_first() =~= rest);
                assert(pn[0] == nodes[i]);
                match read_preset(nodes[i], default, audio, tones, ps) {
                    Err(_) => {},
                    Ok(p) => {
                        assert(presets_from(nodes, i + 1, default, audio, tones, ps.push(p))
                            == presets_over(rest, default, audio, tones, ps.push(p)));
                        assert(presets_over(pn, default, audio, tones, ps) == presets_over(
                            rest,
                            default,
                            audio,
                            tones,
                            ps.push(p),
                        ));
                    },
                }
            } else {
                assert(preset_nodes_from(nodes, i) == preset_nodes_from(nodes, i + 1));
                assert(presets_from(nodes, i, default, audio, tones, ps) == presets_from(
                    nodes,
                    i + 1,
                    default,
                    audio,
                    tones,
                    ps,
                ));
            }
        }
    }
}

/// The configuration a document stands for depends only on what its
/// top-level nodes set (default preset and global audio) and on its
/// `preset` nodes in order: two documents that agree on both give the same
/// configuration, or both are refused with the same error.
pub proof fn lemma_config_order_independent(d1: DocumentView, d2: DocumentView, tones: Seq<Tone>)
    requires
        setup_from(d1.nodes, 0, initial_setup()) == setup_from(d2.nodes, 0, initial_setup()),
        preset_nodes_from(d1.nodes, 0) == preset_nodes_from(d2.nodes, 0),
    ensures
        spec_parse_config(d1, tones) == spec_parse_config(d2, tones),
{
    if let Ok(st) = setup_from(d1.nodes, 0, initial_setup()) {
        lemma_presets_over(d1.nodes, 0, st.default, st.audio, tones);
        lemma_presets_over(d2.nodes, 0, st.default, st.audio, tones);
        assert(presets_from(d1.nodes, 0, st.default, st.audio, tones, Seq::empty()) == presets_from(
            d2.nodes,
            0,
            st.default,
            st.audio,
            tones,
            Seq::empty(),
        ));
    }
}

proof fn lemma_lone_preset_nodes(nodes: Seq<NodeView>, k: int, p: NodeView, i: int)
    requires
        0 <= k <= nodes.len(),
        0 <= i <= nodes.len() + 1,
        p.name == "preset"@,
        forall|j: int| 0 <= j < nodes.len() ==> (#[trigger] nodes[j]).name != "preset"@,
    ensures
        preset_nodes_from(nodes.insert(k, p), i) == if i <= k {
            seq![p]
        } else {
            Seq::<NodeView>::empty()
        },
    decreases nodes.len() + 1 - i,
{
    let ins = nodes.insert(k, p);
    if i < ins.len() {
        lemma_lone_preset_nodes(nodes, k, p, i + 1);
        if i == k {
            assert(ins[i] == p);
            assert(seq![p] + Seq::<NodeView>::empty() =~= seq![p]);
        } else if i < k {
            assert(ins[i] == nodes[i]);
        } else {
            assert(ins[i] == nodes[i - 1]);
        }
    }
}

/// Where a lone `preset` node of an accepted shape stands among the other
/// top-level nodes does not matter: the configuration is the same, and so
/// the preset takes the global audio set by an `audio` node before or
/// after it.
pub proof fn lemma_preset_position_free(
    nodes: Seq<NodeView>,
    k1: int,
    k2: int,
    p: NodeView,
    tones: Seq<Tone>,
)
    requires
        0 <= k1 <= nodes.len(),
        0 <= k2 <= nodes.len(),
        preset_shape_ok(p),
        forall|j: int| 0 <= j < nodes.len() ==> (#[trigger] nodes[j]).name != "preset"@,
    ensures
        spec_parse_config(DocumentView { nodes: nodes.insert(k1, p) }, tones) == spec_parse_config(
            DocumentView { nodes: nodes.insert(k2, p) },
            tones,
        ),
{
    lemma_global_audio_order_independent(nodes, k1, p);
    lemma_global_audio_order_independent(nodes, k2, p);
    lemma_lone_preset_nodes(nodes, k1, p, 0);
    lemma_lone_preset_nodes(nodes, k2, p, 0);
    lemma_config_order_independent(
        DocumentView { nodes: nodes.insert(k1, p) },
        DocumentView { nodes: nodes.insert(k2, p) },
        tones,
    );
}

/// Every built-in preset plays at its own frequencies with the
/// configuration's global audio, whatever that audio is.
pub proof fn lemma_built_in_uses_global_audio(c: ConfigView, i: int)
    requires
        0 <= i < spec_built_ins().len(),
    ensures
        spec_resolve_preset(c, spec_built_ins()[i].name) == Ok::<(u64, u64, Audio), ConfigErrorView>(
            (spec_built_ins()[i].left, spec_built_ins()[i].right, c.audio),
        ),
{
    reveal_strlit("calm");
    reveal_strlit("study");
    reveal_strlit("focus");
    reveal_strlit("wind-down");
    let b = spec_built_ins();
    assert(b[0].name.len() == 4 && b[1].name.len() == 5 && b[2].name.len() == 5 && b[3].name.len()
        == 9);
    assert(b[1].name[0] != b[2].name[0]);
    assert(built_in_index(b[i].name) == Some(i));
}

/// A custom preset is found by its name, when no built-in has that name:
/// the first custom preset so named plays at its own frequencies with its
/// own audio.
pub proof fn lemma_custom_preset_found(c: ConfigView, name: Seq<char>, j: int)
    requires
        built_in_index(name) is None,
        0 <= j < c.presets.len(),
        c.presets[j].name == name,
        forall|k: int| 0 <= k < j ==> (#[trigger] c.presets[k]).name != name,
    ensures
        spec_resolve_preset(c, name) == Ok::<(u64, u64, Audio), ConfigErrorView>(
            (c.presets[j].left, c.presets[j].right, c.presets[j].audio),
        ),
{
    lemma_custom_index_found(c.presets, name, 0, j);
}

proof fn lemma_custom_index_found(ps: Seq<PresetView>, name: Seq<char>, i: int, j: int)
    requires
        0 <= i <= j < ps.len(),
        ps[j].name == name,
        forall|k: int| 0 <= k < j ==> (#[trigger] ps[k]).name != name,
    ensures
        custom_index(ps, name, i) == Some(j),
    decreases j - i,
{
    if i < j {
        lemma_custom_index_found(ps, name, i + 1, j);
    }
}

/// A name that is neither a built-in's nor a custom preset's names no
/// preset.
pub proof fn lemma_unknown_preset(c: ConfigView, name: Seq<char>)
    requires
        forall|i: int| 0 <= i < spec_built_ins().len() ==> (#[trigger] spec_built_ins()[i]).name != name,
        forall|k: int| 0 <= k < c.presets.len() ==> (#[trigger] c.presets[k]).name != name,
    ensures
        spec_resolve_preset(c, name) == Err::<(u64, u64, Audio), ConfigErrorView>(
            ConfigErrorView::UnknownPreset { name },
        ),
{
    assert(spec_built_ins()[0].name != name);
    assert(spec_built_ins()[1].name != name);
    assert(spec_built_ins()[2].name != name);
    assert(spec_built_ins()[3].name != name);
    if custom_index(c.presets, name, 0) is Some {
        lemma_custom_index(c.presets, name, 0);
    }
}

/// A preset that inherits from another and sets no audio of its own takes
/// the audio of the preset it inherits from; without a tone of its own it
/// also takes that preset's frequencies. A preset that neither inherits nor
/// sets audio takes the global audio.
pub proof fn lemma_inherited_preset(
    n: NodeView,
    default: Seq<char>,
    audio: Audio,
    tones: Seq<Tone>,
    ps: Seq<PresetView>,
    x: Seq<char>,
)
    ensures
        read_preset(n, default, audio, tones, ps) matches Ok(p) ==> {
            let c = ConfigView { default, audio, presets: ps };
            &&& (property(n, "inherits"@) == Some(ValueView::Text(x)) && x.len() > 0 && child(
                n,
                "volume"@,
            ) is None && child(n, "noise"@) is None) ==> {
                &&& spec_resolve_preset(c, x) is Ok
                &&& p.audio == spec_resolve_preset(c, x)->Ok_0.2
            }
            &&& (property(n, "inherits"@) == Some(ValueView::Text(x)) && x.len() > 0 && child(
                n,
                "tone"@,
            ) is None) ==> {
                &&& spec_resolve_preset(c, x) is Ok
                &&& p.left == spec_resolve_preset(c, x)->Ok_0.0
                &&& p.right == spec_resolve_preset(c, x)->Ok_0.1
            }
            &&& (property(n, "inherits"@) is None && child(n, "volume"@) is None && child(
                n,
                "noise"@,
            ) is None) ==> p.audio == audio
        },
{
}

/// What options select takes each of them into account: ear frequencies
/// or carrier and beat as given, else the selected preset's frequencies;
/// each audio setting given replaces the preset's.
pub proof fn lemma_selection_takes_options(o: OptionsView, c: ConfigView)
    ensures
        spec_selection(o, c) matches Ok(res) ==> {
            let base = spec_resolve_preset(c, selected_preset(o, c));
            &&& base is Ok
            &&& (o.left is Some && o.right is Some) ==> res.frequencies == (Frequencies::Ears {
                left: o.left->Some_0,
                right: o.right->Some_0,
            })
            &&& (o.carrier is Some && o.beat is Some) ==> res.frequencies == (Frequencies::Tone {
                carrier: o.carrier->Some_0,
                beat: o.beat->Some_0,
            })
            &&& (o.left is None && o.right is None && o.carrier is None && o.beat is None)
                ==> res.frequencies == (Frequencies::Preset {
                left: base->Ok_0.0,
                right: base->Ok_0.1,
            })
            &&& res.audio.volume == (if let Some(v) = o.volume {
                v
            } else {
                base->Ok_0.2.volume
            })
            &&& res.audio.noise == (if let Some(k) = o.noise {
                k
            } else {
                base->Ok_0.2.noise
            })
            &&& res.audio.noise_volume == (if let Some(v) = o.noise_volume {
                v
            } else {
                base->Ok_0.2.noise_volume
            })
        },
        (o.left is Some || o.right is Some) && (o.carrier is Some || o.beat is Some)
            && spec_resolve_preset(c, selected_preset(o, c)) is Ok ==> spec_selection(o, c)
            == Err::<Resolution, ConfigErrorView>(ConfigErrorView::EarsAndCarrier),
{
}

/// Every built-in preset's name is a valid preset name, so a request to
/// switch to it can be written: as `preset` followed by the name.
pub proof fn lemma_built_in_names_writable(i: int)
    requires
        0 <= i < spec_built_ins().len(),
    ensures
        is_valid_preset_name(spec_built_ins()[i].name),
        spec_format(MessageView::Preset { name: spec_built_ins()[i].name }) == Ok::<
            Seq<char>,
            IpcError,
        >("preset "@ + spec_built_ins()[i].name),
{
    reveal_strlit("calm");
    reveal_strlit("study");
    reveal_strlit("focus");
    reveal_strlit("wind-down");
    let name = spec_built_ins()[i].name;
    lemma_valid_preset_name_exactly(name);
    assert forall|k: int| 0 <= k < name.len() implies !is_control_char(#[trigger] name[k])
        && !is_white_space(name[k]) by {
        assert(name[k] == 'c' || name[k] == 'a' || name[k] == 'l' || name[k] == 'm' || name[k]
            == 's' || name[k] == 't' || name[k] == 'u' || name[k] == 'd' || name[k] == 'y'
            || name[k] == 'f' || name[k] == 'o' || name[k] == 'w' || name[k] == 'i' || name[k]
            == 'n' || name[k] == '-');
    }
}

proof fn lemma_tone_found(tones: Seq<Tone>, i: int, k: int, m: int)
    requires
        0 <= k <= m < tones.len(),
        tones[m].preset == i,
        forall|j: int| 0 <= j < m ==> (#[trigger] tones[j]).preset != i,
    ensures
        tone_from(tones, i, k) == Some(tones[m]),
    decreases m - k,
{
    if k < m {
        lemma_tone_found(tones, i, k + 1, m);
    }
}

/// A preset with a tone plays the frequencies worked out for that tone: the
/// first of `tones` for its number among the presets (`ps.len()`), which
/// must have been found playable; with no such entry the preset is refused.
pub proof fn lemma_preset_plays_its_tone(
    n: NodeView,
    default: Seq<char>,
    audio: Audio,
    tones: Seq<Tone>,
    ps: Seq<PresetView>,
    m: int,
)
    requires
        child(n, "tone"@) is Some,
        0 <= m < tones.len(),
        tones[m].preset == ps.len(),
        forall|j: int| 0 <= j < m ==> (#[trigger] tones[j]).preset != ps.len(),
    ensures
        read_preset(n, default, audio, tones, ps) matches Ok(p) ==> {
            &&& p.left == tones[m].left
            &&& p.right == tones[m].right
            &&& tones[m].playable
        },
{
    lemma_tone_found(tones, ps.len() as int, 0, m);
}

/// With a tone but no worked-out frequencies for it, a preset is refused.
pub proof fn lemma_preset_without_tone_entry(
    n: NodeView,
    default: Seq<char>,
    audio: Audio,
    tones: Seq<Tone>,
    ps: Seq<PresetView>,
)
    requires
        child(n, "tone"@) is Some,
        forall|j: int| 0 <= j < tones.len() ==> (#[trigger] tones[j]).preset != ps.len(),
    ensures
        read_preset(n, default, audio, tones, ps) is Err,
{
    lemma_no_tone(tones, ps.len() as int, 0);
}

proof fn lemma_no_tone(tones: Seq<Tone>, i: int, k: int)
    requires
        0 <= k,
        forall|j: int| 0 <= j < tones.len() ==> (#[trigger] tones[j]).preset != i,
    ensures
        tone_from(tones, i, k) is None,
    decreases tones.len() - k,
{
    if k < tones.len() {
        lemma_no_tone(tones, i, k + 1);
    }
}

/// The audio that a node's children make of `base`: a `volume` child with a
/// number sets the tone volume to that number, a `noise` child sets the kind
/// of noise it names and, through a `volume` child with a number, the noise
/// volume; what is not set stays as in `base`.
pub proof fn lemma_parse_audio_sets(node: NodeView, base: Audio)
    ensures
        spec_parse_audio(node, base) matches Ok(a) ==> {
            &&& audio_in_range(a)
            &&& child(node, "volume"@) is None ==> a.volume == base.volume
            &&& (child(node, "volume"@) is Some && first_argument(child(node, "volume"@)->Some_0)
                is Some && first_argument(child(node, "volume"@)->Some_0)->Some_0 is Number)
                ==> a.volume == first_argument(child(node, "volume"@)->Some_0)->Some_0->Number_0.level()
            &&& child(node, "noise"@) is None ==> a.noise == base.noise && a.noise_volume
                == base.noise_volume
            &&& (child(node, "noise"@) is Some && first_argument(child(node, "noise"@)->Some_0)
                is Some && first_argument(child(node, "noise"@)->Some_0)->Some_0 is Text)
                ==> noise_named(first_argument(child(node, "noise"@)->Some_0)->Some_0->Text_0)
                == Some(a.noise)
        },
{
}

} // verus!
