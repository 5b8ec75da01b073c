use binaural::config::parse_config_text;
use binaural::config::resolve;
use binaural::config::select;
use binaural::config::text_tone_requests;
use binaural::config::Config;
use binaural::config::ConfigError;
use binaural::config::Frequencies;
use binaural::config::Options;
use binaural::config::Resolution;
use binaural::config::PlaybackError;
use binaural::config::Tone;
use binaural::config::ToneRequest;
use binaural::document::Level;
use binaural::document::Number;
use binaural::noise::Noise;

fn level(v: f32) -> Level {
    Level {
        code: f64::from(v).to_bits(),
    }
}

fn volume(l: Level) -> f32 {
    f64::from_bits(l.code) as f32
}

fn value(n: Number) -> f64 {
    match n {
        Number::Integer(i) => i as f64,
        Number::Float(c) => f64::from_bits(c),
    }
}

fn tone(r: &ToneRequest) -> Tone {
    let carrier = value(r.carrier);
    let beat = value(r.beat);
    let left = carrier - beat / 2.0;
    let right = carrier + beat / 2.0;
    Tone {
        preset: r.preset,
        left: left.to_bits(),
        right: right.to_bits(),
        playable: (20.0..=1000.0).contains(&left)
            && (20.0..=1000.0).contains(&right)
            && (0.1..=40.0).contains(&(right - left).abs()),
    }
}

fn load(text: &str) -> Result<Config, ConfigError> {
    let tones: Vec<Tone> = text_tone_requests(text)
        .map(|requests| requests.iter().map(tone).collect())
        .unwrap_or_default();
    parse_config_text(text, &tones)
}

fn frequencies_ok(f: Frequencies) -> (f64, f64, bool) {
    let (l, r) = match f {
        Frequencies::Preset { left, right } | Frequencies::Ears { left, right } => {
            (f64::from_bits(left), f64::from_bits(right))
        }
        Frequencies::Tone { carrier, beat } => {
            let c = f64::from_bits(carrier);
            let b = f64::from_bits(beat);
            (c - b / 2.0, c + b / 2.0)
        }
    };
    let ok = (20.0..=1000.0).contains(&l)
        && (20.0..=1000.0).contains(&r)
        && (0.1..=40.0).contains(&(r - l).abs());
    (l, r, ok)
}

fn play(options: &Options, config: &Config) -> Result<Resolution, ConfigError> {
    let selection = select(options, config)?;
    let (_, _, ok) = frequencies_ok(selection.frequencies);
    resolve(options, config, ok)
}

#[test]
fn resolves_default_preset() {
    let config = load("").unwrap();
    let res = play(&Options::default(), &config).unwrap();
    let (left, _, _) = frequencies_ok(res.frequencies);
    assert!((left - 195.0).abs() < f64::EPSILON);
}

#[test]
fn global_audio_is_order_independent() {
    let config = load(
        r#"
            preset "reading" {
                tone carrier=220 beat=10
            }
            audio { volume 0.2 }
        "#,
    )
    .unwrap();
    assert!((volume(config.presets[0].audio.volume) - 0.2).abs() < f32::EPSILON);
}

#[test]
fn rejects_invalid_config() {
    let invalid = [
        "audio { volum 0.1 }",
        r#"preset "bad" { tone carrier=220 beat=10 typo=1 }"#,
        "audio { volume 0.1; volume 0.2 }",
        "audio { volume 0.2500000001 }",
        r#"preset "bad" { tone carrier=10 beat=2 }"#,
        r#"preset "bad" { tone carrier=220 beat=10; duration 600 }"#,
        r#"default preset="missing""#,
    ];
    for config in invalid {
        assert!(load(config).is_err(), "accepted invalid config: {config}");
    }
}

#[test]
fn reads_the_example_configuration() {
    let config = load(
        r#"
default preset="evening"
audio {
  volume 0.10
  noise "off" { volume 0.04 }
}
preset "reading" {
  tone carrier=220 beat=10
  volume 0.07
}
preset "evening" inherits="wind-down" {
  noise "brown" { volume 0.03 }
}
"#,
    )
    .unwrap();
    assert_eq!(config.default, "evening");
    assert_eq!(config.presets.len(), 2);
    let reading = &config.presets[0];
    assert_eq!(reading.name, "reading");
    assert_eq!(f64::from_bits(reading.left), 215.0);
    assert_eq!(f64::from_bits(reading.right), 225.0);
    assert_eq!(volume(reading.audio.volume), 0.07);
    assert_eq!(reading.audio.noise, Noise::Off);
    let evening = &config.presets[1];
    assert_eq!(f64::from_bits(evening.left), 197.0);
    assert_eq!(f64::from_bits(evening.right), 203.0);
    assert_eq!(evening.audio.noise, Noise::Brown);
    assert_eq!(volume(evening.audio.noise_volume), 0.03);
    assert_eq!(volume(evening.audio.volume), 0.10);
    let res = play(&Options::default(), &config).unwrap();
    assert_eq!(
        res.frequencies,
        Frequencies::Preset {
            left: 197f64.to_bits(),
            right: 203f64.to_bits()
        }
    );
    assert_eq!(res.audio.noise, Noise::Brown);
}

#[test]
fn reports_each_rule() {
    assert!(matches!(
        load("audio { volum 0.1 }"),
        Err(ConfigError::Node(_))
    ));
    assert!(matches!(load("default preset=\"calm\"; default preset=\"study\""), Err(ConfigError::DuplicateDefault)));
    assert!(matches!(load("audio; audio"), Err(ConfigError::DuplicateAudio)));
    assert!(matches!(load("default"), Err(ConfigError::DefaultNeedsPreset)));
    assert!(matches!(load("default preset=1"), Err(ConfigError::NotAString { .. })));
    assert!(matches!(load("colour 1"), Err(ConfigError::UnknownNode { .. })));
    assert!(matches!(load("audio { volume 0.3 }"), Err(ConfigError::VolumeRange { .. })));
    assert!(matches!(load("audio { volume \"x\" }"), Err(ConfigError::NeedsFiniteNumber { .. })));
    assert!(matches!(load("audio { noise \"grey\" }"), Err(ConfigError::Noise)));
    assert!(matches!(load("audio { noise 1 }"), Err(ConfigError::NoiseNeedsType)));
    assert!(matches!(load("preset \"calm\" { tone carrier=200 beat=10 }"), Err(ConfigError::DuplicatePreset { .. })));
    assert!(matches!(load("preset \"a\" { tone carrier=200 beat=10 }; preset \"a\" inherits=\"calm\""), Err(ConfigError::DuplicatePreset { .. })));
    assert!(matches!(load("preset \" a\" inherits=\"calm\""), Err(ConfigError::InvalidPresetName)));
    assert!(matches!(load("preset 3 inherits=\"calm\""), Err(ConfigError::PresetNeedsName)));
    assert!(matches!(load("preset \"a\""), Err(ConfigError::PresetNeedsTone { .. })));
    assert!(matches!(load("preset \"a\" inherits=\"later\"; preset \"later\" inherits=\"calm\""), Err(ConfigError::UnknownPreset { .. })));
    assert!(matches!(load("preset \"a\" { tone beat=10 }"), Err(ConfigError::ToneNeedsCarrier)));
    assert!(matches!(load("preset \"a\" { tone carrier=200 }"), Err(ConfigError::ToneNeedsBeat)));
    assert!(matches!(load("preset \"a\" { tone carrier=\"x\" beat=1 }"), Err(ConfigError::NotANumber { .. })));
    assert!(matches!(load("preset \"a\" { tone carrier=#inf beat=1 }"), Err(ConfigError::NotFinite { .. })));
    assert!(matches!(load("preset \"a\" { tone carrier=500 beat=100 }"), Err(ConfigError::InvalidPreset { .. })));
    assert!(matches!(load("default preset=\"nowhere\""), Err(ConfigError::InvalidDefault { .. })));
}

#[test]
fn resolves_command_line_overrides() {
    let config = load("").unwrap();
    let mut options = Options::default();
    options.carrier = Some(300f64.to_bits());
    options.beat = Some(8f64.to_bits());
    options.volume = Some(level(0.05));
    options.noise = Some(Noise::Pink);
    let res = play(&options, &config).unwrap();
    let (l, r, ok) = frequencies_ok(res.frequencies);
    assert!(ok);
    assert_eq!((l, r), (296.0, 304.0));
    assert_eq!(res.audio.noise, Noise::Pink);
    assert_eq!(volume(res.audio.volume), 0.05);
    options.left = Some(200f64.to_bits());
    assert!(matches!(play(&options, &config), Err(ConfigError::EarsAndCarrier)));
    let mut ears = Options::default();
    ears.left = Some(200f64.to_bits());
    assert!(matches!(play(&ears, &config), Err(ConfigError::EarsApart)));
    let mut half = Options::default();
    half.beat = Some(8f64.to_bits());
    assert!(matches!(play(&half, &config), Err(ConfigError::CarrierApart)));
    let mut unknown = Options::default();
    unknown.preset = Some("nowhere".into());
    assert!(matches!(play(&unknown, &config), Err(ConfigError::UnknownPreset { .. })));
    let mut loud = Options::default();
    loud.volume = Some(level(0.5));
    assert!(matches!(
        play(&loud, &config),
        Err(ConfigError::Playback { cause: PlaybackError::Volumes })
    ));
    let mut noisy = Options::default();
    noisy.noise_volume = Some(level(-0.5));
    assert!(matches!(
        play(&noisy, &config),
        Err(ConfigError::Playback { cause: PlaybackError::Volumes })
    ));
    let mut wide = Options::default();
    wide.left = Some(100f64.to_bits());
    wide.right = Some(200f64.to_bits());
    assert!(matches!(
        play(&wide, &config),
        Err(ConfigError::Playback { cause: PlaybackError::Frequencies })
    ));
    assert!(matches!(
        resolve(&wide, &config, true),
        Ok(Resolution { frequencies: Frequencies::Ears { .. }, .. })
    ));
}

#[test]
fn refuses_text_that_is_not_kdl() {
    assert!(matches!(load("preset \"a"), Err(ConfigError::InvalidKdl)));
    assert!(text_tone_requests("audio {").is_none());
}

#[test]
fn numbers_tones_by_preset() {
    let requests = text_tone_requests(
        "audio { volume 0.1 }\npreset \"a\" inherits=\"calm\"\npreset \"b\" { tone carrier=220 beat=10 }",
    )
    .unwrap();
    assert_eq!(requests.len(), 1);
    assert_eq!(requests[0].preset, 1);
    assert_eq!(requests[0].carrier, Number::Integer(220));
}

#[test]
fn reads_volumes_from_float_encodings() {
    let config = load("audio { volume 0.25; noise \"pink\" { volume 0 } }").unwrap();
    assert_eq!(config.audio.volume.code, 0.25f64.to_bits());
    assert_eq!(config.audio.noise_volume.code, 0);
    assert!(config.audio.volume.in_range());
    assert!(!level(0.2500001).in_range());
    assert!(level(-0.0).in_range());
    assert!(!level(f32::NAN).in_range());
    assert!(matches!(load("audio { volume -0.01 }"), Err(ConfigError::VolumeRange { .. })));
    assert!(matches!(load("audio { volume 1 }"), Err(ConfigError::VolumeRange { .. })));
}

#[test]
fn places_presets_in_document_order() {
    let config = load(
        "preset \"b\" { tone carrier=220 beat=10 }\naudio { volume 0.2 }\npreset \"a\" inherits=\"b\"",
    )
    .unwrap();
    let names: Vec<&str> = config.presets.iter().map(|p| p.name.as_str()).collect();
    assert_eq!(names, ["b", "a"]);
    assert_eq!(config.presets[0].audio.volume, config.audio.volume);
    let after = load(
        "audio { volume 0.2 }\npreset \"b\" { tone carrier=220 beat=10 }\npreset \"a\" inherits=\"b\"",
    )
    .unwrap();
    assert_eq!(after.presets[0].audio, config.presets[0].audio);
    assert_eq!(after.presets[1].left, config.presets[1].left);
}
