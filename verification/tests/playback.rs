use binaural::config::default_audio;
use binaural::config::Audio;
use binaural::config::Config;
use binaural::config::Frequencies;
use binaural::config::UserPreset;
use binaural::document::Level;
use binaural::noise::Noise;
use binaural::playback::ApplyError;
use binaural::playback::Command;
use binaural::playback::Effect;
use binaural::playback::PlaybackState;
use binaural::playback::Reply;

fn level(v: f32) -> Level {
    Level {
        code: f64::from(v).to_bits(),
    }
}

fn config() -> Config {
    Config {
        default: "focus".into(),
        audio: default_audio(),
        presets: vec![UserPreset {
            name: "late focus".into(),
            left: 215f64.to_bits(),
            right: 225f64.to_bits(),
            audio: Audio {
                volume: level(0.07),
                noise: Noise::Brown,
                noise_volume: level(0.03),
            },
        }],
    }
}

#[test]
fn starts_paused_on_the_default_preset() {
    let (state, effect) = PlaybackState::new(&config()).unwrap();
    assert!(state.paused);
    assert!(!state.stopped);
    assert_eq!(state.preset, "focus");
    match effect {
        Effect::Replace { resolution, play } => {
            assert!(!play);
            assert_eq!(
                resolution.frequencies,
                Frequencies::Preset {
                    left: 113f64.to_bits(),
                    right: 127f64.to_bits()
                }
            );
        }
        other => panic!("unexpected {other:?}"),
    }
}

#[test]
fn play_pause_and_stop() {
    let config = config();
    let (mut state, _) = PlaybackState::new(&config).unwrap();
    let outcome = state.apply(Command::Pause, &config).unwrap();
    assert_eq!(outcome.effect, Effect::Nothing);
    assert_eq!(outcome.reply, Reply::Paused);
    let outcome = state.apply(Command::Play, &config).unwrap();
    assert_eq!(outcome.effect, Effect::Resume);
    assert_eq!(outcome.reply.text(), "ok playing");
    assert!(state.is_playing());
    let outcome = state.apply(Command::Pause, &config).unwrap();
    assert_eq!(outcome.effect, Effect::Pause);
    assert!(!state.is_playing());
    let outcome = state.apply(Command::Stop, &config).unwrap();
    assert_eq!(outcome.effect, Effect::Stop);
    assert_eq!(outcome.reply.text(), "ok stopped");
    assert!(state.stopped);
    let outcome = state.apply(Command::Play, &config).unwrap();
    assert!(matches!(outcome.effect, Effect::Replace { play: true, .. }));
    assert!(state.is_playing());
    assert!(!state.stopped);
}

#[test]
fn changes_load_paused() {
    let config = config();
    let (mut state, _) = PlaybackState::new(&config).unwrap();
    let outcome = state
        .apply(
            Command::Preset {
                name: "late focus".into(),
            },
            &config,
        )
        .unwrap();
    assert_eq!(outcome.reply.text(), "ok");
    assert!(matches!(outcome.effect, Effect::Replace { play: false, .. }));
    assert_eq!(state.preset, "late focus");
    assert_eq!(state.audio.noise, Noise::Brown);
    state.apply(Command::Play, &config).unwrap();
    assert!(state.is_playing());
    let outcome = state
        .apply(Command::Volume { level: level(0.05) }, &config)
        .unwrap();
    assert!(matches!(outcome.effect, Effect::Replace { play: false, .. }));
    assert!(state.paused);
    assert_eq!((f64::from_bits(state.audio.volume.code) as f32), 0.05);
    state
        .apply(
            Command::Noise {
                kind: Noise::White,
                volume: Some(level(0.01)),
            },
            &config,
        )
        .unwrap();
    assert_eq!(state.audio.noise, Noise::White);
    assert_eq!((f64::from_bits(state.audio.noise_volume.code) as f32), 0.01);
    assert_eq!((f64::from_bits(state.audio.volume.code) as f32), 0.05);
    assert!(!state.is_playing());
    state.apply(Command::Play, &config).unwrap();
    let outcome = state.apply(Command::Reload, &config).unwrap();
    assert!(matches!(outcome.effect, Effect::Replace { play: true, .. }));
    assert!(state.is_playing());
}

#[test]
fn refused_commands_change_nothing() {
    let config = config();
    let (mut state, _) = PlaybackState::new(&config).unwrap();
    state.apply(Command::Play, &config).unwrap();
    assert!(matches!(
        state.apply(Command::Volume { level: level(0.3) }, &config),
        Err(ApplyError::VolumeRange)
    ));
    assert!(matches!(
        state.apply(
            Command::Noise {
                kind: Noise::Pink,
                volume: Some(level(-1.0))
            },
            &config
        ),
        Err(ApplyError::NoiseVolumeRange)
    ));
    assert!(matches!(
        state.apply(
            Command::Preset {
                name: "missing".into()
            },
            &config
        ),
        Err(ApplyError::Config(_))
    ));
    assert_eq!(state.preset, "focus");
    assert!(state.is_playing());
    assert_eq!(state.audio, default_audio());
}

#[test]
fn reload_status_and_shutdown() {
    let config = config();
    let (mut state, _) = PlaybackState::new(&config).unwrap();
    let outcome = state.apply(Command::Status, &config).unwrap();
    assert_eq!(outcome.reply, Reply::Status);
    let outcome = state.apply(Command::Reload, &config).unwrap();
    assert_eq!(outcome.reply.text(), "ok reloaded");
    let outcome = state.apply(Command::Shutdown, &config).unwrap();
    assert_eq!(outcome.effect, Effect::Shutdown);
    assert_eq!(outcome.reply.text(), "ok shutting down");
}
