use binaural::config::default_audio;
use binaural::config::Config;
use binaural::config::UserPreset;
use binaural::tui::initial_selection;
use binaural::tui::moved;
use binaural::tui::preset_names;
use binaural::tui::toggle;
use binaural::tui::Move;
use binaural::tui::Transport;

fn config() -> Config {
    Config {
        default: "study".into(),
        audio: default_audio(),
        presets: vec![UserPreset {
            name: "reading".into(),
            left: 215f64.to_bits(),
            right: 225f64.to_bits(),
            audio: default_audio(),
        }],
    }
}

#[test]
fn lists_built_in_then_custom_presets() {
    let names = preset_names(&config());
    assert_eq!(names, vec!["calm", "study", "focus", "wind-down", "reading"]);
}

#[test]
fn chooses_the_starting_preset() {
    let names = preset_names(&config());
    assert_eq!(initial_selection(&names, Some("reading"), "study"), 4);
    assert_eq!(initial_selection(&names, None, "study"), 1);
    assert_eq!(initial_selection(&names, Some("nowhere"), "study"), 1);
    assert_eq!(initial_selection(&names, None, "nowhere"), 0);
}

#[test]
fn moves_within_the_list() {
    assert_eq!(moved(0, 5, Move::Up), None);
    assert_eq!(moved(3, 5, Move::Up), Some(2));
    assert_eq!(moved(3, 5, Move::Down), Some(4));
    assert_eq!(moved(4, 5, Move::Down), None);
}

#[test]
fn toggles_play_and_pause() {
    let mut paused = false;
    assert_eq!(toggle(&mut paused), Transport::Pause);
    assert!(paused);
    assert_eq!(toggle(&mut paused), Transport::Play);
    assert!(!paused);
}
