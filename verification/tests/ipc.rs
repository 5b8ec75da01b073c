use binaural::ipc::error_reply;
use binaural::ipc::parse;
use binaural::ipc::read;
use binaural::ipc::reply_outcome;
use binaural::ipc::IpcError;
use binaural::ipc::Message;
use binaural::ipc::MAX_MESSAGE_BYTES;
use binaural::noise::Noise;

#[test]
fn message_protocol_round_trips_spaced_preset_and_reload() {
    let encoded = binaural::ipc::format(Message::Preset {
        name: "late focus".into(),
    })
    .unwrap();
    assert_eq!(
        parse(&encoded).unwrap(),
        Message::Preset {
            name: "late focus".into()
        }
    );
    assert_eq!(parse("reload").unwrap(), Message::Reload);
    assert_eq!(binaural::ipc::format(Message::Reload).unwrap(), "reload");
    assert!(binaural::ipc::format(Message::Preset {
        name: "focus\nshutdown".into()
    })
    .is_err());
}

#[test]
fn rejects_oversized_ipc_command() {
    let request = vec![b'x'; MAX_MESSAGE_BYTES + 1];
    assert!(read(request.as_slice()).is_err());
}

#[test]
fn parses_every_command() {
    assert_eq!(parse("status").unwrap(), Message::Status);
    assert_eq!(parse("  stop \n").unwrap(), Message::Stop);
    assert_eq!(parse("pause").unwrap(), Message::Pause);
    assert_eq!(parse("play\n").unwrap(), Message::Play);
    assert_eq!(parse("shutdown").unwrap(), Message::Shutdown);
    assert_eq!(
        parse("preset  wind-down \n").unwrap(),
        Message::Preset {
            name: "wind-down".into()
        }
    );
    assert_eq!(
        parse("volume 0.06").unwrap(),
        Message::Volume {
            value: "0.06".into()
        }
    );
    assert_eq!(
        parse("noise brown").unwrap(),
        Message::Noise {
            kind: Noise::Brown,
            volume: None
        }
    );
    assert_eq!(
        parse("noise pink 0.03\n").unwrap(),
        Message::Noise {
            kind: Noise::Pink,
            volume: Some("0.03".into())
        }
    );
}

#[test]
fn refuses_malformed_commands() {
    assert_eq!(parse("volume loud"), Err(IpcError::VolumeNotNumber));
    assert_eq!(parse("noise red"), Err(IpcError::Noise));
    assert_eq!(parse("noise White"), Err(IpcError::Noise));
    assert_eq!(parse("noise white much"), Err(IpcError::NoiseVolumeNotNumber));
    assert_eq!(parse("status now"), Err(IpcError::Usage));
    assert_eq!(parse("preset"), Err(IpcError::Usage));
    assert_eq!(parse("volume 1 2"), Err(IpcError::Usage));
    assert_eq!(parse(""), Err(IpcError::Usage));
    assert_eq!(parse("STATUS"), Err(IpcError::Usage));
}

#[test]
fn accepts_number_spellings() {
    for text in ["1", "1.", ".5", "+0.25", "-1e-3", "2E5", "inf", "-Infinity", "NaN"] {
        assert_eq!(
            parse(&format!("volume {text}")).unwrap(),
            Message::Volume { value: text.into() },
            "{text}"
        );
    }
    for text in [".", "e5", "1e", "1e+", "0x10", "1.2.3", "nan1"] {
        assert_eq!(
            parse(&format!("volume {text}")),
            Err(IpcError::VolumeNotNumber),
            "{text}"
        );
    }
}

#[test]
fn formats_commands() {
    assert_eq!(binaural::ipc::format(Message::Status).unwrap(), "status");
    assert_eq!(
        binaural::ipc::format(Message::Volume {
            value: "0.06".into()
        })
        .unwrap(),
        "volume 0.06"
    );
    assert_eq!(
        binaural::ipc::format(Message::Noise {
            kind: Noise::White,
            volume: Some("0.02".into())
        })
        .unwrap(),
        "noise white 0.02"
    );
    assert_eq!(
        binaural::ipc::format(Message::Noise {
            kind: Noise::Off,
            volume: None
        })
        .unwrap(),
        "noise off"
    );
    for bad in ["", " focus", "focus ", "a\u{7}b"] {
        assert_eq!(
            binaural::ipc::format(Message::Preset { name: bad.into() }),
            Err(IpcError::InvalidPresetName)
        );
    }
}

#[test]
fn round_trips_noise_and_volume() {
    for m in [
        Message::Volume {
            value: "0.125".into(),
        },
        Message::Noise {
            kind: Noise::Brown,
            volume: Some("0.03".into()),
        },
        Message::Noise {
            kind: Noise::Pink,
            volume: None,
        },
        Message::Stop,
        Message::Shutdown,
    ] {
        let line = binaural::ipc::format(m).unwrap();
        let again = parse(&line).unwrap();
        assert_eq!(binaural::ipc::format(again).unwrap(), line);
    }
}

#[test]
fn reads_one_line() {
    assert_eq!(read(b"status\nstop\n").unwrap(), Some("status\n".to_string()));
    assert_eq!(read(b"reload").unwrap(), Some("reload".to_string()));
    assert_eq!(read(b"").unwrap(), None);
    assert_eq!(read(&[0xff, b'\n']), Err(IpcError::InvalidUtf8));
    let mut exact = vec![b'x'; MAX_MESSAGE_BYTES - 1];
    exact.push(b'\n');
    assert_eq!(read(&exact).unwrap().unwrap().len(), MAX_MESSAGE_BYTES);
    let mut over = vec![b'x'; MAX_MESSAGE_BYTES];
    over.push(b'\n');
    assert_eq!(read(&over), Err(IpcError::TooLong));
}

#[test]
fn interprets_replies() {
    let refused = error_reply("unknown preset: x ");
    assert_eq!(refused, "error unknown preset: x ");
    assert_eq!(
        reply_outcome(&refused),
        Err("unknown preset: x".to_string())
    );
    assert_eq!(
        reply_outcome("ok playing\n"),
        Ok("ok playing\n".to_string())
    );
    assert_eq!(reply_outcome("error\n"), Ok("error\n".to_string()));
}

#[test]
fn refuses_to_write_volumes_that_are_not_numbers() {
    assert_eq!(
        binaural::ipc::format(Message::Volume {
            value: "0.1\nshutdown".into()
        }),
        Err(IpcError::VolumeNotNumber)
    );
    assert_eq!(
        binaural::ipc::format(Message::Noise {
            kind: Noise::Pink,
            volume: Some("loud".into())
        }),
        Err(IpcError::NoiseVolumeNotNumber)
    );
}

#[test]
fn reads_a_written_line_with_its_line_break() {
    let messages = [
        Message::Status,
        Message::Preset {
            name: "late focus".into(),
        },
        Message::Volume {
            value: "0.06".into(),
        },
        Message::Noise {
            kind: Noise::Brown,
            volume: Some("1e-2".into()),
        },
    ];
    for message in messages {
        let line = binaural::ipc::format(clone(&message)).unwrap();
        assert_eq!(parse(&format!("{line}\n")), Ok(message));
    }
}

fn clone(m: &Message) -> Message {
    match m {
        Message::Status => Message::Status,
        Message::Stop => Message::Stop,
        Message::Pause => Message::Pause,
        Message::Play => Message::Play,
        Message::Preset { name } => Message::Preset { name: name.clone() },
        Message::Volume { value } => Message::Volume {
            value: value.clone(),
        },
        Message::Noise { kind, volume } => Message::Noise {
            kind: *kind,
            volume: volume.clone(),
        },
        Message::Reload => Message::Reload,
        Message::Shutdown => Message::Shutdown,
    }
}
