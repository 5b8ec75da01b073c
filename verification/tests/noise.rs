use binaural::noise::Noise;

#[test]
fn names_each_noise() {
    for (n, name) in [
        (Noise::Off, "off"),
        (Noise::White, "white"),
        (Noise::Pink, "pink"),
        (Noise::Brown, "brown"),
    ] {
        assert_eq!(n.as_str(), name);
        assert_eq!(Noise::parse(name), Ok(n));
    }
    assert!(Noise::parse("Brown").is_err());
    assert!(Noise::parse(" off").is_err());
    assert!(Noise::parse("grey").is_err());
    assert_eq!(Noise::default(), Noise::Off);
}
