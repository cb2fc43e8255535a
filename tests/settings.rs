use radar_echo_trails::color::{parse_hex_color, Color, ColorError};
use radar_echo_trails::config::{ConfigError, ProcessingSettings, Settings};
use radar_echo_trails::engine::CompositeParams;
use radar_echo_trails::queue::is_image_file;

#[test]
fn parses_colors() {
    assert_eq!(parse_hex_color("#ff7f00"), Ok(Color { r: 255, g: 127, b: 0 }));
    assert_eq!(parse_hex_color("00FF00"), Ok(Color { r: 0, g: 255, b: 0 }));
    assert_eq!(Color::from_hex("#0a0B0c"), Ok(Color { r: 10, g: 11, b: 12 }));
}

#[test]
fn rejects_bad_colors() {
    assert_eq!(parse_hex_color("#fff"), Err(ColorError::Length));
    assert_eq!(parse_hex_color(""), Err(ColorError::Length));
    assert_eq!(parse_hex_color("#"), Err(ColorError::Length));
    assert_eq!(parse_hex_color("##00ff00"), Err(ColorError::Length));
    assert_eq!(parse_hex_color("#0000000"), Err(ColorError::Length));
    assert_eq!(parse_hex_color("#00gg00"), Err(ColorError::Digit));
    assert_eq!(parse_hex_color("+f+f+f"), Err(ColorError::Digit));
    assert_eq!(parse_hex_color("#é0000"), Err(ColorError::Length));
    assert_eq!(parse_hex_color("#é00000"), Err(ColorError::Digit));
}

#[test]
fn color_text_round_trip() {
    for s in ["#000000", "ff7f00", "#00FF00", "#A1b2C3"] {
        let c = parse_hex_color(s).unwrap();
        let t = c.to_hex();
        assert_eq!(t, format!("#{}", s.trim_start_matches('#').to_lowercase()));
        assert_eq!(parse_hex_color(&t), Ok(c));
    }
    assert_eq!(Color { r: 1, g: 171, b: 255 }.to_hex(), "#01abff");
}

#[test]
fn default_settings() {
    let s = Settings::default();
    assert_eq!(s.history_length, 5);
    assert_eq!(s.background_color, "#000000");
    assert_eq!(s.current_color, "#00ff00");
    assert_eq!(s.history_color, "#ff7f00");
    assert_eq!((s.threads, s.limit), (0, 0));
}

#[test]
fn settings_to_params() {
    let p = ProcessingSettings::from_settings(&Settings::default());
    assert_eq!(p.limit, None);
    let params = CompositeParams::from_settings(&p).unwrap();
    assert_eq!(params.history_length, 5);
    assert_eq!(params.background, Color { r: 0, g: 0, b: 0 });
    assert_eq!(params.current_color, Color { r: 0, g: 255, b: 0 });
    assert_eq!(params.history_color, Color { r: 255, g: 127, b: 0 });
}

#[test]
fn settings_errors() {
    let mut s = Settings::default();
    s.limit = 7;
    s.threads = -3;
    let mut p = ProcessingSettings::from_settings(&s);
    assert_eq!(p.limit, Some(7));
    assert_eq!(p.threads, 0);
    p.history_length = 0;
    assert_eq!(CompositeParams::from_settings(&p), Err(ConfigError::HistoryLength));
    p.history_length = 2;
    p.current_color = "#12345".to_string();
    assert_eq!(CompositeParams::from_settings(&p), Err(ConfigError::Current(ColorError::Length)));
    p.background_color = "zz0000".to_string();
    assert_eq!(CompositeParams::from_settings(&p), Err(ConfigError::Background(ColorError::Digit)));
    p.background_color = "#000000".to_string();
    p.current_color = "#000000".to_string();
    p.history_color = "#00000x".to_string();
    assert_eq!(CompositeParams::from_settings(&p), Err(ConfigError::History(ColorError::Digit)));
}

#[test]
fn image_file_names() {
    for name in ["a.png", "b.PNG", "c.Jpg", "d.jpeg", "e.bmp", "f.TGA", "g.gif", "x.tar.gif", "a..png"] {
        assert!(is_image_file(name), "{}", name);
    }
    for name in ["a.txt", ".png", "png", "a.png.txt", "a.", "", "a.pngx", "a.jp"] {
        assert!(!is_image_file(name), "{}", name);
    }
}
