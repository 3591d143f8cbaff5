use crab_invaders::save::Save;

#[test]
fn round_trip() {
    let s = Save {
        hi: 12345,
        muted: true,
        volume: 50,
    };
    assert_eq!(Save::parse(&s.render()), s);
}

#[test]
fn bad_input_falls_back_to_defaults() {
    let s = Save::parse("garbage\nvolume=abc\nhi=-5\nmuted=maybe\n");
    assert_eq!(s, Save::default());
    // comments and blanks are ignored
    let s = Save::parse("# hi\n\nhi=777\n");
    assert_eq!(s.hi, 777);
}

#[test]
fn volume_is_clamped() {
    assert_eq!(Save::parse("volume=9").volume, 100);
    assert_eq!(Save::parse("volume=-2").volume, 0);
}

#[test]
fn render_writes_the_file_format() {
    let s = Save {
        hi: 999,
        muted: false,
        volume: 30,
    };
    assert_eq!(
        s.render(),
        "# shell-shooter save (hi-score + settings)\nhi=999\nmuted=false\nvolume=0.30\n"
    );
    let full = Save {
        hi: 0,
        muted: true,
        volume: 100,
    };
    assert_eq!(full.render(), "# shell-shooter save (hi-score + settings)\nhi=0\nmuted=true\nvolume=1.00\n");
}

#[test]
fn parse_details() {
    assert_eq!(Save::default(), Save { hi: 0, muted: false, volume: 80 });
    // whitespace around keys and values, carriage returns
    let s = Save::parse("  hi =  42 \r\n\tmuted= true\r\nvolume = .255\n");
    assert_eq!(s, Save { hi: 42, muted: true, volume: 26 });
    // a leading plus, overflow, later lines win
    assert_eq!(Save::parse("hi=+7").hi, 7);
    assert_eq!(Save::parse("hi=4294967296").hi, 0);
    assert_eq!(Save::parse("hi=4294967295").hi, 4294967295);
    assert_eq!(Save::parse("hi=1\nhi=2").hi, 2);
    // unknown keys, missing '=', a value with a second '='
    assert_eq!(Save::parse("score=5\nhi\nhi=3=4"), Save::default());
    assert_eq!(Save::parse("volume=0.999").volume, 100);
    assert_eq!(Save::parse("volume=0.994").volume, 99);
    assert_eq!(Save::parse("volume=5.").volume, 100);
    assert_eq!(Save::parse("volume=.").volume, 80);
    assert_eq!(Save::parse("muted=TRUE").muted, false);
}

#[test]
fn volume_exponents_and_infinity() {
    assert_eq!(Save::parse("volume=8e-1").volume, 80);
    assert_eq!(Save::parse("volume=25E-2").volume, 25);
    assert_eq!(Save::parse("volume=0.0005e+3").volume, 50);
    assert_eq!(Save::parse("volume=1e400").volume, 100);
    assert_eq!(Save::parse("volume=1e-400").volume, 0);
    assert_eq!(Save::parse("volume=-1e-400").volume, 0);
    assert_eq!(Save::parse("volume=INF").volume, 100);
    assert_eq!(Save::parse("volume=+Infinity").volume, 100);
    assert_eq!(Save::parse("volume=-inf").volume, 0);
    // malformed numbers leave the default
    assert_eq!(Save::parse("volume=1e").volume, 80);
    assert_eq!(Save::parse("volume=e5").volume, 80);
    assert_eq!(Save::parse("volume=1e+").volume, 80);
    assert_eq!(Save::parse("volume=infinit").volume, 80);
    assert_eq!(Save::parse("volume=1.5.2").volume, 80);
}
