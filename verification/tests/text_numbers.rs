use dzahui::error::Error;
use dzahui::numbers::{parse_bounded, parse_u32, parse_usize, push_decimal, push_signed_decimal, IntErrorKind};
use dzahui::text::{
    chars_eq, ends_with, remove_char, split_chars, starts_with, string_of, trim_chars,
};

fn cs(s: &str) -> Vec<char> {
    s.chars().collect()
}

#[test]
fn unsigned_parsing_like_std() {
    for s in ["0", "7", "+7", "4294967295", "00012", "12a", "", "+", "-", "-1", "4294967296", "99999999999", " 1"] {
        let ours = parse_u32(&cs(s));
        let std_result = s.parse::<u32>();
        match (ours, std_result) {
            (Ok(a), Ok(b)) => assert_eq!(a, b, "{}", s),
            (Err(k), Err(e)) => {
                let expected = match e.kind() {
                    std::num::IntErrorKind::Empty => IntErrorKind::Empty,
                    std::num::IntErrorKind::InvalidDigit => IntErrorKind::InvalidDigit,
                    std::num::IntErrorKind::PosOverflow => IntErrorKind::PosOverflow,
                    other => panic!("unexpected kind {:?}", other),
                };
                assert_eq!(k, expected, "{}", s);
                assert_eq!(k.message(), e.to_string());
            },
            (a, b) => panic!("{}: {:?} vs {:?}", s, a, b),
        }
    }
}

#[test]
fn usize_and_bounded_parsing() {
    assert_eq!(parse_usize(&cs("18446744073709551615")), Ok(usize::MAX));
    assert_eq!(parse_bounded(&cs("256"), 255), Err(IntErrorKind::PosOverflow));
    assert_eq!(parse_bounded(&cs("255"), 255), Ok(255));
    // An invalid digit after an overflow is not reached.
    assert_eq!(parse_bounded(&cs("999x"), 255), Err(IntErrorKind::PosOverflow));
    assert_eq!(parse_bounded(&cs("9x99"), 255), Err(IntErrorKind::InvalidDigit));
}

#[test]
fn decimal_writing() {
    let mut s = String::from("n=");
    push_decimal(&mut s, 0);
    assert_eq!(s, "n=0");
    let mut s = String::new();
    push_decimal(&mut s, u64::MAX);
    assert_eq!(s, u64::MAX.to_string());
    let mut s = String::new();
    push_signed_decimal(&mut s, -42);
    assert_eq!(s, "-42");
    let mut s = String::new();
    push_signed_decimal(&mut s, i64::MIN);
    assert_eq!(s, i64::MIN.to_string());
}

#[test]
fn decimal_round_trip() {
    for n in [0u64, 9, 10, 4294967295, 123456789] {
        let mut s = String::new();
        push_decimal(&mut s, n);
        assert_eq!(parse_bounded(&cs(&s), u64::MAX), Ok(n));
    }
}

#[test]
fn splitting_and_trimming() {
    let parts = split_chars(&cs("a b  c"), ' ');
    let parts: Vec<String> = parts.iter().map(|p| string_of(p)).collect();
    assert_eq!(parts, vec!["a", "b", "", "c"]);
    assert_eq!(split_chars(&cs(""), ' ').len(), 1);
    assert_eq!(trim_chars(&cs("  x y \t\n")), cs("x y"));
    assert_eq!(trim_chars(&cs("   ")), cs(""));
    assert_eq!(remove_char(&cs("\"a\"b"), '"'), cs("ab"));
    assert!(starts_with(&cs("trace-1"), &cs("trace")));
    assert!(!starts_with(&cs("tr"), &cs("trace")));
    assert!(ends_with(&cs("x.obj"), &cs(".obj")));
    assert!(chars_eq(&cs("abc"), &cs("abc")));
    assert!(!chars_eq(&cs("abc"), &cs("abd")));
}

#[test]
fn error_messages() {
    assert_eq!(Error::custom("plain").message(), "plain");
    assert_eq!(Error::MeshParse("x".to_string()).message(), "Unable to parse mesh file: x");
    assert_eq!(
        Error::ParseInt(IntErrorKind::Empty).message(),
        "ParseInt error: cannot parse integer from empty string"
    );
    assert_eq!(Error::NotFound("Text image file").message(), "Could not find file: Text image file");
    assert_eq!(Error::Matrix("m").message(), "Matrix operation failed m");
    assert_eq!(Error::Parse("p").message(), "Error while parsing file: p");
    assert_eq!(
        Error::ExtensionNotAllowed("a.txt".to_string(), "meshes".to_string()).message(),
        "Extension of file a.txt is not allowed for meshes"
    );
    assert_eq!(Error::CharacterError("c".to_string()).message(), "Error while using character set: c");
    assert_eq!(Error::NullCString("n".to_string()).message(), "Error while interacting with OpenGL: n");
    assert_eq!(Error::ParseFloat("f".to_string()).message(), "ParseFloat error: f");
    assert_eq!(Error::BoundaryError("b".to_string()).message(), "Boundary error: b");
    assert_eq!(Error::Io("i".to_string()).message(), "IO error: i");
    assert_eq!(Error::ImageError("g".to_string()).message(), "Image error: g");
    assert_eq!(Error::Integration("q".to_string()).message(), "Error on integration method occurred: q");
    assert_eq!(Error::Receiver("r".to_string()).message(), "No message received on thread: r");
    assert_eq!(Error::FloatConversion.message(), "Unable to convert between f32 and f64");
    assert_eq!(Error::Infallible.message(), "This error can not happen");
    assert_eq!(
        Error::WrongDims.message(),
        "One or more of the provided elements do not have the correct dimensions"
    );
    assert_eq!(Error::Overflow.message(), "Overflow occurred");
    assert_eq!(
        Error::PieceWiseDims.message(),
        "Number of arguments must be one more than number of breakpoints for a piecewise function definition to make sense"
    );
    assert_eq!(Error::Unimplemented.message(), "This error should not exist. Report it to the developer");
    assert_eq!(Error::Writing.message(), "Error while writing to file values of differential equation");
}

#[test]
fn trimming_agrees_with_std() {
    for code in 0u32..0x3100 {
        if let Some(c) = char::from_u32(code) {
            let s: String = [c, 'a', c, 'b', c, c].iter().collect();
            let ours: String = trim_chars(&cs(&s)).into_iter().collect();
            assert_eq!(ours, s.trim(), "U+{:04X}", code);
        }
    }
}
