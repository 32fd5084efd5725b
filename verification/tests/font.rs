use dzahui::error::Error;
use dzahui::font::{
    character_line_fields, key_value, parse_count_line, parse_info_line, parse_property_line,
    texture_image_path, FontMetadata, PropertyMap,
};
use dzahui::numbers::IntErrorKind;

const TEST_FNT: &str = "info face=\"Liberation Sans\" size=12 bold=0 italic=0 charset=\"\" unicode=1 stretchH=100 smooth=1 aa=1 padding=0,0,0,0 spacing=1,1 outline=0
common lineHeight=19 base=15 scaleW=640 scaleH=394 pages=1 packed=0 alphaChnl=1 redChnl=0 greenChnl=0 blueChnl=0
page id=0 file=\"dzahui-font.png\"
chars count=3
char id=123  x=0    y=0    width=21   height=61   xoffset=1    yoffset=13   xadvance=9    page=0  chnl=15
char id=32   x=0    y=0    width=0    height=0    xoffset=5    yoffset=18   xadvance=5    page=0  chnl=15
char id=97   x=211  y=153  width=35   height=37   xoffset=2    yoffset=25   xadvance=9    page=0  chnl=15
";

fn props(line: &str) -> PropertyMap {
    parse_property_line(line).unwrap()
}

fn value(m: &PropertyMap, k: &str) -> Option<String> {
    m.get(k).map(|v| v.into_iter().collect())
}

#[test]
fn read_properly() {
    let lines: Vec<&str> = TEST_FNT.lines().collect();
    let (font_type, info) = parse_info_line(lines[0]).unwrap();
    let common = props(lines[1]);
    let page = props(lines[2]);
    let count = parse_count_line(lines[3]).unwrap().unwrap();
    let meta = FontMetadata::from_properties(font_type, &info, &common, &page, count).unwrap();
    assert_eq!(meta.font_type, "Liberation Sans");
    assert_eq!(meta.font_size, 12);
    assert!(!meta.is_italic);
    assert!(!meta.is_bold);
    assert_eq!(meta.line_height, 19);
    assert_eq!(meta.encoding, "unicode");
    assert_eq!(meta.texture_file, "dzahui-font.png");
    assert_eq!(meta.texture_size, (640, 394));
    assert_eq!(meta.character_number, 3);
    assert_eq!(texture_image_path(&page).unwrap(), "./assets/dzahui-font.png");

    let mut chars: Vec<Vec<String>> = Vec::new();
    for line in &lines[4..] {
        if let Some(fields) = character_line_fields(line).unwrap() {
            chars.push(fields);
        }
    }
    assert_eq!(chars.len(), 3);
    assert_eq!(
        chars[0],
        vec!["id=123", "x=0", "y=0", "width=21", "height=61", "xoffset=1", "yoffset=13", "xadvance=9", "page=0", "chnl=15"]
    );
    assert_eq!(key_value(&chars[2][1]), Some(("x".to_string(), "211".to_string())));
    assert_eq!(key_value(&chars[2][2]), Some(("y".to_string(), "153".to_string())));
}

#[test]
fn key_value_pairs() {
    assert_eq!(key_value("size=12"), Some(("size".to_string(), "12".to_string())));
    assert_eq!(key_value("charset="), Some(("charset".to_string(), "".to_string())));
    assert_eq!(key_value("a=b=c"), Some(("a".to_string(), "b".to_string())));
    assert_eq!(key_value("plain"), None);
}

#[test]
fn property_maps() {
    let m = props("common lineHeight=19 base=15 base=16");
    assert_eq!(value(&m, "lineHeight"), Some("19".to_string()));
    assert_eq!(value(&m, "base"), Some("16".to_string()));
    assert_eq!(value(&m, "scaleW"), None);
    assert!(parse_property_line("common lineHeight=19 oops").is_none());
    let empty = props("page");
    assert_eq!(value(&empty, "id"), None);

    let mut m = PropertyMap::new();
    m.insert(&['k'], &['1']);
    m.insert(&['j'], &['2']);
    m.insert(&['k'], &['3']);
    assert_eq!(value(&m, "k"), Some("3".to_string()));
    assert_eq!(value(&m, "j"), Some("2".to_string()));
}

#[test]
fn info_lines() {
    let (name, m) = parse_info_line("info face=\"Mono\"  size=9 bold=1 ").unwrap();
    assert_eq!(name, "Mono");
    assert_eq!(value(&m, "size"), Some("9".to_string()));
    assert_eq!(value(&m, "bold"), Some("1".to_string()));
    assert!(parse_info_line("info face=Mono size=9").is_none());
    assert!(parse_info_line("info face=\"Mono\" size").is_none());
}

#[test]
fn count_lines() {
    assert_eq!(parse_count_line("chars count=95").unwrap().unwrap(), 95);
    assert_eq!(parse_count_line("chars a=1 count=2 count=4").unwrap().unwrap(), 4);
    match parse_count_line("chars a=1").unwrap() {
        Err(Error::Custom(m)) => assert_eq!(m, "Could not find propperty 'count' on text file"),
        other => panic!("unexpected {:?}", other),
    }
    assert!(matches!(
        parse_count_line("chars count=x").unwrap(),
        Err(Error::ParseInt(IntErrorKind::InvalidDigit))
    ));
    assert!(matches!(
        parse_count_line("chars count=").unwrap(),
        Err(Error::ParseInt(IntErrorKind::Empty))
    ));
    // The first failure decides.
    assert!(matches!(
        parse_count_line("chars count=x broken").unwrap(),
        Err(Error::ParseInt(IntErrorKind::InvalidDigit))
    ));
    assert!(parse_count_line("chars broken count=x").is_none());
}

#[test]
fn character_lines() {
    assert_eq!(character_line_fields("kernings count=0").unwrap(), None);
    assert_eq!(
        character_line_fields("  char  id=1   x=2 ").unwrap(),
        Some(vec!["id=1".to_string(), "x=2".to_string()])
    );
    match character_line_fields("   ") {
        Err(Error::Parse(m)) => assert_eq!(m, "Could not parse text file propperly"),
        other => panic!("unexpected {:?}", other),
    }
    assert!(character_line_fields("").is_err());
}

fn metadata_error(info: &str, common: &str, page: &str) -> Error {
    let (name, info) = parse_info_line(info).unwrap();
    FontMetadata::from_properties(name, &info, &props(common), &props(page), 1).unwrap_err()
}

fn custom(e: Error) -> String {
    match e {
        Error::Custom(m) => m,
        other => panic!("unexpected {:?}", other),
    }
}

#[test]
fn metadata_errors_in_order() {
    let common = "common lineHeight=19 scaleW=640 scaleH=394";
    let page = "page file=\"f.png\"";
    assert_eq!(
        custom(metadata_error("info face=\"F\" bold=0 italic=0", common, page)),
        "Could not find 'size' property on text file"
    );
    assert!(matches!(
        metadata_error("info face=\"F\" size=-1 bold=0 italic=0", common, page),
        Error::ParseInt(IntErrorKind::InvalidDigit)
    ));
    assert_eq!(
        custom(metadata_error("info face=\"F\" size=1 italic=0", common, page)),
        "Could not find property 'bold' on text file"
    );
    assert_eq!(
        custom(metadata_error("info face=\"F\" size=1 bold=0", common, page)),
        "Could not find property 'bold'"
    );
    assert_eq!(
        custom(metadata_error("info face=\"F\" size=1 bold=0 italic=0", "common scaleW=1 scaleH=1", page)),
        "Could not find property 'lineHEight' on text file"
    );
    assert_eq!(
        custom(metadata_error("info face=\"F\" size=1 bold=0 italic=0", "common lineHeight=1 scaleH=1", page)),
        "Could not find property 'scaleW' on text file"
    );
    assert_eq!(
        custom(metadata_error("info face=\"F\" size=1 bold=0 italic=0", "common lineHeight=1 scaleW=1", page)),
        "Could not find property 'scaleH' on text file"
    );
    assert!(matches!(
        metadata_error("info face=\"F\" size=1 bold=0 italic=0", "common lineHeight=1 scaleW=99999999999 scaleH=1", page),
        Error::ParseInt(IntErrorKind::PosOverflow)
    ));
    assert_eq!(
        custom(metadata_error("info face=\"F\" size=1 bold=0 italic=0", common, "page id=0")),
        "Could not find property 'file' on text file"
    );
}

#[test]
fn bold_and_italic_flags() {
    let (name, info) = parse_info_line("info face=\"F\" size=3 bold=1 italic=1").unwrap();
    let m = FontMetadata::from_properties(
        name,
        &info,
        &props("common lineHeight=1 scaleW=2 scaleH=3"),
        &props("page file=img.png"),
        0,
    )
    .unwrap();
    assert!(m.is_bold && m.is_italic);
    assert_eq!(m.texture_file, "img.png");
    assert_eq!(m.texture_size, (2, 3));
}

#[test]
fn missing_texture_file() {
    match texture_image_path(&props("page id=0")) {
        Err(Error::NotFound(m)) => assert_eq!(m, "Text image file"),
        other => panic!("unexpected {:?}", other),
    }
}
