use std::collections::HashMap;

use serde_gff::error::{Error, IoError};
use serde_gff::parser::Token;
use serde_gff::string::{Gender, GffString, Language, LocString, StrRef, StringKey, SubString};
use serde_gff::{Label, ResRef};

#[test]
fn str_ref_tells_the_talk_table() {
    assert!(!StrRef(0).is_user());
    assert!(!StrRef(0x7FFF_FFFF).is_user());
    assert!(StrRef(0x8000_0000).is_user());
    assert!(StrRef(0xFFFF_FFFF).is_user());
    assert_eq!(StrRef(0).code(), 0);
    assert_eq!(StrRef(12345).code(), 12345);
    assert_eq!(StrRef(0x8000_0000 + 12345).code(), 12345);
    assert_eq!(StrRef(0xFFFF_FFFF).code(), 0x7FFF_FFFF);
}

const LANGUAGES: [(Language, u32); 10] = [
    (Language::English, 0),
    (Language::French, 1),
    (Language::German, 2),
    (Language::Italian, 3),
    (Language::Spanish, 4),
    (Language::Polish, 5),
    (Language::Korean, 128),
    (Language::ChineseTraditional, 129),
    (Language::ChineseSimplified, 130),
    (Language::Japanese, 131),
];

#[test]
fn language_has_a_code() {
    for (language, code) in LANGUAGES {
        assert_eq!(language.code(), code);
        assert_eq!(Language::from_code(code), Some(language));
    }
    assert_eq!(Language::from_code(6), None);
    assert_eq!(Language::from_code(127), None);
    assert_eq!(Language::from_code(132), None);
    assert_eq!(Gender::Male.code(), 0);
    assert_eq!(Gender::Female.code(), 1);
}

#[test]
fn key_is_made_of_language_and_gender() {
    for (language, code) in LANGUAGES {
        for (gender, bit) in [(Gender::Male, 0), (Gender::Female, 1)] {
            let key = StringKey::from((language, gender));
            assert_eq!(key, StringKey(code * 2 + bit));
            assert!(key.has_language());
            assert_eq!(key.language(), language);
            assert_eq!(key.gender(), gender);
            assert_eq!(u32::from(key), (code << 1) | bit);
            let id: u32 = key.into();
            assert_eq!(StringKey(id), key);
        }
    }
    assert_eq!(StringKey::from((Language::Korean, Gender::Female)), StringKey(257));
    assert!(!StringKey(12).has_language());
    assert_eq!(StringKey(13).gender(), Gender::Female);
    assert_eq!(StringKey(u32::MAX).gender(), Gender::Female);
    assert_eq!(StringKey(u32::MAX - 1).gender(), Gender::Male);
}

fn sub(key: u32, text: &str) -> SubString {
    SubString { key: StringKey(key), string: text.to_owned() }
}

#[test]
fn substring_is_a_key_and_a_text() {
    let s = SubString::from((StringKey(3), "text".to_owned()));
    assert_eq!(s, sub(3, "text"));
    let pair: (StringKey, String) = s.into();
    assert_eq!(pair, (StringKey(3), "text".to_owned()));
}

#[test]
fn string_with_a_reference_is_external() {
    let value = LocString { str_ref: StrRef(42), strings: vec![sub(0, "ignored")] };
    assert_eq!(GffString::from(value), GffString::External(StrRef(42)));
    assert_eq!(
        LocString::from(GffString::External(StrRef(42))),
        LocString { str_ref: StrRef(42), strings: vec![] }
    );
}

#[test]
fn string_without_a_reference_is_internal() {
    let value = LocString {
        str_ref: StrRef(0xFFFF_FFFF),
        strings: vec![sub(0, "first"), sub(3, "salut"), sub(0, "hello")],
    };
    let mut map = HashMap::new();
    map.insert(0, "hello".to_owned());
    map.insert(3, "salut".to_owned());
    // of two texts with one key, the later one stays
    assert_eq!(GffString::from(value), GffString::Internal(map.clone()));

    let mut back = LocString::from(GffString::Internal(map));
    back.strings.sort_by_key(|s| s.key.0);
    assert_eq!(
        back,
        LocString { str_ref: StrRef(0xFFFF_FFFF), strings: vec![sub(0, "hello"), sub(3, "salut")] }
    );

    let empty = LocString { str_ref: StrRef(0xFFFF_FFFF), strings: vec![] };
    assert_eq!(GffString::from(empty.clone()), GffString::Internal(HashMap::new()));
    assert_eq!(LocString::from(GffString::Internal(HashMap::new())), empty);
}

#[test]
fn label_ends_at_the_first_zero() {
    let label = Label::from_bytes(b"short").unwrap();
    assert_eq!(label, Label(*b"short\0\0\0\0\0\0\0\0\0\0\0"));
    assert_eq!(label.len(), 5);
    assert_eq!(label.as_str(), Ok("short"));
    assert_eq!(label.as_ref(), b"short\0\0\0\0\0\0\0\0\0\0\0");
    assert_eq!(Label(*b"a\0b\0\0\0\0\0\0\0\0\0\0\0\0\0").as_str(), Ok("a"));
    assert_eq!(Label([0; 16]).as_str(), Ok(""));
    assert_eq!(Label::from_bytes(b"").unwrap().len(), 0);
    let full = Label::from_bytes(b"0123456789abcdef").unwrap();
    assert_eq!(full.len(), 16);
    assert_eq!(full.as_str(), Ok("0123456789abcdef"));
    assert_eq!(Label::from_bytes(b"0123456789abcdefg"), Err(Error::TooLongLabel(17)));
    assert_eq!(Label::from_bytes(&[0; 300]), Err(Error::TooLongLabel(300)));
    // bytes that are no UTF-8 are no text
    assert!(Label::from_bytes(&[b'a', 0xFF]).unwrap().as_str().is_err());
    assert!(Label::from_bytes(&[b'a', 0, 0xFF]).unwrap().as_str().is_ok());
}

#[test]
fn resref_is_text_where_it_is_utf8() {
    let name = ResRef::from("nw_chicken");
    assert_eq!(name, ResRef(b"nw_chicken".to_vec()));
    assert_eq!(name.as_str(), Ok("nw_chicken"));
    assert_eq!(name.as_string(), Ok("nw_chicken".to_owned()));
    assert_eq!("юникод".parse::<ResRef>(), Ok(ResRef("юникод".as_bytes().to_vec())));
    assert_eq!(ResRef::named("a"), ResRef(vec![b'a']));
    let broken = ResRef(vec![b'a', 0xC3]);
    assert!(broken.as_str().is_err());
    assert!(broken.as_string().is_err());
    assert_eq!(ResRef(vec![]).as_str(), Ok(""));
}

#[test]
fn error_tells_of_itself_in_words() {
    assert_eq!(Error::ParsingFinished.message(), "Parsing finished");
    assert_eq!(
        Error::UnknownValue { tag: 16, value: 42 }.message(),
        "Unknown field value (tag: 16, value: 42)"
    );
    assert_eq!(
        Error::TooLongLabel(17).message(),
        "Too long label: label can contain up to 16 bytes, but string contains 17 bytes in UTF-8"
    );
    assert_eq!(Error::Encoding("bad".to_owned()).message(), "bad");
    assert_eq!(Error::Serialize("worse".to_owned()).message(), "worse");
    assert_eq!(Error::Deserialize("worst".to_owned()).message(), "worst");
    assert_eq!(Error::Io(IoError::UnexpectedEof).message(), "failed to fill whole buffer");
    assert_eq!(
        Error::Unexpected("Byte", Token::ListBegin(3)).message(),
        "Expected Byte, but ListBegin found"
    );
}
