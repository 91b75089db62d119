use serde_gff::error::{Error, IoError};
use serde_gff::header::{Header, Section};
use serde_gff::index::{
    BinaryIndex, F64Index, FieldIndex, FieldIndicesIndex, I64Index, Index, LabelIndex,
    ListIndicesIndex, LocStringIndex, ResRefIndex, StringIndex, StructIndex, U64Index,
};
use serde_gff::raw::{Field, FieldType, Gff, Struct};
use serde_gff::sig::Signature;
use serde_gff::source::Source;
use serde_gff::ver::Version;
use serde_gff::Label;

const EOF: Error = Error::Io(IoError::UnexpectedEof);

#[test]
fn source_reads_little_endian_numbers() {
    let mut source = Source::new(vec![1, 2, 3, 4, 5, 6, 7, 8, 9, 10, 11, 12, 13, 14, 15]);
    assert_eq!(source.read_u8(), Ok(1));
    assert_eq!(source.read_u8(), Ok(2));
    assert_eq!(source.read_u8(), Ok(3));
    assert_eq!(source.read_u32(), Ok(0x0706_0504));
    assert_eq!(source.read_u64(), Ok(0x0F0E_0D0C_0B0A_0908));
    assert_eq!(source.position(), 15);
    assert_eq!(source.read_u8(), Err(EOF));
    source.seek(12);
    assert_eq!(source.read_u32(), Err(EOF));
    assert_eq!(source.read_u64(), Err(EOF));
    assert_eq!(source.position(), 12);
    source.seek(11);
    assert_eq!(source.read_u32(), Ok(0x0F0E_0D0C));
    assert_eq!(source.read_u8(), Err(EOF));
}

#[test]
fn source_reads_runs_of_bytes() {
    let mut source = Source::new((0u8..40).collect());
    assert_eq!(source.read_exact(3), Ok(vec![0, 1, 2]));
    assert_eq!(source.read_array4(), Ok([3, 4, 5, 6]));
    assert_eq!(
        source.read_array16(),
        Ok([7, 8, 9, 10, 11, 12, 13, 14, 15, 16, 17, 18, 19, 20, 21, 22])
    );
    assert!(source.has(17));
    assert!(!source.has(18));
    assert_eq!(source.read_exact(18), Err(EOF));
    assert_eq!(source.read_array16().map(|a| a[0]), Ok(23));
    assert_eq!(source.read_array4(), Err(EOF));
    assert_eq!(source.read_array16(), Err(EOF));
    // no bytes can be read anywhere
    source.seek(1000);
    assert_eq!(source.read_exact(0), Ok(vec![]));
    assert_eq!(source.read_exact(1), Err(EOF));
    assert_eq!(source.into_inner().len(), 40);
}

#[test]
fn signature_is_made_from_its_bytes() {
    assert_eq!(Signature::from(*b"IFO "), Signature::IFO);
    assert_eq!(Signature::from(*b"ARE "), Signature::ARE);
    assert_eq!(Signature::from(*b"GIT "), Signature::GIT);
    assert_eq!(Signature::from(*b"GIC "), Signature::GIC);
    assert_eq!(Signature::from(*b"UTC "), Signature::UTC);
    assert_eq!(Signature::from(*b"UTD "), Signature::UTD);
    assert_eq!(Signature::from(*b"UTE "), Signature::UTE);
    assert_eq!(Signature::from(*b"UTI "), Signature::UTI);
    assert_eq!(Signature::from(*b"UTP "), Signature::UTP);
    assert_eq!(Signature::from(*b"UTS "), Signature::UTS);
    assert_eq!(Signature::from(*b"UTM "), Signature::UTM);
    assert_eq!(Signature::from(*b"UTT "), Signature::UTT);
    assert_eq!(Signature::from(*b"UTW "), Signature::UTW);
    assert_eq!(Signature::from(*b"DLG "), Signature::DLG);
    assert_eq!(Signature::from(*b"JRL "), Signature::JRL);
    assert_eq!(Signature::from(*b"FAC "), Signature::FAC);
    assert_eq!(Signature::from(*b"ITP "), Signature::ITP);
    assert_eq!(Signature::from(*b"PTM "), Signature::PTM);
    assert_eq!(Signature::from(*b"PTT "), Signature::PTT);
    assert_eq!(Signature::from(*b"BIC "), Signature::BIC);
    assert_eq!(Signature::from(*b"GFF "), Signature::Other(*b"GFF "));
    assert_eq!(Signature::from(*b"IFO\0"), Signature::Other(*b"IFO\0"));
}

#[test]
fn signature_gives_its_bytes_back() {
    let all = [
        *b"IFO ", *b"ARE ", *b"GIT ", *b"GIC ", *b"UTC ", *b"UTD ", *b"UTE ", *b"UTI ", *b"UTP ",
        *b"UTS ", *b"UTM ", *b"UTT ", *b"UTW ", *b"DLG ", *b"JRL ", *b"FAC ", *b"ITP ", *b"PTM ",
        *b"PTT ", *b"BIC ", *b"GFF ", *b"\0\x01\xFE\xFF",
    ];
    for sig in all {
        assert_eq!(Signature::from(sig).as_ref(), sig);
        let mut out = vec![9];
        Signature::from(sig).write(&mut out);
        assert_eq!(out[1..], sig);
        assert_eq!(Signature::read(&mut Source::new(sig.to_vec())), Ok(Signature::from(sig)));
    }
    assert_eq!(Signature::read(&mut Source::new(vec![1, 2, 3])), Err(EOF));
}

#[test]
fn version_has_a_major_and_a_minor_number() {
    assert_eq!(Version::v3_2(), Version(*b"V3.2"));
    assert_eq!(Version::new(3, 2), Version::v3_2());
    assert_eq!(Version::new(0, 9), Version(*b"V0.9"));
    assert_eq!(Version::v3_2().major(), 3);
    assert_eq!(Version::v3_2().minor(), 2);
    assert_eq!(Version::new(207, 17).major(), 207);
    assert_eq!(Version::new(207, 17).minor(), 17);
    let mut out = Vec::new();
    Version::v3_2().write(&mut out);
    assert_eq!(out, b"V3.2");
    assert_eq!(Version::read(&mut Source::new(b"V3.3!".to_vec())), Ok(Version(*b"V3.3")));
    assert_eq!(Version::read(&mut Source::new(b"V3.".to_vec())), Err(EOF));
}

#[test]
fn section_is_two_numbers() {
    let section = Section { offset: 0x0102_0304, count: 5 };
    let mut out = Vec::new();
    section.write(&mut out);
    assert_eq!(out, [4, 3, 2, 1, 5, 0, 0, 0]);
    assert_eq!(Section::read(&mut Source::new(out)), Ok(section));
    assert_eq!(Section::read(&mut Source::new(vec![0; 7])), Err(EOF));
    assert_eq!(Section::default(), Section { offset: 0, count: 0 });
}

fn sample_header() -> Header {
    Header {
        signature: Signature::UTC,
        version: Version::v3_2(),
        structs: Section { offset: 56, count: 1 },
        fields: Section { offset: 68, count: 2 },
        labels: Section { offset: 92, count: 2 },
        field_data: Section { offset: 124, count: 26 },
        field_indices: Section { offset: 150, count: 8 },
        list_indices: Section { offset: 158, count: 0 },
    }
}

#[test]
fn header_takes_56_bytes() {
    let header = sample_header();
    let mut out = Vec::new();
    header.write(&mut out);
    assert_eq!(
        out,
        [
            b'U', b'T', b'C', b' ', b'V', b'3', b'.', b'2', //
            56, 0, 0, 0, 1, 0, 0, 0, //
            68, 0, 0, 0, 2, 0, 0, 0, //
            92, 0, 0, 0, 2, 0, 0, 0, //
            124, 0, 0, 0, 26, 0, 0, 0, //
            150, 0, 0, 0, 8, 0, 0, 0, //
            158, 0, 0, 0, 0, 0, 0, 0,
        ]
    );
    let mut source = Source::new(out.clone());
    assert_eq!(Header::read(&mut source), Ok(header));
    assert_eq!(source.position(), 56);
    out.pop();
    let mut source = Source::new(out);
    assert_eq!(Header::read(&mut source), Err(EOF));
    assert_eq!(source.position(), 0);
}

#[test]
fn new_header_is_empty() {
    let header = Header::new(Signature::DLG);
    assert_eq!(header.signature, Signature::DLG);
    assert_eq!(header.version, Version::v3_2());
    assert_eq!(header.structs, Section::default());
    assert_eq!(header.list_indices, Section::default());
    let header = Header::with_version(Signature::Other(*b"GFF "), Version::new(3, 3));
    assert_eq!(header.version, Version(*b"V3.3"));
    assert_eq!(header.fields, Section::default());
    assert_eq!(header.token_count(0), 0);
}

#[test]
fn token_count_is_the_larger_of_two_numbers() {
    let mut header = sample_header();
    // two tokens for the one struct
    assert_eq!(header.token_count(0), 2);
    header.fields.count = 3;
    assert_eq!(header.token_count(0), 3);
    // four structs and one list
    header.structs.count = 4;
    assert_eq!(header.token_count(1), 10);
    assert_eq!(header.token_count(3), 14);
    header.structs.count = u32::MAX;
    assert_eq!(header.token_count(u32::MAX), 4 * (u32::MAX as u64));
    header.fields.count = u32::MAX;
    header.structs.count = 0;
    assert_eq!(header.token_count(0), u32::MAX as u64);
}

#[test]
fn token_count_takes_the_number_of_lists_not_their_size() {
    let mut header = sample_header();
    header.structs.count = 1;
    header.fields.count = 1;
    let with_small_lists = header.token_count(1);
    header.list_indices.count = 4000;
    assert_eq!(header.token_count(1), with_small_lists);
    assert_eq!(header.token_count(1), 4);
}

#[test]
fn index_points_into_its_section() {
    let header = sample_header();
    assert_eq!(StructIndex(0).offset(&header), 56);
    assert_eq!(StructIndex(3).offset(&header), 56 + 36);
    assert_eq!(FieldIndex(2).offset(&header), 68 + 24);
    assert_eq!(LabelIndex(2).offset(&header), 92 + 32);
    assert_eq!(U64Index(7).offset(&header), 131);
    assert_eq!(I64Index(7).offset(&header), 131);
    assert_eq!(F64Index(7).offset(&header), 131);
    assert_eq!(StringIndex(7).offset(&header), 131);
    assert_eq!(ResRefIndex(7).offset(&header), 131);
    assert_eq!(LocStringIndex(7).offset(&header), 131);
    assert_eq!(BinaryIndex(u32::MAX).offset(&header), 124 + u32::MAX as u64);
    assert_eq!(FieldIndicesIndex(8, 0).offset(&header), 158);
    assert_eq!(FieldIndicesIndex(8, 3).offset(&header), 170);
    assert_eq!((FieldIndicesIndex(8, 3) + 2).offset(&header), 178);
    // an item of a list lies behind the length of the list
    assert_eq!(ListIndicesIndex(16, 0).offset(&header), 158 + 16 + 4);
    assert_eq!(ListIndicesIndex(16, 2).offset(&header), 158 + 16 + 12);
    assert_eq!(ListIndicesIndex(16, 2) + 1, ListIndicesIndex(16, 3));
    assert_eq!(
        ListIndicesIndex(u32::MAX, u32::MAX).offset(&header),
        158 + u32::MAX as u64 + 4 + 4 * (u32::MAX as u64)
    );
    assert_eq!(StructIndex::from(5), StructIndex(5));
    assert_eq!(LabelIndex::from(5), LabelIndex(5));
    let index: StringIndex = 9.into();
    assert_eq!(index, StringIndex(9));
}

#[test]
fn field_type_has_a_code() {
    let all = [
        FieldType::Byte,
        FieldType::Char,
        FieldType::Word,
        FieldType::Short,
        FieldType::Dword,
        FieldType::Int,
        FieldType::Dword64,
        FieldType::Int64,
        FieldType::Float,
        FieldType::Double,
        FieldType::String,
        FieldType::ResRef,
        FieldType::LocString,
        FieldType::Void,
        FieldType::Struct,
        FieldType::List,
    ];
    for (code, t) in all.iter().enumerate() {
        assert_eq!(t.code(), code as u32);
        assert_eq!(FieldType::from_u32(code as u32), Some(*t));
        assert_eq!(t.is_simple(), code <= 5 || code == 8);
        assert_eq!(t.is_complex(), (6..=13).contains(&code) && code != 8);
    }
    assert_eq!(FieldType::from_u32(16), None);
    assert_eq!(FieldType::from_u32(u32::MAX), None);
}

#[test]
fn records_take_12_bytes() {
    let s = Struct { tag: 0xFFFF_FFFF, offset: 12, fields: 2 };
    let mut out = Vec::new();
    s.write(&mut out);
    assert_eq!(out, [0xFF, 0xFF, 0xFF, 0xFF, 12, 0, 0, 0, 2, 0, 0, 0]);
    assert_eq!(Struct::read(&mut Source::new(out)), Ok(s));
    assert_eq!(Struct::read(&mut Source::new(vec![0; 11])), Err(EOF));

    let f = Field { tag: 10, label: 1, data: [9, 8, 7, 6] };
    let mut out = Vec::new();
    f.write(&mut out);
    assert_eq!(out, [10, 0, 0, 0, 1, 0, 0, 0, 9, 8, 7, 6]);
    assert_eq!(Field::read(&mut Source::new(out)), Ok(f));
    assert_eq!(Field::read(&mut Source::new(vec![0; 11])), Err(EOF));
}

/// The file of a struct with the two fields `field1` and `field2`, which
/// hold the texts `value` and `another value`.
fn two_fields_file() -> Vec<u8> {
    vec![
        b'G', b'F', b'F', b' ', //
        b'V', b'3', b'.', b'2', //
        56, 0, 0, 0, 1, 0, 0, 0, //
        68, 0, 0, 0, 2, 0, 0, 0, //
        92, 0, 0, 0, 2, 0, 0, 0, //
        124, 0, 0, 0, 26, 0, 0, 0, //
        150, 0, 0, 0, 8, 0, 0, 0, //
        158, 0, 0, 0, 0, 0, 0, 0, //
        0, 0, 0, 0, 0, 0, 0, 0, 2, 0, 0, 0, //
        10, 0, 0, 0, 0, 0, 0, 0, 0, 0, 0, 0, //
        10, 0, 0, 0, 1, 0, 0, 0, 9, 0, 0, 0, //
        b'f', b'i', b'e', b'l', b'd', b'1', 0, 0, 0, 0, 0, 0, 0, 0, 0, 0, //
        b'f', b'i', b'e', b'l', b'd', b'2', 0, 0, 0, 0, 0, 0, 0, 0, 0, 0, //
        5, 0, 0, 0, b'v', b'a', b'l', b'u', b'e', //
        13, 0, 0, 0, b'a', b'n', b'o', b't', b'h', b'e', b'r', b' ', b'v', b'a', b'l', b'u',
        b'e', //
        0, 0, 0, 0, 1, 0, 0, 0,
    ]
}

#[test]
fn whole_file_is_read_and_written_back() {
    let file = two_fields_file();
    let gff = Gff::read(&mut Source::new(file.clone())).unwrap();
    assert_eq!(gff.header.signature, Signature::Other(*b"GFF "));
    assert_eq!(gff.structs, vec![Struct { tag: 0, offset: 0, fields: 2 }]);
    assert_eq!(
        gff.fields,
        vec![
            Field { tag: 10, label: 0, data: [0, 0, 0, 0] },
            Field { tag: 10, label: 1, data: [9, 0, 0, 0] },
        ]
    );
    assert_eq!(gff.labels, vec!["field1".parse::<Label>().unwrap(), "field2".parse().unwrap()]);
    assert_eq!(gff.field_data.len(), 26);
    assert_eq!(gff.field_indices, vec![0, 1]);
    assert_eq!(gff.list_indices, Vec::<u32>::new());

    let mut out = Vec::new();
    gff.write(&mut out);
    assert_eq!(out, file);
    assert_eq!(Gff::read(&mut Source::new(out)), Ok(gff));
}

#[test]
fn file_with_a_missing_section_is_not_read() {
    let mut file = two_fields_file();
    file.pop();
    assert_eq!(Gff::read(&mut Source::new(file)), Err(EOF));
    let mut file = two_fields_file();
    // one struct more than the file holds
    file[12] = 9;
    assert_eq!(Gff::read(&mut Source::new(file)), Err(EOF));
    assert_eq!(Gff::read(&mut Source::new(vec![0; 55])), Err(EOF));
    // empty sections behind the end of the file do no harm
    let mut file = vec![0; 56];
    file[8] = 200;
    file[40] = 200;
    let gff = Gff::read(&mut Source::new(file)).unwrap();
    assert!(gff.structs.is_empty());
    assert!(gff.field_indices.is_empty());
}
