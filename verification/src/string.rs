//! The strings that a GFF file references, or holds in several languages.

use std::collections::HashMap;
use vstd::prelude::*;
use vstd::std_specs::iter::IteratorSpec;

verus! {

broadcast use vstd::std_specs::hash::group_hash_axioms;

/// The bit of a string reference that tells the talk table of the module
/// from that of the game.
pub const USER_TLK_MASK: u32 = 0x8000_0000;

/// The string reference that stands for "no reference": the text is held in
/// the file itself.
pub const NO_STR_REF: u32 = 0xFFFF_FFFF;

/// The number of an entry of a talk table, which holds the text in the
/// language of the game.
#[derive(Debug, Clone, Copy, PartialEq, Eq, Hash)]
pub struct StrRef(pub u32);

impl StrRef {
    /// Whether the entry is one of the talk table of the module and not of
    /// that of the game: the highest bit of the reference says so.
    pub fn is_user(&self) -> (b: bool)
        ensures
            b == (self.0 >= USER_TLK_MASK),
    {
        let x = self.0;
        assert((x & 0x8000_0000u32 != 0) == (x >= 0x8000_0000u32)) by (bit_vector);
        self.0 & USER_TLK_MASK != 0
    }

    /// The number of the entry in its talk table: the reference without its
    /// highest bit.
    pub fn code(&self) -> (n: u32)
        ensures
            n == self.0 % USER_TLK_MASK,
    {
        let x = self.0;
        assert(x & !0x8000_0000u32 == x % 0x8000_0000u32) by (bit_vector);
        self.0 & !USER_TLK_MASK
    }
}

/// The languages in which a file can hold a text.
#[derive(Debug, Clone, Copy, PartialEq, Eq, Hash)]
pub enum Language {
    /// English, code 0.
    English,
    /// French, code 1.
    French,
    /// German, code 2.
    German,
    /// Italian, code 3.
    Italian,
    /// Spanish, code 4.
    Spanish,
    /// Polish, code 5.
    Polish,
    /// Korean, code 128.
    Korean,
    /// Traditional Chinese, code 129.
    ChineseTraditional,
    /// Simplified Chinese, code 130.
    ChineseSimplified,
    /// Japanese, code 131.
    Japanese,
}

impl Language {
    /// The number that stands for the language in a file.
    pub open spec fn spec_code(self) -> u32 {
        match self {
            Language::English => 0,
            Language::French => 1,
            Language::German => 2,
            Language::Italian => 3,
            Language::Spanish => 4,
            Language::Polish => 5,
            Language::Korean => 128,
            Language::ChineseTraditional => 129,
            Language::ChineseSimplified => 130,
            Language::Japanese => 131,
        }
    }

    /// The language that `code` stands for, if it is the code of one.
    pub open spec fn of_code(code: u32) -> Option<Language> {
        if code == 0 {
            Some(Language::English)
        } else if code == 1 {
            Some(Language::French)
        } else if code == 2 {
            Some(Language::German)
        } else if code == 3 {
            Some(Language::Italian)
        } else if code == 4 {
            Some(Language::Spanish)
        } else if code == 5 {
            Some(Language::Polish)
        } else if code == 128 {
            Some(Language::Korean)
        } else if code == 129 {
            Some(Language::ChineseTraditional)
        } else if code == 130 {
            Some(Language::ChineseSimplified)
        } else if code == 131 {
            Some(Language::Japanese)
        } else {
            None
        }
    }

    /// The number that stands for the language in a file.
    pub fn code(&self) -> (code: u32)
        ensures
            code == self.spec_code(),
    {
        match *self {
            Language::English => 0,
            Language::French => 1,
            Language::German => 2,
            Language::Italian => 3,
            Language::Spanish => 4,
            Language::Polish => 5,
            Language::Korean => 128,
            Language::ChineseTraditional => 129,
            Language::ChineseSimplified => 130,
            Language::Japanese => 131,
        }
    }

    /// The language that `code` stands for, if it is the code of one.
    pub fn from_code(code: u32) -> (language: Option<Language>)
        ensures
            language == Language::of_code(code),
    {
        match code {
            0 => Some(Language::English),
            1 => Some(Language::French),
            2 => Some(Language::German),
            3 => Some(Language::Italian),
            4 => Some(Language::Spanish),
            5 => Some(Language::Polish),
            128 => Some(Language::Korean),
            129 => Some(Language::ChineseTraditional),
            130 => Some(Language::ChineseSimplified),
            131 => Some(Language::Japanese),
            _ => None,
        }
    }
}

/// The gender of the character that a text is written for.
#[derive(Debug, Clone, Copy, PartialEq, Eq, Hash)]
pub enum Gender {
    /// The text is for a male character, or for any: code 0.
    Male,
    /// The text is for a female character: code 1.
    Female,
}

impl Gender {
    /// The number that stands for the gender in a file.
    pub open spec fn spec_code(self) -> u32 {
        match self {
            Gender::Male => 0,
            Gender::Female => 1,
        }
    }

    /// The gender that the lowest bit of `code` stands for.
    pub open spec fn of_code(code: u32) -> Gender {
        if code % 2 == 0 {
            Gender::Male
        } else {
            Gender::Female
        }
    }

    /// The number that stands for the gender in a file.
    pub fn code(&self) -> (code: u32)
        ensures
            code == self.spec_code(),
    {
        match *self {
            Gender::Male => 0,
            Gender::Female => 1,
        }
    }
}

/// The key under which a file holds one text of a localized string: twice
/// the code of the language, plus the code of the gender.
#[derive(Debug, Clone, Copy, PartialEq, Eq, Hash)]
pub struct StringKey(pub u32);

impl StringKey {
    /// The key of the texts in `language` for `gender`.
    pub open spec fn of(language: Language, gender: Gender) -> StringKey {
        StringKey((language.spec_code() * 2 + gender.spec_code()) as u32)
    }

    /// The code of the language of the key: all of its bits but the lowest.
    pub open spec fn language_code(self) -> u32 {
        self.0 / 2
    }

    /// Whether the key names a language that has a code.
    pub fn has_language(&self) -> (b: bool)
        ensures
            b == (Language::of_code(self.language_code()) is Some),
    {
        Language::from_code(self.0 / 2).is_some()
    }

    /// The language of the texts under this key.
    pub fn language(&self) -> (language: Language)
        requires
            Language::of_code(self.language_code()) is Some,
        ensures
            Language::of_code(self.language_code()) == Some(language),
    {
        match Language::from_code(self.0 / 2) {
            Some(language) => language,
            None => Language::English,
        }
    }

    /// The gender of the character that the texts under this key are for:
    /// the lowest bit of the key.
    pub fn gender(&self) -> (gender: Gender)
        ensures
            gender == Gender::of_code(self.0),
    {
        if self.0 % 2 == 0 {
            Gender::Male
        } else {
            Gender::Female
        }
    }
}

impl vstd::std_specs::convert::FromSpecImpl<(Language, Gender)> for StringKey {
    open spec fn obeys_from_spec() -> bool {
        true
    }

    open spec fn from_spec(value: (Language, Gender)) -> StringKey {
        StringKey::of(value.0, value.1)
    }
}

impl From<(Language, Gender)> for StringKey {
    fn from(value: (Language, Gender)) -> (key: StringKey) {
        let language: u32 = value.0.code();
        let gender: u32 = value.1.code();
        assert(language < 0x100 && gender < 2 ==> (language << 1) | gender == language * 2
            + gender) by (bit_vector);
        StringKey((language << 1) | gender)
    }
}

impl vstd::std_specs::convert::FromSpecImpl<StringKey> for u32 {
    open spec fn obeys_from_spec() -> bool {
        true
    }

    open spec fn from_spec(key: StringKey) -> u32 {
        key.0
    }
}

impl From<StringKey> for u32 {
    /// The number that stands for the key in a file.
    fn from(key: StringKey) -> (id: u32) {
        key.0
    }
}

/// One text of a localized string, in one language and for one gender.
#[derive(Debug, Clone, PartialEq, Eq, Hash)]
pub struct SubString {
    /// The language of the text and the gender that it is for.
    pub key: StringKey,
    /// The text.
    pub string: String,
}

impl vstd::std_specs::convert::FromSpecImpl<(StringKey, String)> for SubString {
    open spec fn obeys_from_spec() -> bool {
        true
    }

    open spec fn from_spec(value: (StringKey, String)) -> SubString {
        SubString { key: value.0, string: value.1 }
    }
}

impl From<(StringKey, String)> for SubString {
    fn from(value: (StringKey, String)) -> (sub: SubString) {
        SubString { key: value.0, string: value.1 }
    }
}

impl vstd::std_specs::convert::FromSpecImpl<SubString> for (StringKey, String) {
    open spec fn obeys_from_spec() -> bool {
        true
    }

    open spec fn from_spec(sub: SubString) -> (StringKey, String) {
        (sub.key, sub.string)
    }
}

impl From<SubString> for (StringKey, String) {
    fn from(sub: SubString) -> (value: (StringKey, String)) {
        (sub.key, sub.string)
    }
}

/// A localized string as a file holds it: a reference into a talk table and
/// a list of texts. It can hold what makes no sense, such as a reference
/// together with texts, or two texts under one key.
#[derive(Debug, Clone, PartialEq, Eq, Hash)]
pub struct LocString {
    /// The entry of the talk table that holds the text.
    pub str_ref: StrRef,
    /// The texts, each for a language and a gender.
    pub strings: Vec<SubString>,
}

/// A localized string in a form that cannot hold what makes no sense.
#[derive(Debug, Clone, PartialEq, Eq)]
pub enum GffString {
    /// The text is an entry of a talk table.
    External(StrRef),
    /// The texts are held in the file, one for each key.
    Internal(HashMap<u32, String>),
}

/// The texts of `strings` by the number of their key. Where two texts have
/// one key, the later one stays.
pub open spec fn texts(strings: Seq<SubString>) -> Map<u32, String>
    decreases strings.len(),
{
    if strings.len() == 0 {
        Map::empty()
    } else {
        texts(strings.drop_last()).insert(strings.last().key.0, strings.last().string)
    }
}

impl GffString {
    /// Whether this is the sound form of `value`: its texts, where its
    /// reference is the one that stands for none, else its reference alone.
    pub open spec fn is_form_of(self, value: LocString) -> bool {
        if value.str_ref.0 == NO_STR_REF {
            self matches GffString::Internal(map) && map@ == texts(value.strings@)
        } else {
            self == GffString::External(value.str_ref)
        }
    }

    /// The sound form of `value`.
    pub fn from_loc_string(value: LocString) -> (s: GffString)
        ensures
            s.is_form_of(value),
    {
        if value.str_ref.0 != NO_STR_REF {
            return GffString::External(value.str_ref);
        }
        let mut map: HashMap<u32, String> = HashMap::new();
        let mut i: usize = 0;
        while i < value.strings.len()
            invariant
                i <= value.strings@.len(),
                map@ == texts(value.strings@.take(i as int)),
            decreases value.strings@.len() - i,
        {
            let key: u32 = value.strings[i].key.0;
            let text = value.strings[i].string.clone();
            map.insert(key, text);
            proof {
                let now = value.strings@.take(i + 1);
                assert(now.drop_last() =~= value.strings@.take(i as int));
            }
            i += 1;
        }
        assert(value.strings@.take(i as int) =~= value.strings@);
        GffString::Internal(map)
    }
}

impl From<LocString> for GffString {
    /// The sound form of `value`: see `GffString::from_loc_string`.
    fn from(value: LocString) -> (s: GffString)
        ensures
            s.is_form_of(value),
    {
        GffString::from_loc_string(value)
    }
}

impl vstd::std_specs::convert::FromSpecImpl<LocString> for GffString {
    open spec fn obeys_from_spec() -> bool {
        false
    }

    open spec fn from_spec(value: LocString) -> GffString {
        arbitrary()
    }
}

impl LocString {
    /// Whether this is a form of `value` as a file holds it: its string
    /// reference alone, or the reference that stands for none with its
    /// texts, each once, in whatever order.
    pub open spec fn is_form_of(self, value: GffString) -> bool {
        match value {
            GffString::External(str_ref) => self.str_ref == str_ref && self.strings@.len() == 0,
            GffString::Internal(map) => self.str_ref.0 == NO_STR_REF && self.strings@.len()
                == map@.len() && texts(self.strings@) == map@,
        }
    }

    /// A form of `value` as a file holds it. The order of the texts is the
    /// one in which the map gives them, which is not told.
    pub fn from_gff_string(value: GffString) -> (s: LocString)
        ensures
            s.is_form_of(value),
    {
        match value {
            GffString::External(str_ref) => LocString { str_ref, strings: Vec::new() },
            GffString::Internal(map) => {
                let mut strings: Vec<SubString> = Vec::new();
                let ghost entries = vstd::std_specs::hash::spec_hash_map_iter(&map).remaining();
                for pair in it: map.iter()
                    invariant
                        it.seq() == entries,
                        it.seq().no_duplicates(),
                        strings@.len() == it.index(),
                        forall|i: int|
                            0 <= i < strings@.len() ==> (#[trigger] strings@[i]).key.0
                                == *entries[i].0 && strings@[i].string == *entries[i].1,
                {
                    strings.push(SubString { key: StringKey(*pair.0), string: pair.1.clone() });
                }
                proof {
                    assert(strings@.len() == entries.len());
                    assert forall|i: int| 0 <= i < strings@.len() implies map@.contains_key(
                        (#[trigger] strings@[i]).key.0,
                    ) && map@[strings@[i].key.0] == strings@[i].string by {
                        assert(map@.contains_key(*entries[i].0));
                    }
                    assert forall|i: int, j: int| 0 <= i < j < strings@.len() implies (
                    #[trigger] strings@[i]).key.0 != (#[trigger] strings@[j]).key.0 by {
                        assert(map@.contains_key(*entries[i].0));
                        assert(map@.contains_key(*entries[j].0));
                        if strings@[i].key.0 == strings@[j].key.0 {
                            assert(*entries[i].1 == *entries[j].1);
                            assert(entries[i] == entries[j]);
                        }
                    }
                    lemma_texts_of_entries(strings@, map@);
                }
                LocString { str_ref: StrRef(NO_STR_REF), strings }
            },
        }
    }
}

/// Texts that are the entries of a map, each once, are the texts of that
/// map by their keys.
pub proof fn lemma_texts_of_entries(strings: Seq<SubString>, map: Map<u32, String>)
    requires
        map.dom().finite(),
        strings.len() == map.len(),
        forall|i: int|
            0 <= i < strings.len() ==> map.contains_key((#[trigger] strings[i]).key.0) && map[strings[i].key.0]
                == strings[i].string,
        forall|i: int, j: int|
            0 <= i < j < strings.len() ==> (#[trigger] strings[i]).key.0 != (#[trigger] strings[j]).key.0,
    ensures
        texts(strings) == map,
{
    lemma_texts_dom(strings);
    let keys = Set::new(|k: u32| exists|i: int| 0 <= i < strings.len() && strings[i].key.0 == k);
    assert(keys.subset_of(map.dom()));
    lemma_keys_len(strings);
    vstd::set_lib::lemma_subset_equality(keys, map.dom());
    assert(texts(strings).dom() =~= map.dom());
    assert forall|k: u32| map.contains_key(k) implies texts(strings)[k] == map[k] by {
        let i = choose|i: int| 0 <= i < strings.len() && strings[i].key.0 == k;
        lemma_texts_at(strings, i);
    }
    assert(texts(strings) =~= map);
}

/// The keys of the texts of `strings` are the keys under which `texts`
/// holds a text.
pub proof fn lemma_texts_dom(strings: Seq<SubString>)
    ensures
        texts(strings).dom() == Set::new(
            |k: u32| exists|i: int| 0 <= i < strings.len() && strings[i].key.0 == k,
        ),
    decreases strings.len(),
{
    let keys = Set::new(|k: u32| exists|i: int| 0 <= i < strings.len() && strings[i].key.0 == k);
    if strings.len() == 0 {
        assert(texts(strings).dom() =~= keys);
    } else {
        let front = strings.drop_last();
        lemma_texts_dom(front);
        assert forall|k: u32| texts(strings).dom().contains(k) <==> keys.contains(k) by {
            if texts(strings).dom().contains(k) {
                if k == strings.last().key.0 {
                    assert(strings[strings.len() - 1].key.0 == k);
                } else {
                    let i = choose|i: int| 0 <= i < front.len() && front[i].key.0 == k;
                    assert(strings[i].key.0 == k);
                }
            }
            if keys.contains(k) {
                let i = choose|i: int| 0 <= i < strings.len() && strings[i].key.0 == k;
                if i < front.len() {
                    assert(front[i].key.0 == k);
                }
            }
        }
        assert(texts(strings).dom() =~= keys);
    }
}

/// Texts with keys that differ from each other have as many keys as there
/// are texts.
pub proof fn lemma_keys_len(strings: Seq<SubString>)
    requires
        forall|i: int, j: int|
            0 <= i < j < strings.len() ==> (#[trigger] strings[i]).key.0 != (#[trigger] strings[j]).key.0,
    ensures
        Set::new(|k: u32| exists|i: int| 0 <= i < strings.len() && strings[i].key.0 == k).finite(),
        Set::new(|k: u32| exists|i: int| 0 <= i < strings.len() && strings[i].key.0 == k).len()
            == strings.len(),
    decreases strings.len(),
{
    let keys = Set::new(|k: u32| exists|i: int| 0 <= i < strings.len() && strings[i].key.0 == k);
    if strings.len() == 0 {
        assert(keys =~= Set::empty());
    } else {
        let front = strings.drop_last();
        let before = Set::new(|k: u32| exists|i: int| 0 <= i < front.len() && front[i].key.0 == k);
        assert forall|i: int, j: int| 0 <= i < j < front.len() implies (#[trigger] front[i]).key.0
            != (#[trigger] front[j]).key.0 by {
            assert(strings[i].key.0 != strings[j].key.0);
        }
        lemma_keys_len(front);
        let last = strings.last().key.0;
        assert(!before.contains(last)) by {
            if before.contains(last) {
                let i = choose|i: int| 0 <= i < front.len() && front[i].key.0 == last;
                assert(strings[i].key.0 != strings[strings.len() - 1].key.0);
            }
        }
        assert forall|k: u32| keys.contains(k) <==> before.insert(last).contains(k) by {
            if keys.contains(k) {
                let i = choose|i: int| 0 <= i < strings.len() && strings[i].key.0 == k;
                if i < front.len() {
                    assert(front[i].key.0 == k);
                }
            }
            if before.contains(k) {
                let i = choose|i: int| 0 <= i < front.len() && front[i].key.0 == k;
                assert(strings[i].key.0 == k);
            }
            if k == last {
                assert(strings[strings.len() - 1].key.0 == k);
            }
        }
        assert(keys =~= before.insert(last));
    }
}

/// Among texts with keys that differ from each other, each is the text
/// that `texts` holds under its key.
pub proof fn lemma_texts_at(strings: Seq<SubString>, i: int)
    requires
        0 <= i < strings.len(),
        forall|i: int, j: int|
            0 <= i < j < strings.len() ==> (#[trigger] strings[i]).key.0 != (#[trigger] strings[j]).key.0,
    ensures
        texts(strings).contains_key(strings[i].key.0),
        texts(strings)[strings[i].key.0] == strings[i].string,
    decreases strings.len(),
{
    if i < strings.len() - 1 {
        let front = strings.drop_last();
        assert forall|a: int, b: int| 0 <= a < b < front.len() implies (#[trigger] front[a]).key.0
            != (#[trigger] front[b]).key.0 by {
            assert(strings[a].key.0 != strings[b].key.0);
        }
        lemma_texts_at(front, i);
        assert(strings[i].key.0 != strings[strings.len() - 1].key.0);
    }
}

impl From<GffString> for LocString {
    /// A form of `value` as a file holds it: see
    /// `LocString::from_gff_string`.
    fn from(value: GffString) -> (s: LocString)
        ensures
            s.is_form_of(value),
    {
        LocString::from_gff_string(value)
    }
}

impl vstd::std_specs::convert::FromSpecImpl<GffString> for LocString {
    open spec fn obeys_from_spec() -> bool {
        false
    }

    open spec fn from_spec(value: GffString) -> LocString {
        arbitrary()
    }
}

/// A key made of a language and a gender gives both back, and a key is made
/// of the codes that it gives.
pub proof fn lemma_key_round_trip(language: Language, gender: Gender, key: StringKey)
    ensures
        Language::of_code(StringKey::of(language, gender).language_code()) == Some(language),
        Gender::of_code(StringKey::of(language, gender).0) == gender,
        key.language_code() * 2 + Gender::of_code(key.0).spec_code() == key.0,
{
}

} // verus!
