//! Full-name extraction from sfnt font containers.
//!
//! The container and its name table are parsed by the `ttf_parser` crate,
//! reached only through the trusted items below. The name table of a face is
//! modelled as a sequence of entries, one per record: each entry is the
//! record's name ID together with its text, decoded if the record has a
//! Unicode encoding, or nothing where it does not. A record whose data lies
//! outside the table's storage yields no entry at all, and walking the table
//! stops there, as the parser's own iterator does.
//!
//! The selection of the full name — the first record tagged with the
//! full-name ID whose text decodes — is this library's own verified logic.

use vstd::prelude::*;

verus! {

/// The name ID of a font's full display name in the sfnt naming standard.
pub const FULL_NAME_ID: u16 = 4;

/// A name-table entry as the scan reads it: the record's name ID, and its
/// text where the record is Unicode-encoded and decodes.
pub type NameEntry = (u16, Option<Seq<char>>);

/// The decoded name table of the face parsed from `data`: nothing where the
/// bytes are not a valid sfnt container, else one slot per name record, each
/// holding its entry, or nothing where the record's data lies outside the
/// table's storage.
pub uninterp spec fn name_table_of(data: Seq<u8>) -> Option<Seq<Option<NameEntry>>>;

/// The decoded name table of an already-parsed face.
pub uninterp spec fn face_table(face: ttf_parser::Face) -> Seq<Option<NameEntry>>;

/// What a name list of the parser holds: one slot per record.
pub uninterp spec fn names_entries(names: ttf_parser::name::Names) -> Seq<Option<NameEntry>>;

/// The entry of a single name record: its name ID and its decoded text.
pub uninterp spec fn name_entry(name: ttf_parser::name::Name) -> NameEntry;

/// A parsed font face of the parser, opaque here.
#[verifier::external_type_specification]
#[verifier::external_body]
pub struct ExFace<'a>(ttf_parser::Face<'a>);

/// The parser's list of name records, opaque here.
#[verifier::external_type_specification]
#[verifier::external_body]
pub struct ExNames<'a>(ttf_parser::name::Names<'a>);

/// One name record of the parser, opaque here.
#[verifier::external_type_specification]
#[verifier::external_body]
pub struct ExName<'a>(ttf_parser::name::Name<'a>);

/// Relies on ttf_parser::Face::parse: whether the bytes parse as an sfnt
/// container, and thereby the face's name table, depends on the bytes alone.
#[verifier::external_body]
fn parse_face(data: &[u8]) -> (r: Option<ttf_parser::Face<'_>>)
    ensures
        r is Some <==> name_table_of(data@) is Some,
        r matches Some(face) ==> name_table_of(data@) == Some(face_table(face)),
{
    ttf_parser::Face::parse(data, 0).ok()
}

/// Relies on ttf_parser::Face::names: the list it returns holds exactly the
/// face's name records.
#[verifier::external_body]
fn face_names<'a>(face: &ttf_parser::Face<'a>) -> (r: ttf_parser::name::Names<'a>)
    ensures
        names_entries(r) == face_table(*face),
{
    face.names()
}

/// Relies on ttf_parser::name::Names::len: the number of name records.
#[verifier::external_body]
fn names_len(names: &ttf_parser::name::Names) -> (r: u16)
    ensures
        r as nat == names_entries(*names).len(),
{
    names.len()
}

/// Relies on ttf_parser::name::Names::get: a name at an index in range, or
/// nothing where the index is out of range or the record's data lies outside
/// the table's storage.
#[verifier::external_body]
fn names_get<'a>(names: &ttf_parser::name::Names<'a>, index: u16) -> (r: Option<
    ttf_parser::name::Name<'a>,
>)
    ensures
        r matches Some(name) ==> (index as nat) < names_entries(*names).len()
            && names_entries(*names)[index as int] == Some(name_entry(name)),
        r is None ==> (index as nat) >= names_entries(*names).len() || names_entries(
            *names,
        )[index as int] is None,
{
    names.get(index)
}

/// Relies on the public field ttf_parser::name::Name::name_id.
#[verifier::external_body]
fn name_id_of(name: &ttf_parser::name::Name) -> (r: u16)
    ensures
        r == name_entry(*name).0,
{
    name.name_id
}

/// Relies on ttf_parser::name::Name::to_string: the record's text as UTF-8,
/// decoded from UTF-16BE where the record has a Unicode encoding, nothing
/// otherwise; the result depends on the record alone.
#[verifier::external_body]
fn name_text(name: &ttf_parser::name::Name) -> (r: Option<String>)
    ensures
        r matches Some(s) ==> name_entry(*name).1 == Some(s@),
        r is None ==> name_entry(*name).1 is None,
{
    name.to_string()
}

/// The full name selected from a table walked front to back: the text of the
/// first entry tagged with the full-name ID whose text is present. A missing
/// slot ends the walk with nothing, as the parser's iterator stops there.
pub open spec fn spec_full_name_from(table: Seq<Option<NameEntry>>) -> Option<Seq<char>>
    decreases table.len(),
{
    if table.len() == 0 {
        None
    } else {
        match table[0] {
            None => None,
            Some(entry) => if entry.0 == FULL_NAME_ID && entry.1 is Some {
                entry.1
            } else {
                spec_full_name_from(table.drop_first())
            },
        }
    }
}

/// The full name of the font held in `data`: nothing where the bytes are not
/// a valid container, else the name selected from its table.
pub open spec fn spec_full_name(data: Seq<u8>) -> Option<Seq<char>> {
    match name_table_of(data) {
        None => None,
        Some(table) => spec_full_name_from(table),
    }
}

/// The slot holds an entry, but not one the walk selects: it is not tagged
/// with the full-name ID, or its text did not decode.
pub open spec fn slot_passed_over(slot: Option<NameEntry>) -> bool {
    slot matches Some(e) && !(e.0 == FULL_NAME_ID && e.1 is Some)
}

/// A walk that found no full name in the first `i + 1` slots selects its
/// name from the rest of the table.
proof fn lemma_full_name_skip(table: Seq<Option<NameEntry>>, i: int)
    requires
        0 <= i < table.len(),
        slot_passed_over(table[i]),
        forall|j: int| 0 <= j < i ==> slot_passed_over(#[trigger] table[j]),
    ensures
        spec_full_name_from(table) == spec_full_name_from(table.skip(i + 1)),
    decreases i,
{
    assert(table.skip(0) =~= table);
    if i == 0 {
        assert(table.drop_first() =~= table.skip(1));
    } else {
        assert(table.drop_first()[i - 1] == table[i]);
        assert(forall|j: int|
            0 <= j < i - 1 ==> (#[trigger] table.drop_first()[j]) == table[j + 1]);
        lemma_full_name_skip(table.drop_first(), i - 1);
        assert(table.drop_first().skip(i) =~= table.skip(i + 1));
    }
}

/// Parses `data` as an sfnt container and extracts the font's full display
/// name: the first full-name record of the name table whose text decodes.
/// Returns nothing where the container does not parse, where no such record
/// exists, or where the walk stops at a record lying outside the table's
/// storage.
pub fn extract_full_name(data: &[u8]) -> (r: Option<String>)
    ensures
        r matches Some(s) ==> spec_full_name(data@) == Some(s@),
        r is None ==> spec_full_name(data@) is None,
{
    let face = match parse_face(data) {
        Some(face) => face,
        None => {
            return None;
        },
    };
    let ghost table = face_table(face);
    let names = face_names(&face);
    let count: u16 = names_len(&names);
    proof {
        assert(table.skip(0) =~= table);
    }
    let mut i: u16 = 0;
    while i < count
        invariant
            names_entries(names) == table,
            name_table_of(data@) == Some(table),
            count as nat == table.len(),
            i <= count,
            spec_full_name_from(table.skip(i as int)) == spec_full_name_from(table),
            forall|j: int| 0 <= j < i ==> slot_passed_over(#[trigger] table[j]),
        decreases count - i,
    {
        match names_get(&names, i) {
            None => {
                assert(table.skip(i as int)[0] == table[i as int]);
                return None;
            },
            Some(name) => {
                if name_id_of(&name) == FULL_NAME_ID {
                    if let Some(text) = name_text(&name) {
                        assert(table.skip(i as int)[0] == table[i as int]);
                        return Some(text);
                    }
                }
                proof {
                    lemma_full_name_skip(table, i as int);
                }
            },
        }
        i = i + 1;
    }
    assert(table.skip(count as int) =~= Seq::<Option<NameEntry>>::empty());
    None
}

} // verus!
