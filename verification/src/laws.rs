//! The laws of the scan, stated over its model and proved once for all
//! inputs: what an empty walk yields, what a single file contributes, and
//! how a read error or an unparsable file shapes the whole result.

use crate::scan::spec_file_records;
use crate::scan::spec_scan;
use crate::ttf::name_table_of;
use crate::ttf::spec_full_name;
use vstd::prelude::*;

verus! {

/// A scan over no candidate files yields no records and no error.
pub proof fn lemma_empty_scan(files: Seq<(Seq<char>, Result<Seq<u8>, Seq<char>>)>)
    requires
        files.len() == 0,
    ensures
        spec_scan(files) == Ok::<_, Seq<char>>(Seq::<(Seq<char>, Seq<char>)>::empty()),
{
}

/// A file whose bytes hold a decodable full name contributes exactly one
/// record: that name, paired with the file's own path.
pub proof fn lemma_valid_font_one_record(path: Seq<char>, data: Seq<u8>, name: Seq<char>)
    requires
        spec_full_name(data) == Some(name),
    ensures
        spec_file_records(path, data).len() == 1,
        spec_file_records(path, data)[0] == (name, path),
{
}

/// A file that parses as a font container but yields no full name — no
/// record carries the full-name ID, or none of those records decodes —
/// contributes no record at all.
pub proof fn lemma_no_full_name_no_record(path: Seq<char>, data: Seq<u8>)
    requires
        name_table_of(data) is Some,
        spec_full_name(data) is None,
    ensures
        spec_file_records(path, data) == Seq::<(Seq<char>, Seq<char>)>::empty(),
{
}

/// A file whose bytes do not parse as a font container contributes no
/// record.
pub proof fn lemma_corrupt_no_record(path: Seq<char>, data: Seq<u8>)
    requires
        name_table_of(data) is None,
    ensures
        spec_file_records(path, data) == Seq::<(Seq<char>, Seq<char>)>::empty(),
{
}

/// The records of a whole scan in which every read succeeded: each file's
/// contribution, concatenated in discovery order.
pub open spec fn spec_contributions(files: Seq<(Seq<char>, Result<Seq<u8>, Seq<char>>)>) -> Seq<
    (Seq<char>, Seq<char>),
>
    decreases files.len(),
{
    if files.len() == 0 {
        Seq::empty()
    } else {
        spec_file_records(files[0].0, files[0].1->Ok_0) + spec_contributions(files.drop_first())
    }
}

/// A scan in which every read succeeded yields exactly the concatenated
/// per-file contributions, in discovery order.
pub proof fn lemma_scan_all_ok(files: Seq<(Seq<char>, Result<Seq<u8>, Seq<char>>)>)
    requires
        forall|i: int| 0 <= i < files.len() ==> (#[trigger] files[i]).1 is Ok,
    ensures
        spec_scan(files) == Ok::<_, Seq<char>>(spec_contributions(files)),
    decreases files.len(),
{
    if files.len() > 0 {
        assert(forall|j: int|
            0 <= j < files.drop_first().len() ==> (#[trigger] files.drop_first()[j]) == files[j
                + 1]);
        lemma_scan_all_ok(files.drop_first());
    }
}

/// A read error aborts the whole scan: wherever the first failed read
/// stands, the scan's result is that error alone, and every record — those
/// of earlier files included — is discarded.
pub proof fn lemma_first_error_aborts(files: Seq<(Seq<char>, Result<Seq<u8>, Seq<char>>)>, i: int)
    requires
        0 <= i < files.len(),
        files[i].1 is Err,
        forall|j: int| 0 <= j < i ==> (#[trigger] files[j]).1 is Ok,
    ensures
        spec_scan(files) == Err::<Seq<(Seq<char>, Seq<char>)>, _>(files[i].1->Err_0),
    decreases i,
{
    if i > 0 {
        assert(forall|j: int|
            0 <= j < files.drop_first().len() ==> (#[trigger] files.drop_first()[j]) == files[j
                + 1]);
        lemma_first_error_aborts(files.drop_first(), i - 1);
    }
}

/// A read-whole file that contributes no record — corrupt bytes, or no
/// decodable full name — leaves the scan of the other files untouched:
/// removing it changes nothing in the result.
pub proof fn lemma_skipped_file_inert(files: Seq<(Seq<char>, Result<Seq<u8>, Seq<char>>)>, i: int)
    requires
        0 <= i < files.len(),
        files[i].1 is Ok,
        spec_file_records(files[i].0, files[i].1->Ok_0) == Seq::<(Seq<char>, Seq<char>)>::empty(),
    ensures
        spec_scan(files) == spec_scan(files.remove(i)),
    decreases i,
{
    if i == 0 {
        assert(files.remove(0) =~= files.drop_first());
        match spec_scan(files.drop_first()) {
            Ok(rest) => {
                assert(Seq::<(Seq<char>, Seq<char>)>::empty() + rest =~= rest);
            },
            Err(_) => {},
        }
    } else {
        assert(files.remove(i)[0] == files[0]);
        assert(forall|j: int|
            0 <= j < files.drop_first().len() ==> (#[trigger] files.drop_first()[j]) == files[j
                + 1]);
        lemma_skipped_file_inert(files.drop_first(), i - 1);
        assert(files.remove(i).drop_first() =~= files.drop_first().remove(i - 1));
    }
}

} // verus!
