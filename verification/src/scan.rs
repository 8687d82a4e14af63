//! The catalog scan: folds the read results of the candidate files, in
//! discovery order, into the sequence of font records.
//!
//! The caller walks the directory, keeps the paths that
//! [`crate::path_ext::has_ttf_extension`] accepts, reads each such file and
//! hands the outcomes here as `(path, read result)` pairs. The fold is
//! fail-fast: the first read error aborts the whole scan with that error and
//! no records, even where earlier files yielded names. A file whose bytes do
//! not parse as a font, or whose name table holds no decodable full-name
//! record, is silently skipped.

use crate::ttf::spec_full_name;
use crate::ttf::extract_full_name;
use vstd::prelude::*;

verus! {

/// One discovered font: its declared full display name and the path of the
/// file it came from.
pub struct FontInfo {
    /// The font's full display name, as the name table declares it.
    pub name: String,
    /// The path of the font file, as the walk handed it in.
    pub path: String,
}

/// The model of a font record: name and path as character sequences.
pub open spec fn font_view(font: FontInfo) -> (Seq<char>, Seq<char>) {
    (font.name@, font.path@)
}

/// The model of one walked file: its path, and the bytes read from it or the
/// error the read ended in.
pub open spec fn file_view(file: (String, Result<Vec<u8>, String>)) -> (
    Seq<char>,
    Result<Seq<u8>, Seq<char>>,
) {
    (
        file.0@,
        match file.1 {
            Ok(data) => Ok(data@),
            Err(e) => Err(e@),
        },
    )
}

/// The models of a whole list of walked files, in order.
pub open spec fn files_view(files: Seq<(String, Result<Vec<u8>, String>)>) -> Seq<
    (Seq<char>, Result<Seq<u8>, Seq<char>>),
> {
    files.map_values(|file: (String, Result<Vec<u8>, String>)| file_view(file))
}

/// The records one file contributes: exactly one, pairing the decoded full
/// name with the file's path, where the bytes hold one; none otherwise.
pub open spec fn spec_file_records(path: Seq<char>, data: Seq<u8>) -> Seq<(Seq<char>, Seq<char>)> {
    match spec_full_name(data) {
        Some(name) => seq![(name, path)],
        None => Seq::empty(),
    }
}

/// The scan of a list of walked files: the first read error aborts the whole
/// scan with that error; otherwise each file contributes its records, in
/// discovery order.
pub open spec fn spec_scan(files: Seq<(Seq<char>, Result<Seq<u8>, Seq<char>>)>) -> Result<
    Seq<(Seq<char>, Seq<char>)>,
    Seq<char>,
>
    decreases files.len(),
{
    if files.len() == 0 {
        Ok(Seq::empty())
    } else {
        match files[0].1 {
            Err(e) => Err(e),
            Ok(data) => match spec_scan(files.drop_first()) {
                Err(e) => Err(e),
                Ok(rest) => Ok(spec_file_records(files[0].0, data) + rest),
            },
        }
    }
}

/// A scan whose first `i` files were read whole and contributed `done` is
/// the scan of the remaining files, prefixed by `done` on success.
spec fn scan_continues_with(
    files: Seq<(Seq<char>, Result<Seq<u8>, Seq<char>>)>,
    i: int,
    done: Seq<(Seq<char>, Seq<char>)>,
) -> bool {
    match spec_scan(files.skip(i)) {
        Ok(rest) => spec_scan(files) == Ok::<_, Seq<char>>(done + rest),
        Err(e) => spec_scan(files) == Err::<Seq<(Seq<char>, Seq<char>)>, _>(e),
    }
}

/// Folding one more file into the scan: a read error at `i` settles the
/// whole scan on that error, a read-whole file appends its records.
proof fn lemma_scan_step(
    files: Seq<(Seq<char>, Result<Seq<u8>, Seq<char>>)>,
    i: int,
    done: Seq<(Seq<char>, Seq<char>)>,
)
    requires
        0 <= i < files.len(),
        scan_continues_with(files, i, done),
        files[i].1 is Ok,
    ensures
        scan_continues_with(files, i + 1, done + spec_file_records(files[i].0, files[i].1->Ok_0)),
{
    assert(files.skip(i).drop_first() =~= files.skip(i + 1));
    assert(files.skip(i)[0] == files[i]);
    match spec_scan(files.skip(i + 1)) {
        Ok(rest) => {
            assert(done + (spec_file_records(files[i].0, files[i].1->Ok_0) + rest) =~= (done
                + spec_file_records(files[i].0, files[i].1->Ok_0)) + rest);
        },
        Err(_) => {},
    }
}

/// Scans the walked files, in discovery order: parses each read-whole file
/// as a font and collects one record per decodable full name. The first read
/// error is returned as the scan's own error, and every record — earlier
/// ones included — is discarded with it.
pub fn fonts_from_reads(files: Vec<(String, Result<Vec<u8>, String>)>) -> (r: Result<
    Vec<FontInfo>,
    String,
>)
    ensures
        r matches Ok(fonts) ==> spec_scan(files_view(files@)) == Ok::<_, Seq<char>>(
            fonts@.map_values(|font: FontInfo| font_view(font)),
        ),
        r matches Err(e) ==> spec_scan(files_view(files@)) == Err::<
            Seq<(Seq<char>, Seq<char>)>,
            _,
        >(e@),
{
    let ghost vfiles = files_view(files@);
    let mut fonts: Vec<FontInfo> = Vec::new();
    proof {
        assert(vfiles.skip(0) =~= vfiles);
        assert(fonts@.map_values(|font: FontInfo| font_view(font)) =~= Seq::<
            (Seq<char>, Seq<char>),
        >::empty());
        match spec_scan(vfiles) {
            Ok(rest) => {
                assert(Seq::<(Seq<char>, Seq<char>)>::empty() + rest =~= rest);
            },
            Err(_) => {},
        }
    }
    let mut i: usize = 0;
    while i < files.len()
        invariant
            i <= files.len(),
            vfiles == files_view(files@),
            vfiles.len() == files@.len(),
            scan_continues_with(vfiles, i as int, fonts@.map_values(|font: FontInfo| font_view(font))),
        decreases files.len() - i,
    {
        assert(vfiles[i as int] == file_view(files@[i as int]));
        let entry = &files[i];
        match &entry.1 {
            Err(e) => {
                assert(vfiles.skip(i as int)[0] == vfiles[i as int]);
                return Err(e.clone());
            },
            Ok(data) => {
                let ghost old_fonts = fonts@;
                match extract_full_name(data.as_slice()) {
                    Some(name) => {
                        fonts.push(FontInfo { name, path: entry.0.clone() });
                    },
                    None => {},
                }
                proof {
                    lemma_scan_step(
                        vfiles,
                        i as int,
                        old_fonts.map_values(|font: FontInfo| font_view(font)),
                    );
                    assert(fonts@.map_values(|font: FontInfo| font_view(font)) =~= old_fonts
                        .map_values(|font: FontInfo| font_view(font)) + spec_file_records(
                        vfiles[i as int].0,
                        vfiles[i as int].1->Ok_0,
                    ));
                }
            },
        }
        i = i + 1;
    }
    proof {
        assert(vfiles.skip(files@.len() as int) =~= Seq::<
            (Seq<char>, Result<Seq<u8>, Seq<char>>),
        >::empty());
        match spec_scan(vfiles) {
            Ok(_) => {
                assert(fonts@.map_values(|font: FontInfo| font_view(font)) + Seq::<
                    (Seq<char>, Seq<char>),
                >::empty() =~= fonts@.map_values(|font: FontInfo| font_view(font)));
            },
            Err(_) => {},
        }
    }
    Ok(fonts)
}

} // verus!
