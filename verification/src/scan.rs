use vstd::prelude::*;
use vstd::slice::slice_to_vec;
use crate::buffer::Buffer;
use crate::error::DecodeError;
use crate::gaf::{
    archive_textures, extract_gaf, has_texture, holds_texture, textures_of, Texture, TextureView,
};
use crate::names::bytes_of;
use crate::palette::{Palette, Rgb};

verus! {

/// An archive that could not be decoded: its place among the archives
/// handed in, and why it failed.
#[derive(Clone, Copy, Debug, PartialEq, Eq, Structural)]
pub struct ArchiveFailure {
    pub archive: usize,
    pub error: DecodeError,
}

/// What a scan of several archives found.
pub struct ScanReport {
    /// The textures found, archive by archive, each archive in the order of
    /// its directory. A name that several archives hold occurs once for
    /// each; whoever writes the textures out in this order keeps the last.
    pub textures: Vec<Texture>,
    /// The archives that could not be decoded; they gave no texture.
    pub failures: Vec<ArchiveFailure>,
    /// The names that were asked for and found in no archive, in the order
    /// in which they were asked for.
    pub unresolved: Vec<Vec<u8>>,
}

/// What the first archives of a scan gave.
pub struct ScanView {
    pub textures: Seq<TextureView>,
    pub failures: Seq<ArchiveFailure>,
}

/// What the first `upto` of `archives` give: the textures of those that
/// decode, and a failure for each that does not.
pub open spec fn scan_upto(
    archives: Seq<Seq<u8>>,
    palette: Seq<Rgb>,
    needed: Seq<Seq<u8>>,
    upto: int,
) -> ScanView
    decreases upto,
{
    if upto <= 0 {
        ScanView { textures: Seq::empty(), failures: Seq::empty() }
    } else {
        let before = scan_upto(archives, palette, needed, upto - 1);
        match archive_textures(archives[upto - 1], palette, needed) {
            Ok(found) => ScanView {
                textures: before.textures + found,
                failures: before.failures,
            },
            Err(e) => ScanView {
                textures: before.textures,
                failures: before.failures.push(
                    ArchiveFailure { archive: (upto - 1) as usize, error: e },
                ),
            },
        }
    }
}

/// Those of the first `upto` names of `needed` that no texture of `found`
/// bears, in their order.
pub open spec fn unresolved_upto(needed: Seq<Seq<u8>>, found: Seq<TextureView>, upto: int) -> Seq<
    Seq<u8>,
>
    decreases upto,
{
    if upto <= 0 {
        Seq::empty()
    } else if has_texture(found, needed[upto - 1]) {
        unresolved_upto(needed, found, upto - 1)
    } else {
        unresolved_upto(needed, found, upto - 1).push(needed[upto - 1])
    }
}

/// Those names of `used_textures` that no texture of `textures` bears, in
/// their order.
pub fn unresolved_names(used_textures: &Vec<Vec<u8>>, textures: &Vec<Texture>) -> (r: Vec<Vec<u8>>)
    ensures
        bytes_of(r@) == unresolved_upto(
            bytes_of(used_textures@),
            textures_of(textures@),
            used_textures@.len() as int,
        ),
{
    let mut missing: Vec<Vec<u8>> = Vec::new();
    let mut i: usize = 0;
    assert(bytes_of(missing@) =~= Seq::<Seq<u8>>::empty());
    while i < used_textures.len()
        invariant
            i <= used_textures.len(),
            bytes_of(missing@) == unresolved_upto(
                bytes_of(used_textures@),
                textures_of(textures@),
                i as int,
            ),
        decreases used_textures.len() - i,
    {
        let ghost before = missing@;
        if !holds_texture(textures, &used_textures[i]) {
            let name: Vec<u8> = slice_to_vec(used_textures[i].as_slice());
            missing.push(name);
            assert(bytes_of(missing@) =~= bytes_of(before).push(used_textures@[i as int]@));
        }
        i = i + 1;
    }
    missing
}

/// Scans `archives`, each the whole content of one archive file, for the
/// textures named in `used_textures`. An archive that cannot be decoded is
/// reported and gives nothing; the scan goes on with the next. A name
/// that no archive holds is reported as unresolved.
pub fn extract_textures_from_gafs(
    used_textures: &Vec<Vec<u8>>,
    archives: &Vec<Vec<u8>>,
    palette: &Palette,
) -> (r: ScanReport)
    ensures
        textures_of(r.textures@) == scan_upto(
            bytes_of(archives@),
            palette@,
            bytes_of(used_textures@),
            archives@.len() as int,
        ).textures,
        r.failures@ == scan_upto(
            bytes_of(archives@),
            palette@,
            bytes_of(used_textures@),
            archives@.len() as int,
        ).failures,
        bytes_of(r.unresolved@) == unresolved_upto(
            bytes_of(used_textures@),
            textures_of(r.textures@),
            used_textures@.len() as int,
        ),
{
    let mut textures: Vec<Texture> = Vec::new();
    let mut failures: Vec<ArchiveFailure> = Vec::new();
    let mut i: usize = 0;
    assert(textures_of(textures@) =~= Seq::<TextureView>::empty());
    while i < archives.len()
        invariant
            i <= archives.len(),
            textures_of(textures@) == scan_upto(
                bytes_of(archives@),
                palette@,
                bytes_of(used_textures@),
                i as int,
            ).textures,
            failures@ == scan_upto(
                bytes_of(archives@),
                palette@,
                bytes_of(used_textures@),
                i as int,
            ).failures,
        decreases archives.len() - i,
    {
        let mut buf = Buffer::new(slice_to_vec(archives[i].as_slice()));
        let ghost before = textures@;
        assert(buf@.data == bytes_of(archives@)[i as int]);
        match extract_gaf(&mut buf, used_textures, palette) {
            Ok(mut found) => {
                let ghost added = found@;
                textures.append(&mut found);
                assert(textures_of(textures@) =~= textures_of(before) + textures_of(added));
            },
            Err(error) => {
                failures.push(ArchiveFailure { archive: i, error });
            },
        }
        i = i + 1;
    }
    let unresolved = unresolved_names(used_textures, &textures);
    ScanReport { textures, failures, unresolved }
}

} // verus!
