//! Image Set Loader: turns raw file contents into decoded grayscale
//! frames, skipping what does not decode and reporting every skip.

use vstd::prelude::*;
use crate::frame::{Frame, FrameView, Identity};

verus! {

/// What `image::load_from_memory` followed by
/// `image::DynamicImage::into_luma8` produces from the given encoded bytes:
/// the dimensions and the row-major eight-bit intensity buffer, or nothing
/// when the bytes do not decode. The outcome depends on the bytes alone.
pub uninterp spec fn gray_decode_of(bytes: Seq<u8>) -> Option<(u32, u32, Seq<u8>)>;

/// Relies on `image::load_from_memory` and
/// `image::DynamicImage::into_luma8`: decoding an in-memory encoded image
/// into an 8-bit grayscale buffer of exactly `width * height` bytes; the
/// outcome depends on the bytes alone.
#[verifier::external_body]
fn decode_gray(bytes: &Vec<u8>) -> (r: Option<(u32, u32, Vec<u8>)>)
    ensures
        match r {
            Some((w, h, p)) => gray_decode_of(bytes@) == Some((w, h, p@)) && p@.len() == w * h,
            None => gray_decode_of(bytes@) is None,
        },
{
    match image::load_from_memory(bytes.as_slice()) {
        Ok(img) => {
            let buffer = img.into_luma8();
            let (w, h) = buffer.dimensions();
            Some((w, h, buffer.into_raw()))
        },
        Err(_) => None,
    }
}

/// One directory entry handed to the loader: the identity of the file and
/// its raw contents.
#[derive(Debug)]
pub struct FileEntry {
    pub identity: Identity,
    pub bytes: Vec<u8>,
}

/// Whether an entry decodes into a usable frame: the bytes decode and both
/// dimensions are non-zero.
pub open spec fn entry_ok(e: FileEntry) -> bool {
    match gray_decode_of(e.bytes@) {
        Some((w, h, p)) => w >= 1 && h >= 1,
        None => false,
    }
}

/// The frame an entry decodes into, as a mathematical value. Meaningful
/// only when `entry_ok` holds.
pub open spec fn decoded_view(e: FileEntry) -> FrameView {
    match gray_decode_of(e.bytes@) {
        Some((w, h, p)) => FrameView { width: w, height: h, pixels: p, identity: e.identity },
        None => FrameView { width: 0, height: 0, pixels: Seq::empty(), identity: e.identity },
    }
}

/// The frames that a sequence of entries loads into, in entry order: one
/// per entry that decodes, none for an entry that does not.
pub open spec fn loaded_views(entries: Seq<FileEntry>) -> Seq<FrameView>
    decreases entries.len(),
{
    if entries.len() == 0 {
        Seq::empty()
    } else if entry_ok(entries.last()) {
        loaded_views(entries.drop_last()).push(decoded_view(entries.last()))
    } else {
        loaded_views(entries.drop_last())
    }
}

/// The identities of the entries that do not decode, in entry order.
pub open spec fn skipped_ids(entries: Seq<FileEntry>) -> Seq<Identity>
    decreases entries.len(),
{
    if entries.len() == 0 {
        Seq::empty()
    } else if entry_ok(entries.last()) {
        skipped_ids(entries.drop_last())
    } else {
        skipped_ids(entries.drop_last()).push(entries.last().identity)
    }
}

/// Every loaded frame carries the identity of one of the entries it was
/// loaded from.
pub proof fn lemma_loaded_identity_from_entries(entries: Seq<FileEntry>, k: int)
    requires
        0 <= k < loaded_views(entries).len(),
    ensures
        exists|j: int|
            0 <= j < entries.len() && (#[trigger] entries[j]).identity == loaded_views(
                entries,
            )[k].identity,
    decreases entries.len(),
{
    let prefix = entries.drop_last();
    if entry_ok(entries.last()) && k == loaded_views(prefix).len() {
        assert(entries[entries.len() - 1].identity == loaded_views(entries)[k].identity);
    } else {
        lemma_loaded_identity_from_entries(prefix, k);
        let j = choose|j: int|
            0 <= j < prefix.len() && (#[trigger] prefix[j]).identity == loaded_views(
                prefix,
            )[k].identity;
        assert(entries[j].identity == loaded_views(entries)[k].identity);
    }
}

/// Entries with pairwise distinct identities load into frames with
/// pairwise distinct identities: a directory of distinctly named files
/// yields an Image Set in which every identity is unique.
pub proof fn lemma_load_unique_identities(entries: Seq<FileEntry>)
    requires
        forall|i: int, j: int|
            0 <= i < j < entries.len() ==> (#[trigger] entries[i]).identity
                != (#[trigger] entries[j]).identity,
    ensures
        forall|i: int, j: int|
            0 <= i < j < loaded_views(entries).len() ==> (#[trigger] loaded_views(
                entries,
            )[i]).identity != (#[trigger] loaded_views(entries)[j]).identity,
    decreases entries.len(),
{
    if entries.len() > 0 {
        let prefix = entries.drop_last();
        let lv = loaded_views(entries);
        let plv = loaded_views(prefix);
        lemma_load_unique_identities(prefix);
        assert forall|i: int, j: int|
            0 <= i < j < lv.len() implies (#[trigger] lv[i]).identity != (#[trigger] lv[j]).identity by {
            if j < plv.len() {
                assert(plv[i].identity != plv[j].identity);
            } else {
                assert(entry_ok(entries.last()) && j == plv.len());
                assert(lv[j].identity == entries[entries.len() - 1].identity);
                lemma_loaded_identity_from_entries(prefix, i);
                let w = choose|w: int|
                    0 <= w < prefix.len() && (#[trigger] prefix[w]).identity == plv[i].identity;
                assert(entries[w].identity != entries[entries.len() - 1].identity);
            }
        }
    }
}

/// What the loader produced: the set of decoded frames, and the identity
/// of every entry that was skipped because it did not decode.
#[derive(Debug)]
pub struct LoadOutcome {
    pub frames: Vec<Frame>,
    pub skipped: Vec<Identity>,
}

/// Decodes every entry into a grayscale frame. An entry that does not
/// decode, or decodes to an empty image, is skipped and reported, so one
/// corrupt file never destroys a whole batch; everything else becomes a
/// well-formed frame, in entry order.
pub fn load_set(entries: &Vec<FileEntry>) -> (r: LoadOutcome)
    ensures
        r.frames@.map_values(|f: Frame| f@) == loaded_views(entries@),
        r.skipped@ == skipped_ids(entries@),
        forall|k: int| 0 <= k < r.frames@.len() ==> (#[trigger] r.frames@[k]).wf(),
{
    let mut frames: Vec<Frame> = Vec::new();
    let mut skipped: Vec<Identity> = Vec::new();
    let mut i: usize = 0;
    while i < entries.len()
        invariant
            i <= entries@.len(),
            frames@.map_values(|f: Frame| f@) == loaded_views(entries@.take(i as int)),
            skipped@ == skipped_ids(entries@.take(i as int)),
            forall|k: int| 0 <= k < frames@.len() ==> (#[trigger] frames@[k]).wf(),
        decreases entries@.len() - i,
    {
        let ghost prefix = entries@.take(i as int);
        let ghost old_frames = frames@;
        let ghost old_skipped = skipped@;
        let e = &entries[i];
        match decode_gray(&e.bytes) {
            Some((w, h, p)) => {
                if w >= 1 && h >= 1 {
                    frames.push(Frame { width: w, height: h, pixels: p, identity: e.identity.clone() });
                } else {
                    skipped.push(e.identity.clone());
                }
            },
            None => {
                skipped.push(e.identity.clone());
            },
        }
        i += 1;
        proof {
            let taken = entries@.take(i as int);
            assert(taken.drop_last() =~= prefix);
            assert(taken.last() == entries@[i - 1]);
            if entry_ok(entries@[i - 1]) {
                assert(frames@.map_values(|f: Frame| f@) =~= old_frames.map_values(
                    |f: Frame| f@,
                ).push(frames@.last()@));
                assert(frames@.last()@ == decoded_view(entries@[i - 1]));
            } else {
                assert(skipped@ =~= old_skipped.push(entries@[i - 1].identity));
            }
        }
    }
    proof {
        assert(entries@.take(entries@.len() as int) =~= entries@);
    }
    LoadOutcome { frames, skipped }
}

} // verus!
