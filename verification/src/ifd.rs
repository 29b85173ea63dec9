//! Image file directories (IFDs).
//!
//! Each frame of the container is described by one IFD: a count of tag
//! entries, the entries themselves, and a pointer to the next IFD. The
//! classic variant uses 32-bit counts and pointers with 12-byte tag
//! entries; the big variant 64-bit counts and pointers with 20-byte
//! entries. Both flatten to the same `TagEntry` records, and the `IFD`
//! trait exposes the capability set the kernels need: the frame's width and
//! height and lookup of a tag by its identifier.

use vstd::prelude::*;
use crate::bytes::{le16, le32, le64, read_u16, read_u32, read_u64};
use crate::utils::{FramesError, IoFault};

verus! {

/// Tag identifier for the frame's width in pixels.
pub const TAG_IMAGE_WIDTH: u16 = 256;

/// Tag identifier for the frame's height in pixels.
pub const TAG_IMAGE_LENGTH: u16 = 257;

/// Tag identifier for the absolute file offset of the frame's data strip.
pub const TAG_STRIP_OFFSETS: u16 = 273;

/// Tag identifier for the byte length of the frame's data strip.
pub const TAG_STRIP_BYTE_COUNTS: u16 = 279;

/// Vendor tag holding the frame's format: 0 for a raw photon stream, 1 for
/// a compressed intensity-plus-arrivals strip; a frame without this tag is
/// a plain dense tiff image.
pub const TAG_SIFF_FORMAT: u16 = 907;

/// Vendor tag pointing at the frame's appended ASCII metadata block; the
/// entry's count is the block's byte length.
pub const TAG_FRAME_METADATA: u16 = 908;

/// Vendor tag pointing at the frame-trigger timestamp trio (experiment
/// ticks, laser-epoch nanoseconds, system-epoch nanoseconds, each 64 bits);
/// the entry's count says how many of the three words are present.
pub const TAG_TIMESTAMPS: u16 = 909;

/// Vendor tag whose value is the instrument's arrival-time bin count.
pub const TAG_TAU_BINS: u16 = 910;

/// Vendor tag pointing at the non-varying frame data: the instrument's
/// settings text, written once and shared by every frame; the entry's
/// count is the block's byte length.
pub const TAG_NVFD: u16 = 911;

/// Vendor tag pointing at the multi-ROI description text; the entry's
/// count is the block's byte length.
pub const TAG_ROI_STRING: u16 = 912;

/// One tag entry, flattened to its identifier, count and value. The entry's
/// on-disk type word only pads the layout and is not kept.
#[derive(Debug, Clone, Copy, PartialEq, Eq, Structural)]
pub struct TagEntry {
    pub id: u16,
    pub count: u64,
    pub value: u64,
}

/// The first entry of `tags` whose identifier is `id`.
pub open spec fn spec_find_tag(tags: Seq<TagEntry>, id: u16) -> Option<TagEntry>
    decreases tags.len(),
{
    if tags.len() == 0 {
        None
    } else if tags[0].id == id {
        Some(tags[0])
    } else {
        spec_find_tag(tags.drop_first(), id)
    }
}

/// Generic capability set of an image file directory: tag lookup by
/// identifier, and the frame dimensions read from the width and length
/// tags.
pub trait IFD: Sized {
    /// The directory's tag entries, in file order.
    spec fn tag_seq(&self) -> Seq<TagEntry>;

    /// The file offset of the next directory; zero ends the chain.
    spec fn next_off(&self) -> u64;

    /// Looks up the first tag with identifier `id`.
    fn get_tag(&self, id: u16) -> (r: Option<TagEntry>)
        ensures
            r == spec_find_tag(self.tag_seq(), id),
    ;

    /// The location of the next IFD in the file, `None` at the chain's end.
    fn next_ifd(&self) -> (r: Option<u64>)
        ensures
            r == (if self.next_off() == 0 {
                Option::<u64>::None
            } else {
                Option::<u64>::Some(self.next_off())
            }),
    ;

    /// The width of the frame this IFD corresponds to.
    fn width(&self) -> (r: Option<u64>)
        ensures
            r == (match spec_find_tag(self.tag_seq(), TAG_IMAGE_WIDTH) {
                Some(t) => Some(t.value),
                None => None,
            }),
    ;

    /// The height of the frame this IFD corresponds to.
    fn height(&self) -> (r: Option<u64>)
        ensures
            r == (match spec_find_tag(self.tag_seq(), TAG_IMAGE_LENGTH) {
                Some(t) => Some(t.value),
                None => None,
            }),
    ;
}

/// Scans a tag vector for the first entry with identifier `id`.
fn find_tag(tags: &Vec<TagEntry>, id: u16) -> (r: Option<TagEntry>)
    ensures
        r == spec_find_tag(tags@, id),
{
    let n: usize = tags.len();
    proof {
        assert(tags@.skip(0) =~= tags@);
    }
    let mut i: usize = 0;
    while i < n
        invariant
            i <= n,
            n == tags@.len(),
            spec_find_tag(tags@, id) == spec_find_tag(tags@.skip(i as int), id),
        decreases n - i,
    {
        let t = tags[i];
        proof {
            assert(tags@.skip(i as int).drop_first() =~= tags@.skip(i as int + 1));
            assert(tags@.skip(i as int)[0] == tags@[i as int]);
        }
        if t.id == id {
            return Some(t);
        }
        i = i + 1;
    }
    proof {
        assert(tags@.skip(n as int) =~= Seq::<TagEntry>::empty());
    }
    None
}

/// A directory of the classic 32-bit container variant.
#[derive(Debug)]
pub struct TiffIFD {
    pub tags: Vec<TagEntry>,
    pub next: u64,
}

impl IFD for TiffIFD {
    open spec fn tag_seq(&self) -> Seq<TagEntry> {
        self.tags@
    }

    open spec fn next_off(&self) -> u64 {
        self.next
    }

    fn get_tag(&self, id: u16) -> (r: Option<TagEntry>) {
        find_tag(&self.tags, id)
    }

    fn next_ifd(&self) -> (r: Option<u64>) {
        if self.next == 0 {
            None
        } else {
            Some(self.next)
        }
    }

    fn width(&self) -> (r: Option<u64>) {
        match find_tag(&self.tags, TAG_IMAGE_WIDTH) {
            Some(t) => Some(t.value),
            None => None,
        }
    }

    fn height(&self) -> (r: Option<u64>) {
        match find_tag(&self.tags, TAG_IMAGE_LENGTH) {
            Some(t) => Some(t.value),
            None => None,
        }
    }
}

/// A directory of the big 64-bit container variant.
#[derive(Debug)]
pub struct BigTiffIFD {
    pub tags: Vec<TagEntry>,
    pub next: u64,
}

impl IFD for BigTiffIFD {
    open spec fn tag_seq(&self) -> Seq<TagEntry> {
        self.tags@
    }

    open spec fn next_off(&self) -> u64 {
        self.next
    }

    fn get_tag(&self, id: u16) -> (r: Option<TagEntry>) {
        find_tag(&self.tags, id)
    }

    fn next_ifd(&self) -> (r: Option<u64>) {
        if self.next == 0 {
            None
        } else {
            Some(self.next)
        }
    }

    fn width(&self) -> (r: Option<u64>) {
        match find_tag(&self.tags, TAG_IMAGE_WIDTH) {
            Some(t) => Some(t.value),
            None => None,
        }
    }

    fn height(&self) -> (r: Option<u64>) {
        match find_tag(&self.tags, TAG_IMAGE_LENGTH) {
            Some(t) => Some(t.value),
            None => None,
        }
    }
}

/// The classic 12-byte tag entry at byte `off`: identifier, a skipped
/// type word, 32-bit count, 32-bit value.
pub open spec fn classic_entry_at(data: Seq<u8>, off: int) -> TagEntry {
    TagEntry {
        id: le16(data, off),
        count: le32(data, off + 4) as u64,
        value: le32(data, off + 8) as u64,
    }
}

/// The big 20-byte tag entry at byte `off`: identifier, a skipped type
/// word, 64-bit count, 64-bit value.
pub open spec fn big_entry_at(data: Seq<u8>, off: int) -> TagEntry {
    TagEntry { id: le16(data, off), count: le64(data, off + 4), value: le64(data, off + 12) }
}

/// A classic directory at `off` lies inside the file: its 16-bit tag
/// count, that many 12-byte entries, and the 32-bit next pointer.
pub open spec fn classic_ifd_ok(data: Seq<u8>, off: int) -> bool {
    &&& 0 <= off
    &&& off + 2 <= data.len()
    &&& off + 2 + 12 * (le16(data, off) as int) + 4 <= data.len()
}

/// The tag entries of the classic directory at `off`, in file order.
pub open spec fn classic_tags_at(data: Seq<u8>, off: int) -> Seq<TagEntry> {
    Seq::new(le16(data, off) as nat, |k: int| classic_entry_at(data, off + 2 + 12 * k))
}

/// The next pointer of the classic directory at `off`.
pub open spec fn classic_next_at(data: Seq<u8>, off: int) -> u64 {
    le32(data, off + 2 + 12 * (le16(data, off) as int)) as u64
}

/// A big directory at `off` lies inside the file, with a sane 64-bit tag
/// count, that many 20-byte entries, and the 64-bit next pointer.
pub open spec fn big_ifd_ok(data: Seq<u8>, off: int) -> bool {
    &&& 0 <= off
    &&& off + 8 <= data.len()
    &&& le64(data, off) <= 0xFFFF
    &&& off + 8 + 20 * (le64(data, off) as int) + 8 <= data.len()
}

/// The tag entries of the big directory at `off`, in file order.
pub open spec fn big_tags_at(data: Seq<u8>, off: int) -> Seq<TagEntry> {
    Seq::new(le64(data, off) as nat, |k: int| big_entry_at(data, off + 8 + 20 * k))
}

/// The next pointer of the big directory at `off`.
pub open spec fn big_next_at(data: Seq<u8>, off: int) -> u64 {
    le64(data, off + 8 + 20 * (le64(data, off) as int))
}

/// Integer division against a bound: `a / d < n` exactly when `a < d * n`.
proof fn lemma_div_below(a: int, n: int, d: int)
    requires
        0 <= a,
        0 <= n,
        0 < d,
    ensures
        (a / d < n) <==> (a < d * n),
{
    vstd::arithmetic::div_mod::lemma_fundamental_div_mod(a, d);
    vstd::arithmetic::div_mod::lemma_mod_division_less_than_divisor(a, d);
    vstd::arithmetic::div_mod::lemma_div_pos_is_pos(a, d);
    let q = a / d;
    let rm = a % d;
    if q < n {
        assert(a < d * n) by (nonlinear_arith)
            requires
                a == d * q + rm,
                rm < d,
                q <= n - 1,
                0 < d,
        ;
    }
    if a < d * n {
        assert(q < n) by (nonlinear_arith)
            requires
                a == d * q + rm,
                0 <= rm,
                a < d * n,
                0 < d,
                0 <= q,
        ;
    }
}

/// Parses one classic directory at `off`: a 16-bit tag count, 12-byte tag
/// entries `(id, type, count, value)` with 32-bit count and value, and a
/// 32-bit next pointer. Succeeds exactly when all of that lies inside the
/// file, and then returns the directory's entries and next pointer, field
/// for field from the bytes.
pub fn parse_tiff_ifd(data: &Vec<u8>, off: usize) -> (r: Result<TiffIFD, FramesError>)
    ensures
        r is Ok <==> classic_ifd_ok(data@, off as int),
        r is Ok ==> r->Ok_0.tags@ == classic_tags_at(data@, off as int),
        r is Ok ==> r->Ok_0.next == classic_next_at(data@, off as int),
{
    let dlen: usize = data.len();
    if off > dlen || dlen - off < 2 {
        return Err(FramesError::IOError(IoFault::UnexpectedEof));
    }
    let num_tags: usize = read_u16(data, off) as usize;
    // entries plus the 4-byte next pointer
    proof {
        lemma_div_below((dlen - off - 2) as int, num_tags as int, 12);
    }
    if (dlen - off - 2) / 12 < num_tags || dlen - off - 2 - 12 * num_tags < 4 {
        return Err(FramesError::IOError(IoFault::UnexpectedEof));
    }
    let mut tags: Vec<TagEntry> = Vec::new();
    let mut i: usize = 0;
    while i < num_tags
        invariant
            i <= num_tags,
            dlen == data@.len(),
            num_tags == le16(data@, off as int),
            off + 2 + 12 * num_tags + 4 <= dlen,
            tags@.len() == i,
            forall|j: int|
                0 <= j < i ==> #[trigger] tags@[j] == classic_entry_at(
                    data@,
                    off + 2 + 12 * j,
                ),
        decreases num_tags - i,
    {
        let base: usize = off + 2 + 12 * i;
        proof {
            assert(12 * i + 12 <= 12 * num_tags) by (nonlinear_arith)
                requires
                    i < num_tags,
            ;
        }
        let id: u16 = read_u16(data, base);
        let count: u32 = read_u32(data, base + 4);
        let value: u32 = read_u32(data, base + 8);
        tags.push(TagEntry { id, count: count as u64, value: value as u64 });
        i = i + 1;
    }
    let next: u32 = read_u32(data, off + 2 + 12 * num_tags);
    proof {
        assert(tags@ =~= classic_tags_at(data@, off as int));
    }
    Ok(TiffIFD { tags, next: next as u64 })
}

/// Parses one big directory at `off`: a 64-bit tag count, 20-byte tag
/// entries `(id, type, count, value)` with 64-bit count and value, and a
/// 64-bit next pointer. Succeeds exactly when all of that lies inside the
/// file with a sane tag count, and then returns the directory's entries
/// and next pointer, field for field from the bytes.
pub fn parse_bigtiff_ifd(data: &Vec<u8>, off: usize) -> (r: Result<BigTiffIFD, FramesError>)
    ensures
        r is Ok <==> big_ifd_ok(data@, off as int),
        r is Ok ==> r->Ok_0.tags@ == big_tags_at(data@, off as int),
        r is Ok ==> r->Ok_0.next == big_next_at(data@, off as int),
{
    let dlen: usize = data.len();
    if off > dlen || dlen - off < 8 {
        return Err(FramesError::IOError(IoFault::UnexpectedEof));
    }
    let num_tags_u64: u64 = read_u64(data, off);
    if num_tags_u64 > 0xFFFF {
        return Err(FramesError::FormatError);
    }
    let num_tags: usize = num_tags_u64 as usize;
    proof {
        lemma_div_below((dlen - off - 8) as int, num_tags as int, 20);
    }
    if (dlen - off - 8) / 20 < num_tags || dlen - off - 8 - 20 * num_tags < 8 {
        return Err(FramesError::IOError(IoFault::UnexpectedEof));
    }
    let mut tags: Vec<TagEntry> = Vec::new();
    let mut i: usize = 0;
    while i < num_tags
        invariant
            i <= num_tags,
            dlen == data@.len(),
            num_tags == le64(data@, off as int),
            off + 8 + 20 * num_tags + 8 <= dlen,
            tags@.len() == i,
            forall|j: int|
                0 <= j < i ==> #[trigger] tags@[j] == big_entry_at(data@, off + 8 + 20 * j),
        decreases num_tags - i,
    {
        let base: usize = off + 8 + 20 * i;
        proof {
            assert(20 * i + 20 <= 20 * num_tags) by (nonlinear_arith)
                requires
                    i < num_tags,
            ;
        }
        let id: u16 = read_u16(data, base);
        let count: u64 = read_u64(data, base + 4);
        let value: u64 = read_u64(data, base + 12);
        tags.push(TagEntry { id, count, value });
        i = i + 1;
    }
    let next: u64 = read_u64(data, off + 8 + 20 * num_tags);
    proof {
        assert(tags@ =~= big_tags_at(data@, off as int));
    }
    Ok(BigTiffIFD { tags, next })
}

/// Whether a directory lies (whole) at `off`, in the variant asked for.
pub open spec fn ifd_ok_at(data: Seq<u8>, off: int, big: bool) -> bool {
    if big {
        big_ifd_ok(data, off)
    } else {
        classic_ifd_ok(data, off)
    }
}

/// The tag entries of the directory at `off`, in the variant asked for.
pub open spec fn ifd_tags_at(data: Seq<u8>, off: int, big: bool) -> Seq<TagEntry> {
    if big {
        big_tags_at(data, off)
    } else {
        classic_tags_at(data, off)
    }
}

/// The next pointer of the directory at `off`, in the variant asked for.
pub open spec fn ifd_next_at(data: Seq<u8>, off: int, big: bool) -> u64 {
    if big {
        big_next_at(data, off)
    } else {
        classic_next_at(data, off)
    }
}

/// The most directories a well-formed chain in `data` can hold: each one
/// occupies at least 6 bytes, so a longer walk means the next pointers
/// cycle.
pub open spec fn chain_cap(data: Seq<u8>) -> nat {
    (data.len() / 6 + 1) as nat
}

/// The chain of directories starting at `next` walks to its zero
/// terminator within `fuel` steps, every directory lying inside the file.
pub open spec fn chain_ok_from(data: Seq<u8>, next: u64, big: bool, fuel: nat) -> bool
    decreases fuel,
{
    if next == 0 {
        true
    } else if fuel == 0 {
        false
    } else if !(next <= data.len()) {
        false
    } else if !ifd_ok_at(data, next as int, big) {
        false
    } else {
        chain_ok_from(data, ifd_next_at(data, next as int, big), big, (fuel - 1) as nat)
    }
}

/// The directory offsets the chain starting at `next` reaches, in file
/// order, one per directory.
pub open spec fn chain_offsets_from(data: Seq<u8>, next: u64, big: bool, fuel: nat) -> Seq<int>
    decreases fuel,
{
    if next == 0 || fuel == 0 || !(next <= data.len()) || !ifd_ok_at(data, next as int, big) {
        Seq::empty()
    } else {
        seq![next as int] + chain_offsets_from(
            data,
            ifd_next_at(data, next as int, big),
            big,
            (fuel - 1) as nat,
        )
    }
}

/// Walks the chain of directories from `first`, classic or big, and
/// returns them all as big-variant records (a classic directory widens
/// losslessly). Succeeds exactly when the chain reaches its zero
/// terminator, every directory inside the file, within the bound a
/// cycle-free chain obeys; the result then holds the chain's directories
/// in file order, tags and next pointers read from the bytes.
pub fn read_ifd_chain(data: &Vec<u8>, first: u64, bigtiff: bool) -> (r: Result<
    Vec<BigTiffIFD>,
    FramesError,
>)
    ensures
        r is Ok <==> chain_ok_from(data@, first, bigtiff, chain_cap(data@)),
        r is Ok ==> r->Ok_0@.len() == chain_offsets_from(
            data@,
            first,
            bigtiff,
            chain_cap(data@),
        ).len(),
        r is Ok ==> forall|k: int|
            0 <= k < r->Ok_0@.len() ==> (#[trigger] r->Ok_0@[k]).tags@ == ifd_tags_at(
                data@,
                chain_offsets_from(data@, first, bigtiff, chain_cap(data@))[k],
                bigtiff,
            ) && r->Ok_0@[k].next == ifd_next_at(
                data@,
                chain_offsets_from(data@, first, bigtiff, chain_cap(data@))[k],
                bigtiff,
            ),
{
    let dlen: usize = data.len();
    let mut ifds: Vec<BigTiffIFD> = Vec::new();
    let mut next: u64 = first;
    // Each directory occupies at least 6 bytes, so a well-formed chain has
    // at most this many entries; a longer walk means the pointers cycle.
    let cap: usize = dlen / 6 + 1;
    let mut steps: usize = 0;
    let ghost full = chain_offsets_from(data@, first, bigtiff, chain_cap(data@));
    let ghost mut done: Seq<int> = Seq::empty();
    proof {
        assert(done + chain_offsets_from(data@, next, bigtiff, (cap - steps) as nat) =~= full);
    }
    while next != 0
        invariant
            steps <= cap,
            dlen == data@.len(),
            cap == chain_cap(data@),
            full == chain_offsets_from(data@, first, bigtiff, chain_cap(data@)),
            chain_ok_from(data@, first, bigtiff, chain_cap(data@)) == chain_ok_from(
                data@,
                next,
                bigtiff,
                (cap - steps) as nat,
            ),
            full == done + chain_offsets_from(data@, next, bigtiff, (cap - steps) as nat),
            ifds@.len() == done.len(),
            forall|k: int|
                0 <= k < done.len() ==> (#[trigger] ifds@[k]).tags@ == ifd_tags_at(
                    data@,
                    done[k],
                    bigtiff,
                ) && ifds@[k].next == ifd_next_at(data@, done[k], bigtiff),
        decreases cap - steps,
    {
        if steps == cap {
            return Err(FramesError::FormatError);
        }
        if next > dlen as u64 {
            return Err(FramesError::IOError(IoFault::UnexpectedEof));
        }
        let off: usize = next as usize;
        let ghost fuel = (cap - steps) as nat;
        if bigtiff {
            let ifd = match parse_bigtiff_ifd(data, off) {
                Ok(ifd) => ifd,
                Err(e) => {
                    return Err(e);
                },
            };
            proof {
                assert(chain_offsets_from(data@, next, bigtiff, fuel) == seq![next as int]
                    + chain_offsets_from(
                    data@,
                    ifd_next_at(data@, next as int, bigtiff),
                    bigtiff,
                    (fuel - 1) as nat,
                ));
                done = done.push(next as int);
                assert(full =~= done + chain_offsets_from(
                    data@,
                    ifd_next_at(data@, next as int, bigtiff),
                    bigtiff,
                    (fuel - 1) as nat,
                ));
            }
            next = ifd.next;
            ifds.push(ifd);
        } else {
            let ifd = match parse_tiff_ifd(data, off) {
                Ok(ifd) => ifd,
                Err(e) => {
                    return Err(e);
                },
            };
            proof {
                assert(chain_offsets_from(data@, next, bigtiff, fuel) == seq![next as int]
                    + chain_offsets_from(
                    data@,
                    ifd_next_at(data@, next as int, bigtiff),
                    bigtiff,
                    (fuel - 1) as nat,
                ));
                done = done.push(next as int);
                assert(full =~= done + chain_offsets_from(
                    data@,
                    ifd_next_at(data@, next as int, bigtiff),
                    bigtiff,
                    (fuel - 1) as nat,
                ));
            }
            next = ifd.next;
            ifds.push(BigTiffIFD { tags: ifd.tags, next: ifd.next });
        }
        steps = steps + 1;
    }
    proof {
        assert(full =~= done);
    }
    Ok(ifds)
}

} // verus!
