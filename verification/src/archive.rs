//! The tar reconstructor: parses the staged byte source as a tar archive
//! and replays its directory and file structure into the destination.
//!
//! The parser reads the archive as a sequence of 512-byte blocks. Each
//! entry is one header block followed by its payload, padded to a block
//! boundary. A header's checksum is the unsigned byte sum of the block
//! with the checksum field read as spaces; its size field is an octal
//! number. A block of zeros, or the end of the data, ends the archive.
//! Entry paths must decode as UTF-8 text; entries that are neither
//! directories nor regular files are skipped and recorded.

use vstd::prelude::*;
use vstd::slice::{slice_index_get, slice_subrange, slice_to_vec};
use vstd::utf8::{decode_utf8, valid_utf8};

use crate::dest::{EntryModel, WriteDirectory};
use crate::errors::TarError;
use crate::text::bytes_to_string;

verus! {

/// The kind of one archive entry, read from the header's typeflag byte.
#[derive(Copy, Clone, Debug, PartialEq, Eq, Structural)]
pub enum EntryKind {
    Directory,
    Regular,
    Other,
}

/// One parsed archive entry: its path, its kind, and, for a regular
/// file, its payload.
#[derive(Debug, PartialEq, Eq)]
pub struct TarEntry {
    pub path: String,
    pub kind: EntryKind,
    pub data: Vec<u8>,
}

/// The mathematical picture of one parsed entry.
pub struct TarEntryModel {
    pub path: Seq<char>,
    pub kind: EntryKind,
    pub data: Seq<u8>,
}

impl View for TarEntry {
    type V = TarEntryModel;

    open spec fn view(&self) -> TarEntryModel {
        TarEntryModel { path: self.path@, kind: self.kind, data: self.data@ }
    }
}

impl DeepView for TarEntry {
    type V = TarEntryModel;

    open spec fn deep_view(&self) -> TarEntryModel {
        self.view()
    }
}

pub open spec fn spec_is_octal_digit(b: u8) -> bool {
    0x30 <= b <= 0x37
}

/// Scanning an octal field left to right: phase 0 accepts leading
/// spaces, phase 1 accepts digits, phase 2 accepts only NUL or space
/// fill; at least one digit must be seen.
pub open spec fn spec_octal_scan(f: Seq<u8>, k: int, acc: nat, phase: int) -> Option<nat>
    decreases f.len() - k,
    when 0 <= k <= f.len()
{
    if k == f.len() {
        if phase == 1 || phase == 2 {
            Some(acc)
        } else {
            None
        }
    } else {
        let b = f[k];
        if phase == 0 {
            if b == 0x20 {
                spec_octal_scan(f, k + 1, acc, 0)
            } else if spec_is_octal_digit(b) {
                spec_octal_scan(f, k + 1, (b - 0x30) as nat, 1)
            } else {
                None
            }
        } else if phase == 1 {
            if spec_is_octal_digit(b) {
                spec_octal_scan(f, k + 1, acc * 8 + (b - 0x30) as nat, 1)
            } else if b == 0 || b == 0x20 {
                spec_octal_scan(f, k + 1, acc, 2)
            } else {
                None
            }
        } else {
            if b == 0 || b == 0x20 {
                spec_octal_scan(f, k + 1, acc, 2)
            } else {
                None
            }
        }
    }
}

/// The value of an octal number field: optional leading spaces, then
/// octal digits, then only NUL or space fill to the end of the field.
pub open spec fn spec_parse_octal(f: Seq<u8>) -> Option<nat> {
    spec_octal_scan(f, 0, 0, 0)
}

/// Eight to the power `n`; bounds the accumulator of the octal scan.
spec fn pow8(n: int) -> nat
    decreases n,
{
    if n <= 0 {
        1
    } else {
        8 * pow8(n - 1)
    }
}

proof fn lemma_pow8_le(a: int, b: int)
    requires
        a <= b,
    ensures
        pow8(a) <= pow8(b),
    decreases b - a,
{
    if a < b {
        lemma_pow8_le(a, b - 1);
    }
}

/// Reads an octal number field, as the size and checksum fields hold one.
fn parse_octal(f: &[u8]) -> (r: Option<u64>)
    requires
        f@.len() <= 12,
    ensures
        match r {
            Some(v) => spec_parse_octal(f@) == Some(v as nat),
            None => spec_parse_octal(f@) is None,
        },
{
    let n = f.len();
    let mut k: usize = 0;
    let mut acc: u64 = 0;
    let mut phase: u8 = 0;
    while k < n
        invariant
            0 <= k <= n,
            n == f@.len() <= 12,
            phase == 0 || phase == 1 || phase == 2,
            acc < pow8(k as int),
            spec_parse_octal(f@) == spec_octal_scan(f@, k as int, acc as nat, phase as int),
        decreases n - k,
    {
        proof {
            lemma_pow8_le(k as int + 1, 12);
            reveal_with_fuel(pow8, 13);
            assert(pow8(12) == 0x1000000000);
        }
        let b = *slice_index_get(f, k);
        if phase == 0 {
            if b == 0x20 {
                // stay in phase 0
            } else if 0x30 <= b && b <= 0x37 {
                acc = (b - 0x30) as u64;
                phase = 1;
            } else {
                return None;
            }
        } else if phase == 1 {
            if 0x30 <= b && b <= 0x37 {
                acc = acc * 8 + (b - 0x30) as u64;
            } else if b == 0 || b == 0x20 {
                phase = 2;
            } else {
                return None;
            }
        } else {
            if b == 0 || b == 0x20 {
                // stay in phase 2
            } else {
                return None;
            }
        }
        k += 1;
    }
    if phase == 0 {
        None
    } else {
        Some(acc)
    }
}

/// The header block with its checksum field read as ASCII spaces, as the
/// checksum convention demands.
pub open spec fn spec_masked(h: Seq<u8>) -> Seq<u8> {
    Seq::new(
        512,
        |i: int|
            if 148 <= i < 156 {
                0x20u8
            } else {
                h[i]
            },
    )
}

/// The sum of a sequence of bytes.
pub open spec fn spec_byte_sum(s: Seq<u8>) -> nat
    decreases s.len(),
{
    if s.len() == 0 {
        0
    } else {
        spec_byte_sum(s.drop_last()) + s.last() as nat
    }
}

/// The checksum a well-formed header must carry: the unsigned byte sum
/// of the block with the checksum field read as spaces.
pub open spec fn spec_header_cksum(h: Seq<u8>) -> nat {
    spec_byte_sum(spec_masked(h))
}

/// Computes the checksum of a header block.
fn header_cksum(h: &[u8]) -> (r: u32)
    requires
        h@.len() == 512,
    ensures
        r as nat == spec_header_cksum(h@),
{
    let mut acc: u32 = 0;
    let mut i: usize = 0;
    proof {
        assert(spec_masked(h@).take(0) =~= Seq::<u8>::empty());
    }
    while i < 512
        invariant
            0 <= i <= 512,
            h@.len() == 512,
            acc <= 255 * i,
            acc as nat == spec_byte_sum(spec_masked(h@).take(i as int)),
        decreases 512 - i,
    {
        let b: u8 = if 148 <= i && i < 156 {
            0x20
        } else {
            *slice_index_get(h, i)
        };
        proof {
            assert(spec_masked(h@).take(i as int + 1).drop_last() =~= spec_masked(h@).take(
                i as int,
            ));
            assert(spec_masked(h@).take(i as int + 1).last() == spec_masked(h@)[i as int]);
        }
        acc = acc + b as u32;
        i += 1;
    }
    proof {
        assert(spec_masked(h@).take(512) =~= spec_masked(h@));
    }
    acc
}

/// The bytes of a NUL-terminated field, up to the first NUL or the end
/// of the field.
pub open spec fn spec_cstr(f: Seq<u8>) -> Seq<u8>
    decreases f.len(),
{
    if f.len() == 0 {
        f
    } else if f.first() == 0 {
        Seq::empty()
    } else {
        seq![f.first()] + spec_cstr(f.drop_first())
    }
}

proof fn lemma_cstr_take(f: Seq<u8>, i: int)
    requires
        0 <= i <= f.len(),
        forall|j: int| 0 <= j < i ==> f[j] != 0,
        i < f.len() ==> f[i] == 0,
    ensures
        spec_cstr(f) == f.take(i),
    decreases f.len(),
{
    if f.len() == 0 {
        assert(f.take(0) =~= f);
    } else if f.first() == 0 {
        assert(i == 0);
        assert(f.take(0) =~= Seq::<u8>::empty());
    } else {
        assert(i >= 1);
        lemma_cstr_take(f.drop_first(), i - 1);
        assert(seq![f.first()] + f.drop_first().take(i - 1) =~= f.take(i));
    }
}

/// Reads a NUL-terminated field.
fn take_cstr<'a>(f: &'a [u8]) -> (r: &'a [u8])
    ensures
        r@ == spec_cstr(f@),
{
    let n = f.len();
    let mut i: usize = 0;
    while i < n && *slice_index_get(f, i) != 0
        invariant
            0 <= i <= n,
            n == f@.len(),
            forall|j: int| 0 <= j < i ==> f@[j] != 0,
        decreases n - i,
    {
        i += 1;
    }
    proof {
        lemma_cstr_take(f@, i as int);
    }
    slice_subrange(f, 0, i)
}

/// Whether a header block carries the ustar magic, with or without the
/// trailing version bytes that different writers use.
pub open spec fn spec_has_ustar_magic(h: Seq<u8>) -> bool {
    h[257] == 0x75 && h[258] == 0x73 && h[259] == 0x74 && h[260] == 0x61 && h[261] == 0x72
}

/// The bytes of an entry's path: the name field, prefixed by the ustar
/// prefix field and a slash when the prefix is in use.
pub open spec fn spec_path_bytes(h: Seq<u8>) -> Seq<u8> {
    let name = spec_cstr(h.subrange(0, 100));
    if spec_has_ustar_magic(h) && h[345] != 0 {
        spec_cstr(h.subrange(345, 500)) + seq![0x2fu8] + name
    } else {
        name
    }
}

/// The entry kind named by the typeflag byte: NUL or `0` is a regular
/// file, `5` is a directory, anything else is skipped.
pub open spec fn spec_kind_of(b: u8) -> EntryKind {
    if b == 0 || b == 0x30 {
        EntryKind::Regular
    } else if b == 0x35 {
        EntryKind::Directory
    } else {
        EntryKind::Other
    }
}

/// Whether a block is all zeros, which ends the archive.
pub open spec fn spec_block_zero(h: Seq<u8>) -> bool {
    forall|j: int| 0 <= j < h.len() ==> h[j] == 0
}

/// Where the next header starts: after the payload, rounded up to a
/// block boundary; an archive that ends inside the padding simply ends.
pub open spec fn spec_next_off(len: int, off: int, size: nat) -> int {
    let after = off + 512 + size;
    let pad: int = if size % 512 == 0 {
        0
    } else {
        512 - ((size % 512) as int)
    };
    if len - after < pad {
        len
    } else {
        after + pad
    }
}

/// The entries of the archive held in `d` from offset `off` on: one
/// header block and its payload at a time, until a zero block or the end
/// of the data. Every malformed header is fatal.
pub open spec fn spec_parse_entries(d: Seq<u8>, off: int) -> Result<Seq<TarEntryModel>, TarError>
    decreases d.len() - off,
    when 0 <= off <= d.len()
{
    if off == d.len() {
        Ok(Seq::empty())
    } else if d.len() - off < 512 {
        Err(TarError::TruncatedHeader)
    } else {
        let h = d.subrange(off, off + 512);
        if spec_block_zero(h) {
            Ok(Seq::empty())
        } else {
            match spec_parse_octal(h.subrange(148, 156)) {
                None => Err(TarError::BadChecksum),
                Some(ck) => if ck != spec_header_cksum(h) {
                    Err(TarError::BadChecksum)
                } else {
                    match spec_parse_octal(h.subrange(124, 136)) {
                        None => Err(TarError::BadSize),
                        Some(size) => if !valid_utf8(spec_path_bytes(h)) {
                            Err(TarError::NonUtf8Path)
                        } else if size > d.len() - off - 512 {
                            Err(TarError::TruncatedData)
                        } else {
                            let kind = spec_kind_of(h[156]);
                            let e = TarEntryModel {
                                path: decode_utf8(spec_path_bytes(h)),
                                kind,
                                data: if kind is Regular {
                                    d.subrange(off + 512, off + 512 + size)
                                } else {
                                    Seq::empty()
                                },
                            };
                            match spec_parse_entries(d, spec_next_off(d.len() as int, off, size)) {
                                Ok(rest) => Ok(seq![e] + rest),
                                Err(err) => Err(err),
                            }
                        },
                    }
                },
            }
        }
    }
}

/// Whether a header block is all zeros.
fn is_zero_block(h: &[u8]) -> (r: bool)
    ensures
        r == spec_block_zero(h@),
{
    let n = h.len();
    let mut i: usize = 0;
    while i < n && *slice_index_get(h, i) == 0
        invariant
            0 <= i <= n,
            n == h@.len(),
            forall|j: int| 0 <= j < i ==> h@[j] == 0,
        decreases n - i,
    {
        i += 1;
    }
    i == n
}

/// Parses the staged bytes as a tar archive, in archive order, with no
/// reordering. Returns every entry, or the first fatal format error.
pub fn parse_tar(data: &Vec<u8>) -> (r: Result<Vec<TarEntry>, TarError>)
    ensures
        match r {
            Ok(es) => spec_parse_entries(data@, 0) == Ok::<Seq<TarEntryModel>, TarError>(
                es.deep_view(),
            ),
            Err(e) => spec_parse_entries(data@, 0) == Err::<Seq<TarEntryModel>, TarError>(e),
        },
{
    let len = data.len();
    let mut acc: Vec<TarEntry> = Vec::new();
    let mut off: usize = 0;
    proof {
        assert(acc.deep_view() =~~= Seq::<TarEntryModel>::empty());
    }
    loop
        invariant
            0 <= off <= len,
            len == data@.len(),
            spec_parse_entries(data@, 0) == match spec_parse_entries(data@, off as int) {
                Ok(rest) => Ok::<Seq<TarEntryModel>, TarError>(acc.deep_view() + rest),
                Err(e) => Err::<Seq<TarEntryModel>, TarError>(e),
            },
        decreases len - off,
    {
        if off == len {
            proof {
                assert(acc.deep_view() + Seq::<TarEntryModel>::empty() =~~= acc.deep_view());
            }
            return Ok(acc);
        }
        if len - off < 512 {
            return Err(TarError::TruncatedHeader);
        }
        let h = slice_subrange(data.as_slice(), off, off + 512);
        let ghost hs = data@.subrange(off as int, off as int + 512);
        if is_zero_block(h) {
            proof {
                assert(acc.deep_view() + Seq::<TarEntryModel>::empty() =~~= acc.deep_view());
            }
            return Ok(acc);
        }
        let ck = match parse_octal(slice_subrange(h, 148, 156)) {
            None => {
                return Err(TarError::BadChecksum);
            },
            Some(v) => v,
        };
        let sum = header_cksum(h);
        if ck != sum as u64 {
            return Err(TarError::BadChecksum);
        }
        let size = match parse_octal(slice_subrange(h, 124, 136)) {
            None => {
                return Err(TarError::BadSize);
            },
            Some(v) => v,
        };
        let name = take_cstr(slice_subrange(h, 0, 100));
        let magic = *slice_index_get(h, 257) == 0x75 && *slice_index_get(h, 258) == 0x73
            && *slice_index_get(h, 259) == 0x74 && *slice_index_get(h, 260) == 0x61
            && *slice_index_get(h, 261) == 0x72;
        let mut pb: Vec<u8> = Vec::new();
        if magic && *slice_index_get(h, 345) != 0 {
            let prefix = take_cstr(slice_subrange(h, 345, 500));
            pb.extend_from_slice(prefix);
            pb.push(0x2f);
            pb.extend_from_slice(name);
            proof {
                assert(pb@ =~= spec_path_bytes(hs));
            }
        } else {
            pb.extend_from_slice(name);
            proof {
                assert(pb@ =~= spec_path_bytes(hs));
            }
        }
        let ghost pbv = pb@;
        let path = match bytes_to_string(pb) {
            None => {
                return Err(TarError::NonUtf8Path);
            },
            Some(s) => s,
        };
        let rem = len - off - 512;
        if size > rem as u64 {
            return Err(TarError::TruncatedData);
        }
        let size_usize = size as usize;
        let tf = *slice_index_get(h, 156);
        let kind = if tf == 0 || tf == 0x30 {
            EntryKind::Regular
        } else if tf == 0x35 {
            EntryKind::Directory
        } else {
            EntryKind::Other
        };
        let payload: Vec<u8> = if tf == 0 || tf == 0x30 {
            slice_to_vec(slice_subrange(data.as_slice(), off + 512, off + 512 + size_usize))
        } else {
            Vec::new()
        };
        let ghost prev = acc.deep_view();
        let ghost entry_model = TarEntryModel {
            path: decode_utf8(pbv),
            kind,
            data: if kind is Regular {
                data@.subrange(off as int + 512, off as int + 512 + size as int)
            } else {
                Seq::empty()
            },
        };
        let entry = TarEntry { path, kind, data: payload };
        proof {
            assert(entry@ == entry_model);
        }
        acc.push(entry);
        proof {
            assert(acc.deep_view() =~~= prev.push(entry_model));
        }
        let ghost off0 = off as int;
        let after = off + 512 + size_usize;
        let rem512 = size_usize % 512;
        let pad: usize = if rem512 == 0 {
            0
        } else {
            512 - rem512
        };
        if len - after < pad {
            off = len;
        } else {
            off = after + pad;
        }
        proof {
            assert(off as int == spec_next_off(len as int, off0, size as nat));
            assert(spec_parse_entries(data@, off0) == match spec_parse_entries(
                data@,
                off as int,
            ) {
                Ok(rest) => Ok::<Seq<TarEntryModel>, TarError>(seq![entry_model] + rest),
                Err(e) => Err::<Seq<TarEntryModel>, TarError>(e),
            });
            if spec_parse_entries(data@, off as int) is Ok {
                let rest = spec_parse_entries(data@, off as int)->Ok_0;
                assert(prev + (seq![entry_model] + rest) =~~= acc.deep_view() + rest);
            }
        }
    }
}

/// The committed children of the destination after the entries are
/// replayed in archive order: a directory entry adds a committed child
/// directory, a regular entry adds a committed child file with the
/// entry's payload, and any other entry adds nothing.
pub open spec fn spec_entries_after(es0: Seq<EntryModel>, ts: Seq<TarEntryModel>) -> Seq<
    EntryModel,
>
    decreases ts.len(),
{
    if ts.len() == 0 {
        es0
    } else {
        let t = ts.first();
        let next = match t.kind {
            EntryKind::Directory => es0.push(EntryModel::Directory { path: t.path }),
            EntryKind::Regular => es0.push(EntryModel::File { path: t.path, data: t.data }),
            EntryKind::Other => es0,
        };
        spec_entries_after(next, ts.drop_first())
    }
}

/// The recorded skip diagnostics after the entries are replayed: the
/// paths of the entries of other kinds, in archive order.
pub open spec fn spec_skipped_after(sk0: Seq<Seq<char>>, ts: Seq<TarEntryModel>) -> Seq<Seq<char>>
    decreases ts.len(),
{
    if ts.len() == 0 {
        sk0
    } else {
        let t = ts.first();
        let next = match t.kind {
            EntryKind::Other => sk0.push(t.path),
            _ => sk0,
        };
        spec_skipped_after(next, ts.drop_first())
    }
}

/// Replays one regular entry's payload into the open child file, in
/// fixed-size buffers, then closes the file.
fn write_file_payload(dir: &mut WriteDirectory, data: &Vec<u8>)
    requires
        !old(dir).spec_committed(),
        old(dir).spec_open_child() matches Some(EntryModel::File { path: _, data: d }) && d == Seq::<
            u8,
        >::empty(),
    ensures
        final(dir).spec_name() == old(dir).spec_name(),
        final(dir).spec_skipped() == old(dir).spec_skipped(),
        final(dir).spec_committed() == old(dir).spec_committed(),
        final(dir).spec_open_child() is None,
        (match old(dir).spec_open_child() {
            Some(EntryModel::File { path: p, data: _ }) => final(dir).spec_entries() == old(
                dir,
            ).spec_entries().push(EntryModel::File { path: p, data: data@ }),
            _ => false,
        }),
{
    let n = data.len();
    let mut j: usize = 0;
    proof {
        assert(data@.take(0) =~= Seq::<u8>::empty());
    }
    while j < n
        invariant
            0 <= j <= n,
            n == data@.len(),
            !dir.spec_committed(),
            dir.spec_committed() == old(dir).spec_committed(),
            dir.spec_name() == old(dir).spec_name(),
            dir.spec_entries() == old(dir).spec_entries(),
            dir.spec_skipped() == old(dir).spec_skipped(),
            (match (dir.spec_open_child(), old(dir).spec_open_child()) {
                (
                    Some(EntryModel::File { path: p, data: d }),
                    Some(EntryModel::File { path: q, data: _ }),
                ) => p == q && d == data@.take(j as int),
                _ => false,
            }),
        decreases n - j,
    {
        let end = if n - j < 4096 {
            n
        } else {
            j + 4096
        };
        dir.append(slice_subrange(data.as_slice(), j, end));
        proof {
            assert(data@.take(j as int) + data@.subrange(j as int, end as int) =~= data@.take(
                end as int,
            ));
        }
        j = end;
    }
    proof {
        assert(data@.take(n as int) =~= data@);
    }
    dir.close_child();
}

/// Replays the archive held in the staged bytes into the destination
/// directory: directories and files are created and committed in archive
/// order, entries of other kinds are skipped and recorded, and the
/// directory itself is handed back uncommitted for the caller to close.
/// Any archive-format error is fatal; the directory is then dropped
/// unclosed and nothing of it ever becomes visible.
pub fn reconstruct_tar(directory: WriteDirectory, data: &Vec<u8>) -> (r: Result<
    WriteDirectory,
    TarError,
>)
    requires
        !directory.spec_committed(),
        directory.spec_open_child() is None,
    ensures
        match r {
            Ok(dir) => {
                &&& spec_parse_entries(data@, 0) is Ok
                &&& dir.spec_entries() == spec_entries_after(
                    directory.spec_entries(),
                    spec_parse_entries(data@, 0)->Ok_0,
                )
                &&& dir.spec_skipped() == spec_skipped_after(
                    directory.spec_skipped(),
                    spec_parse_entries(data@, 0)->Ok_0,
                )
                &&& dir.spec_name() == directory.spec_name()
                &&& !dir.spec_committed()
                &&& dir.spec_open_child() is None
            },
            Err(e) => spec_parse_entries(data@, 0) == Err::<Seq<TarEntryModel>, TarError>(e),
        },
{
    let entries = match parse_tar(data) {
        Err(e) => {
            return Err(e);
        },
        Ok(es) => es,
    };
    let ghost ts = entries.deep_view();
    let mut dir = directory;
    let n = entries.len();
    let mut i: usize = 0;
    proof {
        assert(ts.skip(0) =~~= ts);
    }
    while i < n
        invariant
            0 <= i <= n,
            n == entries@.len(),
            ts == entries.deep_view(),
            ts.len() == entries@.len(),
            forall|k: int| 0 <= k < ts.len() ==> ts[k] == #[trigger] entries@[k]@,
            !dir.spec_committed(),
            dir.spec_open_child() is None,
            dir.spec_name() == directory.spec_name(),
            spec_entries_after(directory.spec_entries(), ts) == spec_entries_after(
                dir.spec_entries(),
                ts.skip(i as int),
            ),
            spec_skipped_after(directory.spec_skipped(), ts) == spec_skipped_after(
                dir.spec_skipped(),
                ts.skip(i as int),
            ),
        decreases n - i,
    {
        proof {
            assert(ts.skip(i as int).first() == ts[i as int]);
            assert(ts.skip(i as int).drop_first() =~~= ts.skip(i as int + 1));
        }
        let path = entries[i].path.clone();
        let kind = entries[i].kind;
        match kind {
            EntryKind::Directory => {
                dir.create_directory(path);
                dir.close_child();
            },
            EntryKind::Regular => {
                dir.create_file(path);
                write_file_payload(&mut dir, &entries[i].data);
            },
            EntryKind::Other => {
                dir.record_skipped(path);
            },
        }
        i += 1;
    }
    proof {
        assert(ts.skip(n as int).len() == 0);
    }
    Ok(dir)
}

} // verus!
