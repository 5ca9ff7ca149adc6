//! Deterministic stored (uncompressed) ZIP archives for `.epro2` interchange.
//!
//! The writer emits one local header per member, the member name and bytes,
//! then the central directory and the end record. The reader accepts exactly
//! the stored, flag-free local entries that precede the central directory and
//! checks each member's CRC-32.

use vstd::prelude::*;

verus! {

// ---------------------------------------------------------------------------
// Little-endian fields.
// ---------------------------------------------------------------------------

/// Little-endian bytes of a 16-bit field.
pub open spec fn le16(value: u16) -> Seq<u8> {
    seq![(value % 256) as u8, (value / 256) as u8]
}

/// Little-endian bytes of a 32-bit field.
pub open spec fn le32(value: u32) -> Seq<u8> {
    seq![
        (value % 256) as u8,
        ((value / 256) % 256) as u8,
        ((value / 65536) % 256) as u8,
        (value / 16777216) as u8,
    ]
}

/// The 16-bit little-endian field at `at`.
pub open spec fn read_u16(bytes: Seq<u8>, at: int) -> int {
    bytes[at] + 256 * bytes[at + 1]
}

/// The 32-bit little-endian field at `at`.
pub open spec fn read_u32(bytes: Seq<u8>, at: int) -> int {
    bytes[at] + 256 * bytes[at + 1] + 65536 * bytes[at + 2] + 16777216 * bytes[at + 3]
}

proof fn lemma_le16_read(value: u16)
    ensures
        le16(value).len() == 2,
        read_u16(le16(value), 0) == value,
{
    assert((value % 256) + 256 * (value / 256) == value) by (nonlinear_arith);
}

proof fn lemma_le32_read(value: u32)
    ensures
        le32(value).len() == 4,
        read_u32(le32(value), 0) == value,
{
    let v = value as int;
    assert(v % 256 + 256 * ((v / 256) % 256) + 65536 * ((v / 65536) % 256) + 16777216 * (v / 16777216) == v)
        by (nonlinear_arith)
        requires
            0 <= v < 4294967296,
    {
        assert(v == 256 * (v / 256) + v % 256);
        assert(v / 256 == 256 * ((v / 256) / 256) + (v / 256) % 256);
        assert((v / 256) / 256 == v / 65536);
        assert(v / 65536 == 256 * ((v / 65536) / 256) + (v / 65536) % 256);
        assert((v / 65536) / 256 == v / 16777216);
    }
}

/// Appends a 16-bit little-endian field.
pub fn put_u16(out: &mut Vec<u8>, value: u16)
    ensures
        final(out)@ == old(out)@ + le16(value),
{
    out.push((value % 256) as u8);
    out.push((value / 256) as u8);
    proof {
        assert(out@ =~= old(out)@ + le16(value));
    }
}

/// Appends a 32-bit little-endian field.
pub fn put_u32(out: &mut Vec<u8>, value: u32)
    ensures
        final(out)@ == old(out)@ + le32(value),
{
    out.push((value % 256) as u8);
    out.push(((value / 256) % 256) as u8);
    out.push(((value / 65536) % 256) as u8);
    out.push((value / 16777216) as u8);
    proof {
        assert(out@ =~= old(out)@ + le32(value));
    }
}

/// Appends raw bytes.
pub fn put_bytes(out: &mut Vec<u8>, bytes: &[u8])
    ensures
        final(out)@ == old(out)@ + bytes@,
{
    let mut i: usize = 0;
    while i < bytes.len()
        invariant
            i <= bytes@.len(),
            out@ == old(out)@ + bytes@.take(i as int),
        decreases bytes@.len() - i,
    {
        out.push(bytes[i]);
        i = i + 1;
        proof {
            assert(out@ =~= old(out)@ + bytes@.take(i as int));
        }
    }
    proof {
        assert(bytes@.take(i as int) =~= bytes@);
    }
}

// ---------------------------------------------------------------------------
// CRC-32 (IEEE, reflected polynomial 0xEDB88320).
// ---------------------------------------------------------------------------

/// One bit step of the reflected CRC-32 register.
pub open spec fn crc_bit(crc: u32) -> u32 {
    if crc & 1 == 1 {
        (crc >> 1) ^ 0xedb8_8320
    } else {
        crc >> 1
    }
}

/// `steps` bit steps.
pub open spec fn crc_bits(crc: u32, steps: nat) -> u32
    decreases steps,
{
    if steps == 0 {
        crc
    } else {
        crc_bits(crc_bit(crc), (steps - 1) as nat)
    }
}

/// The register after the first `count` bytes, starting from all ones.
pub open spec fn crc_register(bytes: Seq<u8>, count: int) -> u32
    decreases count,
{
    if count <= 0 {
        0xffff_ffff
    } else {
        crc_bits(crc_register(bytes, count - 1) ^ (bytes[count - 1] as u32), 8)
    }
}

/// CRC-32 of a byte sequence: the final register, complemented.
pub open spec fn spec_crc32(bytes: Seq<u8>) -> u32 {
    !crc_register(bytes, bytes.len() as int)
}

/// CRC-32 checksum used by ZIP.
pub fn crc32(bytes: &[u8]) -> (crc: u32)
    ensures
        crc == spec_crc32(bytes@),
{
    let mut crc: u32 = 0xffff_ffff;
    let mut i: usize = 0;
    while i < bytes.len()
        invariant
            i <= bytes@.len(),
            crc == crc_register(bytes@, i as int),
        decreases bytes@.len() - i,
    {
        crc = crc ^ (bytes[i] as u32);
        let ghost start = crc;
        let mut step: usize = 0;
        while step < 8
            invariant
                step <= 8,
                crc_bits(crc, (8 - step) as nat) == crc_bits(start, 8),
            decreases 8 - step,
        {
            let mask: u32 = 0u32.wrapping_sub(crc & 1);
            let next = (crc >> 1) ^ (0xedb8_8320 & mask);
            proof {
                assert(next == crc_bit(crc)) by (bit_vector)
                    requires
                        mask == 0u32.wrapping_sub(crc & 1),
                        next == (crc >> 1) ^ (0xedb8_8320 & mask),
                ;
            }
            crc = next;
            step = step + 1;
        }
        i = i + 1;
    }
    !crc
}


// ---------------------------------------------------------------------------
// Archive layout.
// ---------------------------------------------------------------------------

/// Signature of a local file header.
pub open spec fn local_signature() -> u32 {
    0x0403_4b50
}

/// Signature of a central directory header.
pub open spec fn central_signature() -> u32 {
    0x0201_4b50
}

/// Signature of the end-of-central-directory record.
pub open spec fn end_signature() -> u32 {
    0x0605_4b50
}

/// 30-byte local header of a stored member: version 2.0, no flags, no
/// compression, DOS date 1980-01-01, CRC, sizes, name length, no extra field.
pub open spec fn local_header(crc: u32, size: u32, name_len: u16) -> Seq<u8> {
    le32(local_signature()) + le16(20) + le16(0) + le16(0) + le16(0) + le16(0x0021) + le32(crc) + le32(size)
        + le32(size) + le16(name_len) + le16(0)
}

/// 46-byte central directory header of a stored member at `offset`.
pub open spec fn central_header(crc: u32, size: u32, name_len: u16, offset: u32) -> Seq<u8> {
    le32(central_signature()) + le16(20) + le16(20) + le16(0) + le16(0) + le16(0) + le16(0x0021) + le32(crc)
        + le32(size) + le32(size) + le16(name_len) + le16(0) + le16(0) + le16(0) + le16(0) + le32(0) + le32(offset)
}

/// UTF-8 bytes of a member name.
pub open spec fn name_bytes(name: Seq<char>) -> Seq<u8> {
    vstd::utf8::encode_utf8(name)
}

/// Local header, name and bytes of one member.
pub open spec fn local_entry(file: (Seq<char>, Seq<u8>)) -> Seq<u8> {
    local_header(spec_crc32(file.1), file.1.len() as u32, name_bytes(file.0).len() as u16) + name_bytes(file.0)
        + file.1
}

/// Local entries of the first `count` members.
pub open spec fn local_part(files: Seq<(Seq<char>, Seq<u8>)>, count: int) -> Seq<u8>
    decreases count,
{
    if count <= 0 {
        Seq::empty()
    } else {
        local_part(files, count - 1) + local_entry(files[count - 1])
    }
}

/// Central directory headers of the first `count` members.
pub open spec fn central_part(files: Seq<(Seq<char>, Seq<u8>)>, count: int) -> Seq<u8>
    decreases count,
{
    if count <= 0 {
        Seq::empty()
    } else {
        central_part(files, count - 1) + central_header(
            spec_crc32(files[count - 1].1),
            files[count - 1].1.len() as u32,
            name_bytes(files[count - 1].0).len() as u16,
            local_part(files, count - 1).len() as u32,
        ) + name_bytes(files[count - 1].0)
    }
}

/// The ZIP format limits every field written for the members respects.
pub open spec fn zip_fits(files: Seq<(Seq<char>, Seq<u8>)>) -> bool {
    &&& files.len() <= u16::MAX
    &&& forall|i: int|
        0 <= i < files.len() ==> {
            &&& #[trigger] local_part(files, i).len() <= u32::MAX
            &&& name_bytes(files[i].0).len() <= u16::MAX
            &&& files[i].1.len() <= u32::MAX
        }
    &&& local_part(files, files.len() as int).len() <= u32::MAX
    &&& central_part(files, files.len() as int).len() <= u32::MAX
}

/// 22-byte end-of-central-directory record.
pub open spec fn end_record(count: u16, central_size: u32, central_offset: u32) -> Seq<u8> {
    le32(end_signature()) + le16(0) + le16(0) + le16(count) + le16(count) + le32(central_size) + le32(central_offset)
        + le16(0)
}

/// Complete archive bytes for the members, in order.
#[verifier::opaque]
pub open spec fn zip_bytes(files: Seq<(Seq<char>, Seq<u8>)>) -> Seq<u8> {
    let locals = local_part(files, files.len() as int);
    let centrals = central_part(files, files.len() as int);
    locals + centrals + end_record(files.len() as u16, centrals.len() as u32, locals.len() as u32)
}

/// Names and bytes of the members as mathematical values.
pub open spec fn files_view(files: Seq<(String, Vec<u8>)>) -> Seq<(Seq<char>, Seq<u8>)> {
    files.map_values(|file: (String, Vec<u8>)| (file.0@, file.1@))
}

/// A member name exceeds a ZIP field limit.
#[derive(Clone, Copy, Debug, PartialEq, Eq, Structural)]
pub struct ZipFieldLimitError;

/// In-memory stored ZIP archive under construction.
pub struct ZipArchive {
    files: Vec<(String, Vec<u8>)>,
}

impl View for ZipArchive {
    type V = Seq<(Seq<char>, Seq<u8>)>;

    closed spec fn view(&self) -> Seq<(Seq<char>, Seq<u8>)> {
        files_view(self.files@)
    }
}

fn zip_local_header(out: &mut Vec<u8>, crc: u32, size: u32, name_len: u16)
    ensures
        final(out)@ == old(out)@ + local_header(crc, size, name_len),
{
    put_u32(out, 0x0403_4b50);
    put_u16(out, 20);
    put_u16(out, 0);
    put_u16(out, 0);
    put_u16(out, 0);
    put_u16(out, 0x0021);
    put_u32(out, crc);
    put_u32(out, size);
    put_u32(out, size);
    put_u16(out, name_len);
    put_u16(out, 0);
    proof {
        assert(out@ =~= old(out)@ + local_header(crc, size, name_len));
    }
}

fn zip_central_header(out: &mut Vec<u8>, crc: u32, size: u32, name_len: u16, offset: u32)
    ensures
        final(out)@ == old(out)@ + central_header(crc, size, name_len, offset),
{
    put_u32(out, 0x0201_4b50);
    put_u16(out, 20);
    put_u16(out, 20);
    put_u16(out, 0);
    put_u16(out, 0);
    put_u16(out, 0);
    put_u16(out, 0x0021);
    put_u32(out, crc);
    put_u32(out, size);
    put_u32(out, size);
    put_u16(out, name_len);
    put_u16(out, 0);
    put_u16(out, 0);
    put_u16(out, 0);
    put_u16(out, 0);
    put_u32(out, 0);
    put_u32(out, offset);
    proof {
        assert(out@ =~= old(out)@ + central_header(crc, size, name_len, offset));
    }
}

impl ZipArchive {
    /// An archive with no members.
    pub fn new() -> (archive: Self)
        ensures
            archive@ == Seq::<(Seq<char>, Seq<u8>)>::empty(),
    {
        let archive = ZipArchive { files: Vec::new() };
        proof {
            assert(archive@ =~= Seq::<(Seq<char>, Seq<u8>)>::empty());
        }
        archive
    }

    /// Appends one member.
    pub fn add(&mut self, name: &str, contents: Vec<u8>)
        ensures
            final(self)@ == old(self)@.push((name@, contents@)),
    {
        self.files.push((name.to_owned(), contents));
        proof {
            assert(files_view(self.files@) =~= files_view(old(self).files@).push((name@, contents@)));
        }
    }

    /// Writes the archive: local entries, central directory, end record.
    /// Fails when a count, size, name length or offset exceeds its ZIP field.
    pub fn finish(self) -> (result: Result<Vec<u8>, ZipFieldLimitError>)
        ensures
            zip_fits(self@) ==> (result matches Ok(bytes) && bytes@ == zip_bytes(self@)),
            !zip_fits(self@) ==> result is Err,
    {
        let ghost files = self@;
        let file_count = self.files.len();
        if file_count > 65535 {
            return Err(ZipFieldLimitError);
        }
        let count = file_count as u16;
        let mut output: Vec<u8> = Vec::new();
        let mut central: Vec<u8> = Vec::new();
        let mut k: usize = 0;
        while k < file_count
            invariant
                k <= file_count,
                file_count == self.files@.len(),
                files == files_view(self.files@),
                files.len() <= u16::MAX,
                output@ == local_part(files, k as int),
                central@ == central_part(files, k as int),
                forall|i: int|
                    0 <= i < k ==> {
                        &&& #[trigger] local_part(files, i).len() <= u32::MAX
                        &&& name_bytes(files[i].0).len() <= u16::MAX
                        &&& files[i].1.len() <= u32::MAX
                    },
            decreases file_count - k,
        {
            let name = self.files[k].0.as_str().as_bytes();
            let contents = &self.files[k].1;
            proof {
                assert(files[k as int] == (self.files@[k as int].0@, self.files@[k as int].1@));
            }
            if output.len() > 0xffff_ffff || name.len() > 65535 || contents.len() > 0xffff_ffff {
                return Err(ZipFieldLimitError);
            }
            let offset = output.len() as u32;
            let name_len = name.len() as u16;
            let size = contents.len() as u32;
            let crc = crc32(contents.as_slice());
            zip_local_header(&mut output, crc, size, name_len);
            put_bytes(&mut output, name);
            put_bytes(&mut output, contents.as_slice());
            zip_central_header(&mut central, crc, size, name_len, offset);
            put_bytes(&mut central, name);
            k = k + 1;
            proof {
                assert(output@ =~= local_part(files, k as int));
                assert(central@ =~= central_part(files, k as int));
            }
        }
        if output.len() > 0xffff_ffff || central.len() > 0xffff_ffff {
            return Err(ZipFieldLimitError);
        }
        let central_offset = output.len() as u32;
        let central_size = central.len() as u32;
        put_bytes(&mut output, central.as_slice());
        let ghost before_end = output@;
        put_u32(&mut output, 0x0605_4b50);
        put_u16(&mut output, 0);
        put_u16(&mut output, 0);
        put_u16(&mut output, count);
        put_u16(&mut output, count);
        put_u32(&mut output, central_size);
        put_u32(&mut output, central_offset);
        put_u16(&mut output, 0);
        proof {
            assert(output@ =~= before_end + end_record(count, central_size, central_offset));
            reveal(zip_bytes);
            assert(output@ =~= zip_bytes(files));
        }
        Ok(output)
    }
}


// ---------------------------------------------------------------------------
// Reading stored members back.
// ---------------------------------------------------------------------------

/// A member with name text `name` was already read.
pub open spec fn name_taken(found: Seq<(Seq<char>, Seq<u8>)>, name: Seq<char>) -> bool {
    exists|j: int| 0 <= j < found.len() && #[trigger] found[j].0 == name
}

/// The four bytes at `offset` are the local-header signature.
pub open spec fn local_signature_at(archive: Seq<u8>, offset: int) -> bool {
    0 <= offset && offset + 4 <= archive.len() && archive.subrange(offset, offset + 4) == le32(local_signature())
}

/// Members read from the local entries starting at `offset`, after the
/// members already `found`; `None` when an entry is truncated, flagged,
/// compressed, has an invalid UTF-8 name, a wrong CRC or a repeated name, or
/// when no member at all precedes the first non-local-header bytes.
#[verifier::opaque]
pub open spec fn members_from(archive: Seq<u8>, offset: int, found: Seq<(Seq<char>, Seq<u8>)>) -> Option<Seq<(Seq<char>, Seq<u8>)>>
    decreases archive.len() - offset,
{
    if local_signature_at(archive, offset) {
        if offset + 30 > archive.len() {
            None
        } else {
            let name_start = offset + 30;
            let name_end = name_start + read_u16(archive, offset + 26);
            let content_start = name_end + read_u16(archive, offset + 28);
            let content_end = content_start + read_u32(archive, offset + 18);
            if read_u16(archive, offset + 6) != 0 || read_u16(archive, offset + 8) != 0 || content_end > archive.len() {
                None
            } else {
                let name = archive.subrange(name_start, name_end);
                let contents = archive.subrange(content_start, content_end);
                let text = vstd::utf8::decode_utf8(name);
                if !vstd::utf8::valid_utf8(name) || spec_crc32(contents) != read_u32(archive, offset + 14) || name_taken(
                    found,
                    text,
                ) {
                    None
                } else {
                    members_from(archive, content_end, found.push((text, contents)))
                }
            }
        }
    } else if found.len() == 0 {
        None
    } else {
        Some(found)
    }
}

/// `std::str::from_utf8`: the text whose UTF-8 encoding is `bytes`, when
/// `bytes` is valid UTF-8.
#[verifier::external_body]
pub(crate) fn utf8_text(bytes: &[u8]) -> (text: Option<&str>)
    ensures
        text is Some <==> vstd::utf8::valid_utf8(bytes@),
        text matches Some(t) ==> vstd::utf8::encode_utf8(t@) == bytes@,
{
    std::str::from_utf8(bytes).ok()
}

fn read_u16_at(archive: &[u8], at: usize) -> (value: usize)
    requires
        at + 2 <= archive@.len(),
    ensures
        value == read_u16(archive@, at as int),
{
    archive[at] as usize + 256 * (archive[at + 1] as usize)
}

fn read_u32_at(archive: &[u8], at: usize) -> (value: u32)
    requires
        at + 4 <= archive@.len(),
    ensures
        value == read_u32(archive@, at as int),
{
    archive[at] as u32 + 256 * (archive[at + 1] as u32) + 65536 * (archive[at + 2] as u32) + 16777216 * (archive[at + 3] as u32)
}

pub(crate) fn copy_range(archive: &[u8], start: usize, end: usize) -> (part: Vec<u8>)
    requires
        start <= end <= archive@.len(),
    ensures
        part@ == archive@.subrange(start as int, end as int),
{
    let mut part: Vec<u8> = Vec::new();
    let mut i: usize = start;
    while i < end
        invariant
            start <= i <= end <= archive@.len(),
            part@ == archive@.subrange(start as int, i as int),
        decreases end - i,
    {
        part.push(archive[i]);
        i = i + 1;
        proof {
            assert(part@ =~= archive@.subrange(start as int, i as int));
        }
    }
    part
}

fn name_already_read(found: &Vec<(String, Vec<u8>)>, name: &String) -> (taken: bool)
    ensures
        taken == name_taken(files_view(found@), name@),
{
    let mut j: usize = 0;
    while j < found.len()
        invariant
            j <= found@.len(),
            forall|i: int| 0 <= i < j ==> #[trigger] files_view(found@)[i].0 != name@,
        decreases found@.len() - j,
    {
        proof {
            assert(files_view(found@)[j as int].0 == found@[j as int].0@);
        }
        if crate::identity::same_text(&found[j].0, name) {
            return true;
        }
        j = j + 1;
    }
    false
}

/// Reads the stored members of an archive in archive order.
pub fn stored_archive_members(archive: &[u8]) -> (members: Option<Vec<(String, Vec<u8>)>>)
    ensures
        match members_from(archive@, 0, Seq::empty()) {
            None => members is None,
            Some(expected) => members matches Some(found) && files_view(found@) == expected,
        },
{
    reveal(members_from);
    let mut found: Vec<(String, Vec<u8>)> = Vec::new();
    let mut offset: usize = 0;
    let length = archive.len();
    proof {
        assert(files_view(found@) =~= Seq::<(Seq<char>, Seq<u8>)>::empty());
    }
    while offset <= length && length - offset >= 4 && archive[offset] == 0x50 && archive[offset + 1] == 0x4b
        && archive[offset + 2] == 0x03 && archive[offset + 3] == 0x04
        invariant
            offset <= length,
            length == archive@.len(),
            members_from(archive@, offset as int, files_view(found@)) == members_from(archive@, 0, Seq::empty()),
        decreases length - offset,
    {
        proof {
            reveal(members_from);
            assert(archive@.subrange(offset as int, offset + 4) =~= le32(local_signature()));
        }
        if length - offset < 30 {
            return None;
        }
        let flags = read_u16_at(archive, offset + 6);
        let compression = read_u16_at(archive, offset + 8);
        let size = read_u32_at(archive, offset + 18) as usize;
        let name_len = read_u16_at(archive, offset + 26);
        let extra_len = read_u16_at(archive, offset + 28);
        let expected_crc = read_u32_at(archive, offset + 14);
        let name_start = offset + 30;
        if flags != 0 || compression != 0 {
            return None;
        }
        if length - name_start < name_len || length - name_start - name_len < extra_len {
            return None;
        }
        let name_end = name_start + name_len;
        let content_start = name_end + extra_len;
        if length - content_start < size {
            return None;
        }
        let content_end = content_start + size;
        let name = copy_range(archive, name_start, name_end);
        let text = match utf8_text(name.as_slice()) {
            Some(text) => {
                proof {
                    vstd::utf8::encode_utf8_decode_utf8(text@);
                }
                text.to_owned()
            },
            None => return None,
        };
        let contents = copy_range(archive, content_start, content_end);
        if crc32(contents.as_slice()) != expected_crc {
            return None;
        }
        if name_already_read(&found, &text) {
            return None;
        }
        let ghost before = files_view(found@);
        found.push((text, contents));
        proof {
            assert(files_view(found@) =~= before.push((vstd::utf8::decode_utf8(archive@.subrange(name_start as int, name_end as int)), archive@.subrange(content_start as int, content_end as int))));
        }
        offset = content_end;
    }
    if found.len() == 0 {
        return None;
    }
    Some(found)
}


// ---------------------------------------------------------------------------
// Reading back what was written.
// ---------------------------------------------------------------------------

proof fn lemma_local_header_fields(crc: u32, size: u32, name_len: u16)
    ensures
        local_header(crc, size, name_len).len() == 30,
        local_header(crc, size, name_len).subrange(0, 4) == le32(local_signature()),
        read_u16(local_header(crc, size, name_len), 6) == 0,
        read_u16(local_header(crc, size, name_len), 8) == 0,
        read_u32(local_header(crc, size, name_len), 14) == crc,
        read_u32(local_header(crc, size, name_len), 18) == size,
        read_u16(local_header(crc, size, name_len), 26) == name_len,
        read_u16(local_header(crc, size, name_len), 28) == 0,
{
    let h = local_header(crc, size, name_len);
    lemma_le32_read(crc);
    lemma_le32_read(size);
    lemma_le16_read(name_len);
    lemma_le16_read(0);
    assert(h.subrange(0, 4) =~= le32(local_signature()));
    assert(h[6] == le16(0)[0] && h[7] == le16(0)[1]);
    assert(h[8] == le16(0)[0] && h[9] == le16(0)[1]);
    assert(h[14] == le32(crc)[0] && h[15] == le32(crc)[1] && h[16] == le32(crc)[2] && h[17] == le32(crc)[3]);
    assert(h[18] == le32(size)[0] && h[19] == le32(size)[1] && h[20] == le32(size)[2] && h[21] == le32(size)[3]);
    assert(h[26] == le16(name_len)[0] && h[27] == le16(name_len)[1]);
    assert(h[28] == le16(0)[0] && h[29] == le16(0)[1]);
}

proof fn lemma_local_prefix(files: Seq<(Seq<char>, Seq<u8>)>, k: int, n: int)
    requires
        0 <= k <= n,
    ensures
        local_part(files, k).len() <= local_part(files, n).len(),
        local_part(files, n).subrange(0, local_part(files, k).len() as int) == local_part(files, k),
    decreases n - k,
{
    if k < n {
        lemma_local_prefix(files, k, n - 1);
        let a = local_part(files, k);
        let b = local_part(files, n - 1);
        let c = local_part(files, n);
        assert(c.subrange(0, a.len() as int) =~= b.subrange(0, a.len() as int));
    } else {
        assert(local_part(files, n).subrange(0, local_part(files, n).len() as int) =~= local_part(files, n));
    }
}

proof fn lemma_central_start(files: Seq<(Seq<char>, Seq<u8>)>, n: int)
    requires
        n >= 1,
    ensures
        central_part(files, n).len() >= 4,
        central_part(files, n).subrange(0, 4) == le32(central_signature()),
    decreases n,
{
    if n == 1 {
        let c = central_part(files, 1);
        assert(central_part(files, 0) =~= Seq::<u8>::empty());
        assert(c.subrange(0, 4) =~= le32(central_signature()));
    } else {
        lemma_central_start(files, n - 1);
        let b = central_part(files, n - 1);
        let c = central_part(files, n);
        assert(c.subrange(0, 4) =~= b.subrange(0, 4));
    }
}

/// Member names are pairwise distinct.
pub open spec fn distinct_names(files: Seq<(Seq<char>, Seq<u8>)>) -> bool {
    forall|i: int, j: int| 0 <= i < j < files.len() ==> files[i].0 != files[j].0
}

proof fn lemma_entry_in_archive(files: Seq<(Seq<char>, Seq<u8>)>, k: int)
    requires
        0 <= k < files.len(),
    ensures
        local_part(files, k + 1).len() == local_part(files, k).len() + local_entry(files[k]).len(),
        local_part(files, k + 1).len() <= zip_bytes(files).len(),
        forall|j: int|
            0 <= j < local_entry(files[k]).len() ==> #[trigger] zip_bytes(files)[local_part(files, k).len() + j]
                == local_entry(files[k])[j],
{
    reveal(zip_bytes);
    let n = files.len() as int;
    let p = zip_bytes(files);
    let off = local_part(files, k).len() as int;
    let entry = local_entry(files[k]);
    lemma_local_prefix(files, k + 1, n);
    let l_next = local_part(files, k + 1);
    let l_all = local_part(files, n);
    assert(l_next == local_part(files, k) + entry);
    assert forall|j: int| 0 <= j < entry.len() implies #[trigger] p[off + j] == entry[j] by {
        assert(p[off + j] == l_all[off + j]);
        assert(l_all.subrange(0, l_next.len() as int)[off + j] == l_next[off + j]);
    }
}

proof fn lemma_fields_at(p: Seq<u8>, off: int, h: Seq<u8>)
    requires
        0 <= off,
        h.len() == 30,
        off + 30 <= p.len(),
        forall|j: int| 0 <= j < 30 ==> #[trigger] p[off + j] == h[j],
    ensures
        p.subrange(off, off + 4) == h.subrange(0, 4),
        read_u16(p, off + 6) == read_u16(h, 6),
        read_u16(p, off + 8) == read_u16(h, 8),
        read_u32(p, off + 14) == read_u32(h, 14),
        read_u32(p, off + 18) == read_u32(h, 18),
        read_u16(p, off + 26) == read_u16(h, 26),
        read_u16(p, off + 28) == read_u16(h, 28),
{
    assert(p.subrange(off, off + 4) =~= h.subrange(0, 4)) by {
        assert(p[off + 0] == h[0] && p[off + 1] == h[1] && p[off + 2] == h[2] && p[off + 3] == h[3]);
    }
    assert(p[off + 6] == h[6] && p[off + 7] == h[7]);
    assert(p[off + 8] == h[8] && p[off + 9] == h[9]);
    assert(p[off + 14] == h[14] && p[off + 15] == h[15] && p[off + 16] == h[16] && p[off + 17] == h[17]);
    assert(p[off + 18] == h[18] && p[off + 19] == h[19] && p[off + 20] == h[20] && p[off + 21] == h[21]);
    assert(p[off + 26] == h[26] && p[off + 27] == h[27]);
    assert(p[off + 28] == h[28] && p[off + 29] == h[29]);
}

proof fn lemma_parts_at(p: Seq<u8>, off: int, entry: Seq<u8>, h: Seq<u8>, nb: Seq<u8>, contents: Seq<u8>)
    requires
        0 <= off,
        entry == h + nb + contents,
        h.len() == 30,
        off + entry.len() <= p.len(),
        forall|j: int| 0 <= j < entry.len() ==> #[trigger] p[off + j] == entry[j],
    ensures
        forall|j: int| 0 <= j < 30 ==> #[trigger] p[off + j] == h[j],
        p.subrange(off + 30, off + 30 + nb.len()) == nb,
        p.subrange(off + 30 + nb.len(), off + entry.len()) == contents,
{
    assert forall|j: int| 0 <= j < 30 implies #[trigger] p[off + j] == h[j] by {
        assert(p[off + j] == entry[j]);
    }
    assert(p.subrange(off + 30, off + 30 + nb.len()) =~= nb) by {
        assert forall|j: int| 0 <= j < nb.len() implies p.subrange(off + 30, off + 30 + nb.len())[j] == nb[j] by {
            assert(p[off + (30 + j)] == entry[30 + j]);
        }
    }
    assert(p.subrange(off + 30 + nb.len(), off + entry.len()) =~= contents) by {
        assert forall|j: int| 0 <= j < contents.len() implies p.subrange(off + 30 + nb.len(), off + entry.len())[j] == contents[j] by {
            assert(p[off + (30 + nb.len() + j)] == entry[30 + nb.len() + j]);
        }
    }
}

proof fn lemma_members_step(archive: Seq<u8>, offset: int, found: Seq<(Seq<char>, Seq<u8>)>, name_len: int, size: int)
    requires
        local_signature_at(archive, offset),
        offset + 30 <= archive.len(),
        read_u16(archive, offset + 6) == 0,
        read_u16(archive, offset + 8) == 0,
        read_u16(archive, offset + 28) == 0,
        read_u16(archive, offset + 26) == name_len,
        read_u32(archive, offset + 18) == size,
        offset + 30 + name_len + size <= archive.len(),
        vstd::utf8::valid_utf8(archive.subrange(offset + 30, offset + 30 + name_len)),
        spec_crc32(archive.subrange(offset + 30 + name_len, offset + 30 + name_len + size)) == read_u32(archive, offset + 14),
        !name_taken(found, vstd::utf8::decode_utf8(archive.subrange(offset + 30, offset + 30 + name_len))),
    ensures
        members_from(archive, offset, found) == members_from(
            archive,
            offset + 30 + name_len + size,
            found.push(
                (
                    vstd::utf8::decode_utf8(archive.subrange(offset + 30, offset + 30 + name_len)),
                    archive.subrange(offset + 30 + name_len, offset + 30 + name_len + size),
                ),
            ),
        ),
{
    reveal(members_from);
}

proof fn lemma_members_stop(archive: Seq<u8>, offset: int, found: Seq<(Seq<char>, Seq<u8>)>)
    requires
        !local_signature_at(archive, offset),
        found.len() > 0,
    ensures
        members_from(archive, offset, found) == Some(found),
{
    reveal(members_from);
}

proof fn lemma_read_step(files: Seq<(Seq<char>, Seq<u8>)>, k: int)
    requires
        0 <= k < files.len(),
        zip_fits(files),
        distinct_names(files),
    ensures
        members_from(zip_bytes(files), local_part(files, k).len() as int, files.take(k)) == members_from(
            zip_bytes(files),
            local_part(files, k + 1).len() as int,
            files.take(k + 1),
        ),
{
    let p = zip_bytes(files);
    let off = local_part(files, k).len() as int;
    let file = files[k];
    let entry = local_entry(file);
    let nb = name_bytes(file.0);
    let crc = spec_crc32(file.1);
    assert(local_part(files, k).len() <= u32::MAX);
    assert(nb.len() <= u16::MAX && file.1.len() <= u32::MAX);
    let h = local_header(crc, file.1.len() as u32, nb.len() as u16);
    lemma_local_header_fields(crc, file.1.len() as u32, nb.len() as u16);
    lemma_entry_in_archive(files, k);
    lemma_parts_at(p, off, entry, h, nb, file.1);
    lemma_fields_at(p, off, h);
    vstd::utf8::encode_utf8_valid_utf8(file.0);
    vstd::utf8::encode_utf8_decode_utf8(file.0);
    assert(!name_taken(files.take(k), file.0)) by {
        if name_taken(files.take(k), file.0) {
            let j = choose|j: int| 0 <= j < files.take(k).len() && #[trigger] files.take(k)[j].0 == file.0;
            assert(files[j].0 == files[k].0);
        }
    }
    assert(files.take(k).push(file) =~= files.take(k + 1));
    assert(local_signature_at(p, off));
    lemma_members_step(p, off, files.take(k), nb.len() as int, file.1.len() as int);
}

proof fn lemma_window(a: Seq<u8>, b: Seq<u8>, c: Seq<u8>)
    requires
        b.len() >= 4,
    ensures
        (a + b + c).subrange(a.len() as int, a.len() as int + 4) == b.subrange(0, 4),
{
    assert((a + b + c).subrange(a.len() as int, a.len() as int + 4) =~= b.subrange(0, 4));
}

proof fn lemma_signatures_differ()
    ensures
        le32(central_signature()) != le32(local_signature()),
{
    assert(le32(central_signature())[2] == 1);
    assert(le32(local_signature())[2] == 3);
}

proof fn lemma_read_end(files: Seq<(Seq<char>, Seq<u8>)>)
    requires
        files.len() > 0,
    ensures
        members_from(zip_bytes(files), local_part(files, files.len() as int).len() as int, files) == Some(files),
{
    let n = files.len() as int;
    let locals = local_part(files, n);
    let centrals = central_part(files, n);
    let tail = end_record(n as u16, centrals.len() as u32, locals.len() as u32);
    let off = locals.len() as int;
    lemma_central_start(files, n);
    lemma_signatures_differ();
    assert(zip_bytes(files) == locals + centrals + tail) by {
        reveal(zip_bytes);
    }
    lemma_window(locals, centrals, tail);
    lemma_members_stop(zip_bytes(files), off, files);
}

proof fn lemma_read_from(files: Seq<(Seq<char>, Seq<u8>)>, k: int)
    requires
        0 <= k <= files.len(),
        files.len() > 0,
        zip_fits(files),
        distinct_names(files),
    ensures
        members_from(zip_bytes(files), local_part(files, k).len() as int, files.take(k)) == Some(files),
    decreases files.len() - k,
{
    if k < files.len() {
        lemma_read_step(files, k);
        lemma_read_from(files, k + 1);
    } else {
        assert(files.take(k) =~= files);
        lemma_read_end(files);
    }
}

/// Reading back a written archive yields exactly the members written, in
/// order, whenever there is at least one member, the names are distinct and
/// every field fits its ZIP width.
pub proof fn stored_archive_round_trip(files: Seq<(Seq<char>, Seq<u8>)>)
    requires
        files.len() > 0,
        zip_fits(files),
        distinct_names(files),
    ensures
        members_from(zip_bytes(files), 0, Seq::empty()) == Some(files),
{
    lemma_read_from(files, 0);
    assert(files.take(0) =~= Seq::<(Seq<char>, Seq<u8>)>::empty());
    assert(local_part(files, 0).len() == 0);
}

} // verus!
