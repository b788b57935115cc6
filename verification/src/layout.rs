use vstd::prelude::*;

verus! {

/// The two bytes at `at`, read as a number, low byte first.
pub open spec fn le16(bytes: Seq<u8>, at: int) -> int {
    bytes[at] + 256 * bytes[at + 1]
}

/// The three bytes at `at`, read as a number, low byte first.
pub open spec fn le24(bytes: Seq<u8>, at: int) -> int {
    bytes[at] + 256 * (bytes[at + 1] + 256 * bytes[at + 2])
}

/// The four bytes at `at`, read as a number, low byte first.
pub open spec fn le32(bytes: Seq<u8>, at: int) -> int {
    bytes[at] + 256 * (bytes[at + 1] + 256 * (bytes[at + 2] + 256 * bytes[at + 3]))
}

/// The eight bytes at `at`, read as a number, low byte first.
pub open spec fn le64(bytes: Seq<u8>, at: int) -> int {
    bytes[at] + 256 * (bytes[at + 1] + 256 * (bytes[at + 2] + 256 * (bytes[at + 3] + 256 * (bytes[at
        + 4] + 256 * (bytes[at + 5] + 256 * (bytes[at + 6] + 256 * bytes[at + 7]))))))
}

/// Reads two bytes as a number, low byte first.
pub fn read_le16(bytes: &[u8], at: usize) -> (r: usize)
    requires
        at + 2 <= bytes.len(),
    ensures
        r == le16(bytes@, at as int),
        r <= 0xffff,
{
    let low: usize = bytes[at] as usize;
    let high: usize = bytes[at + 1] as usize;
    low + 256 * high
}

/// Reads three bytes as a number, low byte first.
pub fn read_le24(bytes: &[u8], at: usize) -> (r: usize)
    requires
        at + 3 <= bytes.len(),
    ensures
        r == le24(bytes@, at as int),
        r <= 0xff_ffff,
{
    let low: usize = bytes[at] as usize;
    let mid: usize = bytes[at + 1] as usize;
    let high: usize = bytes[at + 2] as usize;
    low + 256 * (mid + 256 * high)
}

/// Reads four bytes as a number, low byte first.
pub fn read_le32(bytes: &[u8], at: usize) -> (r: u64)
    requires
        at + 4 <= bytes.len(),
    ensures
        r == le32(bytes@, at as int),
        r <= 0xffff_ffff,
{
    let b0: u64 = bytes[at] as u64;
    let b1: u64 = bytes[at + 1] as u64;
    let b2: u64 = bytes[at + 2] as u64;
    let b3: u64 = bytes[at + 3] as u64;
    b0 + 256 * (b1 + 256 * (b2 + 256 * b3))
}

/// Reads eight bytes as a number, low byte first.
pub fn read_le64(bytes: &[u8], at: usize) -> (r: u64)
    requires
        at + 8 <= bytes.len(),
    ensures
        r == le64(bytes@, at as int),
{
    let b0: u64 = bytes[at] as u64;
    let b1: u64 = bytes[at + 1] as u64;
    let b2: u64 = bytes[at + 2] as u64;
    let b3: u64 = bytes[at + 3] as u64;
    let b4: u64 = bytes[at + 4] as u64;
    let b5: u64 = bytes[at + 5] as u64;
    let b6: u64 = bytes[at + 6] as u64;
    let b7: u64 = bytes[at + 7] as u64;
    let t6: u64 = b6 + 256 * b7;
    let t5: u64 = b5 + 256 * t6;
    let t4: u64 = b4 + 256 * t5;
    let t3: u64 = b3 + 256 * t4;
    let t2: u64 = b2 + 256 * t3;
    let t1: u64 = b1 + 256 * t2;
    b0 + 256 * t1
}

/// Whether every data chunk of a framed Snappy stream has room for its
/// checksum. The chunks are met by walking from `from`: each begins with one
/// byte of kind and three of length, and the next begins where that length
/// ends. A data chunk, compressed (kind 0) or not (kind 1), begins with a
/// checksum of four bytes, so a length under four is malformed. The walk
/// ends where less than a chunk header is left, or where a chunk declares
/// more than is left.
pub open spec fn sz_chunks_fit(bytes: Seq<u8>, from: int) -> bool
    decreases bytes.len() - from,
{
    if from < 0 || bytes.len() - from < 4 {
        true
    } else {
        let kind = bytes[from];
        let len = le24(bytes, from + 1);
        if (kind == 0 || kind == 1) && len < 4 {
            false
        } else if len > bytes.len() - from - 4 {
            true
        } else {
            sz_chunks_fit(bytes, from + 4 + len)
        }
    }
}

/// Walks the chunk headers of a framed Snappy stream and tells whether every
/// data chunk has room for its checksum.
pub fn sz_scan(bytes: &[u8]) -> (ok: bool)
    ensures
        ok == sz_chunks_fit(bytes@, 0),
{
    let n: usize = bytes.len();
    let mut at: usize = 0;
    loop
        invariant
            at <= n,
            n == bytes.len(),
            sz_chunks_fit(bytes@, 0) == sz_chunks_fit(bytes@, at as int),
        decreases n - at,
    {
        if n - at < 4 {
            return true;
        }
        let kind: u8 = bytes[at];
        let len: usize = read_le24(bytes, at + 1);
        if (kind == 0 || kind == 1) && len < 4 {
            return false;
        }
        if len > n - at - 4 {
            return true;
        }
        at = at + 4 + len;
    }
}

/// The signature of the end record of a zip archive.
pub const ZIP_END: u64 = 0x0605_4b50;

/// The signature of the locator of a Zip64 end record.
pub const ZIP_LOCATOR64: u64 = 0x0706_4b50;

/// The signature of a Zip64 end record.
pub const ZIP_END64: u64 = 0x0606_4b50;

/// The signature of the header of a central directory entry.
pub const ZIP_ENTRY: u64 = 0x0201_4b50;

/// The value of a field of 32 bits that sends the reader to a Zip64 block.
pub const ZIP_WIDE: u64 = 0xffff_ffff;

/// Where the end record of a zip archive stands: the last position from
/// `from` down to `low` that holds its signature, or -1.
pub open spec fn zip_find_end(bytes: Seq<u8>, from: int, low: int) -> int
    decreases from - low + 1,
{
    if from < low || from < 0 || from + 4 > bytes.len() {
        -1
    } else if le32(bytes, from) == ZIP_END {
        from
    } else {
        zip_find_end(bytes, from - 1, low)
    }
}

/// Where the Zip64 end record stands: the first position from `from` up to
/// `upto` that holds its signature, or -1.
pub open spec fn zip_find_end64(bytes: Seq<u8>, from: int, upto: int) -> int
    decreases upto - from + 1,
{
    if from > upto || from < 0 || from + 4 > bytes.len() {
        -1
    } else if le32(bytes, from) == ZIP_END64 {
        from
    } else {
        zip_find_end64(bytes, from + 1, upto)
    }
}

/// One field of a Zip64 block: a field whose 32 bits are all ones takes its
/// value from the next eight bytes of the block. The result is the value and
/// where reading goes on, or `None` where the extra field ends before the
/// eight bytes do.
pub open spec fn zip_wide(bytes: Seq<u8>, at: int, end: int, narrow: int) -> Option<(int, int)> {
    if narrow != ZIP_WIDE {
        Some((at, narrow))
    } else if at + 8 <= end {
        Some((at + 8, le64(bytes, at)))
    } else {
        None
    }
}

/// The offset that a central directory entry declares, after the blocks of
/// its extra field from `at` to `end` are read. Each block begins with two
/// bytes of kind and two of length. A block of kind 1 is a Zip64 block: it
/// gives, in this order and each only where the field read so far is all
/// ones, the size, the compressed size and the offset. Reading stops where
/// the extra field ends within a block.
pub open spec fn zip_entry_offset(
    bytes: Seq<u8>,
    at: int,
    end: int,
    size: int,
    packed: int,
    offset: int,
) -> int
    decreases end - at,
{
    if at < 0 || at + 4 > end || end > bytes.len() {
        offset
    } else {
        let body = at + 4;
        let after = body + le16(bytes, at + 2);
        if le16(bytes, at) != 1 {
            if after + 4 > end {
                offset
            } else {
                zip_entry_offset(bytes, after, end, size, packed, offset)
            }
        } else {
            match zip_wide(bytes, body, end, size) {
                None => offset,
                Some((at1, size1)) => match zip_wide(bytes, at1, end, packed) {
                    None => offset,
                    Some((at2, packed1)) => match zip_wide(bytes, at2, end, offset) {
                        None => offset,
                        Some((at3, offset1)) => {
                            let next = if after > at3 {
                                after
                            } else {
                                at3
                            };
                            if next + 4 > end {
                                offset1
                            } else {
                                zip_entry_offset(bytes, next, end, size1, packed1, offset1)
                            }
                        },
                    },
                },
            }
        }
    }
}

/// Whether, of the `count` central directory entries that are read one
/// after the other from `at`, none declares an offset that passes 64 bits
/// when the bytes `before` the archive are added. Reading ends at the first
/// entry that is not whole or does not begin with the signature: what
/// follows is not read. A header takes 46 bytes, with the compressed size at
/// 20, the size at 24, the lengths of name, extra field and comment at 28,
/// 30 and 32, and the offset at 42; name, extra field and comment follow.
pub open spec fn zip_entries_fit(bytes: Seq<u8>, at: int, count: nat, before: int) -> bool
    decreases count,
{
    if count == 0 {
        true
    } else if at < 0 || at + 46 > bytes.len() || le32(bytes, at) != ZIP_ENTRY {
        true
    } else {
        let start = at + 46 + le16(bytes, at + 28);
        let end = start + le16(bytes, at + 30);
        let next = end + le16(bytes, at + 32);
        if next > bytes.len() {
            true
        } else if zip_entry_offset(
            bytes,
            start,
            end,
            le32(bytes, at + 24),
            le32(bytes, at + 20),
            le32(bytes, at + 42),
        ) + before > u64::MAX {
            false
        } else {
            zip_entries_fit(bytes, next, (count - 1) as nat, before)
        }
    }
}

/// The same for an archive without a Zip64 end record, whose end record
/// stands at `end_at`. The bytes before the archive are what is left of
/// `end_at` when the size of the directory (at 12) and its offset (at 16)
/// are taken off; the number of entries stands at 8.
pub open spec fn zip_plain_fits(bytes: Seq<u8>, end_at: int) -> bool {
    let before = end_at - le32(bytes, end_at + 12) - le32(bytes, end_at + 16);
    before < 0 || zip_entries_fit(
        bytes,
        end_at - le32(bytes, end_at + 12),
        le16(bytes, end_at + 8) as nat,
        before,
    )
}

/// The same for an archive whose Zip64 locator stands at `locator`. The
/// locator gives, at 8, where the Zip64 end record was written; the record
/// is looked for from there up to 60 bytes before the end record, and the
/// bytes before the archive are as many as it was found later. In the
/// record the two disk numbers stand at 16 and 20, the number of entries at
/// 32 and the offset of the directory at 48.
pub open spec fn zip_wide_fits(bytes: Seq<u8>, end_at: int, locator: int) -> bool {
    let nominal = le64(bytes, locator + 8);
    let found = zip_find_end64(bytes, nominal, end_at - 60);
    let before = found - nominal;
    let directory = le64(bytes, found + 48) + before;
    ||| le16(bytes, end_at + 4) != le32(bytes, locator + 4)
    ||| found < 0
    ||| le32(bytes, found + 16) != le32(bytes, found + 20)
    ||| directory > u64::MAX
    ||| zip_entries_fit(bytes, directory, (le64(bytes, found + 32) as usize) as nat, before)
}

/// Whether no central directory entry that is read when the archive is
/// opened declares an offset that passes 64 bits when the bytes before the
/// archive are added. The end record is the last one within 65535 bytes of
/// where it can stand latest; its two disk numbers stand at 4 and 6 and the
/// length of its comment at 20. The Zip64 locator, if there is one, stands
/// 20 bytes before where an end record with that comment would begin at the
/// very end. Where the archive is refused before any entry is read, nothing
/// is asked.
pub open spec fn zip_offsets_fit(bytes: Seq<u8>) -> bool {
    let len = bytes.len() as int;
    let end_at = zip_find_end(bytes, len - 22, if len > 22 + 65535 {
        len - 22 - 65535
    } else {
        0
    });
    let locator = len - 42 - le16(bytes, end_at + 20);
    ||| end_at < 0
    ||| end_at + 22 + le16(bytes, end_at + 20) > len
    ||| le16(bytes, end_at + 4) != le16(bytes, end_at + 6)
    ||| if locator < 0 || le32(bytes, locator) != ZIP_LOCATOR64 {
        zip_plain_fits(bytes, end_at)
    } else {
        zip_wide_fits(bytes, end_at, locator)
    }
}

/// Finds the end record of a zip archive.
fn find_end(bytes: &[u8]) -> (r: Option<usize>)
    requires
        bytes.len() >= 22,
    ensures
        match r {
            Some(at) => at + 22 <= bytes.len() && at == zip_find_end(
                bytes@,
                bytes.len() - 22,
                if bytes.len() > 22 + 65535 {
                    bytes.len() - 22 - 65535
                } else {
                    0
                },
            ),
            None => zip_find_end(
                bytes@,
                bytes.len() - 22,
                if bytes.len() > 22 + 65535 {
                    bytes.len() - 22 - 65535
                } else {
                    0
                },
            ) == -1,
        },
{
    let n: usize = bytes.len();
    let low: usize = if n > 22 + 65535 {
        n - 22 - 65535
    } else {
        0
    };
    let mut at: usize = n - 22;
    loop
        invariant
            low <= at <= n - 22,
            n == bytes.len(),
            n >= 22,
            low == if n > 22 + 65535 {
                n - 22 - 65535
            } else {
                0
            },
            zip_find_end(bytes@, n - 22, low as int) == zip_find_end(bytes@, at as int, low as int),
        decreases at,
    {
        if read_le32(bytes, at) == ZIP_END {
            return Some(at);
        }
        if at == low {
            assert(zip_find_end(bytes@, at - 1, low as int) == -1);
            return None;
        }
        at -= 1;
    }
}

/// Finds the Zip64 end record of a zip archive.
fn find_end64(bytes: &[u8], from: u64, upto: usize) -> (r: Option<usize>)
    requires
        upto + 4 <= bytes.len(),
    ensures
        match r {
            Some(at) => from <= at <= upto && at == zip_find_end64(
                bytes@,
                from as int,
                upto as int,
            ),
            None => zip_find_end64(bytes@, from as int, upto as int) == -1,
        },
{
    if from > upto as u64 {
        return None;
    }
    let mut at: usize = from as usize;
    loop
        invariant
            from <= at <= upto,
            upto + 4 <= bytes.len(),
            zip_find_end64(bytes@, from as int, upto as int) == zip_find_end64(
                bytes@,
                at as int,
                upto as int,
            ),
        decreases upto - at,
    {
        if read_le32(bytes, at) == ZIP_END64 {
            return Some(at);
        }
        if at == upto {
            assert(zip_find_end64(bytes@, at + 1, upto as int) == -1);
            return None;
        }
        at += 1;
    }
}

/// Reads one field of a Zip64 block.
fn wide(bytes: &[u8], at: usize, end: usize, narrow: u64) -> (r: Option<(usize, u64)>)
    requires
        at <= end <= bytes.len(),
    ensures
        match r {
            Some((next, value)) => at <= next <= end && zip_wide(
                bytes@,
                at as int,
                end as int,
                narrow as int,
            ) == Some((next as int, value as int)),
            None => zip_wide(bytes@, at as int, end as int, narrow as int) is None,
        },
{
    if narrow != ZIP_WIDE {
        Some((at, narrow))
    } else if end - at >= 8 {
        Some((at + 8, read_le64(bytes, at)))
    } else {
        None
    }
}

/// The offset that a central directory entry declares, after the blocks of
/// its extra field are read.
fn entry_offset(
    bytes: &[u8],
    start: usize,
    end: usize,
    size0: u64,
    packed0: u64,
    offset0: u64,
) -> (r: u64)
    requires
        start <= end <= bytes.len(),
    ensures
        r == zip_entry_offset(
            bytes@,
            start as int,
            end as int,
            size0 as int,
            packed0 as int,
            offset0 as int,
        ),
{
    let mut at: usize = start;
    let mut size: u64 = size0;
    let mut packed: u64 = packed0;
    let mut offset: u64 = offset0;
    loop
        invariant
            at <= end <= bytes.len(),
            zip_entry_offset(
                bytes@,
                start as int,
                end as int,
                size0 as int,
                packed0 as int,
                offset0 as int,
            ) == zip_entry_offset(
                bytes@,
                at as int,
                end as int,
                size as int,
                packed as int,
                offset as int,
            ),
        decreases end - at,
    {
        if end - at < 4 {
            return offset;
        }
        let kind: usize = read_le16(bytes, at);
        let len: usize = read_le16(bytes, at + 2);
        let body: usize = at + 4;
        let mut next: usize = body;
        if kind == 1 {
            let (at1, size1) = match wide(bytes, body, end, size) {
                Some(field) => field,
                None => {
                    return offset;
                },
            };
            let (at2, packed1) = match wide(bytes, at1, end, packed) {
                Some(field) => field,
                None => {
                    return offset;
                },
            };
            let (at3, offset1) = match wide(bytes, at2, end, offset) {
                Some(field) => field,
                None => {
                    return offset;
                },
            };
            size = size1;
            packed = packed1;
            offset = offset1;
            next = at3;
        }
        if len >= end - body {
            return offset;
        }
        if body + len > next {
            next = body + len;
        }
        if end - next < 4 {
            return offset;
        }
        at = next;
    }
}

/// Whether none of the entries that are read from `at` declares an offset
/// too large.
fn entries_fit(bytes: &[u8], from: usize, count: usize, before: u64) -> (ok: bool)
    requires
        from <= bytes.len(),
    ensures
        ok == zip_entries_fit(bytes@, from as int, count as nat, before as int),
{
    let n: usize = bytes.len();
    let mut at: usize = from;
    let mut left: usize = count;
    while left > 0
        invariant
            at <= n,
            n == bytes.len(),
            zip_entries_fit(bytes@, from as int, count as nat, before as int) == zip_entries_fit(
                bytes@,
                at as int,
                left as nat,
                before as int,
            ),
        decreases left,
    {
        if n - at < 46 {
            return true;
        }
        if read_le32(bytes, at) != ZIP_ENTRY {
            return true;
        }
        let name: usize = read_le16(bytes, at + 28);
        let extra: usize = read_le16(bytes, at + 30);
        let comment: usize = read_le16(bytes, at + 32);
        let room: usize = n - at - 46;
        if name > room || extra > room - name || comment > room - name - extra {
            return true;
        }
        let start: usize = at + 46 + name;
        let end: usize = start + extra;
        let declared: u64 = entry_offset(
            bytes,
            start,
            end,
            read_le32(bytes, at + 24),
            read_le32(bytes, at + 20),
            read_le32(bytes, at + 42),
        );
        if declared > u64::MAX - before {
            return false;
        }
        at = end + comment;
        left -= 1;
    }
    true
}

/// Tells whether no central directory entry that is read when the archive
/// is opened declares an offset too large.
pub fn zip_scan(bytes: &[u8]) -> (ok: bool)
    ensures
        ok == zip_offsets_fit(bytes@),
{
    let n: usize = bytes.len();
    if n < 22 {
        return true;
    }
    let end_at: usize = match find_end(bytes) {
        Some(at) => at,
        None => {
            return true;
        },
    };
    let comment: usize = read_le16(bytes, end_at + 20);
    if comment > n - end_at - 22 {
        return true;
    }
    if read_le16(bytes, end_at + 4) != read_le16(bytes, end_at + 6) {
        return true;
    }
    if n - comment >= 42 && read_le32(bytes, n - 42 - comment) == ZIP_LOCATOR64 {
        let locator: usize = n - 42 - comment;
        if read_le16(bytes, end_at + 4) as u64 != read_le32(bytes, locator + 4) {
            return true;
        }
        if end_at < 60 {
            return true;
        }
        let nominal: u64 = read_le64(bytes, locator + 8);
        let found: usize = match find_end64(bytes, nominal, end_at - 60) {
            Some(at) => at,
            None => {
                return true;
            },
        };
        if read_le32(bytes, found + 16) != read_le32(bytes, found + 20) {
            return true;
        }
        let before: u64 = found as u64 - nominal;
        let declared: u64 = read_le64(bytes, found + 48);
        if declared > u64::MAX - before {
            return true;
        }
        let directory: u64 = declared + before;
        let files: u64 = read_le64(bytes, found + 32);
        let count: usize = #[verifier::truncate]
        (files as usize);
        if directory > n as u64 {
            return true;
        }
        entries_fit(bytes, directory as usize, count, before)
    } else {
        let size: u64 = read_le32(bytes, end_at + 12);
        let declared: u64 = read_le32(bytes, end_at + 16);
        let end64: u64 = end_at as u64;
        if size > end64 || declared > end64 - size {
            return true;
        }
        let before: u64 = end64 - size - declared;
        entries_fit(bytes, end_at - size as usize, read_le16(bytes, end_at + 8), before)
    }
}

} // verus!
