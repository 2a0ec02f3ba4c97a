//! Locating the framebuffer of the compositor process. The newer
//! hardware generation exposes it at the end of a GPU buffer mapping,
//! behind a chain of length-prefixed records that is an empirically
//! reverse-engineered layout, not a documented interface: every
//! assumption of the walk is an explicit precondition here, and a
//! violation surfaces as `CorruptLayout`, never a crash or a stuck
//! loop. The caller reads process memory and the maps listing; all
//! decisions about what was read are made here.

use vstd::prelude::*;

use crate::errors::Error;
use crate::strutil;

verus! {

/// The number that four little-endian bytes denote.
pub open spec fn sp_le32(b: Seq<u8>) -> int
    recommends
        b.len() >= 4,
{
    b[0] as int + 256 * (b[1] as int + 256 * (b[2] as int + 256 * (b[3] as int)))
}

/// Decode a little-endian 32-bit length from the first four bytes of a
/// record header.
pub fn le32(b: &[u8]) -> (r: u32)
    requires
        b@.len() >= 4,
    ensures
        r as int == sp_le32(b@),
{
    b[0] as u32 + (b[1] as u32) * 256 + (b[2] as u32) * 65536 + (b[3] as u32) * 16777216
}

/// Progress of the record-chain walk: the accumulated advance past the
/// mapping end, and the length decoded from the current record.
#[derive(Debug, Clone, Copy, PartialEq, Eq, Structural)]
pub struct ChainState {
    pub offset: u64,
    pub length: u64,
}

impl ChainState {
    /// Lengths are decoded from 32 bits and never fall below the
    /// record overhead of two bytes.
    pub open spec fn wf(self) -> bool {
        2 <= self.length <= u32::MAX
    }

    /// The walk starts with no advance and the smallest legal length,
    /// so that the first step reads at the mapping end itself.
    pub fn start() -> (r: ChainState)
        ensures
            r.offset == 0 && r.length == 2,
            r.wf(),
    {
        ChainState { offset: 0, length: 2 }
    }

    /// The walk is done once the decoded length covers a whole frame.
    pub fn needs_more(&self, frame_size: u64) -> (r: bool)
        ensures
            r == (self.length < frame_size),
    {
        self.length < frame_size
    }

    /// Where the next 8-byte record header lies, relative to the
    /// mapping end.
    pub fn header_offset(&self) -> (r: u64)
        requires
            self.wf(),
            self.offset + self.length + 6 <= u64::MAX,
        ensures
            r == self.offset + self.length - 2 + 8,
    {
        self.offset + self.length - 2 + 8
    }

    /// Advance by the current record and decode the next length. A
    /// length below the record overhead violates the layout and is
    /// reported, never followed.
    pub fn step(&self, header: &[u8]) -> (r: Result<ChainState, Error>)
        requires
            self.wf(),
            header@.len() >= 4,
            self.offset + self.length + 6 <= u64::MAX,
        ensures
            match r {
                Ok(next) => sp_le32(header@) >= 2 && next.offset == self.offset + self.length - 2
                    && next.length == sp_le32(header@) && next.wf(),
                Err(e) => e == Error::CorruptLayout && sp_le32(header@) < 2,
            },
    {
        let length = le32(header) as u64;
        if length < 2 {
            return Err(Error::CorruptLayout);
        }
        Ok(ChainState { offset: self.offset + self.length - 2, length })
    }
}

/// What the chain walk yields over a given record-header sequence:
/// the total advance past the mapping end, or nothing when a record
/// is malformed or the chain ends before covering a frame.
pub open spec fn sp_chain_walk(
    headers: Seq<Seq<u8>>,
    frame_size: int,
    offset: int,
    length: int,
) -> Option<int>
    decreases headers.len(),
{
    if length >= frame_size {
        Some(offset)
    } else if headers.len() == 0 {
        None
    } else if sp_le32(headers[0]) < 2 {
        None
    } else {
        sp_chain_walk(headers.drop_first(), frame_size, offset + length - 2, sp_le32(headers[0]))
    }
}

/// Replay the record-chain walk over headers read in encounter order:
/// starting at the mapping end, each step advances by the previous
/// record length less two and decodes the next length, until the
/// decoded length covers a whole frame. The result is the total
/// advance; a record length below two, or a chain that ends too
/// early, is a corrupt layout.
#[verifier::loop_isolation(false)]
pub fn chain_walk(headers: &Vec<Vec<u8>>, frame_size: u64) -> (r: Result<u64, Error>)
    requires
        forall|i: int| 0 <= i < headers@.len() ==> (#[trigger] headers@[i])@.len() >= 4,
        headers@.len() <= 0x7fff_ffff,
    ensures
        match r {
            Ok(v) => sp_chain_walk(
                headers@.map_values(|h: Vec<u8>| h@),
                frame_size as int,
                0,
                2,
            ) == Some(v as int),
            Err(e) => e == Error::CorruptLayout && sp_chain_walk(
                headers@.map_values(|h: Vec<u8>| h@),
                frame_size as int,
                0,
                2,
            ) is None,
        },
{
    let ghost all = headers@.map_values(|h: Vec<u8>| h@);
    proof {
        assert(all.skip(0) =~= all);
    }
    let mut st = ChainState::start();
    let mut i: usize = 0;
    while st.needs_more(frame_size)
        invariant
            0 <= i <= headers@.len(),
            st.wf(),
            st.offset <= i * 0x1_0000_0000,
            sp_chain_walk(all.skip(i as int), frame_size as int, st.offset as int, st.length as int)
                == sp_chain_walk(all, frame_size as int, 0, 2),
        decreases headers@.len() - i,
    {
        if i >= headers.len() {
            return Err(Error::CorruptLayout);
        }
        proof {
            assert(all.skip(i as int).drop_first() =~= all.skip(i + 1));
            assert(all[i as int] == headers@[i as int]@);
            assert(i as int * 0x1_0000_0000 + 0x1_0000_0000 <= 0x8000_0000 * 0x1_0000_0000)
                by (nonlinear_arith)
                requires
                    i as int <= 0x7fff_ffff,
            ;
        }
        let header = &headers[i];
        match st.step(header.as_slice()) {
            Ok(next) => {
                st = next;
                i += 1;
                proof {
                    assert(st.offset <= i as int * 0x1_0000_0000) by (nonlinear_arith)
                        requires
                            st.offset <= (i - 1) * 0x1_0000_0000 + 0x1_0000_0000,
                    ;
                }
            },
            Err(e) => {
                return Err(e);
            },
        }
    }
    Ok(st.offset)
}

/// Where the older generation's framebuffer lies, from its maps
/// listing: the start address of the mapping listed right after the
/// one backing the frame-buffer device node, plus a fixed header
/// offset of seven bytes.
pub open spec fn sp_rm2_offset(s: Seq<char>) -> Option<int> {
    match strutil::sp_find(s, "/dev/fb0"@, 0) {
        None => None,
        Some(p) => {
            let e = strutil::sp_line_end(s, p);
            let a2 = if e >= s.len() {
                strutil::sp_line_start(s, p)
            } else {
                e + 1
            };
            let e2 = if e >= s.len() {
                e
            } else {
                strutil::sp_line_end(s, e + 1)
            };
            let line = s.subrange(a2, e2);
            let pre_end = match strutil::sp_find_char(line, '-', 0) {
                Some(d) => d,
                None => line.len() as int,
            };
            let prefix = line.subrange(0, pre_end);
            if prefix.len() > 0 && strutil::sp_all_hex_digits(prefix) && strutil::sp_hex_val(prefix)
                + 7 <= u64::MAX {
                Some(strutil::sp_hex_val(prefix) + 7)
            } else {
                None
            }
        },
    }
}

/// Resolve the older generation's framebuffer address from the
/// compositor's maps listing. The mapping entry for the frame-buffer
/// device node is found first; the address is the start of the entry
/// on the following line (or of the entry's own line when it is the
/// last), plus a fixed seven-byte header offset.
pub fn rm2_framebuffer_offset(maps: &str) -> (r: Result<u64, Error>)
    ensures
        match r {
            Ok(v) => sp_rm2_offset(maps@) == Some(v as int),
            Err(e) => e == Error::DeviceNotFound && sp_rm2_offset(maps@) is None,
        },
{
    let n = maps.unicode_len();
    let p = match strutil::find_from(maps, "/dev/fb0", 0) {
        Some(p) => p,
        None => {
            return Err(Error::DeviceNotFound);
        },
    };
    proof {
        strutil::lemma_find_char_props(maps@, '\n', p as int);
    }
    let e = match strutil::find_char(maps, '\n', p) {
        Some(i) => i,
        None => n,
    };
    let (a2, e2): (usize, usize) = if e >= n {
        proof {
            lemma_rfind_char_le(maps@, '\n', p as int - 1);
        }
        let a = if p == 0 {
            0
        } else {
            match strutil::rfind_char(maps, '\n', p - 1) {
                Some(i) => i + 1,
                None => 0,
            }
        };
        (a, e)
    } else {
        proof {
            strutil::lemma_find_char_props(maps@, '\n', e + 1);
        }
        let e2 = match strutil::find_char(maps, '\n', e + 1) {
            Some(i) => i,
            None => n,
        };
        (e + 1, e2)
    };
    let line = maps.substring_char(a2, e2);
    let pre_end = match strutil::find_char(line, '-', 0) {
        Some(d) => d,
        None => line.unicode_len(),
    };
    proof {
        strutil::lemma_find_char_props(line@, '-', 0);
    }
    let prefix = line.substring_char(0, pre_end);
    match strutil::parse_hex_u64(prefix) {
        Some(v) => {
            if v <= u64::MAX - 7 {
                Ok(v + 7)
            } else {
                Err(Error::DeviceNotFound)
            }
        },
        None => Err(Error::DeviceNotFound),
    }
}

/// A backward character search lands at or before where it started.
proof fn lemma_rfind_char_le(s: Seq<char>, c: char, from: int)
    ensures
        match strutil::sp_rfind_char(s, c, from) {
            Some(i) => 0 <= i <= from,
            None => true,
        },
    decreases from + 1,
{
    if from < 0 || from >= s.len() {
    } else if s[from] == c {
    } else {
        lemma_rfind_char_le(s, c, from - 1);
    }
}

/// End address of the GPU buffer mapping, from the newer generation's
/// maps listing: in the last line naming the GPU buffer device node,
/// the first whitespace-separated field is `start-end`; the value is
/// `end`.
pub open spec fn sp_gpu_mapping_end(s: Seq<char>) -> Option<int> {
    match strutil::sp_rfind(s, "/dev/dri/card0"@, s.len() as int - 1) {
        None => None,
        Some(q) => {
            let a = strutil::sp_line_start(s, q);
            let e = strutil::sp_line_end(s, q);
            let line = s.subrange(a, e);
            let t = match strutil::sp_find_char(line, ' ', 0) {
                Some(i) => i,
                None => line.len() as int,
            };
            let tok = line.subrange(0, t);
            match strutil::sp_find_char(tok, '-', 0) {
                None => None,
                Some(d) => {
                    if strutil::sp_find_char(tok, '-', d + 1) is Some {
                        None
                    } else {
                        let hex = tok.subrange(d + 1, tok.len() as int);
                        if hex.len() > 0 && strutil::sp_all_hex_digits(hex) && strutil::sp_hex_val(
                            hex,
                        ) <= u64::MAX {
                            Some(strutil::sp_hex_val(hex))
                        } else {
                            None
                        }
                    }
                },
            }
        },
    }
}

/// Resolve the end address of the GPU buffer mapping from the
/// compositor's maps listing: the record chain of the newer
/// generation's framebuffer is walked from there.
pub fn gpu_mapping_end(maps: &str) -> (r: Result<u64, Error>)
    ensures
        match r {
            Ok(v) => sp_gpu_mapping_end(maps@) == Some(v as int),
            Err(e) => e == Error::DeviceNotFound && sp_gpu_mapping_end(maps@) is None,
        },
{
    let n = maps.unicode_len();
    if n == 0 {
        return Err(Error::DeviceNotFound);
    }
    let q = match strutil::rfind_from(maps, "/dev/dri/card0", n - 1) {
        Some(q) => q,
        None => {
            return Err(Error::DeviceNotFound);
        },
    };
    proof {
        lemma_rfind_le(maps@, "/dev/dri/card0"@, n - 1);
        lemma_rfind_char_le(maps@, '\n', q as int - 1);
        strutil::lemma_find_char_props(maps@, '\n', q as int);
    }
    let a = if q == 0 {
        0
    } else {
        match strutil::rfind_char(maps, '\n', q - 1) {
            Some(i) => i + 1,
            None => 0,
        }
    };
    let e = match strutil::find_char(maps, '\n', q) {
        Some(i) => i,
        None => n,
    };
    let line = maps.substring_char(a, e);
    proof {
        strutil::lemma_find_char_props(line@, ' ', 0);
    }
    let t = match strutil::find_char(line, ' ', 0) {
        Some(i) => i,
        None => line.unicode_len(),
    };
    let tok = line.substring_char(0, t);
    proof {
        strutil::lemma_find_char_props(tok@, '-', 0);
    }
    let d = match strutil::find_char(tok, '-', 0) {
        Some(d) => d,
        None => {
            return Err(Error::DeviceNotFound);
        },
    };
    if let Some(_) = strutil::find_char(tok, '-', d + 1) {
        return Err(Error::DeviceNotFound);
    }
    let hex = tok.substring_char(d + 1, tok.unicode_len());
    match strutil::parse_hex_u64(hex) {
        Some(v) => Ok(v),
        None => Err(Error::DeviceNotFound),
    }
}

/// A backward substring search lands at or before where it started.
proof fn lemma_rfind_le(s: Seq<char>, pat: Seq<char>, from: int)
    ensures
        match strutil::sp_rfind(s, pat, from) {
            Some(i) => 0 <= i <= from,
            None => true,
        },
    decreases from + 1,
{
    if from < 0 || from >= s.len() {
    } else if strutil::sp_matches_at(s, pat, from) {
    } else {
        lemma_rfind_le(s, pat, from - 1);
    }
}

} // verus!
