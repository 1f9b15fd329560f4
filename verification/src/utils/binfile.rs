//! Layout of the binary results file of the reference hydraulic engine.
//!
//! The file is a prolog with network metadata and the null-padded entity
//! names, an energy block, one block of little-endian `f32` words per
//! reported period, and an epilog that ends in a magic number.  The
//! library verifies all of the index arithmetic — which 32-bit word of
//! the file is which figure — and the decoding of the fixed-width names;
//! reading the file and turning words into floats stays with the caller.

use vstd::prelude::*;
use vstd::bytes::u32_from_le_bytes;
use vstd::bytes::spec_u32_from_le_bytes;
use vstd::slice::slice_index_get;
use vstd::slice::slice_subrange;

verus! {

/// The magic number that closes a well-formed results file.
pub const MAGIC_NUMBER: u32 = 516114521;

/// An ASCII blank: space, tab, carriage return or line feed.
pub open spec fn is_blank_byte(b: u8) -> bool {
    b == 32 || b == 9 || b == 13 || b == 10
}

/// Index of the first zero byte, or the length when none occurs.
pub open spec fn first_zero(s: Seq<u8>) -> int
    decreases s.len(),
{
    if s.len() == 0 {
        0
    } else if s[0] == 0 {
        0
    } else {
        1 + first_zero(s.drop_first())
    }
}

/// `first_zero` points at the first zero byte: in range, hitting zero
/// when one exists, with only nonzero bytes before it.
pub proof fn lemma_first_zero(s: Seq<u8>)
    ensures
        0 <= first_zero(s) <= s.len(),
        first_zero(s) < s.len() ==> s[first_zero(s)] == 0,
        forall|j: int| 0 <= j < first_zero(s) ==> s[j] != 0,
    decreases s.len(),
{
    if s.len() > 0 && s[0] != 0 {
        let fz = first_zero(s);
        lemma_first_zero(s.drop_first());
        if fz < s.len() {
            assert(s.drop_first()[fz - 1] == s[fz]);
        }
        assert forall|j: int| 0 <= j < fz implies s[j] != 0 by {
            if j > 0 {
                assert(s.drop_first()[j - 1] == s[j]);
            }
        }
    }
}

/// Length of the sequence once trailing blanks are dropped.
pub open spec fn trimmed_len(s: Seq<u8>) -> int
    decreases s.len(),
{
    if s.len() == 0 {
        0
    } else if is_blank_byte(s.last()) {
        trimmed_len(s.drop_last())
    } else {
        s.len() as int
    }
}

/// Exec test for an ASCII blank.
fn is_blank(b: u8) -> (r: bool)
    ensures
        r == is_blank_byte(b),
{
    b == 32 || b == 9 || b == 13 || b == 10
}

/// Relies on `String::from_utf8_lossy`: ASCII bytes are valid UTF-8 and
/// decode each to the character of the same code.
#[verifier::external_body]
fn bytes_to_string(bytes: &[u8]) -> (r: String)
    ensures
        (forall|i: int| 0 <= i < bytes@.len() ==> bytes@[i] < 128) ==> r@ == bytes@.map_values(
            |b: u8| b as char,
        ),
{
    String::from_utf8_lossy(bytes).into_owned()
}

/// Decode one fixed-width name field: the bytes before the first zero,
/// with trailing blanks dropped.  For the ASCII names the format
/// prescribes, the result reads exactly those bytes.
pub fn read_fixed_string(bytes: &[u8]) -> (r: String)
    ensures
        ({
            let name = bytes@.take(first_zero(bytes@)).take(
                trimmed_len(bytes@.take(first_zero(bytes@))),
            );
            (forall|i: int| 0 <= i < name.len() ==> name[i] < 128) ==> r@ == name.map_values(
                |b: u8| b as char,
            )
        }),
{
    proof {
        lemma_first_zero(bytes@);
    }
    let n = bytes.len();
    let mut end: usize = 0;
    while end < n && *slice_index_get(bytes, end) != 0
        invariant
            n == bytes@.len(),
            0 <= end <= n,
            forall|j: int| 0 <= j < end ==> bytes@[j] != 0,
        decreases n - end,
    {
        end += 1;
    }
    proof {
        // Both scans stop at the first zero, so they agree.
        assert(end == first_zero(bytes@));
    }
    let ghost t = bytes@.take(end as int);
    proof {
        assert(t.take(end as int) =~= t);
    }
    let mut e2: usize = end;
    while e2 > 0 && is_blank(*slice_index_get(bytes, e2 - 1))
        invariant
            end <= bytes@.len(),
            t == bytes@.take(end as int),
            0 <= e2 <= end,
            trimmed_len(t.take(e2 as int)) == trimmed_len(t),
        decreases e2,
    {
        proof {
            assert(t.take(e2 as int).drop_last() =~= t.take(e2 - 1));
            assert(t.take(e2 as int).last() == bytes@[e2 - 1]);
        }
        e2 -= 1;
    }
    proof {
        assert(t.take(e2 as int) =~= bytes@.take(end as int).take(e2 as int));
        if e2 > 0 {
            assert(t.take(e2 as int).last() == bytes@[e2 - 1]);
        }
        assert(trimmed_len(t.take(e2 as int)) == e2);
    }
    let name = slice_subrange(bytes, 0, e2);
    proof {
        assert(name@ =~= t.take(e2 as int));
    }
    bytes_to_string(name)
}

/// The entity counts and period count of one results file; every word of
/// the file is located from these.
#[derive(Debug, PartialEq, Eq, Structural, Clone, Copy)]
pub struct OutFileLayout {
    pub n_nodes: usize,
    pub n_tanks: usize,
    pub n_links: usize,
    pub n_pumps: usize,
    pub n_periods: usize,
}

/// What one 32-bit word of the results file holds.
#[derive(Debug, PartialEq, Eq, Structural, Clone, Copy)]
pub enum OutRecord {
    /// Demand of a node in some period.
    Demand { period: usize, node: usize },
    /// Head of a node in some period.
    Head { period: usize, node: usize },
    /// Flow of a link in some period.
    Flow { period: usize, link: usize },
    /// Prolog, energy block, remaining link figures, or epilog.
    Skip,
}

impl OutFileLayout {
    /// Counts small enough that every offset computation fits; real
    /// networks and runs stay far below these.
    pub open spec fn bounded(&self) -> bool {
        &&& self.n_nodes <= 0x100000
        &&& self.n_tanks <= 0x100000
        &&& self.n_links <= 0x100000
        &&& self.n_pumps <= 0x100000
        &&& self.n_periods <= 0x100000
    }

    /// Words of the prolog: 884 bytes of metadata, 36 per node, 52 per
    /// link and 8 per tank.
    pub fn prolog_words(&self) -> (r: usize)
        requires
            self.bounded(),
        ensures
            r == (884 + 36 * self.n_nodes + 52 * self.n_links + 8 * self.n_tanks) / 4,
    {
        (884 + 36 * self.n_nodes + 52 * self.n_links + 8 * self.n_tanks) / 4
    }

    /// Words of the energy block: 28 bytes per pump plus a peak-demand
    /// word.
    pub fn energy_words(&self) -> (r: usize)
        requires
            self.bounded(),
        ensures
            r == (28 * self.n_pumps + 4) / 4,
    {
        (28 * self.n_pumps + 4) / 4
    }

    /// Words of one period block: 16 bytes per node, 32 per link.
    pub fn period_words(&self) -> (r: usize)
        requires
            self.bounded(),
        ensures
            r == (16 * self.n_nodes + 32 * self.n_links) / 4,
    {
        (16 * self.n_nodes + 32 * self.n_links) / 4
    }

    /// What word `index` of the file holds, as the layout prescribes.
    pub open spec fn spec_record(&self, index: int) -> OutRecord {
        let pw = (884 + 36 * self.n_nodes + 52 * self.n_links + 8 * self.n_tanks) / 4;
        let ew = (28 * self.n_pumps + 4) / 4;
        let per = (16 * self.n_nodes + 32 * self.n_links) / 4;
        if index < pw + ew {
            OutRecord::Skip
        } else {
            let off = index - pw - ew;
            let p = off / per;
            let po = off % per;
            if p >= self.n_periods {
                OutRecord::Skip
            } else if po < self.n_nodes {
                OutRecord::Demand { period: p as usize, node: po as usize }
            } else if po < 2 * self.n_nodes {
                OutRecord::Head { period: p as usize, node: (po - self.n_nodes) as usize }
            } else if 4 * self.n_nodes <= po < 4 * self.n_nodes + self.n_links {
                OutRecord::Flow { period: p as usize, link: (po - 4 * self.n_nodes) as usize }
            } else {
                OutRecord::Skip
            }
        }
    }

    /// Classify word `index` of the file: the figure it holds and where
    /// that figure belongs.
    pub fn classify_word(&self, index: usize) -> (r: OutRecord)
        requires
            self.bounded(),
            self.n_nodes > 0 || self.n_links > 0,
        ensures
            r == self.spec_record(index as int),
    {
        let pw = self.prolog_words();
        let ew = self.energy_words();
        let per = self.period_words();
        if index < pw + ew {
            return OutRecord::Skip;
        }
        let off = index - pw - ew;
        let p = off / per;
        let po = off % per;
        if p >= self.n_periods {
            OutRecord::Skip
        } else if po < self.n_nodes {
            OutRecord::Demand { period: p, node: po }
        } else if po < 2 * self.n_nodes {
            OutRecord::Head { period: p, node: po - self.n_nodes }
        } else if 4 * self.n_nodes <= po && po < 4 * self.n_nodes + self.n_links {
            OutRecord::Flow { period: p, link: po - 4 * self.n_nodes }
        } else {
            OutRecord::Skip
        }
    }
}

/// Read the entity counts, period count and magic number of a results
/// file: the counts at bytes 8..24 of the prolog, the period count and
/// magic number from the epilog, which fills the last 28 bytes.  `None`
/// exactly when the file is shorter than one epilog, when a count is
/// unreasonably large, or when the magic number does not match.
pub fn read_out_layout(data: &[u8]) -> (r: Option<OutFileLayout>)
    ensures
        match r {
            Some(layout) => {
                &&& data@.len() >= 28
                &&& layout.n_nodes == spec_u32_from_le_bytes(data@.subrange(8, 12))
                &&& layout.n_tanks == spec_u32_from_le_bytes(data@.subrange(12, 16))
                &&& layout.n_links == spec_u32_from_le_bytes(data@.subrange(16, 20))
                &&& layout.n_pumps == spec_u32_from_le_bytes(data@.subrange(20, 24))
                &&& layout.n_periods == spec_u32_from_le_bytes(
                    data@.subrange(data@.len() - 12, data@.len() - 8),
                )
                &&& layout.bounded()
                &&& spec_u32_from_le_bytes(data@.subrange(data@.len() - 4, data@.len() as int))
                    == MAGIC_NUMBER
            },
            None => {
                data@.len() < 28 || spec_u32_from_le_bytes(
                    data@.subrange(data@.len() - 4, data@.len() as int),
                ) != MAGIC_NUMBER || !(OutFileLayout {
                    n_nodes: spec_u32_from_le_bytes(data@.subrange(8, 12)) as usize,
                    n_tanks: spec_u32_from_le_bytes(data@.subrange(12, 16)) as usize,
                    n_links: spec_u32_from_le_bytes(data@.subrange(16, 20)) as usize,
                    n_pumps: spec_u32_from_le_bytes(data@.subrange(20, 24)) as usize,
                    n_periods: spec_u32_from_le_bytes(
                        data@.subrange(data@.len() - 12, data@.len() - 8),
                    ) as usize,
                }).bounded()
            },
        },
{
    let n = data.len();
    if n < 28 {
        return None;
    }
    let magic = u32_from_le_bytes(slice_subrange(data, n - 4, n));
    if magic != MAGIC_NUMBER {
        return None;
    }
    let n_nodes = u32_from_le_bytes(slice_subrange(data, 8, 12)) as usize;
    let n_tanks = u32_from_le_bytes(slice_subrange(data, 12, 16)) as usize;
    let n_links = u32_from_le_bytes(slice_subrange(data, 16, 20)) as usize;
    let n_pumps = u32_from_le_bytes(slice_subrange(data, 20, 24)) as usize;
    let n_periods = u32_from_le_bytes(slice_subrange(data, n - 12, n - 8)) as usize;
    let layout = OutFileLayout { n_nodes, n_tanks, n_links, n_pumps, n_periods };
    if n_nodes <= 0x100000 && n_tanks <= 0x100000 && n_links <= 0x100000 && n_pumps <= 0x100000
        && n_periods <= 0x100000 {
        Some(layout)
    } else {
        None
    }
}

} // verus!
