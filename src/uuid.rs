//! UUIDs (RFC 4122): reading the usual text forms, writing them, and telling the variant and
//! the version.
use vstd::prelude::*;
use crate::essential::{chars_of, StringEssential};
use crate::hex::{hex_bytes, hex_parse, hex_text, is_hex_char, Hex};
use crate::random::Random;

verus! {

/// Why a UUID could not be read.
#[derive(Debug, Clone, Copy, PartialEq, Eq, Structural)]
pub enum ParseError {
    /// No UUID in any of the accepted forms.
    InvalidPattern,
}

/// The version field of a UUID.
#[derive(Debug, Clone, Copy, PartialEq, Eq, Structural)]
pub enum Version {
    /// Version 1: date-time and MAC address.
    Version1,
    /// Version 2: date-time and MAC address, DCE security version.
    Version2,
    /// Version 3: namespace name-based (MD5).
    Version3,
    /// Version 4: random.
    Version4,
    /// Version 5: namespace name-based (SHA1).
    Version5,
    /// Version 6 (draft): field-compatible with version 1, reordered for DB locality.
    Version6Draft,
    /// Version 7 (draft): time-ordered value from the Unix epoch in milliseconds.
    Version7Draft,
    /// Version 8 (draft): experimental or vendor-specific.
    Version8Draft,
    /// Any other value of the field.
    Undefined,
}

/// The variant field, which determines the layout of the UUID.
#[derive(Debug, Clone, Copy, PartialEq, Eq, Structural)]
pub enum Variant {
    /// (0 x x) Reserved, NCS backward compatibility.
    NCS,
    /// (1 0 x) The variant of RFC 4122.
    RFC4122,
    /// (1 1 0) Reserved, Microsoft backward compatibility.
    Microsoft,
    /// (1 1 1) Reserved for future definition.
    Reserved,
}

/// Namespace of fully-qualified domain names (for version 3 and 5 UUIDs).
pub const NAMESPACE_DNS: &'static str = "6ba7b810-9dad-11d1-80b4-00c04fd430c8";

/// Namespace of URLs (for version 3 and 5 UUIDs).
pub const NAMESPACE_URL: &'static str = "6ba7b811-9dad-11d1-80b4-00c04fd430c8";

/// Namespace of ISO OIDs (for version 3 and 5 UUIDs).
pub const NAMESPACE_OID: &'static str = "6ba7b812-9dad-11d1-80b4-00c04fd430c8";

/// Namespace of X.500 DNs (for version 3 and 5 UUIDs).
pub const NAMESPACE_X500: &'static str = "6ba7b814-9dad-11d1-80b4-00c04fd430c8";

/// The variant that the high nibble of octet 8 selects.
pub open spec fn variant_of(nibble: nat) -> Variant {
    if nibble < 8 {
        Variant::NCS
    } else if nibble < 12 {
        Variant::RFC4122
    } else if nibble < 14 {
        Variant::Microsoft
    } else {
        Variant::Reserved
    }
}

/// The version that the high nibble of octet 6 names.
pub open spec fn version_of(nibble: nat) -> Version {
    if nibble == 1 {
        Version::Version1
    } else if nibble == 2 {
        Version::Version2
    } else if nibble == 3 {
        Version::Version3
    } else if nibble == 4 {
        Version::Version4
    } else if nibble == 5 {
        Version::Version5
    } else if nibble == 6 {
        Version::Version6Draft
    } else if nibble == 7 {
        Version::Version7Draft
    } else if nibble == 8 {
        Version::Version8Draft
    } else {
        Version::Undefined
    }
}

/// `8-4-4-4-12` hex digits with hyphens between the groups, as text.
pub open spec fn uuid_text(d: Seq<u8>, upper: bool) -> Seq<char> {
    hex_text(d.subrange(0, 4), upper) + seq!['-'] + hex_text(d.subrange(4, 6), upper) + seq!['-']
        + hex_text(d.subrange(6, 8), upper) + seq!['-'] + hex_text(d.subrange(8, 10), upper)
        + seq!['-'] + hex_text(d.subrange(10, 16), upper)
}

/// Where the five groups start in the hyphenated form (`hyphens`) or in 32 plain digits.
pub open spec fn group_start(k: int, hyphens: bool) -> int {
    let plain = seq![0int, 8, 12, 16, 20][k];
    if hyphens { plain + k } else { plain }
}

pub open spec fn group_len(k: int) -> int {
    seq![8int, 4, 4, 4, 12][k]
}

/// The UUID text form starts at `i` of `s`: 32 hex digits, with a hyphen between the groups
/// when `hyphens`.
pub open spec fn form_at(s: Seq<char>, i: int, hyphens: bool) -> bool {
    let n = if hyphens { 36int } else { 32int };
    &&& 0 <= i
    &&& i + n <= s.len()
    &&& forall|k: int, m: int|
        0 <= k < 5 && 0 <= m < group_len(k) ==> is_hex_char(
            #[trigger] s[i + group_start(k, hyphens) + m],
        )
    &&& hyphens ==> s[i + 8] == '-' && s[i + 13] == '-' && s[i + 18] == '-' && s[i + 23] == '-'
}

/// The 16 octets spelled by the form at `i`.
pub open spec fn form_bytes(s: Seq<char>, i: int, hyphens: bool) -> Seq<u8> {
    hex_bytes(s.subrange(i + group_start(0, hyphens), i + group_start(0, hyphens) + 8))
        + hex_bytes(s.subrange(i + group_start(1, hyphens), i + group_start(1, hyphens) + 4))
        + hex_bytes(s.subrange(i + group_start(2, hyphens), i + group_start(2, hyphens) + 4))
        + hex_bytes(s.subrange(i + group_start(3, hyphens), i + group_start(3, hyphens) + 4))
        + hex_bytes(s.subrange(i + group_start(4, hyphens), i + group_start(4, hyphens) + 12))
}

/// The form at `i` is the leftmost one in `s`.
pub open spec fn first_form_at(s: Seq<char>, i: int, hyphens: bool) -> bool {
    form_at(s, i, hyphens) && forall|j: int| 0 <= j < i ==> !form_at(s, j, hyphens)
}

/// A UUID: 16 octets.
#[derive(Clone, Copy, Debug, PartialEq)]
pub struct UUID {
    data: [u8; 16],
}

impl View for UUID {
    type V = Seq<u8>;

    closed spec fn view(&self) -> Seq<u8> {
        self.data@
    }
}

fn all_equal(d: &[u8; 16], x: u8) -> (r: bool)
    ensures
        r == forall|i: int| 0 <= i < 16 ==> d@[i] == x,
{
    let mut i: usize = 0;
    while i < 16
        invariant
            i <= 16,
            forall|j: int| 0 <= j < i ==> d@[j] == x,
        decreases 16 - i,
    {
        if d[i] != x {
            return false;
        }
        i = i + 1;
    }
    true
}

/// Whether the form starts at `i`.
fn form_at_exec(cs: &[char], i: usize, hyphens: bool) -> (r: bool)
    ensures
        r == form_at(cs@, i as int, hyphens),
{
    let n: usize = if hyphens { 36 } else { 32 };
    let len = cs.len();
    if i > len || len - i < n {
        return false;
    }
    if hyphens && (cs[i + 8] != '-' || cs[i + 13] != '-' || cs[i + 18] != '-' || cs[i + 23] != '-') {
        return false;
    }
    let mut k: usize = 0;
    while k < 5
        invariant
            k <= 5,
            len == cs@.len(),
            i + n <= cs@.len(),
            n == if hyphens { 36usize } else { 32usize },
            forall|kk: int, m: int|
                0 <= kk < k && 0 <= m < group_len(kk) ==> is_hex_char(
                    #[trigger] cs@[i + group_start(kk, hyphens) + m],
                ),
        decreases 5 - k,
    {
        let starts: [usize; 5] = [0, 8, 12, 16, 20];
        let lens: [usize; 5] = [8, 4, 4, 4, 12];
        assert(starts@ =~= seq![0usize, 8, 12, 16, 20]);
        assert(lens@ =~= seq![8usize, 4, 4, 4, 12]);
        assert(starts@[k as int] + lens@[k as int] <= 32) by {
            if k == 0 {
            } else if k == 1 {
            } else if k == 2 {
            } else if k == 3 {
            } else {
            }
        }
        let start = if hyphens { starts[k] + k } else { starts[k] };
        assert(start == group_start(k as int, hyphens));
        assert(lens@[k as int] == group_len(k as int));
        let mut m: usize = 0;
        while m < lens[k]
            invariant
                k < 5,
                len == cs@.len(),
                i + n <= cs@.len(),
                n == if hyphens { 36usize } else { 32usize },
                start == group_start(k as int, hyphens),
                start + lens@[k as int] <= n,
                lens@ =~= seq![8usize, 4, 4, 4, 12],
                m <= lens[k as int],
                forall|mm: int| 0 <= mm < m ==> is_hex_char(#[trigger] cs@[i + start + mm]),
            decreases lens[k as int] - m,
        {
            let c = cs[i + start + m];
            if !(('0' <= c && c <= '9') || ('a' <= c && c <= 'f') || ('A' <= c && c <= 'F')) {
                return false;
            }
            m = m + 1;
        }
        k = k + 1;
    }
    true
}

/// The leftmost position where the form starts, if any.
fn find_form(cs: &[char], hyphens: bool) -> (r: Option<usize>)
    ensures
        r is None ==> forall|j: int| 0 <= j ==> !form_at(cs@, j, hyphens),
        r is Some ==> first_form_at(cs@, r->0 as int, hyphens),
{
    let mut i: usize = 0;
    while i < cs.len()
        invariant
            i <= cs@.len(),
            forall|j: int| 0 <= j < i ==> !form_at(cs@, j, hyphens),
        decreases cs@.len() - i,
    {
        if form_at_exec(cs, i, hyphens) {
            return Some(i);
        }
        i = i + 1;
    }
    None
}

/// Hex text of `d[from..to]`.
fn hex_range(d: &[u8; 16], from: usize, to: usize, upper: bool) -> (r: String)
    requires
        from <= to <= 16,
    ensures
        r@ == hex_text(d@.subrange(from as int, to as int), upper),
{
    let part = vstd::slice::slice_subrange(d.as_slice(), from, to);
    if upper {
        part.to_hex_upper()
    } else {
        part.to_hex_lower()
    }
}

impl UUID {
    pub fn new(data: [u8; 16]) -> (r: UUID)
        ensures
            r@ == data@,
    {
        UUID { data }
    }

    /// The nil UUID: all 128 bits zero.
    pub fn nil_uuid() -> (r: UUID)
        ensures
            r@ == Seq::new(16, |i: int| 0u8),
    {
        let r = UUID { data: [0; 16] };
        assert(r.data@ =~= Seq::new(16, |i: int| 0u8));
        r
    }

    /// The max UUID: all 128 bits one.
    pub fn max_uuid() -> (r: UUID)
        ensures
            r@ == Seq::new(16, |i: int| 0xffu8),
    {
        let r = UUID { data: [0xff; 16] };
        assert(r.data@ =~= Seq::new(16, |i: int| 0xffu8));
        r
    }

    /// Finds a UUID in `uuid`: the leftmost `8-4-4-4-12` hyphenated form (bare, in braces, or
    /// after `urn:uuid:`), else the leftmost run of 32 hex digits.
    pub fn parse(uuid: &str) -> (r: Result<UUID, ParseError>)
        ensures
            r is Ok <==> exists|i: int| form_at(uuid@, i, true) || form_at(uuid@, i, false),
            r is Ok ==> exists|i: int|
                (first_form_at(uuid@, i, true) && r->Ok_0@ == form_bytes(uuid@, i, true)) || (
                (forall|j: int| !form_at(uuid@, j, true)) && first_form_at(uuid@, i, false)
                    && r->Ok_0@ == form_bytes(uuid@, i, false)),
            r is Err ==> r->Err_0 == ParseError::InvalidPattern,
    {
        let cs = chars_of(uuid);
        let (i, hyphens) = match find_form(cs.as_slice(), true) {
            Some(i) => (i, true),
            None => match find_form(cs.as_slice(), false) {
                Some(i) => (i, false),
                None => {
                    return Err(ParseError::InvalidPattern);
                },
            },
        };
        let len = cs.len();
        assert(form_at(cs@, i as int, hyphens));
        assert(i + 32 <= len);
        assert(hyphens ==> i + 36 <= cs@.len());
        let s0: usize = i;
        let s1: usize = if hyphens { i + 9 } else { i + 8 };
        let s2: usize = if hyphens { i + 14 } else { i + 12 };
        let s3: usize = if hyphens { i + 19 } else { i + 16 };
        let s4: usize = if hyphens { i + 24 } else { i + 20 };
        match (
            uuid.substring(s0, s0 + 8),
            uuid.substring(s1, s1 + 4),
            uuid.substring(s2, s2 + 4),
            uuid.substring(s3, s3 + 4),
            uuid.substring(s4, s4 + 12),
        ) {
            (Some(p0), Some(p1), Some(p2), Some(p3), Some(p4)) => {
                proof {
                    assert(first_form_at(uuid@, i as int, hyphens));
                    assert forall|k: int, m: int| 0 <= k < 5 && 0 <= m < group_len(k) implies is_hex_char(
                        #[trigger] uuid@[i + group_start(k, hyphens) + m],
                    ) by {}
                    lemma_group_hex(uuid@, i as int, hyphens, p0@, 0);
                    lemma_group_hex(uuid@, i as int, hyphens, p1@, 1);
                    lemma_group_hex(uuid@, i as int, hyphens, p2@, 2);
                    lemma_group_hex(uuid@, i as int, hyphens, p3@, 3);
                    lemma_group_hex(uuid@, i as int, hyphens, p4@, 4);
                }
                Self::parse_parts(p0, p1, p2, p3, p4)
            },
            _ => Err(ParseError::InvalidPattern),
        }
    }

    fn parse_parts(p0: &str, p1: &str, p2: &str, p3: &str, p4: &str) -> (r: Result<UUID, ParseError>)
        requires
            p0@.len() == 8,
            p1@.len() == 4,
            p2@.len() == 4,
            p3@.len() == 4,
            p4@.len() == 12,
        ensures
            r is Ok <==> hex_parse(p0@) is Ok && hex_parse(p1@) is Ok && hex_parse(p2@) is Ok
                && hex_parse(p3@) is Ok && hex_parse(p4@) is Ok,
            r is Ok ==> r->Ok_0@ == hex_bytes(p0@) + hex_bytes(p1@) + hex_bytes(p2@) + hex_bytes(
                p3@,
            ) + hex_bytes(p4@),
            r is Err ==> r->Err_0 == ParseError::InvalidPattern,
    {
        match (
            crate::hex::parse(p0),
            crate::hex::parse(p1),
            crate::hex::parse(p2),
            crate::hex::parse(p3),
            crate::hex::parse(p4),
        ) {
            (Ok(q0), Ok(q1), Ok(q2), Ok(q3), Ok(q4)) => {
                let mut d: [u8; 16] = [0; 16];
                let mut k: usize = 0;
                let ghost all = q0@ + q1@ + q2@ + q3@ + q4@;
                assert(all.len() == 16);
                while k < 16
                    invariant
                        k <= 16,
                        all == q0@ + q1@ + q2@ + q3@ + q4@,
                        all.len() == 16,
                        q0@.len() == 4,
                        q1@.len() == 2,
                        q2@.len() == 2,
                        q3@.len() == 2,
                        q4@.len() == 6,
                        forall|j: int| 0 <= j < k ==> d@[j] == all[j],
                    decreases 16 - k,
                {
                    let b = if k < 4 {
                        q0[k]
                    } else if k < 6 {
                        q1[k - 4]
                    } else if k < 8 {
                        q2[k - 6]
                    } else if k < 10 {
                        q3[k - 8]
                    } else {
                        q4[k - 10]
                    };
                    assert(b == all[k as int]);
                    d[k] = b;
                    k = k + 1;
                }
                assert(d@ =~= all);
                Ok(UUID { data: d })
            },
            _ => Err(ParseError::InvalidPattern),
        }
    }
}

/// A group of the form at `i` reads as hex.
proof fn lemma_group_hex(s: Seq<char>, i: int, hyphens: bool, p: Seq<char>, k: int)
    requires
        0 <= k < 5,
        form_at(s, i, hyphens),
        p == s.subrange(i + group_start(k, hyphens), i + group_start(k, hyphens) + group_len(k)),
    ensures
        hex_parse(p) is Ok,
        hex_parse(p)->Ok_0 == hex_bytes(p),
{
    assert forall|m: int| 0 <= m < p.len() implies is_hex_char(#[trigger] p[m]) by {
        assert(p[m] == s[i + group_start(k, hyphens) + m]);
    }
}

/// Text forms and fields of a UUID.
pub trait Layout {
    spec fn octets(&self) -> Seq<u8>;

    /// Lower-case RFC 4122 text like `123e4567-e89b-12d3-a456-426655440000`.
    fn uuid_lower(&self) -> (r: String)
        ensures
            r@ == uuid_text(self.octets(), false),
    ;

    /// Upper-case RFC 4122 text like `123E4567-E89B-12D3-A456-426655440000`.
    fn uuid_upper(&self) -> (r: String)
        ensures
            r@ == uuid_text(self.octets(), true),
    ;

    /// The lower-case text in braces, like `{123e4567-e89b-12d3-a456-426655440000}`.
    fn uuid_with_brace(&self) -> (r: String)
        ensures
            r@ == seq!['{'] + uuid_text(self.octets(), false) + seq!['}'],
    ;

    /// The URN, like `urn:uuid:123e4567-e89b-12d3-a456-426655440000`.
    fn urn(&self) -> (r: String)
        ensures
            r@ == "urn:uuid:"@ + uuid_text(self.octets(), false),
    ;

    /// The variant, from the high nibble of octet 8.
    fn variant(&self) -> (r: Variant)
        ensures
            r == variant_of((self.octets()[8] / 16) as nat),
    ;

    /// The version, from the high nibble of octet 6.
    fn version(&self) -> (r: Version)
        ensures
            r == version_of((self.octets()[6] / 16) as nat),
    ;

    /// Whether all 128 bits are zero.
    fn is_nil(&self) -> (r: bool)
        ensures
            r == forall|i: int| 0 <= i < 16 ==> self.octets()[i] == 0,
    ;

    /// Whether all 128 bits are one.
    fn is_max(&self) -> (r: bool)
        ensures
            r == forall|i: int| 0 <= i < 16 ==> self.octets()[i] == 0xff,
    ;
}

impl UUID {
    fn groups(&self, upper: bool) -> (r: String)
        ensures
            r@ == uuid_text(self@, upper),
    {
        let mut s = hex_range(&self.data, 0, 4, upper);
        s.append("-");
        let t = hex_range(&self.data, 4, 6, upper);
        s.append(t.as_str());
        s.append("-");
        let t = hex_range(&self.data, 6, 8, upper);
        s.append(t.as_str());
        s.append("-");
        let t = hex_range(&self.data, 8, 10, upper);
        s.append(t.as_str());
        s.append("-");
        let t = hex_range(&self.data, 10, 16, upper);
        s.append(t.as_str());
        proof {
            reveal_strlit("-");
        }
        s
    }
}

impl Layout for UUID {
    open spec fn octets(&self) -> Seq<u8> {
        self@
    }

    fn uuid_lower(&self) -> (r: String) {
        self.groups(false)
    }

    fn uuid_upper(&self) -> (r: String) {
        self.groups(true)
    }

    fn uuid_with_brace(&self) -> (r: String) {
        let mut s = String::from_str("{");
        let t = self.groups(false);
        s.append(t.as_str());
        s.append("}");
        proof {
            reveal_strlit("{");
            reveal_strlit("}");
        }
        s
    }

    fn urn(&self) -> (r: String) {
        let mut s = String::from_str("urn:uuid:");
        let t = self.groups(false);
        s.append(t.as_str());
        s
    }

    fn variant(&self) -> (r: Variant) {
        let x = self.data[8] / 16;
        if x < 8 {
            Variant::NCS
        } else if x < 12 {
            Variant::RFC4122
        } else if x < 14 {
            Variant::Microsoft
        } else {
            Variant::Reserved
        }
    }

    fn version(&self) -> (r: Version) {
        match self.data[6] / 16 {
            1 => Version::Version1,
            2 => Version::Version2,
            3 => Version::Version3,
            4 => Version::Version4,
            5 => Version::Version5,
            6 => Version::Version6Draft,
            7 => Version::Version7Draft,
            8 => Version::Version8Draft,
            _ => Version::Undefined,
        }
    }

    fn is_nil(&self) -> (r: bool) {
        assert(self.octets() == self.data@);
        all_equal(&self.data, 0)
    }

    fn is_max(&self) -> (r: bool) {
        assert(self.octets() == self.data@);
        all_equal(&self.data, 0xff)
    }
}

/// The version 4 UUID made from 16 random octets: the version nibble set to 4 and the variant
/// bits to RFC 4122, every other bit kept.
pub fn v4_from_bytes(data: [u8; 16]) -> (u: UUID)
    ensures
        forall|i: int| 0 <= i < 16 && i != 6 && i != 8 ==> u@[i] == data@[i],
        u@[6] == data@[6] % 16 + 0x40,
        u@[8] == data@[8] % 64 + 0x80,
        version_of((u@[6] / 16) as nat) == Version::Version4,
        variant_of((u@[8] / 16) as nat) == Variant::RFC4122,
{
    let mut d = data;
    d[6] = d[6] % 16 + 0x40;
    d[8] = d[8] % 64 + 0x80;
    UUID::new(d)
}

/// A version 4 (random) UUID from octets drawn from `r`.
pub fn new_with_rand(r: &mut Random) -> (u: UUID)
    ensures
        version_of((u@[6] / 16) as nat) == Version::Version4,
        variant_of((u@[8] / 16) as nat) == Variant::RFC4122,
{
    let mut data: [u8; 16] = [0; 16];
    let mut i: usize = 0;
    while i < 16
        invariant
            i <= 16,
        decreases 16 - i,
    {
        data[i] = r.next_u8();
        i = i + 1;
    }
    v4_from_bytes(data)
}

/// A new version 4 (random) UUID from this thread's generator.
pub fn new() -> (u: UUID)
    ensures
        version_of((u@[6] / 16) as nat) == Version::Version4,
        variant_of((u@[8] / 16) as nat) == Variant::RFC4122,
{
    let mut r = Random::new_thread_local();
    new_with_rand(&mut r)
}

/// The lower-case text of a new version 4 UUID.
pub fn new_str() -> (s: String)
    ensures
        exists|u: UUID|
            version_of((u@[6] / 16) as nat) == Version::Version4 && variant_of(
                (u@[8] / 16) as nat,
            ) == Variant::RFC4122 && s@ == uuid_text(u@, false),
{
    let u = new();
    u.uuid_lower()
}

} // verus!
