use vstd::prelude::*;

verus! {

broadcast use vstd::array::group_array_axioms;

/// The largest value the 3-byte identifier counter can carry.
pub const MAX_U24: u64 = 0xFF_FFFF;

/// The four bytes of a 32-bit value, most significant first.
pub open spec fn be4(t: u32) -> Seq<u8> {
    seq![
        (t / 0x1000000) as u8,
        ((t / 0x10000) % 0x100) as u8,
        ((t / 0x100) % 0x100) as u8,
        (t % 0x100) as u8,
    ]
}

/// The three bytes of a value below `2^24`, most significant first.
pub open spec fn be3(m: int) -> Seq<u8> {
    seq![(m / 0x10000) as u8, ((m / 0x100) % 0x100) as u8, (m % 0x100) as u8]
}

/// The counter field of an identifier: the draw reduced modulo `2^24`,
/// big-endian.
pub open spec fn count_bytes(c: int) -> Seq<u8> {
    be3(c % 0x1000000)
}

/// The twelve bytes of an identifier: seconds since the epoch, the process's
/// five random bytes, and the counter field.
pub open spec fn oid_bytes(t: u32, p: Seq<u8>, c: int) -> Seq<u8> {
    be4(t) + p + count_bytes(c)
}

/// The character for one hex digit, lowercase.
pub open spec fn hex_digit(d: int) -> char {
    if d == 0 {
        '0'
    } else if d == 1 {
        '1'
    } else if d == 2 {
        '2'
    } else if d == 3 {
        '3'
    } else if d == 4 {
        '4'
    } else if d == 5 {
        '5'
    } else if d == 6 {
        '6'
    } else if d == 7 {
        '7'
    } else if d == 8 {
        '8'
    } else if d == 9 {
        '9'
    } else if d == 10 {
        'a'
    } else if d == 11 {
        'b'
    } else if d == 12 {
        'c'
    } else if d == 13 {
        'd'
    } else if d == 14 {
        'e'
    } else {
        'f'
    }
}

/// The lowercase hex encoding of a byte sequence: two digits per byte, high
/// nibble first.
pub open spec fn hex_of(b: Seq<u8>) -> Seq<char> {
    Seq::new(
        b.len() * 2,
        |i: int|
            if i % 2 == 0 {
                hex_digit(b[i / 2] as int / 16)
            } else {
                hex_digit(b[i / 2] as int % 16)
            },
    )
}

/// A 12-byte document identifier: 4 bytes of seconds since the epoch, 5
/// random bytes fixed per process, and a 3-byte counter, hex-encoded to the
/// 24-character id of a document.
#[derive(Debug, Clone, Copy, PartialEq, Eq, PartialOrd, Ord, Hash)]
pub struct ObjectId {
    id: [u8; 12],
}

impl View for ObjectId {
    type V = Seq<u8>;

    closed spec fn view(&self) -> Seq<u8> {
        self.id@
    }
}

/// Relies on hex::encode: each input byte becomes exactly two lowercase hex
/// digits, high nibble first.
#[verifier::external_body]
fn hex_encode_bytes(bytes: &[u8; 12]) -> (r: String)
    ensures
        r@ == hex_of(bytes@),
{
    hex::encode(bytes)
}

/// Relies on std's `SystemTime::now` and `Duration::as_secs`: the seconds
/// since the epoch at the current instant, zero if the clock reads earlier
/// than the epoch, truncated to 32 bits. The result depends on the wall
/// clock, so nothing is promised of it.
#[verifier::external_body]
fn gen_timestamp() -> (r: u32) {
    let secs = std::time::SystemTime::now()
        .duration_since(std::time::SystemTime::UNIX_EPOCH)
        .map(|d| d.as_secs())
        .unwrap_or(0);
    secs as u32
}

/// Relies on rand::random: five bytes drawn from the thread-local generator.
/// Random, so nothing is promised of the value.
#[verifier::external_body]
fn gen_process_id() -> (r: [u8; 5]) {
    rand::random()
}

/// Relies on rand::random_range: a draw from the given inclusive range,
/// which its documentation promises the result stays within.
#[verifier::external_body]
fn random_seed() -> (r: u64)
    ensures
        r <= MAX_U24,
{
    rand::random_range(0u64..=MAX_U24)
}

/// The process-wide state behind identifier generation: five random bytes
/// shared by every identifier of this process, and the counter whose draws
/// fill the last three bytes. Seed one per process and share it.
pub struct IdGenerator {
    process_id: [u8; 5],
    counter: u64,
}

impl IdGenerator {
    /// The process's random bytes.
    pub closed spec fn process_id_view(&self) -> Seq<u8> {
        self.process_id@
    }

    /// The next counter value to draw.
    pub closed spec fn counter_view(&self) -> u64 {
        self.counter
    }

    /// A generator with fresh random bytes and a counter seeded uniformly in
    /// `[0, 2^24)`.
    pub fn new() -> (r: IdGenerator)
        ensures
            r.process_id_view().len() == 5,
            r.counter_view() <= MAX_U24,
    {
        IdGenerator { process_id: gen_process_id(), counter: random_seed() }
    }

    /// A generator from explicit parts, for a caller that owns the process
    /// state itself.
    pub fn from_parts(process_id: [u8; 5], counter: u64) -> (r: IdGenerator)
        ensures
            r.process_id_view() == process_id@,
            r.counter_view() == counter,
    {
        IdGenerator { process_id, counter }
    }

    /// The process's random bytes, as a value.
    pub fn process_id(&self) -> (r: [u8; 5])
        ensures
            r@ == self.process_id_view(),
    {
        self.process_id
    }

    /// Draws the next counter value and returns its 3-byte field: the draw
    /// reduced modulo `2^24`, big-endian. The counter steps by one per draw
    /// (wrapping at the top of `u64`), so the fields of any `2^24`
    /// consecutive draws are pairwise distinct.
    pub fn gen_count(&mut self) -> (r: [u8; 3])
        ensures
            final(self).process_id_view() == old(self).process_id_view(),
            final(self).counter_view() == (if old(self).counter_view() == u64::MAX {
                0u64
            } else {
                (old(self).counter_view() + 1) as u64
            }),
            r@ == count_bytes(old(self).counter_view() as int),
    {
        let u = self.counter;
        self.counter = if self.counter == u64::MAX {
            0
        } else {
            self.counter + 1
        };
        let m = u % 0x100_0000u64;
        let r: [u8; 3] = [(m / 0x10000) as u8, ((m / 0x100) % 0x100) as u8, (m % 0x100) as u8];
        proof {
            assert(r@ =~= count_bytes(u as int));
        }
        r
    }
}

impl ObjectId {
    /// A fresh identifier: the current seconds since the epoch (whatever the
    /// clock read), the generator's process bytes, and its next counter draw.
    pub fn new(gen: &mut IdGenerator) -> (r: ObjectId)
        ensures
            exists|t: u32|
                r@ == oid_bytes(t, old(gen).process_id_view(), old(gen).counter_view() as int),
            r@.len() == 12,
            r@.subrange(4, 9) == old(gen).process_id_view(),
            r@.subrange(9, 12) == count_bytes(old(gen).counter_view() as int),
            final(gen).process_id_view() == old(gen).process_id_view(),
            final(gen).counter_view() == (if old(gen).counter_view() == u64::MAX {
                0u64
            } else {
                (old(gen).counter_view() + 1) as u64
            }),
    {
        let timestamp = gen_timestamp();
        let process_id = gen.process_id();
        let counter = gen.gen_count();
        let r = Self::from_parts(timestamp, process_id, counter);
        proof {
            assert(r@ =~= oid_bytes(
                timestamp,
                old(gen).process_id_view(),
                old(gen).counter_view() as int,
            ));
            assert(r@.subrange(4, 9) =~= old(gen).process_id_view());
            assert(r@.subrange(9, 12) =~= count_bytes(old(gen).counter_view() as int));
        }
        r
    }

    /// Constructs an identifier around its raw byte representation.
    pub fn from_bytes(bytes: [u8; 12]) -> (r: ObjectId)
        ensures
            r@ == bytes@,
    {
        ObjectId { id: bytes }
    }

    /// Assembles an identifier from its parts: big-endian seconds, the five
    /// process bytes, the three counter bytes.
    pub fn from_parts(seconds_since_epoch: u32, process_id: [u8; 5], counter: [u8; 3]) -> (r:
        ObjectId)
        ensures
            r@ == be4(seconds_since_epoch) + process_id@ + counter@,
    {
        let t = seconds_since_epoch;
        let bytes: [u8; 12] = [
            (t / 0x1000000) as u8,
            ((t / 0x10000) % 0x100) as u8,
            ((t / 0x100) % 0x100) as u8,
            (t % 0x100) as u8,
            process_id[0],
            process_id[1],
            process_id[2],
            process_id[3],
            process_id[4],
            counter[0],
            counter[1],
            counter[2],
        ];
        let r = ObjectId { id: bytes };
        proof {
            assert(r@ =~= be4(seconds_since_epoch) + process_id@ + counter@);
        }
        r
    }

    /// This identifier as its 24-character lowercase hex string.
    pub fn to_hex(self) -> (r: String)
        ensures
            r@ == hex_of(self@),
            r@.len() == 24,
    {
        hex_encode_bytes(&self.id)
    }
}

/// The 3-byte counter field determines the draw modulo `2^24`: two draws
/// that differ there get different fields.
pub proof fn lemma_count_bytes_injective(c1: int, c2: int)
    requires
        c1 % 0x1000000 != c2 % 0x1000000,
    ensures
        count_bytes(c1) != count_bytes(c2),
{
    let m1 = c1 % 0x1000000;
    let m2 = c2 % 0x1000000;
    assert(0 <= m1 < 0x1000000);
    assert(0 <= m2 < 0x1000000);
    if count_bytes(c1) == count_bytes(c2) {
        assert(be3(m1)[0] == be3(m2)[0]);
        assert(be3(m1)[1] == be3(m2)[1]);
        assert(be3(m1)[2] == be3(m2)[2]);
        assert(m1 / 0x10000 == m2 / 0x10000 && (m1 / 0x100) % 0x100 == (m2 / 0x100) % 0x100 && m1
            % 0x100 == m2 % 0x100) by {
            assert(m1 / 0x10000 < 0x100 && m2 / 0x10000 < 0x100) by (nonlinear_arith)
                requires
                    0 <= m1 < 0x1000000,
                    0 <= m2 < 0x1000000,
            ;
        }
        assert(m1 == m2) by (nonlinear_arith)
            requires
                0 <= m1 < 0x1000000,
                0 <= m2 < 0x1000000,
                m1 / 0x10000 == m2 / 0x10000,
                (m1 / 0x100) % 0x100 == (m2 / 0x100) % 0x100,
                m1 % 0x100 == m2 % 0x100,
        ;
    }
}

/// Identifiers minted by one process in one second still differ as long as
/// the counter draws differ modulo `2^24`: the counter field tells them
/// apart, whatever the shared timestamp and process bytes.
pub proof fn lemma_ids_same_process_distinct(t: u32, p: Seq<u8>, c1: int, c2: int)
    requires
        p.len() == 5,
        c1 % 0x1000000 != c2 % 0x1000000,
    ensures
        oid_bytes(t, p, c1) != oid_bytes(t, p, c2),
{
    lemma_count_bytes_injective(c1, c2);
    let a = oid_bytes(t, p, c1);
    let b = oid_bytes(t, p, c2);
    if a == b {
        assert forall|k: int| 0 <= k < 3 implies count_bytes(c1)[k] == count_bytes(c2)[k] by {
            assert(a[9 + k] == count_bytes(c1)[k]);
            assert(b[9 + k] == count_bytes(c2)[k]);
        }
        assert(count_bytes(c1) =~= count_bytes(c2));
    }
}

/// Identifiers from two processes whose random bytes differ are distinct,
/// whatever their timestamps and counters: the process field tells them
/// apart.
pub proof fn lemma_ids_distinct_processes(
    t1: u32,
    p1: Seq<u8>,
    c1: int,
    t2: u32,
    p2: Seq<u8>,
    c2: int,
)
    requires
        p1.len() == 5,
        p2.len() == 5,
        p1 != p2,
    ensures
        oid_bytes(t1, p1, c1) != oid_bytes(t2, p2, c2),
{
    let a = oid_bytes(t1, p1, c1);
    let b = oid_bytes(t2, p2, c2);
    if a == b {
        assert forall|k: int| 0 <= k < 5 implies p1[k] == p2[k] by {
            assert(a[4 + k] == p1[k]);
            assert(b[4 + k] == p2[k]);
        }
        assert(p1 =~= p2);
    }
}

/// Any window of fewer than `2^24` consecutive counter draws yields pairwise
/// distinct identifiers for one process and second: the draws `c + i` and
/// `c + j` differ modulo `2^24` whenever `j - i` is no multiple of it.
pub proof fn lemma_ids_in_window_distinct(t: u32, p: Seq<u8>, c: int, i: int, j: int)
    requires
        p.len() == 5,
        0 <= i < j,
        (j - i) % 0x1000000 != 0,
    ensures
        oid_bytes(t, p, c + i) != oid_bytes(t, p, c + j),
{
    assert((c + i) % 0x1000000 != (c + j) % 0x1000000) by {
        vstd::arithmetic::div_mod::lemma_mod_equivalence(c + i, c + j, 0x1000000);
        if (c + i) % 0x1000000 == (c + j) % 0x1000000 {
            assert(((c + j) - (c + i)) % 0x1000000 == 0);
            assert((c + j) - (c + i) == j - i);
        }
    }
    lemma_ids_same_process_distinct(t, p, c + i, c + j);
}

/// Hex encoding is injective: byte sequences of one length that differ
/// anywhere encode to different strings, so distinct identifiers keep
/// distinct hex ids.
pub proof fn lemma_hex_of_injective(a: Seq<u8>, b: Seq<u8>)
    requires
        a.len() == b.len(),
        a != b,
    ensures
        hex_of(a) != hex_of(b),
{
    if hex_of(a) == hex_of(b) {
        assert forall|k: int| 0 <= k < a.len() implies a[k] == b[k] by {
            assert(hex_of(a)[2 * k] == hex_of(b)[2 * k]);
            assert(hex_of(a)[2 * k + 1] == hex_of(b)[2 * k + 1]);
            assert(hex_digit(a[k] as int / 16) == hex_digit(b[k] as int / 16));
            assert(hex_digit(a[k] as int % 16) == hex_digit(b[k] as int % 16));
            assert(a[k] as int / 16 == b[k] as int / 16 && a[k] as int % 16 == b[k] as int % 16);
            assert(a[k] == b[k]) by (nonlinear_arith)
                requires
                    a[k] as int / 16 == b[k] as int / 16,
                    a[k] as int % 16 == b[k] as int % 16,
            ;
        }
        assert(a =~= b);
    }
}

/// `a` precedes `b` in byte-wise lexicographic order.
pub open spec fn lex_lt(a: Seq<u8>, b: Seq<u8>) -> bool {
    exists|k: int|
        0 <= k < a.len() && k < b.len() && a[k] < b[k] && (forall|j: int|
            0 <= j < k ==> a[j] == b[j])
}

/// Identifiers are time-ordered: whatever the process bytes and counters, an
/// identifier minted in an earlier second precedes one minted in a later
/// second, byte-wise — the big-endian timestamp occupies the leading bytes.
pub proof fn lemma_ids_time_ordered(t1: u32, t2: u32, p1: Seq<u8>, c1: int, p2: Seq<u8>, c2: int)
    requires
        t1 < t2,
        p1.len() == 5,
        p2.len() == 5,
    ensures
        lex_lt(oid_bytes(t1, p1, c1), oid_bytes(t2, p2, c2)),
{
    let a = oid_bytes(t1, p1, c1);
    let b = oid_bytes(t2, p2, c2);
    let x0 = t1 / 0x1000000;
    let y0 = t2 / 0x1000000;
    let x1 = (t1 / 0x10000) % 0x100;
    let y1 = (t2 / 0x10000) % 0x100;
    let x2 = (t1 / 0x100) % 0x100;
    let y2 = (t2 / 0x100) % 0x100;
    let x3 = t1 % 0x100;
    let y3 = t2 % 0x100;
    assert(a[0] == x0 as u8 && a[1] == x1 as u8 && a[2] == x2 as u8 && a[3] == x3 as u8);
    assert(b[0] == y0 as u8 && b[1] == y1 as u8 && b[2] == y2 as u8 && b[3] == y3 as u8);
    if x0 != y0 {
        assert(x0 < y0) by (nonlinear_arith)
            requires
                t1 < t2,
                x0 == t1 / 0x1000000,
                y0 == t2 / 0x1000000,
                x0 != y0,
        ;
        assert(a[0] < b[0]);
        assert(lex_lt(a, b));
    } else if x1 != y1 {
        assert(x1 < y1) by (nonlinear_arith)
            requires
                t1 < t2,
                t1 / 0x1000000 == t2 / 0x1000000,
                x1 == (t1 / 0x10000) % 0x100,
                y1 == (t2 / 0x10000) % 0x100,
                x1 != y1,
        ;
        assert(a[1] < b[1] && a[0] == b[0]);
        assert(lex_lt(a, b));
    } else if x2 != y2 {
        assert(x2 < y2) by (nonlinear_arith)
            requires
                t1 < t2,
                t1 / 0x1000000 == t2 / 0x1000000,
                (t1 / 0x10000) % 0x100 == (t2 / 0x10000) % 0x100,
                x2 == (t1 / 0x100) % 0x100,
                y2 == (t2 / 0x100) % 0x100,
                x2 != y2,
        ;
        assert(a[2] < b[2] && a[0] == b[0] && a[1] == b[1]);
        assert(lex_lt(a, b));
    } else {
        assert(x3 < y3) by (nonlinear_arith)
            requires
                t1 < t2,
                t1 / 0x1000000 == t2 / 0x1000000,
                (t1 / 0x10000) % 0x100 == (t2 / 0x10000) % 0x100,
                (t1 / 0x100) % 0x100 == (t2 / 0x100) % 0x100,
                x3 == t1 % 0x100,
                y3 == t2 % 0x100,
        ;
        assert(a[3] < b[3] && a[0] == b[0] && a[1] == b[1] && a[2] == b[2]);
        assert(lex_lt(a, b));
    }
}

} // verus!
