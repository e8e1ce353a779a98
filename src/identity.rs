//! Content-derived identity.
//!
//! An id is the decimal string of the 64-bit FNV-1a hash of the byte
//! concatenation of an object's semantic fields, taken in a fixed order. The
//! hash has no key and no per-process state, so the same fields give the same
//! id in every process and on every machine.
use vstd::prelude::*;
use vstd::string::StringExecFns;
use vstd::utf8::encode_utf8;

use crate::wire::Timestamp;

verus! {

/// FNV-1a offset basis for 64-bit hashes.
pub const FNV_OFFSET_BASIS: u64 = 0xcbf29ce484222325;

/// FNV-1a prime for 64-bit hashes.
pub const FNV_PRIME: u64 = 0x100000001b3;

/// One round of FNV-1a: mix in a byte, then multiply modulo 2^64.
pub open spec fn fnv1a_step(h: u64, b: u8) -> u64 {
    (h ^ (b as u64)).wrapping_mul(FNV_PRIME)
}

/// FNV-1a 64 of a byte sequence.
pub open spec fn fnv1a(bytes: Seq<u8>) -> u64
    decreases bytes.len(),
{
    if bytes.len() == 0 {
        FNV_OFFSET_BASIS
    } else {
        fnv1a_step(fnv1a(bytes.drop_last()), bytes.last())
    }
}

/// The character of a decimal digit.
pub open spec fn digit_char(d: nat) -> char {
    if d == 0 { '0' }
    else if d == 1 { '1' }
    else if d == 2 { '2' }
    else if d == 3 { '3' }
    else if d == 4 { '4' }
    else if d == 5 { '5' }
    else if d == 6 { '6' }
    else if d == 7 { '7' }
    else if d == 8 { '8' }
    else { '9' }
}

/// The decimal notation of a natural number, without leading zeros.
pub open spec fn decimal(n: nat) -> Seq<char>
    decreases n,
{
    if n < 10 {
        seq![digit_char(n)]
    } else {
        decimal(n / 10).push(digit_char(n % 10))
    }
}

/// The decimal notation of an integer, with a leading `-` when negative.
pub open spec fn signed_decimal(i: int) -> Seq<char> {
    if i < 0 {
        seq!['-'] + decimal((-i) as nat)
    } else {
        decimal(i as nat)
    }
}

/// The id that a byte string hashes to.
pub open spec fn id_of(bytes: Seq<u8>) -> Seq<char> {
    decimal(fnv1a(bytes) as nat)
}

/// UTF-8 bytes of a string view.
pub open spec fn utf8(s: Seq<char>) -> Seq<u8> {
    encode_utf8(s)
}

/// Bytes that a timestamp contributes to an id: its seconds, then its
/// nanoseconds, each in decimal.
pub open spec fn timestamp_bytes(ts: Timestamp) -> Seq<u8> {
    utf8(signed_decimal(ts.seconds as int)) + utf8(signed_decimal(ts.nanos as int))
}

/// Bytes that an optional timestamp contributes to an id (none when absent).
pub open spec fn opt_timestamp_bytes(ts: Option<Timestamp>) -> Seq<u8> {
    match ts {
        Some(t) => timestamp_bytes(t),
        None => Seq::empty(),
    }
}

/// A streaming FNV-1a hasher that remembers, as ghost state, every byte it
/// has consumed.
pub struct IdHasher {
    state: u64,
    consumed: Ghost<Seq<u8>>,
}

impl View for IdHasher {
    type V = Seq<u8>;

    closed spec fn view(&self) -> Seq<u8> {
        self.consumed@
    }
}

impl IdHasher {
    /// The running state is the hash of the consumed bytes.
    pub closed spec fn wf(&self) -> bool {
        self.state == fnv1a(self.consumed@)
    }

    /// A hasher that has consumed nothing.
    pub fn new() -> (r: Self)
        ensures
            r.wf(),
            r@ == Seq::<u8>::empty(),
    {
        IdHasher { state: FNV_OFFSET_BASIS, consumed: Ghost(Seq::empty()) }
    }

    /// Consumes a byte slice.
    pub fn write(&mut self, bytes: &[u8])
        requires
            old(self).wf(),
        ensures
            final(self).wf(),
            final(self)@ == old(self)@ + bytes@,
    {
        let ghost start = self.consumed@;
        let mut i: usize = 0;
        while i < bytes.len()
            invariant
                self.wf(),
                i <= bytes@.len(),
                self.consumed@ == start + bytes@.take(i as int),
            decreases bytes@.len() - i,
        {
            let b = bytes[i];
            let ghost before = self.consumed@;
            self.state = (self.state ^ (b as u64)).wrapping_mul(FNV_PRIME);
            self.consumed = Ghost(before.push(b));
            proof {
                assert(before.push(b).drop_last() == before);
                assert(start + bytes@.take(i + 1) == before.push(b));
            }
            i = i + 1;
        }
        proof {
            assert(bytes@.take(bytes@.len() as int) == bytes@);
        }
    }

    /// Consumes the UTF-8 bytes of a string.
    pub fn write_str(&mut self, s: &str)
        requires
            old(self).wf(),
        ensures
            final(self).wf(),
            final(self)@ == old(self)@ + utf8(s@),
    {
        self.write(s.as_bytes());
    }

    /// Consumes the decimal notation of a timestamp's seconds and nanoseconds.
    pub fn write_timestamp(&mut self, ts: &Timestamp)
        requires
            old(self).wf(),
        ensures
            final(self).wf(),
            final(self)@ == old(self)@ + timestamp_bytes(*ts),
    {
        let secs = i64_to_decimal(ts.seconds);
        let nanos = i64_to_decimal(ts.nanos as i64);
        let ghost mid = self@;
        self.write_str(secs.as_str());
        self.write_str(nanos.as_str());
        proof {
            assert(mid + utf8(secs@) + utf8(nanos@) == mid + (utf8(secs@) + utf8(nanos@)));
        }
    }

    /// Consumes the bytes of an optional timestamp; nothing when absent.
    pub fn write_opt_timestamp(&mut self, ts: &Option<Timestamp>)
        requires
            old(self).wf(),
        ensures
            final(self).wf(),
            final(self)@ == old(self)@ + opt_timestamp_bytes(*ts),
    {
        match ts {
            Some(t) => self.write_timestamp(t),
            None => {
                proof {
                    assert(self@ + Seq::<u8>::empty() == self@);
                }
            },
        }
    }

    /// The id of what has been consumed.
    pub fn finish(&self) -> (r: String)
        requires
            self.wf(),
        ensures
            r@ == id_of(self@),
    {
        u64_to_decimal(self.state)
    }
}

fn digit_str(d: u64) -> (r: &'static str)
    requires
        d < 10,
    ensures
        r@ == seq![digit_char(d as nat)],
{
    proof {
        reveal_strlit("0");
        reveal_strlit("1");
        reveal_strlit("2");
        reveal_strlit("3");
        reveal_strlit("4");
        reveal_strlit("5");
        reveal_strlit("6");
        reveal_strlit("7");
        reveal_strlit("8");
        reveal_strlit("9");
    }
    if d == 0 { "0" }
    else if d == 1 { "1" }
    else if d == 2 { "2" }
    else if d == 3 { "3" }
    else if d == 4 { "4" }
    else if d == 5 { "5" }
    else if d == 6 { "6" }
    else if d == 7 { "7" }
    else if d == 8 { "8" }
    else { "9" }
}

fn append_decimal(s: &mut String, n: u64)
    ensures
        final(s)@ == old(s)@ + decimal(n as nat),
    decreases n,
{
    if n >= 10 {
        append_decimal(s, n / 10);
        s.append(digit_str(n % 10));
        proof {
            assert(old(s)@ + decimal(n as nat) == old(s)@ + decimal((n / 10) as nat) + seq![digit_char((n % 10) as nat)]);
        }
    } else {
        s.append(digit_str(n));
    }
}

/// Decimal notation of an unsigned integer.
pub fn u64_to_decimal(n: u64) -> (r: String)
    ensures
        r@ == decimal(n as nat),
{
    let mut s = String::new();
    append_decimal(&mut s, n);
    proof {
        assert(Seq::<char>::empty() + decimal(n as nat) == decimal(n as nat));
    }
    s
}

/// Decimal notation of a signed integer.
pub fn i64_to_decimal(i: i64) -> (r: String)
    ensures
        r@ == signed_decimal(i as int),
{
    proof {
        reveal_strlit("-");
    }
    if i < 0 {
        let m: u64 = (0i128 - (i as i128)) as u64;
        let mut s = String::from_str("-");
        append_decimal(&mut s, m);
        s
    } else {
        u64_to_decimal(i as u64)
    }
}

/// Id of an experiment: hash of its name, owner and namespace.
pub open spec fn experiment_id_spec(name: Seq<char>, owner: Seq<char>, namespace: Seq<char>) -> Seq<char> {
    id_of(utf8(name) + utf8(owner) + utf8(namespace))
}

/// Id of a model: hash of its name and namespace.
pub open spec fn model_id_spec(name: Seq<char>, namespace: Seq<char>) -> Seq<char> {
    id_of(utf8(name) + utf8(namespace))
}

/// Id of a model version: hash of its model id and version.
pub open spec fn model_version_id_spec(model_id: Seq<char>, version: Seq<char>) -> Seq<char> {
    id_of(utf8(model_id) + utf8(version))
}

/// Id of a metadata entry: hash of its key and parent id.
pub open spec fn metadata_id_spec(key: Seq<char>, parent_id: Seq<char>) -> Seq<char> {
    id_of(utf8(key) + utf8(parent_id))
}

/// Id of an artifact group: hash of its parent id and artifact name.
pub open spec fn artifact_id_spec(parent_id: Seq<char>, artifact_name: Seq<char>) -> Seq<char> {
    id_of(utf8(parent_id) + utf8(artifact_name))
}

/// Id of a file: hash of its parent id, source path, checksum, file type name,
/// and the seconds and nanoseconds of its creation and update times when given.
pub open spec fn file_id_spec(
    parent_id: Seq<char>,
    src_path: Seq<char>,
    checksum: Seq<char>,
    file_type: Seq<char>,
    created_at: Option<Timestamp>,
    updated_at: Option<Timestamp>,
) -> Seq<char> {
    id_of(
        utf8(parent_id) + utf8(src_path) + utf8(checksum) + utf8(file_type)
            + opt_timestamp_bytes(created_at) + opt_timestamp_bytes(updated_at),
    )
}

/// Hashes three strings in order.
pub fn hash_three(a: &str, b: &str, c: &str) -> (r: String)
    ensures
        r@ == id_of(utf8(a@) + utf8(b@) + utf8(c@)),
{
    let mut h = IdHasher::new();
    h.write_str(a);
    h.write_str(b);
    h.write_str(c);
    proof {
        assert(Seq::<u8>::empty() + utf8(a@) == utf8(a@));
    }
    h.finish()
}

/// Hashes two strings in order.
pub fn hash_two(a: &str, b: &str) -> (r: String)
    ensures
        r@ == id_of(utf8(a@) + utf8(b@)),
{
    let mut h = IdHasher::new();
    h.write_str(a);
    h.write_str(b);
    proof {
        assert(Seq::<u8>::empty() + utf8(a@) == utf8(a@));
    }
    h.finish()
}

} // verus!
