//! Object ids: 20-byte content hashes with their hex text.
use vstd::prelude::*;

verus! {

/// The number of bytes in an object id.
pub const ID_LEN: usize = 20;

/// The number of hex digits in the short form of an id.
pub const SHORT_LEN: usize = 7;

/// A content-addressed object id (a 20-byte hash).
#[derive(Clone, Debug, PartialEq, Eq)]
pub struct ObjectId {
    bytes: Vec<u8>,
}

/// The lowercase hex digit for a value below 16.
pub open spec fn hex_digit(n: u8) -> u8 {
    if n < 10 { (48 + n) as u8 } else { (87 + n) as u8 }
}

/// Two lowercase hex digits per byte, most significant digit first.
pub open spec fn hex_text(b: Seq<u8>) -> Seq<u8>
    decreases b.len(),
{
    if b.len() == 0 {
        Seq::empty()
    } else {
        hex_text(b.drop_last()) + seq![hex_digit(b.last() / 16), hex_digit(b.last() % 16)]
    }
}

/// The value of a hex digit, in either case.
pub open spec fn hex_value(c: char) -> Option<u8> {
    if '0' <= c && c <= '9' {
        Some((c as u32 - '0' as u32) as u8)
    } else if 'a' <= c && c <= 'f' {
        Some((c as u32 - 'a' as u32 + 10) as u8)
    } else if 'A' <= c && c <= 'F' {
        Some((c as u32 - 'A' as u32 + 10) as u8)
    } else {
        None
    }
}

/// Whether every character is a hex digit.
pub open spec fn all_hex(s: Seq<char>) -> bool {
    forall|i: int| 0 <= i < s.len() ==> (#[trigger] hex_value(s[i])).is_some()
}

/// The bytes that a text of 40 hex digits denotes.
pub open spec fn hex_bytes(s: Seq<char>) -> Seq<u8> {
    Seq::new(
        (s.len() / 2) as nat,
        |i: int| (hex_value(s[2 * i]).unwrap() * 16 + hex_value(s[2 * i + 1]).unwrap()) as u8,
    )
}

pub(crate) proof fn lemma_hex_text_len(b: Seq<u8>)
    ensures
        hex_text(b).len() == 2 * b.len(),
    decreases b.len(),
{
    if b.len() > 0 {
        lemma_hex_text_len(b.drop_last());
    }
}

pub(crate) proof fn lemma_hex_text_index(b: Seq<u8>, i: int)
    requires
        0 <= i < b.len(),
    ensures
        hex_text(b).len() == 2 * b.len(),
        hex_text(b)[2 * i] == hex_digit(b[i] / 16),
        hex_text(b)[2 * i + 1] == hex_digit(b[i] % 16),
    decreases b.len(),
{
    lemma_hex_text_len(b);
    if i < b.len() - 1 {
        lemma_hex_text_index(b.drop_last(), i);
    }
}

fn hex_digit_exec(n: u8) -> (r: u8)
    requires
        n < 16,
    ensures
        r == hex_digit(n),
{
    if n < 10 { 48 + n } else { 87 + n }
}

fn hex_value_exec(c: char) -> (r: Option<u8>)
    ensures
        r == hex_value(c),
{
    if '0' <= c && c <= '9' {
        Some((c as u32 - '0' as u32) as u8)
    } else if 'a' <= c && c <= 'f' {
        Some((c as u32 - 'a' as u32 + 10) as u8)
    } else if 'A' <= c && c <= 'F' {
        Some((c as u32 - 'A' as u32 + 10) as u8)
    } else {
        None
    }
}

impl ObjectId {
    /// The bytes of the id.
    pub closed spec fn view(&self) -> Seq<u8> {
        self.bytes@
    }

    /// An id always holds exactly twenty bytes.
    pub closed spec fn wf(&self) -> bool {
        self.bytes@.len() == ID_LEN
    }

    /// The id made of the given bytes, if there are exactly twenty of them.
    pub fn from_bytes(bytes: Vec<u8>) -> (r: Option<ObjectId>)
        ensures
            r is Some <==> bytes@.len() == ID_LEN,
            r matches Some(id) ==> id.wf() && id.view() == bytes@,
    {
        if bytes.len() == ID_LEN {
            Some(ObjectId { bytes })
        } else {
            None
        }
    }

    /// The all-zero id, which stands for content that does not exist.
    pub fn null() -> (r: ObjectId)
        ensures
            r.wf(),
            r.view() == Seq::new(ID_LEN as nat, |i: int| 0u8),
    {
        let mut bytes: Vec<u8> = Vec::new();
        while bytes.len() < ID_LEN
            invariant
                bytes@.len() <= ID_LEN,
                forall|i: int| 0 <= i < bytes@.len() ==> bytes@[i] == 0u8,
            decreases ID_LEN - bytes@.len(),
        {
            bytes.push(0u8);
        }
        let r = ObjectId { bytes };
        assert(r.view() =~= Seq::new(ID_LEN as nat, |i: int| 0u8));
        r
    }

    /// Whether two ids hold the same bytes.
    pub fn same(&self, other: &ObjectId) -> (r: bool)
        ensures
            r <==> self.view() == other.view(),
    {
        if self.bytes.len() != other.bytes.len() {
            return false;
        }
        let mut i: usize = 0;
        while i < self.bytes.len()
            invariant
                i <= self.bytes@.len(),
                self.bytes@.len() == other.bytes@.len(),
                forall|j: int| 0 <= j < i ==> self.bytes@[j] == other.bytes@[j],
            decreases self.bytes@.len() - i,
        {
            if self.bytes[i] != other.bytes[i] {
                return false;
            }
            i = i + 1;
        }
        assert(self.bytes@ =~= other.bytes@);
        true
    }

    /// The bytes of the id.
    pub fn as_bytes(&self) -> (r: &Vec<u8>)
        ensures
            r@ == self.view(),
    {
        &self.bytes
    }

    /// Appends the first `n` lowercase hex digits of the id to `out`.
    pub fn write_hex_prefix(&self, out: &mut Vec<u8>, n: usize)
        requires
            self.wf(),
            n <= 2 * ID_LEN,
        ensures
            final(out)@ == old(out)@ + hex_text(self.view()).take(n as int),
    {
        proof {
            lemma_hex_text_len(self.view());
        }
        let ghost start = old(out)@;
        let mut k: usize = 0;
        while k < n
            invariant
                k <= n,
                n <= 2 * ID_LEN,
                self.wf(),
                hex_text(self.view()).len() == 2 * ID_LEN,
                out@ == start + hex_text(self.view()).take(k as int),
            decreases n - k,
        {
            let b = self.bytes[k / 2];
            proof {
                lemma_hex_text_index(self.view(), (k / 2) as int);
            }
            let d = if k % 2 == 0 { hex_digit_exec(b / 16) } else { hex_digit_exec(b % 16) };
            out.push(d);
            proof {
                assert(k == 2 * (k / 2) || k == 2 * (k / 2) + 1);
                assert(out@ =~= start + hex_text(self.view()).take(k + 1));
            }
            k = k + 1;
        }
    }

    /// The forty lowercase hex digits of the id.
    pub fn to_hex(&self) -> (r: Vec<u8>)
        requires
            self.wf(),
        ensures
            r@ == hex_text(self.view()),
    {
        let mut out: Vec<u8> = Vec::new();
        self.write_hex_prefix(&mut out, 2 * ID_LEN);
        proof {
            lemma_hex_text_len(self.view());
            assert(out@ =~= hex_text(self.view()));
        }
        out
    }

    /// Parses forty hex digits (either case) into an id; `None` for any other text.
    pub fn from_hex(s: &str) -> (r: Option<ObjectId>)
        ensures
            r is Some <==> (s@.len() == 2 * ID_LEN && all_hex(s@)),
            r matches Some(id) ==> id.wf() && id.view() == hex_bytes(s@),
    {
        let len = s.unicode_len();
        if len != 2 * ID_LEN {
            return None;
        }
        let mut bytes: Vec<u8> = Vec::new();
        let mut i: usize = 0;
        while i < ID_LEN
            invariant
                i <= ID_LEN,
                s@.len() == 2 * ID_LEN,
                bytes@.len() == i,
                forall|j: int| 0 <= j < 2 * i ==> (#[trigger] hex_value(s@[j])).is_some(),
                forall|j: int|
                    0 <= j < i ==> bytes@[j] == (hex_value(s@[2 * j]).unwrap() * 16 + hex_value(
                        s@[2 * j + 1],
                    ).unwrap()) as u8,
            decreases ID_LEN - i,
        {
            let hi = hex_value_exec(s.get_char(2 * i));
            let lo = hex_value_exec(s.get_char(2 * i + 1));
            match (hi, lo) {
                (Some(h), Some(l)) => {
                    bytes.push(h * 16 + l);
                },
                _ => {
                    proof {
                        if hi is None {
                            assert(hex_value(s@[2 * i as int]) is None);
                        } else {
                            assert(hex_value(s@[2 * i + 1]) is None);
                        }
                    }
                    return None;
                },
            }
            i = i + 1;
        }
        proof {
            assert(bytes@ =~= hex_bytes(s@));
        }
        Some(ObjectId { bytes })
    }
}

} // verus!
