//! Ticker symbols: fixed-width, upper-case byte strings.

use vstd::prelude::*;
use vstd::std_specs::cmp::PartialEqSpecImpl;

verus! {

/// Width of a ticker symbol in bytes.
pub const TICKER_LEN: usize = 12;

/// The upper-case counterpart of an ASCII letter; every other byte is itself.
pub open spec fn upper(b: u8) -> u8 {
    if 97 <= b && b <= 122 {
        (b - 32) as u8
    } else {
        b
    }
}

/// The bytes of `s` with every letter in upper case.
pub open spec fn upper_seq(s: Seq<u8>) -> Seq<u8> {
    Seq::new(s.len(), |i: int| upper(s[i]))
}

/// A symbol's bytes: the first twelve of `s` in upper case, padded with zeros.
pub open spec fn symbol_of(s: Seq<u8>) -> Seq<u8> {
    Seq::new(
        12,
        |i: int|
            if i < s.len() {
                upper(s[i])
            } else {
                0u8
            },
    )
}

/// Length of the shortest prefix of `s` after which only zeros appear.
pub open spec fn significant_len(s: Seq<u8>) -> nat
    decreases s.len(),
{
    if s.len() == 0 {
        0
    } else if s.last() != 0 {
        s.len()
    } else {
        significant_len(s.drop_last())
    }
}

/// `significant_len` is the one index that has a non-zero byte just below it
/// and only zeros from it on.
pub proof fn lemma_significant_len(s: Seq<u8>)
    ensures
        significant_len(s) <= s.len(),
        forall|i: int| significant_len(s) <= i < s.len() ==> s[i] == 0,
        significant_len(s) > 0 ==> s[significant_len(s) - 1] != 0,
    decreases s.len(),
{
    if s.len() != 0 && s.last() == 0 {
        let t = s.drop_last();
        lemma_significant_len(t);
        assert forall|i: int| significant_len(s) <= i < s.len() implies s[i] == 0 by {
            if i < t.len() {
                assert(t[i] == s[i]);
            }
        }
        if significant_len(s) > 0 {
            assert(t[significant_len(t) - 1] == s[significant_len(s) - 1]);
        }
    }
}

/// Upper case of one byte.
pub fn to_upper(b: u8) -> (r: u8)
    ensures
        r == upper(b),
{
    if 97 <= b && b <= 122 {
        b - 32
    } else {
        b
    }
}

/// Converts all letters of a byte string to their upper-case counterparts.
pub fn bytes_to_upper(v: &[u8]) -> (r: Vec<u8>)
    ensures
        r@ == upper_seq(v@),
{
    let mut out: Vec<u8> = Vec::new();
    let mut i: usize = 0;
    while i < v.len()
        invariant
            i <= v.len(),
            out@.len() == i,
            forall|j: int| 0 <= j < i ==> out@[j] == upper(v@[j]),
        decreases v.len() - i,
    {
        out.push(to_upper(v[i]));
        i += 1;
    }
    assert(out@ =~= upper_seq(v@));
    out
}

/// The array `a` with its first `n` bytes in upper case.
pub open spec fn upper_prefix(a: [u8; 12], n: nat) -> [u8; 12]
    decreases n,
{
    if n == 0 {
        a
    } else {
        vstd::array::spec_array_update(upper_prefix(a, (n - 1) as nat), n - 1, upper(a[n - 1]))
    }
}

/// The array that holds the upper case of every byte of `a`.
pub open spec fn canonical_bytes(a: [u8; 12]) -> [u8; 12] {
    upper_prefix(a, 12)
}

/// What `upper_prefix` holds.
pub proof fn lemma_upper_prefix(a: [u8; 12], n: nat)
    requires
        n <= 12,
    ensures
        upper_prefix(a, n)@ == Seq::new(
            12,
            |i: int|
                if i < n {
                    upper(a@[i])
                } else {
                    a@[i]
                },
        ),
    decreases n,
{
    if n == 0 {
        assert(a@ =~= Seq::new(
            12,
            |i: int|
                if i < 0 {
                    upper(a@[i])
                } else {
                    a@[i]
                },
        ));
    } else {
        lemma_upper_prefix(a, (n - 1) as nat);
        assert(upper_prefix(a, n)@ =~= Seq::new(
            12,
            |i: int|
                if i < n {
                    upper(a@[i])
                } else {
                    a@[i]
                },
        ));
    }
}

/// The canonical form of a ticker has every byte in upper case; a ticker
/// without lower-case letters is its own canonical form.
pub proof fn lemma_canonical(t: Ticker)
    ensures
        t.canonical().0@ == upper_seq(t.0@),
        t.canonical().is_canonical(),
        t.is_canonical() ==> t.canonical() == t,
{
    lemma_upper_prefix(t.0, 12);
    assert(t.canonical().0@ =~= upper_seq(t.0@));
    if t.is_canonical() {
        assert(t.canonical().0 =~= t.0);
    }
}

/// Ticker symbol: twelve bytes, compared byte by byte.
#[derive(Clone, Copy, Debug, Hash, Eq)]
pub struct Ticker(pub [u8; TICKER_LEN]);

impl PartialEq for Ticker {
    fn eq(&self, other: &Ticker) -> (r: bool) {
        let mut i: usize = 0;
        while i < TICKER_LEN
            invariant
                i <= 12,
                forall|j: int| 0 <= j < i ==> self.0[j] == other.0[j],
            decreases 12 - i,
        {
            if self.0[i] != other.0[i] {
                return false;
            }
            i += 1;
        }
        assert(self.0 =~= other.0);
        true
    }
}

impl PartialEqSpecImpl for Ticker {
    open spec fn obeys_eq_spec() -> bool {
        true
    }

    open spec fn eq_spec(&self, other: &Ticker) -> bool {
        *self == *other
    }
}

impl View for Ticker {
    type V = Ticker;

    open spec fn view(&self) -> Ticker {
        *self
    }
}

impl Default for Ticker {
    fn default() -> (r: Ticker)
        ensures
            r.0@ == Seq::new(12, |i: int| 0u8),
    {
        let t = Ticker([0u8; TICKER_LEN]);
        assert(t.0@ =~= Seq::new(12, |i: int| 0u8));
        t
    }
}

impl Ticker {
    /// The symbol is in canonical form: no lower-case letter in it.
    pub open spec fn is_canonical(&self) -> bool {
        forall|i: int| 0 <= i < 12 ==> upper(#[trigger] self.0[i]) == self.0[i]
    }

    /// The symbol in canonical form.
    pub open spec fn canonical(self) -> Ticker {
        Ticker(canonical_bytes(self.0))
    }

    /// Effective length of the symbol.
    pub open spec fn spec_len(&self) -> nat {
        significant_len(self.0@)
    }

    /// Converts a byte slice to an upper-case ticker, keeping at most twelve
    /// bytes of it.
    pub fn from_slice(s: &[u8]) -> (r: Ticker)
        ensures
            r.0@ == symbol_of(s@),
            r.is_canonical(),
    {
        let mut ticker: [u8; TICKER_LEN] = [0u8; TICKER_LEN];
        let mut i: usize = 0;
        while i < TICKER_LEN && i < s.len()
            invariant
                i <= 12,
                i <= s.len(),
                forall|j: int| 0 <= j < i ==> ticker[j] == upper(s@[j]),
                forall|j: int| i <= j < 12 ==> ticker[j] == 0,
            decreases 12 - i,
        {
            ticker[i] = to_upper(s[i]);
            i += 1;
        }
        assert(ticker@ =~= symbol_of(s@));
        Ticker(ticker)
    }

    /// Brings the ticker into canonical upper-case form.
    pub fn canonize(&mut self)
        ensures
            final(self).0@ == upper_seq(old(self).0@),
            final(self).is_canonical(),
            *final(self) == old(self).canonical(),
    {
        let mut i: usize = 0;
        while i < TICKER_LEN
            invariant
                i <= 12,
                forall|j: int| 0 <= j < i ==> self.0[j] == upper(old(self).0[j]),
                forall|j: int| i <= j < 12 ==> self.0[j] == old(self).0[j],
            decreases 12 - i,
        {
            self.0[i] = to_upper(self.0[i]);
            i += 1;
        }
        assert(self.0@ =~= upper_seq(old(self).0@));
        proof {
            lemma_canonical(*old(self));
            assert(self.0 =~= canonical_bytes(old(self).0));
        }
    }

    /// Computes the effective length of the ticker: the length of the shortest
    /// prefix after which only zeros appear.
    pub fn len(&self) -> (r: usize)
        ensures
            r == self.spec_len(),
            r <= 12,
            forall|j: int| r <= j < 12 ==> self.0[j] == 0,
            r > 0 ==> self.0[r - 1] != 0,
    {
        let mut i: usize = TICKER_LEN;
        assert(self.0@.take(12) =~= self.0@);
        while i > 0
            invariant
                i <= 12,
                significant_len(self.0@) == significant_len(self.0@.take(i as int)),
            decreases i,
        {
            if self.0[i - 1] != 0 {
                proof {
                    lemma_significant_len(self.0@);
                }
                return i;
            }
            assert(self.0@.take(i as int).drop_last() =~= self.0@.take(i - 1));
            i -= 1;
        }
        proof {
            lemma_significant_len(self.0@);
        }
        0
    }
}

} // verus!
