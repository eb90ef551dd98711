//! Byte-sequence utilities shared by the parser, the router and the
//! serializer: searching for separators, splitting on a separator byte,
//! trimming ASCII whitespace, equality of byte slices, and rendering a
//! length as decimal ASCII digits.

use vstd::prelude::*;

verus! {

/// Index of the first occurrence of `b` in `s` at or after `from`.
pub open spec fn find_byte(s: Seq<u8>, b: u8, from: nat) -> Option<nat>
    decreases s.len() - from,
{
    if from >= s.len() {
        None
    } else if s[from as int] == b {
        Some(from)
    } else {
        find_byte(s, b, from + 1)
    }
}

pub proof fn lemma_find_byte(s: Seq<u8>, b: u8, from: nat)
    requires
        from <= s.len(),
    ensures
        match find_byte(s, b, from) {
            Some(i) => from <= i < s.len() && s[i as int] == b && forall|j: int|
                from <= j < i ==> s[j] != b,
            None => forall|j: int| from <= j < s.len() ==> s[j] != b,
        },
    decreases s.len() - from,
{
    if from < s.len() && s[from as int] != b {
        lemma_find_byte(s, b, from + 1);
    }
}

/// Executable mirror of `find_byte`.
pub fn find_byte_from(s: &[u8], b: u8, from: usize) -> (r: Option<usize>)
    requires
        from <= s@.len(),
    ensures
        match (r, find_byte(s@, b, from as nat)) {
            (Some(i), Some(j)) => i as nat == j,
            (None, None) => true,
            _ => false,
        },
{
    let mut i: usize = from;
    while i < s.len()
        invariant
            from <= i <= s@.len(),
            find_byte(s@, b, from as nat) == find_byte(s@, b, i as nat),
        decreases s@.len() - i,
    {
        if s[i] == b {
            return Some(i);
        }
        i += 1;
    }
    None
}

/// Index of the first occurrence of the two-byte sequence `a b` in `s`
/// at or after `from`.
pub open spec fn find_pair(s: Seq<u8>, a: u8, b: u8, from: nat) -> Option<nat>
    decreases s.len() - from,
{
    if from + 2 > s.len() {
        None
    } else if s[from as int] == a && s[from as int + 1] == b {
        Some(from)
    } else {
        find_pair(s, a, b, from + 1)
    }
}

pub proof fn lemma_find_pair(s: Seq<u8>, a: u8, b: u8, from: nat)
    ensures
        match find_pair(s, a, b, from) {
            Some(i) => from <= i && i + 2 <= s.len() && s[i as int] == a && s[i as int + 1] == b,
            None => true,
        },
    decreases s.len() - from,
{
    if from + 2 <= s.len() && !(s[from as int] == a && s[from as int + 1] == b) {
        lemma_find_pair(s, a, b, from + 1);
    }
}

/// Executable mirror of `find_pair`.
pub fn find_pair_from(s: &[u8], a: u8, b: u8, from: usize) -> (r: Option<usize>)
    requires
        from <= s@.len(),
    ensures
        match (r, find_pair(s@, a, b, from as nat)) {
            (Some(i), Some(j)) => i as nat == j,
            (None, None) => true,
            _ => false,
        },
{
    let n: usize = s.len();
    if n < 2 {
        return None;
    }
    let mut i: usize = from;
    while i <= n - 2
        invariant
            from <= i,
            i <= s@.len(),
            n == s@.len(),
            n >= 2,
            find_pair(s@, a, b, from as nat) == find_pair(s@, a, b, i as nat),
        decreases s@.len() - i,
    {
        if s[i] == a && s[i + 1] == b {
            return Some(i);
        }
        i += 1;
    }
    None
}

/// `s` split on every occurrence of the byte `b`, starting at `from`;
/// splitting always yields at least one (possibly empty) piece.
pub open spec fn split_from(s: Seq<u8>, b: u8, from: nat) -> Seq<Seq<u8>>
    decreases s.len() - from,
    when from <= s.len()
{
    match find_byte(s, b, from) {
        None => seq![s.subrange(from as int, s.len() as int)],
        Some(i) => {
            proof {
                lemma_find_byte(s, b, from);
            }
            seq![s.subrange(from as int, i as int)] + split_from(s, b, i + 1)
        },
    }
}

pub proof fn lemma_split_from(s: Seq<u8>, b: u8, from: nat)
    requires
        from <= s.len(),
    ensures
        split_from(s, b, from).len() >= 1,
        forall|p: int, j: int|
            0 <= p < split_from(s, b, from).len() && 0 <= j < split_from(s, b, from)[p].len()
                ==> split_from(s, b, from)[p][j] != b,
    decreases s.len() - from,
{
    lemma_find_byte(s, b, from);
    match find_byte(s, b, from) {
        None => {},
        Some(i) => {
            lemma_split_from(s, b, i + 1);
        },
    }
}

/// Executable mirror of `split_from(s, b, 0)`, as a vector of pieces.
pub fn split_bytes(s: &[u8], b: u8) -> (r: Vec<Vec<u8>>)
    ensures
        seqs_of(r) == split_from(s@, b, 0),
{
    let n: usize = s.len();
    let mut r: Vec<Vec<u8>> = Vec::new();
    let mut start: usize = 0;
    loop
        invariant
            start <= s@.len(),
            n == s@.len(),
            split_from(s@, b, 0) == seqs_of(r) + split_from(s@, b, start as nat),
        decreases s@.len() - start,
    {
        match find_byte_from(s, b, start) {
            Some(i) => {
                proof {
                    lemma_find_byte(s@, b, start as nat);
                    assert(i < n);
                }
                let piece = vstd::slice::slice_to_vec(vstd::slice::slice_subrange(s, start, i));
                let ghost old_r = seqs_of(r);
                r.push(piece);
                proof {
                    assert(seqs_of(r) =~= old_r.push(piece@));
                    assert(seqs_of(r) + split_from(s@, b, (i + 1) as nat) =~= old_r + (seq![
                        piece@,
                    ] + split_from(s@, b, (i + 1) as nat)));
                }
                start = i + 1;
            },
            None => {
                let piece = vstd::slice::slice_to_vec(
                    vstd::slice::slice_subrange(s, start, s.len()),
                );
                let ghost old_r = seqs_of(r);
                r.push(piece);
                proof {
                    assert(seqs_of(r) =~= old_r.push(piece@));
                    assert(seqs_of(r) + Seq::<Seq<u8>>::empty() =~= old_r + seq![piece@]);
                    assert(split_from(s@, b, 0) =~= seqs_of(r));
                }
                return r;
            },
        }
    }
}

/// The views of the elements of a vector of byte vectors.
pub open spec fn seqs_of(v: Vec<Vec<u8>>) -> Seq<Seq<u8>> {
    Seq::new(v@.len(), |i: int| v@[i]@)
}

/// Byte-slice equality, decided element by element.
pub fn bytes_eq(a: &[u8], b: &[u8]) -> (r: bool)
    ensures
        r == (a@ == b@),
{
    if a.len() != b.len() {
        return false;
    }
    let mut i: usize = 0;
    while i < a.len()
        invariant
            i <= a@.len(),
            a@.len() == b@.len(),
            forall|j: int| 0 <= j < i ==> a@[j] == b@[j],
        decreases a@.len() - i,
    {
        if a[i] != b[i] {
            return false;
        }
        i += 1;
    }
    proof {
        assert(a@ =~= b@);
    }
    true
}

/// Appends all of `src` to `dst`.
pub fn push_all(dst: &mut Vec<u8>, src: &[u8])
    ensures
        final(dst)@ == old(dst)@ + src@,
{
    let mut i: usize = 0;
    while i < src.len()
        invariant
            i <= src@.len(),
            dst@ == old(dst)@ + src@.subrange(0, i as int),
        decreases src@.len() - i,
    {
        dst.push(src[i]);
        proof {
            assert(old(dst)@ + src@.subrange(0, i as int) + seq![src@[i as int]] =~= old(dst)@
                + src@.subrange(0, i + 1));
        }
        i += 1;
    }
    proof {
        assert(src@.subrange(0, src@.len() as int) =~= src@);
    }
}

/// ASCII whitespace, as trimmed around content-negotiation tokens.
pub open spec fn is_ws(b: u8) -> bool {
    b == 32 || b == 9 || b == 13 || b == 10
}

pub open spec fn trim_front(s: Seq<u8>) -> Seq<u8>
    decreases s.len(),
{
    if s.len() > 0 && is_ws(s[0]) {
        trim_front(s.drop_first())
    } else {
        s
    }
}

pub open spec fn trim_back(s: Seq<u8>) -> Seq<u8>
    decreases s.len(),
{
    if s.len() > 0 && is_ws(s.last()) {
        trim_back(s.drop_last())
    } else {
        s
    }
}

/// `s` with ASCII whitespace removed from both ends.
pub open spec fn trimmed(s: Seq<u8>) -> Seq<u8> {
    trim_back(trim_front(s))
}

/// The bounds of `trimmed(s@.subrange(lo, hi))` within `s`.
pub fn trim_range(s: &[u8], lo: usize, hi: usize) -> (r: (usize, usize))
    requires
        lo <= hi <= s@.len(),
    ensures
        lo <= r.0 <= r.1 <= hi,
        s@.subrange(r.0 as int, r.1 as int) == trimmed(s@.subrange(lo as int, hi as int)),
{
    let mut i: usize = lo;
    while i < hi && (s[i] == 32 || s[i] == 9 || s[i] == 13 || s[i] == 10)
        invariant
            lo <= i <= hi <= s@.len(),
            trim_front(s@.subrange(lo as int, hi as int)) == trim_front(
                s@.subrange(i as int, hi as int),
            ),
        decreases hi - i,
    {
        proof {
            assert(s@.subrange(i as int, hi as int).drop_first() =~= s@.subrange(
                i + 1,
                hi as int,
            ));
        }
        i += 1;
    }
    proof {
        assert(trim_front(s@.subrange(i as int, hi as int)) == s@.subrange(i as int, hi as int));
    }
    let mut j: usize = hi;
    while j > i && (s[j - 1] == 32 || s[j - 1] == 9 || s[j - 1] == 13 || s[j - 1] == 10)
        invariant
            i <= j <= hi <= s@.len(),
            trim_back(s@.subrange(i as int, hi as int)) == trim_back(
                s@.subrange(i as int, j as int),
            ),
        decreases j,
    {
        proof {
            assert(s@.subrange(i as int, j as int).drop_last() =~= s@.subrange(i as int, j - 1));
        }
        j -= 1;
    }
    proof {
        assert(trim_back(s@.subrange(i as int, j as int)) == s@.subrange(i as int, j as int));
    }
    (i, j)
}

/// The decimal ASCII digits of `n`, most significant first.
pub open spec fn dec_of(n: nat) -> Seq<u8>
    decreases n,
{
    if n < 10 {
        seq![(48 + n) as u8]
    } else {
        dec_of(n / 10).push((48 + n % 10) as u8)
    }
}

/// Renders `n` in decimal ASCII.
pub fn usize_to_decimal(n: usize) -> (r: Vec<u8>)
    ensures
        r@ == dec_of(n as nat),
{
    let mut digits: Vec<u8> = Vec::new();
    digits.push(48 + (n % 10) as u8);
    let mut m: usize = n / 10;
    while m > 0
        invariant
            m > 0 ==> dec_of(n as nat) == dec_of(m as nat) + digits@.reverse(),
            m == 0 ==> dec_of(n as nat) == digits@.reverse(),
            digits@.len() >= 1,
        decreases m,
    {
        let ghost before = digits@;
        let d: u8 = 48 + (m % 10) as u8;
        digits.push(d);
        proof {
            assert(digits@.reverse() =~= seq![d] + before.reverse());
            if m >= 10 {
                assert(dec_of(m as nat) == dec_of(m as nat / 10).push(d));
                assert(dec_of(m as nat) + before.reverse() =~= dec_of(m as nat / 10) + (seq![d]
                    + before.reverse()));
            } else {
                assert(dec_of(m as nat) =~= seq![d]);
                assert(dec_of(m as nat) + before.reverse() =~= seq![d] + before.reverse());
            }
        }
        m = m / 10;
    }
    let mut r: Vec<u8> = Vec::new();
    let mut k: usize = digits.len();
    while k > 0
        invariant
            k <= digits@.len(),
            r@.len() == digits@.len() - k,
            forall|j: int| 0 <= j < r@.len() ==> r@[j] == digits@[digits@.len() - 1 - j],
        decreases k,
    {
        k -= 1;
        r.push(digits[k]);
    }
    proof {
        assert(r@ =~= digits@.reverse());
    }
    r
}

} // verus!
