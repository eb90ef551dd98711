//! The header collection of a request or response, and the parameter
//! collection filled by the router: an association list of byte-string
//! pairs with unique keys.  Iteration order is insertion order, which
//! pins serialization down exactly; on duplicate names the last write
//! wins, replacing the value in place.

use vstd::prelude::*;

verus! {

pub struct Headers {
    entries: Vec<(Vec<u8>, Vec<u8>)>,
}

/// The value bound to `k` in the association list `s`.
pub open spec fn lookup(s: Seq<(Seq<u8>, Seq<u8>)>, k: Seq<u8>) -> Option<Seq<u8>>
    decreases s.len(),
{
    if s.len() == 0 {
        None
    } else if s[0].0 == k {
        Some(s[0].1)
    } else {
        lookup(s.drop_first(), k)
    }
}

/// `s` with `k` bound to `v`: an existing binding is replaced in place,
/// a new key is appended.
pub open spec fn put(s: Seq<(Seq<u8>, Seq<u8>)>, k: Seq<u8>, v: Seq<u8>) -> Seq<
    (Seq<u8>, Seq<u8>),
>
    decreases s.len(),
{
    if s.len() == 0 {
        seq![(k, v)]
    } else if s[0].0 == k {
        seq![(k, v)] + s.drop_first()
    } else {
        seq![s[0]] + put(s.drop_first(), k, v)
    }
}

/// Unique keys.
pub open spec fn wf_entries(s: Seq<(Seq<u8>, Seq<u8>)>) -> bool {
    forall|i: int, j: int| 0 <= i < j < s.len() ==> s[i].0 != s[j].0
}

pub proof fn lemma_lookup_put(s: Seq<(Seq<u8>, Seq<u8>)>, k: Seq<u8>, v: Seq<u8>, k2: Seq<u8>)
    ensures
        lookup(put(s, k, v), k2) == if k2 == k {
            Some(v)
        } else {
            lookup(s, k2)
        },
    decreases s.len(),
{
    let p = put(s, k, v);
    if s.len() == 0 {
        assert(p[0] == (k, v));
        assert(p.drop_first() =~= Seq::<(Seq<u8>, Seq<u8>)>::empty());
        if k2 == k {
            assert(lookup(p, k2) == Some(v));
        } else {
            assert(lookup(p, k2) == lookup(p.drop_first(), k2));
        }
    } else if s[0].0 == k {
        assert(p[0] == (k, v));
        assert(p.drop_first() =~= s.drop_first());
        if k2 == k {
            assert(lookup(p, k2) == Some(v));
        } else {
            assert(lookup(p, k2) == lookup(s.drop_first(), k2));
            assert(lookup(s, k2) == lookup(s.drop_first(), k2));
        }
    } else {
        lemma_lookup_put(s.drop_first(), k, v, k2);
        assert(p[0] == s[0]);
        assert(p.drop_first() =~= put(s.drop_first(), k, v));
        if p[0].0 == k2 {
            assert(lookup(p, k2) == Some(s[0].1));
            assert(lookup(s, k2) == Some(s[0].1));
        } else {
            assert(lookup(p, k2) == lookup(put(s.drop_first(), k, v), k2));
            assert(lookup(s, k2) == lookup(s.drop_first(), k2));
        }
    }
}

pub proof fn lemma_put_wf(s: Seq<(Seq<u8>, Seq<u8>)>, k: Seq<u8>, v: Seq<u8>)
    requires
        wf_entries(s),
    ensures
        wf_entries(put(s, k, v)),
        put(s, k, v).len() <= s.len() + 1,
        forall|i: int|
            0 <= i < put(s, k, v).len() ==> (put(s, k, v)[i].0 == k || exists|j: int|
                0 <= j < s.len() && put(s, k, v)[i] == s[j]),
    decreases s.len(),
{
    if s.len() == 0 {
    } else if s[0].0 == k {
        assert(forall|i: int| 0 <= i < s.drop_first().len() ==> s.drop_first()[i] == s[i + 1]);
    } else {
        assert(wf_entries(s.drop_first())) by {
            assert(forall|i: int| 0 <= i < s.drop_first().len() ==> s.drop_first()[i] == s[i + 1]);
        }
        lemma_put_wf(s.drop_first(), k, v);
        let r = seq![s[0]] + put(s.drop_first(), k, v);
        assert forall|i: int, j: int| 0 <= i < j < r.len() implies r[i].0 != r[j].0 by {
            if i == 0 {
                if r[j].0 == k {
                    assert(r[0].0 != k);
                } else {
                    let jj = choose|jj: int|
                        0 <= jj < s.drop_first().len() && put(s.drop_first(), k, v)[j - 1]
                            == s.drop_first()[jj];
                    assert(s.drop_first()[jj] == s[jj + 1]);
                }
            }
        }
    }
}

/// `put` only ever grows the list by the appended binding.
pub proof fn lemma_put_last(s: Seq<(Seq<u8>, Seq<u8>)>, k: Seq<u8>, v: Seq<u8>, i: int)
    requires
        forall|j: int| 0 <= j < i ==> s[j].0 != k,
        0 <= i <= s.len(),
    ensures
        i < s.len() && s[i].0 == k ==> put(s, k, v) == s.update(i, (k, v)),
        i == s.len() ==> put(s, k, v) == s.push((k, v)),
    decreases s.len(),
{
    if s.len() == 0 {
        assert(put(s, k, v) =~= s.push((k, v)));
    } else if s[0].0 == k {
        assert(i == 0);
        assert(put(s, k, v) =~= s.update(0, (k, v)));
    } else {
        if i >= 1 {
            lemma_put_last(s.drop_first(), k, v, i - 1);
            assert(forall|j: int|
                0 <= j < s.drop_first().len() ==> s.drop_first()[j] == s[j + 1]);
            if i < s.len() && s[i].0 == k {
                assert(put(s, k, v) =~= s.update(i, (k, v)));
            } else if i == s.len() {
                assert(put(s, k, v) =~= s.push((k, v)));
            }
        }
    }
}

impl View for Headers {
    type V = Seq<(Seq<u8>, Seq<u8>)>;

    closed spec fn view(&self) -> Seq<(Seq<u8>, Seq<u8>)> {
        Seq::new(self.entries@.len(), |i: int| (self.entries@[i].0@, self.entries@[i].1@))
    }
}

impl Headers {
    /// Unique keys.
    pub open spec fn wf(&self) -> bool {
        wf_entries(self@)
    }

    pub fn new() -> (r: Headers)
        ensures
            r@ == Seq::<(Seq<u8>, Seq<u8>)>::empty(),
            r.wf(),
    {
        let r = Headers { entries: Vec::new() };
        proof {
            assert(r@ =~= Seq::<(Seq<u8>, Seq<u8>)>::empty());
        }
        r
    }

    pub fn len(&self) -> (r: usize)
        ensures
            r == self@.len(),
    {
        self.entries.len()
    }

    pub fn key_at(&self, i: usize) -> (r: &Vec<u8>)
        requires
            i < self@.len(),
        ensures
            r@ == self@[i as int].0,
    {
        &self.entries[i].0
    }

    pub fn value_at(&self, i: usize) -> (r: &Vec<u8>)
        requires
            i < self@.len(),
        ensures
            r@ == self@[i as int].1,
    {
        &self.entries[i].1
    }

    /// The value stored under `k`, if any.
    pub fn get(&self, k: &[u8]) -> (r: Option<&Vec<u8>>)
        ensures
            match (r, lookup(self@, k@)) {
                (Some(v), Some(sv)) => v@ == sv,
                (None, None) => true,
                _ => false,
            },
    {
        let mut i: usize = 0;
        proof {
            assert(self@.skip(0) =~= self@);
        }
        while i < self.entries.len()
            invariant
                i <= self@.len(),
                lookup(self@, k@) == lookup(self@.skip(i as int), k@),
            decreases self@.len() - i,
        {
            proof {
                assert(self@.skip(i as int)[0] == self@[i as int]);
            }
            if crate::bytes_util::bytes_eq(self.entries[i].0.as_slice(), k) {
                return Some(&self.entries[i].1);
            }
            proof {
                assert(self@.skip(i as int).drop_first() =~= self@.skip(i as int + 1));
            }
            i += 1;
        }
        proof {
            assert(self@.skip(self@.len() as int) =~= Seq::<(Seq<u8>, Seq<u8>)>::empty());
        }
        None
    }

    /// Binds `k` to `v`; the last write wins.
    pub fn insert(&mut self, k: Vec<u8>, v: Vec<u8>)
        requires
            old(self).wf(),
        ensures
            final(self)@ == put(old(self)@, k@, v@),
            final(self).wf(),
    {
        let ghost s0 = self@;
        let mut i: usize = 0;
        while i < self.entries.len()
            invariant
                i <= self@.len(),
                self@ == s0,
                s0 == old(self)@,
                wf_entries(s0),
                self.entries@.len() == s0.len(),
                forall|j: int| 0 <= j < i ==> s0[j].0 != k@,
        decreases self@.len() - i,
        {
            if crate::bytes_util::bytes_eq(self.entries[i].0.as_slice(), k.as_slice()) {
                self.entries[i] = (k, v);
                proof {
                    lemma_put_last(s0, k@, v@, i as int);
                    assert(self@ =~= s0.update(i as int, (k@, v@)));
                    lemma_put_wf(s0, k@, v@);
                }
                return ;
            }
            i += 1;
        }
        self.entries.push((k, v));
        proof {
            lemma_put_last(s0, k@, v@, s0.len() as int);
            assert(self@ =~= s0.push((k@, v@)));
            lemma_put_wf(s0, k@, v@);
        }
    }
}

} // verus!
