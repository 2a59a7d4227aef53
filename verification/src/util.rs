//! Small verified building blocks shared across the crate: association
//! lists keyed by strings, wildcard name matching, and decimal/byte
//! conversions.

use vstd::prelude::*;

verus! {

/// First value bound to `key` in an association list, scanning from the
/// front. A fresh binding is prepended, so the front-most binding wins.
pub open spec fn assoc_lookup<V>(s: Seq<(String, V)>, key: Seq<char>) -> Option<V>
    decreases s.len(),
{
    if s.len() == 0 {
        None
    } else if s[0].0@ == key {
        Some(s[0].1)
    } else {
        assoc_lookup(s.drop_first(), key)
    }
}

/// Prepending a binding makes it the one found for its key and leaves
/// every other key's binding unchanged.
pub proof fn lemma_assoc_lookup_prepend<V>(s: Seq<(String, V)>, p: (String, V), key: Seq<char>)
    ensures
        assoc_lookup(s.insert(0, p), key) == if p.0@ == key {
            Some(p.1)
        } else {
            assoc_lookup(s, key)
        },
{
    let s2 = s.insert(0, p);
    assert(s2.len() == s.len() + 1);
    assert(s2[0] == p);
    assert(s2.drop_first() =~= s);
}

/// Looks `key` up in an association list.
pub fn assoc_get<'a, V>(v: &'a Vec<(String, V)>, key: &String) -> (r: Option<&'a V>)
    ensures
        match r {
            Some(val) => assoc_lookup(v@, key@) == Some(*val),
            None => assoc_lookup(v@, key@) is None,
        },
{
    let n = v.len();
    let mut i: usize = 0;
    proof {
        assert(v@.skip(0) =~= v@);
    }
    while i < n
        invariant
            n == v.len(),
            0 <= i <= n,
            assoc_lookup(v@, key@) == assoc_lookup(v@.skip(i as int), key@),
        decreases n - i,
    {
        proof {
            assert(v@.skip(i as int).drop_first() =~= v@.skip(i as int + 1));
            assert(v@.skip(i as int)[0] == v@[i as int]);
        }
        if v[i].0 == *key {
            return Some(&v[i].1);
        }
        i = i + 1;
    }
    None
}

/// Position of the front-most binding of `key`, if any.
pub fn assoc_index_of<V>(v: &Vec<(String, V)>, key: &String) -> (r: Option<usize>)
    ensures
        match r {
            Some(i) => {
                &&& i < v@.len()
                &&& v@[i as int].0@ == key@
                &&& forall|j: int| 0 <= j < i ==> (#[trigger] v@[j]).0@ != key@
            },
            None => forall|j: int| 0 <= j < v@.len() ==> (#[trigger] v@[j]).0@ != key@,
        },
{
    let n = v.len();
    let mut i: usize = 0;
    while i < n
        invariant
            n == v.len(),
            0 <= i <= n,
            forall|j: int| 0 <= j < i ==> (#[trigger] v@[j]).0@ != key@,
        decreases n - i,
    {
        if v[i].0 == *key {
            return Some(i);
        }
        i = i + 1;
    }
    None
}

/// The front-most binding of a key is what lookup returns.
pub proof fn lemma_assoc_lookup_at_first<V>(s: Seq<(String, V)>, i: int)
    requires
        0 <= i < s.len(),
        forall|j: int| 0 <= j < i ==> (#[trigger] s[j]).0@ != s[i].0@,
    ensures
        assoc_lookup(s, s[i].0@) == Some(s[i].1),
    decreases i,
{
    if i == 0 {
    } else {
        assert(s.drop_first()[i - 1] == s[i]);
        assert(forall|j: int|
            0 <= j < i - 1 ==> (#[trigger] s.drop_first()[j]).0@ != s.drop_first()[i - 1].0@);
        lemma_assoc_lookup_at_first(s.drop_first(), i - 1);
    }
}

/// Replacing the front-most binding of a key rebinds that key and
/// leaves every other key's binding unchanged.
pub proof fn lemma_assoc_lookup_update<V>(s: Seq<(String, V)>, i: int, p: (String, V), k: Seq<char>)
    requires
        0 <= i < s.len(),
        p.0@ == s[i].0@,
        forall|j: int| 0 <= j < i ==> (#[trigger] s[j]).0@ != s[i].0@,
    ensures
        assoc_lookup(s.update(i, p), k) == if k == p.0@ {
            Some(p.1)
        } else {
            assoc_lookup(s, k)
        },
    decreases i,
{
    let s2 = s.update(i, p);
    if i == 0 {
        assert(s2[0] == p);
        assert(s2.drop_first() =~= s.drop_first());
    } else {
        assert(s2[0] == s[0]);
        assert(s2.drop_first() =~= s.drop_first().update(i - 1, p));
        assert(s.drop_first()[i - 1] == s[i]);
        assert(forall|j: int|
            0 <= j < i - 1 ==> (#[trigger] s.drop_first()[j]).0@ != s.drop_first()[i - 1].0@);
        lemma_assoc_lookup_update(s.drop_first(), i - 1, p, k);
    }
}

/// Reports whether `key` is bound in an association list.
pub fn assoc_contains_key<V>(v: &Vec<(String, V)>, key: &String) -> (r: bool)
    ensures
        r == assoc_lookup(v@, key@).is_some(),
{
    let got = assoc_get(v, key);
    got.is_some()
}

/// Whether some element of `s` reads as the string `x`.
pub open spec fn string_seq_contains(s: Seq<String>, x: Seq<char>) -> bool {
    exists|i: int| 0 <= i < s.len() && s[i]@ == x
}

/// Reports whether the vector holds a string equal to `x`.
pub fn string_vec_contains(v: &Vec<String>, x: &String) -> (r: bool)
    ensures
        r == string_seq_contains(v@, x@),
{
    let n = v.len();
    let mut i: usize = 0;
    while i < n
        invariant
            n == v.len(),
            0 <= i <= n,
            forall|j: int| 0 <= j < i ==> v@[j]@ != x@,
        decreases n - i,
    {
        if v[i] == *x {
            proof {
                assert(string_seq_contains(v@, x@)) by {
                    assert(v@[i as int]@ == x@);
                }
            }
            return true;
        }
        i = i + 1;
    }
    proof {
        assert(!string_seq_contains(v@, x@)) by {
            if string_seq_contains(v@, x@) {
                let i = choose|i: int| 0 <= i < v@.len() && v@[i]@ == x@;
                assert(v@[i]@ != x@);
            }
        }
    }
    false
}

/// Whether the advertised `name` matches `pattern`. A pattern ending in
/// `'*'` matches every name that begins with the characters before the
/// star; any other pattern matches only its exact self.
pub open spec fn spec_name_matches(pattern: Seq<char>, name: Seq<char>) -> bool {
    if pattern.len() > 0 && pattern.last() == '*' {
        &&& pattern.len() - 1 <= name.len()
        &&& name.take(pattern.len() - 1) == pattern.take(pattern.len() - 1)
    } else {
        pattern == name
    }
}

/// Matches an advertised name against a possibly-wildcarded pattern.
pub fn name_matches(pattern: &String, name: &String) -> (r: bool)
    ensures
        r == spec_name_matches(pattern@, name@),
{
    let p = pattern.as_str();
    let n = name.as_str();
    let plen = p.unicode_len();
    let nlen = n.unicode_len();
    if plen > 0 && p.get_char(plen - 1) == '*' {
        let prefix_len = plen - 1;
        if prefix_len > nlen {
            return false;
        }
        let mut i: usize = 0;
        while i < prefix_len
            invariant
                p@ == pattern@,
                n@ == name@,
                plen == pattern@.len(),
                nlen == name@.len(),
                prefix_len == plen - 1,
                prefix_len <= nlen,
                0 <= i <= prefix_len,
                forall|j: int| 0 <= j < i ==> pattern@[j] == name@[j],
            decreases prefix_len - i,
        {
            if p.get_char(i) != n.get_char(i) {
                proof {
                    assert(pattern@.take(prefix_len as int)[i as int] != name@.take(
                        prefix_len as int,
                    )[i as int]);
                }
                return false;
            }
            i = i + 1;
        }
        proof {
            assert(name@.take(prefix_len as int) =~= pattern@.take(prefix_len as int));
        }
        true
    } else {
        *pattern == *name
    }
}

/// The decimal digit characters of `n`, most significant first.
pub open spec fn spec_decimal_digits(n: int) -> Seq<u8>
    decreases n,
{
    if n < 0 {
        Seq::empty()
    } else if n < 10 {
        seq![(0x30 + n) as u8]
    } else {
        spec_decimal_digits(n / 10).push((0x30 + n % 10) as u8)
    }
}

/// Renders `n` as ASCII decimal digit bytes, most significant first.
pub fn u32_decimal_bytes(n: u32) -> (r: Vec<u8>)
    ensures
        r@ == spec_decimal_digits(n as int),
    decreases n,
{
    let mut r: Vec<u8> = Vec::new();
    if n < 10 {
        r.push(0x30 + (n as u8));
        proof {
            assert(r@ =~= spec_decimal_digits(n as int));
        }
    } else {
        r = u32_decimal_bytes(n / 10);
        r.push(0x30 + ((n % 10) as u8));
        proof {
            assert(r@ =~= spec_decimal_digits(n as int));
        }
    }
    r
}

/// The big-endian 32-bit value of four bytes.
pub open spec fn spec_u32_from_be(b0: u8, b1: u8, b2: u8, b3: u8) -> int {
    b0 * 0x1000000 + b1 * 0x10000 + b2 * 0x100 + b3
}

/// Reads a big-endian 32-bit value out of four bytes.
pub fn u32_from_be_bytes(b0: u8, b1: u8, b2: u8, b3: u8) -> (r: u32)
    ensures
        r == spec_u32_from_be(b0, b1, b2, b3),
{
    (b0 as u32) * 0x1000000 + (b1 as u32) * 0x10000 + (b2 as u32) * 0x100 + (b3 as u32)
}

/// ASCII lowercase of one byte: letters `A`..`Z` gain 0x20, all other
/// bytes pass through.
pub open spec fn spec_ascii_lower(b: u8) -> u8 {
    if 0x41 <= b <= 0x5a {
        (b + 0x20) as u8
    } else {
        b
    }
}

/// The sequence `hay` holds `needle` as a contiguous run starting at `i`.
pub open spec fn bytes_match_at(hay: Seq<u8>, needle: Seq<u8>, i: int) -> bool {
    &&& 0 <= i
    &&& i + needle.len() <= hay.len()
    &&& forall|j: int| 0 <= j < needle.len() ==> hay[i + j] == needle[j]
}

/// The sequence `hay` holds `needle` somewhere as a contiguous run.
pub open spec fn bytes_contain(hay: Seq<u8>, needle: Seq<u8>) -> bool {
    exists|i: int| bytes_match_at(hay, needle, i)
}

/// Searches `hay` for `needle` as a contiguous byte run.
pub fn bytes_contain_exec(hay: &Vec<u8>, needle: &Vec<u8>) -> (r: bool)
    ensures
        r == bytes_contain(hay@, needle@),
{
    let hn = hay.len();
    let nn = needle.len();
    if nn > hn {
        proof {
            assert(forall|i: int| !bytes_match_at(hay@, needle@, i));
        }
        return false;
    }
    if nn == 0 {
        proof {
            assert(bytes_match_at(hay@, needle@, 0));
        }
        return true;
    }
    let mut i: usize = 0;
    while i < hn - nn + 1
        invariant
            hn == hay.len(),
            nn == needle.len(),
            0 < nn <= hn,
            0 <= i <= hn - nn + 1,
            forall|k: int| 0 <= k < i ==> !bytes_match_at(hay@, needle@, k),
        decreases hn - nn + 1 - i,
    {
        let mut j: usize = 0;
        let mut all_eq = true;
        while j < nn
            invariant
                hn == hay.len(),
                nn == needle.len(),
                nn <= hn,
                0 <= i <= hn - nn,
                0 <= j <= nn,
                all_eq == (forall|l: int| 0 <= l < j ==> hay@[i + l] == needle@[l]),
            decreases nn - j,
        {
            if hay[i + j] != needle[j] {
                proof {
                    assert(hay@[i + j] != needle@[j as int]);
                }
                all_eq = false;
                j = nn;
            } else {
                j = j + 1;
            }
        }
        if all_eq {
            assert(bytes_match_at(hay@, needle@, i as int));
            return true;
        }
        i = i + 1;
    }
    proof {
        assert(!bytes_contain(hay@, needle@)) by {
            if bytes_contain(hay@, needle@) {
                let k = choose|k: int| bytes_match_at(hay@, needle@, k);
                assert(0 <= k <= hn - nn);
                assert(!bytes_match_at(hay@, needle@, k));
            }
        }
    }
    false
}

/// Sequence concatenation is associative.
pub proof fn lemma_seq_add_assoc<T>(a: Seq<T>, b: Seq<T>, c: Seq<T>)
    ensures
        (a + b) + c == a + (b + c),
{
    assert((a + b) + c =~= a + (b + c));
}

/// Copies a vector of machine integers.
pub fn copy_u32_vec(v: &Vec<u32>) -> (r: Vec<u32>)
    ensures
        r@ == v@,
{
    let n = v.len();
    let mut r: Vec<u32> = Vec::new();
    let mut i: usize = 0;
    while i < n
        invariant
            n == v.len(),
            0 <= i <= n,
            r@ =~= v@.take(i as int),
        decreases n - i,
    {
        r.push(v[i]);
        i = i + 1;
    }
    proof {
        assert(r@ =~= v@);
    }
    r
}

/// Lowercases every byte of `v` as ASCII.
pub fn ascii_lower_bytes(v: &Vec<u8>) -> (r: Vec<u8>)
    ensures
        r@.len() == v@.len(),
        forall|i: int| 0 <= i < v@.len() ==> r@[i] == spec_ascii_lower(v@[i]),
{
    let n = v.len();
    let mut r: Vec<u8> = Vec::new();
    let mut i: usize = 0;
    while i < n
        invariant
            n == v.len(),
            0 <= i <= n,
            r@.len() == i,
            forall|j: int| 0 <= j < i ==> r@[j] == spec_ascii_lower(v@[j]),
        decreases n - i,
    {
        let b = v[i];
        if 0x41 <= b && b <= 0x5a {
            r.push(b + 0x20);
        } else {
            r.push(b);
        }
        i = i + 1;
    }
    r
}

} // verus!
