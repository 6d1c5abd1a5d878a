//! Filesystem-safe cache keys derived from URLs.

use vstd::prelude::*;

verus! {

/// What one character of a URL becomes in its cache key.
pub open spec fn escape_char(c: char) -> Seq<char> {
    if c == '\\' {
        seq!['\\', '\\']
    } else if c == '|' {
        seq!['\\', '|']
    } else if c == '/' {
        seq!['|']
    } else {
        seq![c]
    }
}

/// The cache key of a URL: `\` becomes `\\`, `|` becomes `\|`, and then every
/// `/` becomes `|`.
pub open spec fn cache_key(s: Seq<char>) -> Seq<char>
    decreases s.len(),
{
    if s.len() == 0 {
        Seq::empty()
    } else {
        escape_char(s[0]) + cache_key(s.skip(1))
    }
}

/// Reads a cache key back into the URL it was made from.
pub open spec fn cache_key_source(k: Seq<char>) -> Seq<char>
    decreases k.len(),
{
    if k.len() == 0 {
        Seq::empty()
    } else if k[0] == '\\' && k.len() >= 2 {
        seq![k[1]] + cache_key_source(k.skip(2))
    } else if k[0] == '|' {
        seq!['/'] + cache_key_source(k.skip(1))
    } else {
        seq![k[0]] + cache_key_source(k.skip(1))
    }
}

/// A cache key never holds a path separator.
pub open spec fn is_path_segment_safe(k: Seq<char>) -> bool {
    forall|i: int| 0 <= i < k.len() ==> k[i] != '/'
}

proof fn lemma_cache_key_append(a: Seq<char>, b: Seq<char>)
    ensures
        cache_key(a + b) == cache_key(a) + cache_key(b),
    decreases a.len(),
{
    if a.len() == 0 {
        assert(a + b =~= b);
        assert(cache_key(a) + cache_key(b) =~= cache_key(b));
    } else {
        assert((a + b).skip(1) =~= a.skip(1) + b);
        lemma_cache_key_append(a.skip(1), b);
        assert(cache_key(a + b) =~= escape_char(a[0]) + (cache_key(a.skip(1)) + cache_key(b)));
    }
}

proof fn lemma_cache_key_push(a: Seq<char>, c: char)
    ensures
        cache_key(a.push(c)) == cache_key(a) + escape_char(c),
{
    lemma_cache_key_append(a, seq![c]);
    assert(a.push(c) =~= a + seq![c]);
    assert(seq![c].skip(1) =~= Seq::<char>::empty());
    assert(cache_key(Seq::<char>::empty()) == Seq::<char>::empty());
    assert(cache_key(seq![c]) == escape_char(c) + cache_key(Seq::<char>::empty()));
    assert(escape_char(c) + Seq::<char>::empty() =~= escape_char(c));
}

/// Every URL is read back unchanged from its cache key.
pub proof fn lemma_cache_key_round_trip(s: Seq<char>)
    ensures
        cache_key_source(cache_key(s)) == s,
    decreases s.len(),
{
    if s.len() == 0 {
    } else {
        let rest = cache_key(s.skip(1));
        let k = cache_key(s);
        lemma_cache_key_round_trip(s.skip(1));
        let c = s[0];
        if c == '\\' || c == '|' {
            assert(k.skip(2) =~= rest);
        } else {
            assert(k.skip(1) =~= rest);
        }
        assert(s =~= seq![c] + s.skip(1));
    }
}

/// Distinct URLs get distinct cache keys, so no two URLs share a cache entry.
pub proof fn lemma_cache_key_injective(a: Seq<char>, b: Seq<char>)
    requires
        a != b,
    ensures
        cache_key(a) != cache_key(b),
{
    lemma_cache_key_round_trip(a);
    lemma_cache_key_round_trip(b);
}

/// A cache key is a single path segment: it holds no `/`.
pub proof fn lemma_cache_key_segment_safe(s: Seq<char>)
    ensures
        is_path_segment_safe(cache_key(s)),
    decreases s.len(),
{
    if s.len() > 0 {
        lemma_cache_key_segment_safe(s.skip(1));
        let k = cache_key(s);
        let e = escape_char(s[0]);
        assert forall|i: int| 0 <= i < k.len() implies k[i] != '/' by {
            if i >= e.len() {
                assert(k[i] == cache_key(s.skip(1))[i - e.len()]);
            }
        }
    }
}

/// Makes a filesystem-safe version of a URL, to name its cache entry.
pub fn fs_safe_url(url: &str) -> (r: String)
    requires
        url@ != Seq::<char>::empty(),
        url@ != seq!['.'],
        url@ != seq!['.', '.'],
    ensures
        r@ == cache_key(url@),
{
    let n = url.unicode_len();
    let mut out = String::new();
    let mut i: usize = 0;
    proof {
        assert(url@.take(0) =~= Seq::<char>::empty());
    }
    while i < n
        invariant
            n == url@.len(),
            i <= n,
            out@ == cache_key(url@.take(i as int)),
        decreases n - i,
    {
        let c = url.get_char(i);
        proof {
            lemma_cache_key_push(url@.take(i as int), c);
            assert(url@.take(i as int).push(c) =~= url@.take(i + 1));
        }
        proof {
            reveal_strlit("\\\\");
            reveal_strlit("\\|");
            reveal_strlit("|");
        }
        if c == '\\' {
            out.append("\\\\");
        } else if c == '|' {
            out.append("\\|");
        } else if c == '/' {
            out.append("|");
        } else {
            out.append(url.substring_char(i, i + 1));
        }
        i = i + 1;
    }
    proof {
        assert(url@.take(n as int) =~= url@);
    }
    out
}

} // verus!
