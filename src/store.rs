//! The cache of responses: one file per final URL, named by its cache key,
//! and a link from each requested URL that redirected to the file of the URL
//! it redirected to.

use vstd::prelude::*;
use crate::cache_key::{cache_key, fs_safe_url, lemma_cache_key_injective};

verus! {

/// The extension of a cache file.
pub open spec fn cache_extension() -> Seq<char> {
    ".ron"@
}

/// The name of the file that holds a URL's last response.
pub open spec fn cache_file(url: Seq<char>) -> Seq<char> {
    cache_key(url) + cache_extension()
}

/// A URL that can name a cache file.
pub open spec fn valid_url(url: Seq<char>) -> bool {
    url != Seq::<char>::empty() && url != seq!['.'] && url != seq!['.', '.']
}

/// The name of the file that holds a URL's last response.
pub fn cache_file_name(url: &str) -> (r: String)
    requires
        valid_url(url@),
    ensures
        r@ == cache_file(url@),
{
    let mut name = fs_safe_url(url);
    proof {
        reveal_strlit(".ron");
    }
    name.append(".ron");
    name
}

/// One change to the cache directory.
#[derive(Debug)]
pub enum StoreAction {
    /// Write the new response to this file, through a link if it is one.
    Write(String),
    /// Remove this file or link, if there is one.
    Remove(String),
    /// Make a link at the first name to the second, a name in the same
    /// directory.
    Link(String, String),
}

/// A change to the cache directory, over names.
pub enum ActionView {
    Write(Seq<char>),
    Remove(Seq<char>),
    Link(Seq<char>, Seq<char>),
}

impl StoreAction {
    pub open spec fn view(&self) -> ActionView {
        match self {
            StoreAction::Write(n) => ActionView::Write(n@),
            StoreAction::Remove(n) => ActionView::Remove(n@),
            StoreAction::Link(l, t) => ActionView::Link(l@, t@),
        }
    }
}

/// The changes that store the response to a request: its record is written
/// under the final URL's name and, where the request was redirected, the
/// requested URL's name is replaced by a link to it.
pub open spec fn store_plan(request: Seq<char>, final_url: Seq<char>) -> Seq<ActionView> {
    if request == final_url {
        seq![ActionView::Write(cache_file(final_url))]
    } else {
        seq![
            ActionView::Write(cache_file(final_url)),
            ActionView::Remove(cache_file(request)),
            ActionView::Link(cache_file(request), cache_file(final_url)),
        ]
    }
}

/// Plans how to store the response to a request for `request_url` that came
/// from `final_url`.
pub fn store_actions(request_url: &str, final_url: &str) -> (r: Vec<StoreAction>)
    requires
        valid_url(request_url@),
        valid_url(final_url@),
    ensures
        r@.map_values(|a: StoreAction| a@) == store_plan(request_url@, final_url@),
{
    let target = cache_file_name(final_url);
    let mut plan: Vec<StoreAction> = Vec::new();
    if str_eq(request_url, final_url) {
        plan.push(StoreAction::Write(target));
    } else {
        let target2 = cache_file_name(final_url);
        plan.push(StoreAction::Write(target));
        plan.push(StoreAction::Remove(cache_file_name(request_url)));
        plan.push(StoreAction::Link(cache_file_name(request_url), target2));
    }
    assert(plan@.map_values(|a: StoreAction| a@) =~= store_plan(request_url@, final_url@));
    plan
}

/// Whether two strings hold the same characters.
fn str_eq(a: &str, b: &str) -> (r: bool)
    ensures
        r == (a@ == b@),
{
    let n = a.unicode_len();
    if n != b.unicode_len() {
        return false;
    }
    let mut i: usize = 0;
    while i < n
        invariant
            n == a@.len(),
            n == b@.len(),
            i <= n,
            forall|k: int| 0 <= k < i ==> a@[k] == b@[k],
        decreases n - i,
    {
        if a.get_char(i) != b.get_char(i) {
            return false;
        }
        i = i + 1;
    }
    assert(a@ =~= b@);
    true
}

/// What a name in the cache directory holds.
pub enum DirEntry {
    /// A file with a stored response.
    File(Seq<u8>),
    /// A link to another name.
    Link(Seq<char>),
}

/// The cache directory after one change, where `record` is the new response
/// as stored.
pub open spec fn apply_action(dir: Map<Seq<char>, DirEntry>, a: ActionView, record: Seq<u8>) -> Map<
    Seq<char>,
    DirEntry,
> {
    match a {
        ActionView::Write(n) => match dir.get(n) {
            Some(DirEntry::Link(t)) => dir.insert(t, DirEntry::File(record)),
            _ => dir.insert(n, DirEntry::File(record)),
        },
        ActionView::Remove(n) => dir.remove(n),
        ActionView::Link(l, t) => dir.insert(l, DirEntry::Link(t)),
    }
}

/// The cache directory after a sequence of changes.
pub open spec fn apply_plan(dir: Map<Seq<char>, DirEntry>, plan: Seq<ActionView>, record: Seq<u8>) -> Map<
    Seq<char>,
    DirEntry,
>
    decreases plan.len(),
{
    if plan.len() == 0 {
        dir
    } else {
        apply_action(apply_plan(dir, plan.drop_last(), record), plan.last(), record)
    }
}

/// What loading a name reads: the file there, or the file that a link there
/// names.
pub open spec fn resolve(dir: Map<Seq<char>, DirEntry>, name: Seq<char>) -> Option<Seq<u8>> {
    match dir.get(name) {
        Some(DirEntry::File(c)) => Some(c),
        Some(DirEntry::Link(t)) => match dir.get(t) {
            Some(DirEntry::File(c)) => Some(c),
            _ => None,
        },
        None => None,
    }
}

/// Distinct URLs have distinct cache files.
pub proof fn lemma_cache_file_injective(a: Seq<char>, b: Seq<char>)
    requires
        a != b,
    ensures
        cache_file(a) != cache_file(b),
{
    lemma_cache_key_injective(a, b);
    reveal_strlit(".ron");
    if cache_file(a) == cache_file(b) {
        assert(cache_key(a) =~= cache_file(a).take(cache_file(a).len() - 4));
        assert(cache_key(b) =~= cache_file(b).take(cache_file(b).len() - 4));
    }
}

/// After storing the response to a request for `request` that redirected to
/// `final_url`, loading either URL's name reads the new response; so the next
/// run that requests `request` compares with it. This holds unless the final
/// URL's own name was a link, left by an earlier redirect of that URL.
pub proof fn lemma_redirect_alias(
    dir: Map<Seq<char>, DirEntry>,
    request: Seq<char>,
    final_url: Seq<char>,
    record: Seq<u8>,
)
    requires
        request != final_url,
        !(dir.get(cache_file(final_url)) matches Some(DirEntry::Link(_))),
    ensures
        resolve(apply_plan(dir, store_plan(request, final_url), record), cache_file(final_url))
            == Some(record),
        resolve(apply_plan(dir, store_plan(request, final_url), record), cache_file(request))
            == Some(record),
{
    lemma_cache_file_injective(request, final_url);
    let plan = store_plan(request, final_url);
    assert(plan.drop_last().drop_last().drop_last() =~= Seq::<ActionView>::empty());
    assert(plan.drop_last().drop_last() =~= seq![ActionView::Write(cache_file(final_url))]);
    assert(plan.drop_last() =~= seq![
        ActionView::Write(cache_file(final_url)),
        ActionView::Remove(cache_file(request)),
    ]);
    let f = cache_file(final_url);
    let q = cache_file(request);
    let d0 = apply_plan(dir, plan.drop_last().drop_last().drop_last(), record);
    assert(d0 == dir);
    let d1 = dir.insert(f, DirEntry::File(record));
    assert(apply_plan(dir, plan.drop_last().drop_last(), record) == d1);
    let d2 = d1.remove(q);
    assert(apply_plan(dir, plan.drop_last(), record) == d2);
    let d3 = d2.insert(q, DirEntry::Link(f));
    assert(apply_plan(dir, plan, record) == d3);
    assert(d3.get(f) == Some(DirEntry::File(record)));
    assert(d3.get(q) == Some(DirEntry::Link(f)));
}

/// Without a redirect, loading the requested URL's name reads the new
/// response, unless that name was a link left by an earlier redirect.
pub proof fn lemma_store_direct(dir: Map<Seq<char>, DirEntry>, request: Seq<char>, record: Seq<u8>)
    requires
        !(dir.get(cache_file(request)) matches Some(DirEntry::Link(_))),
    ensures
        resolve(apply_plan(dir, store_plan(request, request), record), cache_file(request))
            == Some(record),
{
    let plan = store_plan(request, request);
    assert(plan.drop_last() =~= Seq::<ActionView>::empty());
    assert(apply_plan(dir, plan.drop_last(), record) == dir);
    assert(apply_plan(dir, plan, record) == dir.insert(cache_file(request), DirEntry::File(record)));
}

} // verus!
