//! What a listing holds, and in which order.

use vstd::prelude::*;

use crate::handlers::{get_stream, list_streams, Download};
use crate::paths::{contains_early_wildcard, contains_wildcard, has_early_wildcard, has_wildcard};
use crate::status::Status;
use crate::trie::{before, order_goes_one_way, splits_at, texts};
use crate::video_store::{FileRef, VideoStore};

verus! {

/// Whether `a` is smaller than `b` from character `n` on, up to which they are the same: it ends
/// there, or its character has the smaller code point.
pub open spec fn smaller_from(a: Seq<char>, b: Seq<char>, n: int) -> bool {
    &&& 0 <= n <= a.len()
    &&& n < b.len()
    &&& forall|m: int| 0 <= m < n ==> #[trigger] a[m] == b[m]
    &&& n < a.len() ==> (a[n] as int) < (b[n] as int)
}

/// Whether `a` comes before `b` in a dictionary.
pub open spec fn dictionary_order(a: Seq<char>, b: Seq<char>) -> bool {
    exists|n: int| smaller_from(a, b, n)
}

/// The order of the listings is that of a dictionary.
proof fn lemma_order(a: Seq<char>, b: Seq<char>)
    requires
        before(a, b),
    ensures
        dictionary_order(a, b),
        a != b,
{
    let n = choose|n: int| splits_at(a, b, n);
    assert forall|m: int| 0 <= m < n implies #[trigger] a[m] == b[m] by {
        assert(a.take(n)[m] == b.take(n)[m]);
    }
    assert(smaller_from(a, b, n));
    order_goes_one_way(a, a);
}

/// The wildcard tests look for `*`: anywhere, and before the last character.
pub proof fn wildcards_are_stars(path: &str, anywhere: bool, early: bool)
    requires
        call_ensures(contains_wildcard, (path,), anywhere),
        call_ensures(contains_early_wildcard, (path,), early),
    ensures
        anywhere <==> exists|i: int| 0 <= i < path@.len() && path@[i] == '*',
        early <==> exists|i: int| 0 <= i < path@.len() - 1 && path@[i] == '*',
        call_requires(contains_wildcard, (path,)),
        call_requires(contains_early_wildcard, (path,)),
{
    lemma_stars(path@);
}

/// Where a path holds `*`.
proof fn lemma_stars(path: Seq<char>)
    ensures
        has_wildcard(path) <==> exists|i: int| 0 <= i < path.len() && path[i] == '*',
        has_early_wildcard(path) <==> exists|i: int| 0 <= i < path.len() - 1 && path[i] == '*',
{
    if has_wildcard(path) {
        let i = path.index_of('*');
        assert(path[i] == '*');
    }
    if has_early_wildcard(path) {
        let i = path.drop_last().index_of('*');
        assert(path[i] == '*');
    }
    if exists|i: int| 0 <= i < path.len() - 1 && path[i] == '*' {
        let i = choose|i: int| 0 <= i < path.len() - 1 && path[i] == '*';
        assert(path.drop_last()[i] == '*');
    }
}

/// A listing is answered exactly if the method is `LIST` and no `*` stands before the last
/// character; another method is answered with 405, and such a `*` with 400. A path is listed
/// exactly if it can be read and is asked for: it starts with what stands before a `*` at the
/// end, or is the very path where there is none. No path is listed twice. They come in dictionary
/// order, but for a path that is exactly what stands before the `*`, which comes last.
pub proof fn listings_hold_what_is_asked_for(
    store: &VideoStore,
    method: &str,
    path: &str,
    answer: Result<Vec<String>, Status>,
    text: &str,
    read: Result<Download, Status>,
)
    requires
        call_ensures(list_streams, (store, method, path), answer),
        call_ensures(get_stream, (store, text), read),
    ensures
        answer is Ok <==> method@ == "LIST"@ && forall|i: int|
            0 <= i < path@.len() - 1 ==> #[trigger] path@[i] != '*',
        answer matches Err(status) ==> status.spec_code() == if method@ != "LIST"@ {
            405
        } else {
            400u16
        },
        answer matches Ok(list) ==> {
            let wild = path@.len() > 0 && path@.last() == '*';
            let prefix = path@.drop_last();
            &&& (exists|i: int| 0 <= i < list@.len() && #[trigger] list@[i]@ == text@) <==> {
                &&& read is Ok
                &&& if wild {
                    prefix.is_prefix_of(text@)
                } else {
                    text@ == path@
                }
            }
            &&& forall|i: int| 0 <= i < list@.len() ==> store@.contains_key(#[trigger] list@[i]@)
            &&& !wild ==> list@.len() <= 1
            &&& forall|i: int, j: int|
                0 <= i < j < list@.len() ==> {
                    let a = (#[trigger] list@[i])@;
                    let b = (#[trigger] list@[j])@;
                    &&& a != b
                    &&& prefix.len() == 0 ==> dictionary_order(a, b)
                    &&& prefix.len() > 0 ==> a != prefix && (b == prefix || dictionary_order(a, b))
                }
        },
{
    reveal_strlit("*");
    assert("*"@[0] == '*');
    lemma_stars(path@);
    if let Ok(list) = answer {
        let listed = texts(list@);
        let wild = path@.len() > 0 && path@.last() == '*';
        let prefix = path@.drop_last();
        if wild {
            assert(path@[path@.len() - 1] == '*');
            if prefix.len() == 0 {
                assert(path@ == "*"@);
            }
        }
        assert(has_wildcard(path@) == wild);
        assert forall|i: int| 0 <= i < list@.len() implies store@.contains_key(
            #[trigger] list@[i]@,
        ) by {
            assert(listed[i] == list@[i]@);
            assert(listed.to_set().contains(listed[i]));
        }
        if listed.to_set().contains(text@) {
            let i = listed.index_of(text@);
            assert(list@[i]@ == text@);
        }
        if exists|i: int| 0 <= i < list@.len() && #[trigger] list@[i]@ == text@ {
            let i = choose|i: int| 0 <= i < list@.len() && #[trigger] list@[i]@ == text@;
            assert(listed[i] == text@);
            assert(listed.to_set().contains(text@));
        } else {
            assert(!listed.to_set().contains(text@));
            if !wild && read is Ok && text@ == path@ {
                assert(listed[0] == list@[0]@);
            }
        }
        assert forall|i: int, j: int| 0 <= i < j < list@.len() implies {
            let a = (#[trigger] list@[i])@;
            let b = (#[trigger] list@[j])@;
            &&& a != b
            &&& prefix.len() == 0 ==> dictionary_order(a, b)
            &&& prefix.len() > 0 ==> a != prefix && (b == prefix || dictionary_order(a, b))
        } by {
            assert(listed[i] == list@[i]@ && listed[j] == list@[j]@);
            assert(listed.len() == list@.len());
            if before(listed[i], listed[j]) {
                lemma_order(listed[i], listed[j]);
            }
        }
    }
}

/// The same of the store's own listing, which takes a `*` anywhere: the last character, whatever
/// it is, is then left off to get the prefix.
pub proof fn store_lists_what_is_asked_for(
    store: &VideoStore,
    path: &str,
    list: Vec<String>,
    text: &str,
    found: Option<FileRef>,
)
    requires
        call_ensures(VideoStore::list, (store, path), list),
        call_ensures(VideoStore::get, (store, text), found),
    ensures
        ({
            let wild = exists|i: int| 0 <= i < path@.len() && path@[i] == '*';
            let prefix = path@.drop_last();
            &&& (exists|i: int| 0 <= i < list@.len() && #[trigger] list@[i]@ == text@) <==> {
                &&& found is Some
                &&& if wild {
                    prefix.is_prefix_of(text@)
                } else {
                    text@ == path@
                }
            }
            &&& forall|i: int| 0 <= i < list@.len() ==> store@.contains_key(#[trigger] list@[i]@)
            &&& !wild ==> list@.len() <= 1
            &&& forall|i: int, j: int|
                0 <= i < j < list@.len() ==> {
                    let a = (#[trigger] list@[i])@;
                    let b = (#[trigger] list@[j])@;
                    &&& a != b
                    &&& prefix.len() == 0 ==> dictionary_order(a, b)
                    &&& prefix.len() > 0 ==> a != prefix && (b == prefix || dictionary_order(a, b))
                }
        }),
        store.wf() && ((path@.len() > 0 && (path@.last() as u32) < 128) || !path@.contains('*'))
            ==> call_requires(VideoStore::list, (store, path)),
{
    lemma_stars(path@);
    let listed = texts(list@);
    let prefix = path@.drop_last();
    let wild = has_wildcard(path@);
    assert forall|i: int| 0 <= i < list@.len() implies store@.contains_key(
        #[trigger] list@[i]@,
    ) by {
        assert(listed[i] == list@[i]@);
        assert(listed.to_set().contains(listed[i]));
    }
    if listed.to_set().contains(text@) {
        let i = listed.index_of(text@);
        assert(list@[i]@ == text@);
    }
    if exists|i: int| 0 <= i < list@.len() && #[trigger] list@[i]@ == text@ {
        let i = choose|i: int| 0 <= i < list@.len() && #[trigger] list@[i]@ == text@;
        assert(listed[i] == text@);
        assert(listed.to_set().contains(text@));
    } else {
        assert(!listed.to_set().contains(text@));
        if !wild && found is Some && text@ == path@ {
            assert(listed[0] == list@[0]@);
        }
    }
    assert forall|i: int, j: int| 0 <= i < j < list@.len() implies {
        let a = (#[trigger] list@[i])@;
        let b = (#[trigger] list@[j])@;
        &&& a != b
        &&& prefix.len() == 0 ==> dictionary_order(a, b)
        &&& prefix.len() > 0 ==> a != prefix && (b == prefix || dictionary_order(a, b))
    } by {
        assert(listed[i] == list@[i]@ && listed[j] == list@[j]@);
        assert(listed.len() == list@.len());
        if before(listed[i], listed[j]) {
            lemma_order(listed[i], listed[j]);
        }
    }
}

} // verus!
