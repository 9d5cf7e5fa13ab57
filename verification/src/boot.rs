use vstd::prelude::*;
use crate::text::{lines, lines_of};

verus! {

/// A listing entry names a folder when it ends with `/`.
pub open spec fn is_folder(entry: Seq<char>) -> bool {
    entry.len() > 0 && entry.last() == '/'
}

/// The URLs of the folders among `entries`, in order: `base` followed by the entry.
pub open spec fn folder_urls(base: Seq<char>, entries: Seq<Seq<char>>) -> Seq<Seq<char>>
    decreases entries.len(),
{
    if entries.len() == 0 {
        Seq::empty()
    } else {
        let init = folder_urls(base, entries.drop_last());
        if is_folder(entries.last()) {
            init.push(base + entries.last())
        } else {
            init
        }
    }
}

/// The URLs to load from a directory listing: for each line that ends with
/// `/`, the directory's URL `base` followed by that line. The kernel loads
/// schemes from `file:///schemes/` and packages from `file:///apps/` this way.
pub fn listing_urls(base: &str, listing: &str) -> (r: Vec<String>)
    ensures
        r.deep_view() == folder_urls(base@, lines_of(listing@)),
{
    let entries = lines(listing);
    let ghost es = entries.deep_view();
    let mut urls: Vec<String> = Vec::new();
    let mut i: usize = 0;
    assert(es.take(0) =~= Seq::<Seq<char>>::empty());
    assert(urls.deep_view() =~= Seq::<Seq<char>>::empty());
    while i < entries.len()
        invariant
            es == entries.deep_view(),
            i <= entries.len(),
            urls.deep_view() == folder_urls(base@, es.take(i as int)),
        decreases entries.len() - i,
    {
        let entry = entries[i].as_str();
        assert(es[i as int] == entry@);
        assert(es.take(i + 1).drop_last() =~= es.take(i as int));
        let n = entry.unicode_len();
        if n > 0 && entry.get_char(n - 1) == '/' {
            let mut url = String::from_str(base);
            url.append(entry);
            let ghost before = urls.deep_view();
            urls.push(url);
            assert(urls.deep_view() =~= before.push(base@ + entry@));
        }
        i = i + 1;
    }
    assert(es.take(entries.len() as int) =~= es);
    urls
}

/// `url` is the directory's URL followed by a folder of the listing.
pub open spec fn names_listed_folder(base: Seq<char>, entries: Seq<Seq<char>>, url: Seq<char>) -> bool {
    exists|j: int| 0 <= j < entries.len() && is_folder(entries[j]) && url == base + entries[j]
}

/// Folder law: every URL taken from a listing is the directory's URL followed
/// by one of the listed folders, so it ends with `/`; and there is at most one
/// URL per entry.
pub proof fn law_urls_name_listed_folders(base: Seq<char>, entries: Seq<Seq<char>>)
    ensures
        folder_urls(base, entries).len() <= entries.len(),
        forall|i: int|
            0 <= i < folder_urls(base, entries).len() ==> names_listed_folder(
                base,
                entries,
                #[trigger] folder_urls(base, entries)[i],
            ),
        forall|i: int|
            0 <= i < folder_urls(base, entries).len() ==> (#[trigger] folder_urls(
                base,
                entries,
            )[i]).last() == '/',
    decreases entries.len(),
{
    if entries.len() > 0 {
        let init = entries.drop_last();
        law_urls_name_listed_folders(base, init);
        let urls = folder_urls(base, entries);
        let prev = folder_urls(base, init);
        assert forall|i: int| 0 <= i < urls.len() implies names_listed_folder(
            base,
            entries,
            #[trigger] urls[i],
        ) by {
            if i < prev.len() {
                assert(names_listed_folder(base, init, prev[i]));
                let j = choose|j: int|
                    0 <= j < init.len() && is_folder(init[j]) && prev[i] == base + init[j];
                assert(entries[j] == init[j]);
                assert(urls[i] == prev[i]);
            } else {
                let j = entries.len() - 1;
                assert(urls[i] == base + entries[j]);
            }
        }
        assert forall|i: int| 0 <= i < urls.len() implies (#[trigger] urls[i]).last() == '/' by {
            assert(names_listed_folder(base, entries, urls[i]));
            let j = choose|j: int|
                0 <= j < entries.len() && is_folder(entries[j]) && urls[i] == base + entries[j];
            assert((base + entries[j]).last() == entries[j].last());
        }
    }
}

/// Completeness law: the URLs are exactly the directory's URL followed by
/// each listed folder, one per folder and in listing order.
pub proof fn law_urls_are_all_listed_folders(base: Seq<char>, entries: Seq<Seq<char>>)
    ensures
        folder_urls(base, entries) == entries.filter(|e: Seq<char>| is_folder(e)).map_values(
            |e: Seq<char>| base + e,
        ),
    decreases entries.len(),
{
    reveal(Seq::filter);
    if entries.len() > 0 {
        law_urls_are_all_listed_folders(base, entries.drop_last());
        let f = entries.drop_last().filter(|e: Seq<char>| is_folder(e));
        if is_folder(entries.last()) {
            assert(f.push(entries.last()).map_values(|e: Seq<char>| base + e) =~= f.map_values(
                |e: Seq<char>| base + e,
            ).push(base + entries.last()));
        }
    } else {
        assert(entries.filter(|e: Seq<char>| is_folder(e)).map_values(|e: Seq<char>| base + e)
            =~= Seq::<Seq<char>>::empty());
    }
}

} // verus!
