//! The choice of what to probe: the extensions of one language, and the
//! addresses of their sources.

use crate::catalog::{catalog_view, Extension, ExtensionView, SourceView};
use vstd::prelude::*;

verus! {

/// The extensions of a catalog whose language is exactly `lang`, in the
/// catalog's order.
pub open spec fn of_lang(catalog: Seq<ExtensionView>, lang: Seq<char>) -> Seq<ExtensionView> {
    catalog.filter(|e: ExtensionView| e.lang == lang)
}

/// The addresses of an extension's sources, in their order.
pub open spec fn addresses(extension: ExtensionView) -> Seq<Seq<char>> {
    extension.sources.map_values(|s: SourceView| s.base_url)
}

/// The addresses of all sources of the extensions, extension by extension.
pub open spec fn targets_of(extensions: Seq<ExtensionView>) -> Seq<Seq<char>> {
    extensions.flat_map(|e: ExtensionView| addresses(e))
}

/// What a sequence of texts stands for.
pub open spec fn text_views(texts: Seq<String>) -> Seq<Seq<char>> {
    texts.map_values(|t: String| t@)
}

/// Keeps the extensions whose language is exactly `lang` (case counts),
/// in the catalog's order. That none is kept is no failure.
pub fn filter_by_lang(catalog: &Vec<Extension>, lang: &str) -> (kept: Vec<Extension>)
    ensures
        catalog_view(kept@) == of_lang(catalog_view(catalog@), lang@),
{
    let ghost all = catalog_view(catalog@);
    let ghost wanted = |e: ExtensionView| e.lang == lang@;
    let language = lang.to_owned();
    let mut kept: Vec<Extension> = Vec::new();
    let mut i: usize = 0;
    proof {
        reveal(Seq::filter);
    }
    while i < catalog.len()
        invariant
            i <= catalog.len(),
            language@ == lang@,
            all == catalog_view(catalog@),
            wanted == (|e: ExtensionView| e.lang == lang@),
            catalog_view(kept@) == all.take(i as int).filter(wanted),
        decreases catalog.len() - i,
    {
        proof {
            reveal(Seq::filter);
            assert(all.take(i + 1).drop_last() =~= all.take(i as int));
        }
        if catalog[i].lang == language {
            kept.push(catalog[i].clone());
        }
        i = i + 1;
    }
    assert(all.take(catalog.len() as int) =~= all);
    kept
}

/// The addresses to probe: the base address of every source of every
/// extension, extensions in their order and each one's sources in theirs.
pub fn probe_targets(extensions: &Vec<Extension>) -> (targets: Vec<String>)
    ensures
        text_views(targets@) == targets_of(catalog_view(extensions@)),
{
    let ghost all = catalog_view(extensions@);
    let ghost each = |e: ExtensionView| addresses(e);
    let mut targets: Vec<String> = Vec::new();
    let mut i: usize = 0;
    while i < extensions.len()
        invariant
            i <= extensions.len(),
            all == catalog_view(extensions@),
            each == (|e: ExtensionView| addresses(e)),
            text_views(targets@) == all.take(i as int).map_values(each).flatten(),
        decreases extensions.len() - i,
    {
        let sources = &extensions[i].sources;
        let ghost before = text_views(targets@);
        let ghost here = addresses(extensions[i as int]@);
        let mut j: usize = 0;
        while j < sources.len()
            invariant
                j <= sources.len(),
                here.len() == sources.len(),
                forall|k: int|
                    0 <= k < sources.len() ==> here[k] == (#[trigger] sources[k]).base_url@,
                text_views(targets@) == before + here.take(j as int),
            decreases sources.len() - j,
        {
            let ghost so_far = text_views(targets@);
            targets.push(sources[j].base_url.clone());
            assert(text_views(targets@) =~= so_far.push(sources[j as int].base_url@));
            j = j + 1;
        }
        proof {
            let done = all.take(i as int).map_values(each);
            assert(all.take(i + 1).map_values(each) =~= done.push(here));
            done.lemma_flatten_push(here);
        }
        i = i + 1;
    }
    assert(all.take(extensions.len() as int) =~= all);
    targets
}

/// Filtering twice by one language is filtering once.
pub proof fn lemma_filter_idempotent(catalog: Seq<ExtensionView>, lang: Seq<char>)
    ensures
        of_lang(of_lang(catalog, lang), lang) == of_lang(catalog, lang),
    decreases catalog.len(),
{
    reveal(Seq::filter);
    let wanted = |e: ExtensionView| e.lang == lang;
    if catalog.len() > 0 {
        let rest = catalog.drop_last();
        lemma_filter_idempotent(rest, lang);
        if wanted(catalog.last()) {
            let kept = rest.filter(wanted).push(catalog.last());
            assert(kept.drop_last() =~= rest.filter(wanted));
        }
    }
}

/// Every extension that the filter keeps has the language.
pub proof fn lemma_filter_keeps_language(catalog: Seq<ExtensionView>, lang: Seq<char>, i: int)
    requires
        0 <= i < of_lang(catalog, lang).len(),
    ensures
        of_lang(catalog, lang)[i].lang == lang,
{
    catalog.lemma_filter_pred(|e: ExtensionView| e.lang == lang, i);
}

/// Of one extension the filter keeps it where it has the language, and
/// nothing where it has another.
pub proof fn lemma_filter_one(extension: ExtensionView, lang: Seq<char>)
    ensures
        of_lang(seq![extension], lang) == if extension.lang == lang {
            seq![extension]
        } else {
            Seq::<ExtensionView>::empty()
        },
{
    reveal_with_fuel(Seq::filter, 2);
}

/// The filter keeps the order: what it keeps of one catalog followed by
/// another is what it keeps of the first, followed by what it keeps of the
/// second.
pub proof fn lemma_filter_concat(
    first: Seq<ExtensionView>,
    then: Seq<ExtensionView>,
    lang: Seq<char>,
)
    ensures
        of_lang(first + then, lang) == of_lang(first, lang) + of_lang(then, lang),
{
    Seq::filter_distributes_over_add(first, then, |e: ExtensionView| e.lang == lang);
}

} // verus!
