//! The catalog: extensions and their sources.

use vstd::prelude::*;

verus! {

/// One network endpoint of an extension.
#[derive(Debug, PartialEq, Eq)]
pub struct Source {
    pub name: String,
    pub lang: String,
    pub id: String,
    pub base_url: String,
}

/// One entry of the catalog.
#[derive(Debug, PartialEq, Eq)]
pub struct Extension {
    pub name: String,
    pub pkg: String,
    pub apk: String,
    pub lang: String,
    pub code: i32,
    pub version: String,
    pub nsfw: i32,
    pub sources: Vec<Source>,
}

/// What a `Source` stands for.
pub struct SourceView {
    pub name: Seq<char>,
    pub lang: Seq<char>,
    pub id: Seq<char>,
    pub base_url: Seq<char>,
}

/// What an `Extension` stands for.
pub struct ExtensionView {
    pub name: Seq<char>,
    pub pkg: Seq<char>,
    pub apk: Seq<char>,
    pub lang: Seq<char>,
    pub code: i32,
    pub version: Seq<char>,
    pub nsfw: i32,
    pub sources: Seq<SourceView>,
}

impl View for Source {
    type V = SourceView;

    open spec fn view(&self) -> SourceView {
        SourceView { name: self.name@, lang: self.lang@, id: self.id@, base_url: self.base_url@ }
    }
}

/// What a sequence of sources stands for.
pub open spec fn source_views(sources: Seq<Source>) -> Seq<SourceView> {
    sources.map_values(|s: Source| s@)
}

impl View for Extension {
    type V = ExtensionView;

    open spec fn view(&self) -> ExtensionView {
        ExtensionView {
            name: self.name@,
            pkg: self.pkg@,
            apk: self.apk@,
            lang: self.lang@,
            code: self.code,
            version: self.version@,
            nsfw: self.nsfw,
            sources: source_views(self.sources@),
        }
    }
}

impl Clone for Source {
    fn clone(&self) -> (copy: Self)
        ensures
            copy@ == self@,
    {
        Source {
            name: self.name.clone(),
            lang: self.lang.clone(),
            id: self.id.clone(),
            base_url: self.base_url.clone(),
        }
    }
}

impl Clone for Extension {
    fn clone(&self) -> (copy: Self)
        ensures
            copy@ == self@,
    {
        let mut sources: Vec<Source> = Vec::new();
        let mut i: usize = 0;
        while i < self.sources.len()
            invariant
                i <= self.sources.len(),
                sources.len() == i,
                forall|j: int| 0 <= j < i ==> (#[trigger] sources[j]@) == self.sources[j]@,
            decreases self.sources.len() - i,
        {
            sources.push(self.sources[i].clone());
            i = i + 1;
        }
        assert(source_views(sources@) =~= source_views(self.sources@));
        Extension {
            name: self.name.clone(),
            pkg: self.pkg.clone(),
            apk: self.apk.clone(),
            lang: self.lang.clone(),
            code: self.code,
            version: self.version.clone(),
            nsfw: self.nsfw,
            sources,
        }
    }
}

/// What a catalog stands for.
pub open spec fn catalog_view(catalog: Seq<Extension>) -> Seq<ExtensionView> {
    catalog.map_values(|e: Extension| e@)
}

} // verus!
