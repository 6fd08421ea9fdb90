//! Mod records and the search-facet builder of the mod-search API. Reading
//! mod archives and querying the service are outside work; these are the
//! plain records they produce and the query-string arithmetic.
use vstd::prelude::*;

use crate::text::{replace_all, spec_replace};

verus! {

/// One installed mod.
#[derive(Debug, Clone, PartialEq, Eq)]
pub struct ModInfo {
    pub path: String,
    pub mod_id: String,
    pub display_name: String,
    pub version: String,
}

impl ModInfo {
    pub fn new(path: String, mod_id: String, display_name: String, version: String) -> (r:
        ModInfo)
        ensures
            r.path@ == path@,
            r.mod_id@ == mod_id@,
            r.display_name@ == display_name@,
            r.version@ == version@,
    {
        ModInfo { path, mod_id, display_name, version }
    }
}

/// The embedded descriptor of a legacy forge-class mod archive.
#[derive(Debug, Clone, PartialEq, Eq)]
pub struct McModInfo {
    pub mod_id: String,
    pub name: String,
    pub description: String,
    pub logo_file: Option<String>,
    pub url: String,
    pub mcversion: String,
    pub version: String,
    pub screenshots: Vec<String>,
    pub dependencies: Vec<String>,
    pub author_list: Vec<String>,
    pub update_url: Option<String>,
    pub credits: Option<String>,
}

/// The embedded descriptor of a fabric-class mod archive.
#[derive(Debug, Clone, PartialEq, Eq)]
pub struct FabricModInfo {
    pub mod_id: String,
    pub name: String,
    pub description: String,
    pub logo_file: Option<String>,
    pub contact: Option<FabricModInfoContact>,
    pub version: String,
    pub author_list: Vec<String>,
    pub update_url: Option<String>,
}

/// Contact links of a fabric-class mod.
#[derive(Debug, Clone, PartialEq, Eq)]
pub struct FabricModInfoContact {
    pub homepage: Option<String>,
    pub issues: Option<String>,
    pub sources: Option<String>,
    pub twitter: Option<String>,
    pub discord: Option<String>,
}

/// A page of results from the mod-search service.
#[derive(Debug, Clone, PartialEq, Eq)]
pub struct ModrinthSearchResults {
    pub hits: Vec<ModrinthSearchResult>,
    pub offset: u64,
    pub limit: u64,
    pub total_hits: u64,
}

/// One search hit.
#[derive(Debug, Clone, PartialEq, Eq)]
pub struct ModrinthSearchResult {
    pub project_id: String,
    pub author: String,
    pub versions: Vec<String>,
    pub date_created: String,
    pub date_modified: String,
    pub license: String,
    pub title: Option<String>,
    pub description: Option<String>,
    pub categories: Option<Vec<String>>,
    pub project_type: String,
    pub downloads: u64,
    pub slug: Option<String>,
}

/// Accumulates search facets and renders them in the service's bracketed
/// query syntax.
#[derive(Debug, Clone, PartialEq, Eq)]
pub struct SearchFacet {
    data: String,
}

impl SearchFacet {
    /// The accumulated raw facet text.
    pub closed spec fn spec_data(&self) -> Seq<char> {
        self.data@
    }

    /// An empty facet set.
    pub fn new() -> (r: SearchFacet)
        ensures
            r.spec_data() == Seq::<char>::empty(),
    {
        SearchFacet { data: String::new() }
    }

    /// Restricts to one game version.
    pub fn version(self, version: &str) -> (r: SearchFacet)
        ensures
            r.spec_data() == self.spec_data() + "[\"versions:"@ + version@ + "\"]"@,
    {
        let mut data = self.data;
        data.append("[\"versions:");
        data.append(version);
        data.append("\"]");
        SearchFacet { data }
    }

    /// Restricts to one category.
    pub fn category(self, category: &str) -> (r: SearchFacet)
        ensures
            r.spec_data() == self.spec_data() + "[\"categories:"@ + category@ + "\"]"@,
    {
        let mut data = self.data;
        data.append("[\"categories:");
        data.append(category);
        data.append("\"]");
        SearchFacet { data }
    }

    /// Restricts to one project type.
    pub fn project_type(self, project_type: &str) -> (r: SearchFacet)
        ensures
            r.spec_data() == self.spec_data() + "[\"project_types:"@ + project_type@ + "\"]"@,
    {
        let mut data = self.data;
        data.append("[\"project_types:");
        data.append(project_type);
        data.append("\"]");
        SearchFacet { data }
    }

    /// The rendered query string: empty for no facets; otherwise the facet
    /// text wrapped in one outer bracket pair — the closing bracket lands
    /// before the final character — with facet boundaries comma-separated.
    pub open spec fn spec_rendered(&self) -> Seq<char> {
        if self.spec_data().len() == 0 {
            Seq::empty()
        } else {
            let t = seq!['['] + self.spec_data();
            let u = t.take(t.len() - 1) + seq![']'] + t.skip(t.len() - 1);
            spec_replace(u, "]["@, "],["@)
        }
    }

    /// Renders the accumulated facets.
    pub fn get_str(&self) -> (r: String)
        ensures
            r@ == self.spec_rendered(),
    {
        proof {
            reveal_strlit("][");
            reveal_strlit("],[");
        }
        let len = self.data.as_str().unicode_len();
        if len == 0 {
            return String::new();
        }
        let mut t = "[".to_owned();
        t.append(self.data.as_str());
        proof {
            reveal_strlit("[");
            assert(t@ =~= seq!['['] + self.data@);
        }
        let tlen = t.as_str().unicode_len();
        let mut u = t.as_str().substring_char(0, tlen - 1).to_owned();
        u.append("]");
        u.append(t.as_str().substring_char(tlen - 1, tlen));
        proof {
            reveal_strlit("]");
            assert(u@ =~= t@.take(t@.len() - 1) + seq![']'] + t@.skip(t@.len() - 1));
        }
        replace_all(u.as_str(), "][", "],[")
    }
}

} // verus!
