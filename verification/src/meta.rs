use vstd::prelude::*;
use vstd::string::StringExecFns;

use crate::error::Error;
use crate::strutil::str_equal;

verus! {

/// Structural descriptor of one table or collection: its identity, its
/// columns, and the columns that form its key.
#[derive(Clone, Debug, PartialEq, Eq)]
pub struct TbMeta {
    pub schema: String,
    pub tb: String,
    pub cols: Vec<String>,
    pub key_cols: Vec<String>,
}

/// Two descriptors name the same table.
pub open spec fn same_tb(a: TbMeta, b: TbMeta) -> bool {
    a.schema@ == b.schema@ && a.tb@ == b.tb@
}

/// Bootstrap-time cache of structural information, mapping (schema, table) to
/// its descriptor. Built once from a catalog scan; lookups afterwards are
/// pure and never re-query the source.
pub struct MetaManager {
    entries: Vec<TbMeta>,
}

impl MetaManager {
    /// The cached descriptors, in catalog order.
    pub closed spec fn entries_view(self) -> Seq<TbMeta> {
        self.entries@
    }

    /// Every table is described at most once.
    pub open spec fn wf(self) -> bool {
        forall|i: int, j: int|
            0 <= i < j < self.entries_view().len() ==> !same_tb(
                #[trigger] self.entries_view()[i],
                #[trigger] self.entries_view()[j],
            )
    }

    /// Builds the cache from the rows of a catalog scan. A catalog that
    /// describes the same table twice is malformed and fails the bootstrap;
    /// otherwise the cache holds exactly the given descriptors.
    pub fn from_entries(entries: Vec<TbMeta>) -> (r: Result<MetaManager, Error>)
        ensures
            match r {
                Ok(m) => m.wf() && m.entries_view() == entries@,
                Err(e) => (e matches Error::CatalogBootstrapError { .. }) && exists|i: int, j: int|
                    0 <= i < j < entries@.len() && same_tb(
                        #[trigger] entries@[i],
                        #[trigger] entries@[j],
                    ),
            },
    {
        let n = entries.len();
        let mut i: usize = 0;
        while i < n
            invariant
                n == entries@.len(),
                i <= n,
                forall|a: int, b: int|
                    0 <= a < b < entries@.len() && a < i ==> !same_tb(
                        #[trigger] entries@[a],
                        #[trigger] entries@[b],
                    ),
            decreases n - i,
        {
            let mut j: usize = i + 1;
            while j < n
                invariant
                    n == entries@.len(),
                    i < j || i + 1 == j,
                    i < n,
                    i + 1 <= j <= n,
                    forall|b: int| i < b < j ==> !same_tb(entries@[i as int], #[trigger] entries@[b]),
                decreases n - j,
            {
                let dup = str_equal(entries[i].schema.as_str(), entries[j].schema.as_str())
                    && str_equal(entries[i].tb.as_str(), entries[j].tb.as_str());
                if dup {
                    return Err(
                        Error::CatalogBootstrapError {
                            details: String::from_str("catalog describes the same table twice"),
                        },
                    );
                }
                j += 1;
            }
            i += 1;
        }
        Ok(MetaManager { entries })
    }

    /// Pure lookup of the descriptor cached for `(schema, tb)`.
    pub fn get_tb_meta(&self, schema: &str, tb: &str) -> (r: Option<&TbMeta>)
        requires
            self.wf(),
        ensures
            match r {
                Some(t) => t.schema@ == schema@ && t.tb@ == tb@ && exists|i: int|
                    0 <= i < self.entries_view().len() && self.entries_view()[i] == *t,
                None => forall|i: int|
                    0 <= i < self.entries_view().len() ==> !(
                    #[trigger] self.entries_view()[i].schema@ == schema@
                        && self.entries_view()[i].tb@ == tb@),
            },
    {
        let n = self.entries.len();
        let mut i: usize = 0;
        while i < n
            invariant
                n == self.entries_view().len(),
                i <= n,
                forall|a: int|
                    0 <= a < i ==> !(#[trigger] self.entries_view()[a].schema@ == schema@
                        && self.entries_view()[a].tb@ == tb@),
            decreases n - i,
        {
            let hit = str_equal(self.entries[i].schema.as_str(), schema) && str_equal(
                self.entries[i].tb.as_str(),
                tb,
            );
            if hit {
                return Some(&self.entries[i]);
            }
            i += 1;
        }
        None
    }
}

} // verus!
