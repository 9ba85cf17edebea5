//! Inference of the site identity and monitor type of an ingested file.

use crate::columns::{ColumnEntry, ColumnMapping, EntryModel, models};
use crate::outside::{capture_groups, file_name, name_of, lower_of, opt_view, regex_capture, to_lowercase};
use crate::paths::{file_stem, stem_of};
use crate::text::{contains_str, same_text, seq_contains};
use vstd::prelude::*;

verus! {

/// A file stem that is letters followed by digits names the site and gives its id.
pub const SITE_NAME_PATTERN: &'static str = "^([A-Za-z]+\\d+)$";

/// A file stem made of digits only gives the site id.
pub const SITE_ID_PATTERN: &'static str = "^(\\d+)$";

/// Site id, site name and monitor type of one file; each is `"Unknown"` until found.
#[derive(Clone)]
pub struct SiteInfo {
    pub site_id: String,
    pub site_name: String,
    pub monitor_type: String,
}

pub open spec fn unknown() -> Seq<char> {
    "Unknown"@
}

/// The monitor type that a lowercased file name suggests.
pub open spec fn type_from_filename(lower: Seq<char>) -> Option<Seq<char>> {
    if seq_contains(lower, "dm"@) || seq_contains(lower, "depth"@) {
        Some("Depth"@)
    } else if seq_contains(lower, "fm"@) || seq_contains(lower, "flow"@) {
        Some("Flow"@)
    } else if seq_contains(lower, "rg"@) || seq_contains(lower, "rain"@) {
        Some("Rainfall"@)
    } else {
        None
    }
}

/// The monitor type that the classified channels suggest.
pub open spec fn type_from_columns(m: ColumnMapping) -> Option<Seq<char>> {
    if m.rainfall@.len() > 0 {
        Some("Rainfall"@)
    } else if m.flow@.len() > 0 || (m.depth@.len() > 0 && m.velocity@.len() > 0) {
        Some("Flow"@)
    } else if m.depth@.len() > 0 {
        Some("Depth"@)
    } else {
        None
    }
}

/// The monitor type that the file name (the path's last component) suggests.
pub open spec fn type_from_path(path: Seq<char>) -> Option<Seq<char>> {
    match name_of(path) {
        Some(n) => type_from_filename(lower_of(n)),
        None => None,
    }
}

/// The monitor type of a file: by its name first, then by its channels.
pub open spec fn inferred_type(filename: Seq<char>, m: ColumnMapping) -> Option<Seq<char>> {
    match type_from_path(filename) {
        Some(t) => Some(t),
        None => type_from_columns(m),
    }
}

/// The first logger id among a list of entries.
pub open spec fn first_id(s: Seq<EntryModel>) -> Option<Seq<char>>
    decreases s.len(),
{
    if s.len() == 0 {
        None
    } else if s[0].2 is Some {
        s[0].2
    } else {
        first_id(s.drop_first())
    }
}

/// The first logger id of the mapping, visiting the roles in the order
/// timestamp, depth, flow, velocity, rainfall.
pub open spec fn mapping_id(m: ColumnMapping) -> Option<Seq<char>> {
    first_id(
        models(m.timestamp@) + models(m.depth@) + models(m.flow@) + models(m.velocity@) + models(
            m.rainfall@,
        ),
    )
}

/// Site id and name read from a file stem, given the values before.
pub open spec fn ids_from_stem(stem: Seq<char>, id: Seq<char>, name: Seq<char>) -> (
    Seq<char>,
    Seq<char>,
) {
    match regex_capture(SITE_NAME_PATTERN@, stem) {
        Some((Some(g), _)) => (g, g),
        _ => match regex_capture(SITE_ID_PATTERN@, stem) {
            Some((Some(g), _)) => (g, name),
            _ => (id, name),
        },
    }
}

/// Site id, site name and monitor type after reading a file's name and channels.
pub open spec fn site_after(old: SiteInfo, filename: Seq<char>, m: ColumnMapping) -> (
    Seq<char>,
    Seq<char>,
    Seq<char>,
) {
    let stem = stem_of(filename)->Some_0;
    let (id1, name1) = ids_from_stem(stem, old.site_id@, old.site_name@);
    let id2 = if id1 == unknown() && mapping_id(m) is Some {
        mapping_id(m)->Some_0
    } else {
        id1
    };
    (
        id2,
        if name1 == unknown() && id2 != unknown() {
            id2
        } else {
            name1
        },
        match inferred_type(filename, m) {
            Some(t) => t,
            None => old.monitor_type@,
        },
    )
}

pub proof fn lemma_first_id_append(a: Seq<EntryModel>, b: Seq<EntryModel>)
    ensures
        first_id(a + b) == (if first_id(a) is Some {
            first_id(a)
        } else {
            first_id(b)
        }),
    decreases a.len(),
{
    if a.len() == 0 {
        assert(a + b =~= b);
    } else {
        assert((a + b)[0] == a[0]);
        assert((a + b).drop_first() =~= a.drop_first() + b);
        lemma_first_id_append(a.drop_first(), b);
    }
}

fn first_id_in(v: &Vec<ColumnEntry>) -> (r: Option<String>)
    ensures
        opt_view(r) == first_id(models(v@)),
{
    let mut i: usize = 0;
    assert(models(v@).subrange(0, v@.len() as int) =~= models(v@));
    while i < v.len()
        invariant
            i <= v@.len(),
            first_id(models(v@)) == first_id(models(v@).subrange(i as int, v@.len() as int)),
        decreases v@.len() - i,
    {
        let ghost rest = models(v@).subrange(i as int, v@.len() as int);
        assert(rest[0] == v@[i as int].model());
        assert(rest.drop_first() =~= models(v@).subrange(i + 1, v@.len() as int));
        match &v[i].logger_id {
            Some(id) => {
                return Some(id.clone());
            },
            None => {},
        }
        i = i + 1;
    }
    assert(models(v@).subrange(i as int, v@.len() as int).len() == 0);
    None
}

impl SiteInfo {
    /// A site with every field unknown.
    pub fn new() -> (r: SiteInfo)
        ensures
            r.site_id@ == unknown(),
            r.site_name@ == unknown(),
            r.monitor_type@ == unknown(),
    {
        SiteInfo {
            site_id: String::from_str("Unknown"),
            site_name: String::from_str("Unknown"),
            monitor_type: String::from_str("Unknown"),
        }
    }

    /// Reads the site from the file name, then from the channels if the name gave
    /// no id; infers the monitor type; and names the site after its id if it has
    /// no name. Fails where the path has no file stem.
    pub fn extract_site_info(&mut self, filename: &str, column_mapping: &ColumnMapping) -> (r:
        Result<(), String>)
        ensures
            r is Err <==> stem_of(filename@) is None,
            r is Err ==> *final(self) == *old(self),
            r is Ok ==> (final(self).site_id@, final(self).site_name@, final(self).monitor_type@)
                == site_after(*old(self), filename@, *column_mapping),
    {
        self.extract_from_filename(filename)?;
        if same_text(self.site_id.as_str(), "Unknown") {
            self.extract_from_column_mapping(column_mapping);
        }
        self.determine_monitor_type(filename, column_mapping);
        self.finalize();
        Ok(())
    }

    /// Reads the site name and id from the file stem.
    pub fn extract_from_filename(&mut self, filename: &str) -> (r: Result<(), String>)
        ensures
            r is Err <==> stem_of(filename@) is None,
            r is Err ==> *final(self) == *old(self),
            r is Ok ==> ({
                let (id, name) = ids_from_stem(
                    stem_of(filename@)->Some_0,
                    old(self).site_id@,
                    old(self).site_name@,
                );
                &&& final(self).site_id@ == id
                &&& final(self).site_name@ == name
                &&& final(self).monitor_type == old(self).monitor_type
            }),
    {
        let stem = match file_stem(filename) {
            Some(s) => s,
            None => {
                return Err(String::from_str("Invalid filename"));
            },
        };
        match capture_groups(SITE_NAME_PATTERN, stem.as_str()) {
            Some((Some(g), _)) => {
                self.site_id = g.clone();
                self.site_name = g;
                return Ok(());
            },
            _ => {},
        }
        match capture_groups(SITE_ID_PATTERN, stem.as_str()) {
            Some((Some(g), _)) => {
                self.site_id = g;
            },
            _ => {},
        }
        Ok(())
    }

    /// Takes the first logger id of the channels as the site id, if any.
    pub fn extract_from_column_mapping(&mut self, column_mapping: &ColumnMapping)
        ensures
            final(self).site_id@ == (match mapping_id(*column_mapping) {
                Some(id) => id,
                None => old(self).site_id@,
            }),
            final(self).site_name == old(self).site_name,
            final(self).monitor_type == old(self).monitor_type,
    {
        let m = column_mapping;
        proof {
            let t = models(m.timestamp@);
            let d = models(m.depth@);
            let f = models(m.flow@);
            let v = models(m.velocity@);
            let r = models(m.rainfall@);
            lemma_first_id_append(t + d + f + v, r);
            lemma_first_id_append(t + d + f, v);
            lemma_first_id_append(t + d, f);
            lemma_first_id_append(t, d);
        }
        let found = match first_id_in(&m.timestamp) {
            Some(id) => Some(id),
            None => match first_id_in(&m.depth) {
                Some(id) => Some(id),
                None => match first_id_in(&m.flow) {
                    Some(id) => Some(id),
                    None => match first_id_in(&m.velocity) {
                        Some(id) => Some(id),
                        None => first_id_in(&m.rainfall),
                    },
                },
            },
        };
        match found {
            Some(id) => {
                self.site_id = id;
            },
            None => {},
        }
    }

    /// Sets the monitor type from the file name (not the directories above it),
    /// or else from the channels;
    /// leaves it as it was where neither suggests one.
    pub fn determine_monitor_type(&mut self, filename: &str, column_mapping: &ColumnMapping)
        ensures
            final(self).monitor_type@ == (match inferred_type(filename@, *column_mapping) {
                Some(t) => t,
                None => old(self).monitor_type@,
            }),
            final(self).site_id == old(self).site_id,
            final(self).site_name == old(self).site_name,
    {
        let name = match file_name(filename) {
            Some(n) => n,
            None => {
                self.determine_monitor_type_from_columns(column_mapping);
                return;
            },
        };
        let lower = to_lowercase(name.as_str());
        let l = lower.as_str();
        if contains_str(l, "dm") || contains_str(l, "depth") {
            self.monitor_type = String::from_str("Depth");
        } else if contains_str(l, "fm") || contains_str(l, "flow") {
            self.monitor_type = String::from_str("Flow");
        } else if contains_str(l, "rg") || contains_str(l, "rain") {
            self.monitor_type = String::from_str("Rainfall");
        } else {
            self.determine_monitor_type_from_columns(column_mapping);
        }
    }

    /// Sets the monitor type from the channels: rainfall, then flow (or depth
    /// with velocity), then depth; leaves it as it was otherwise.
    pub fn determine_monitor_type_from_columns(&mut self, column_mapping: &ColumnMapping)
        ensures
            final(self).monitor_type@ == (match type_from_columns(*column_mapping) {
                Some(t) => t,
                None => old(self).monitor_type@,
            }),
            final(self).site_id == old(self).site_id,
            final(self).site_name == old(self).site_name,
    {
        let m = column_mapping;
        if m.rainfall.len() > 0 {
            self.monitor_type = String::from_str("Rainfall");
        } else if m.flow.len() > 0 || (m.depth.len() > 0 && m.velocity.len() > 0) {
            self.monitor_type = String::from_str("Flow");
        } else if m.depth.len() > 0 {
            self.monitor_type = String::from_str("Depth");
        }
    }

    /// Names the site after its id where the name is unknown and the id is not.
    pub fn finalize(&mut self)
        ensures
            final(self).site_name@ == (if old(self).site_name@ == unknown() && old(self).site_id@
                != unknown() {
                old(self).site_id@
            } else {
                old(self).site_name@
            }),
            final(self).site_id == old(self).site_id,
            final(self).monitor_type == old(self).monitor_type,
    {
        if same_text(self.site_name.as_str(), "Unknown") && !same_text(
            self.site_id.as_str(),
            "Unknown",
        ) {
            self.site_name = self.site_id.clone();
        }
    }

    pub fn get_site_id(&self) -> (r: &str)
        ensures
            r@ == self.site_id@,
    {
        self.site_id.as_str()
    }

    pub fn get_site_name(&self) -> (r: &str)
        ensures
            r@ == self.site_name@,
    {
        self.site_name.as_str()
    }

    pub fn get_monitor_type(&self) -> (r: &str)
        ensures
            r@ == self.monitor_type@,
    {
        self.monitor_type.as_str()
    }
}

} // verus!
