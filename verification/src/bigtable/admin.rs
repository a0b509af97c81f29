//! Garbage-collection rules and table naming for administering bigtable.
use vstd::prelude::*;

use crate::text::concat_strs;

verus! {

/// Rules by which the cells of a column family are garbage-collected, as carried in requests.
#[derive(Debug, PartialEq, Eq, Default)]
pub struct GcRule {
    /// Garbage collection rules.
    pub rule: Option<Rule>,
}

/// A garbage-collection rule that deletes cells matching all of the given rules.
#[derive(Debug, PartialEq, Eq, Default)]
pub struct Intersection {
    /// Only delete cells which would be deleted by every element of `rules`.
    pub rules: Vec<GcRule>,
}

/// A garbage-collection rule that deletes cells matching any of the given rules.
#[derive(Debug, PartialEq, Eq, Default)]
pub struct Union {
    /// Delete cells which would be deleted by any element of `rules`.
    pub rules: Vec<GcRule>,
}

/// Garbage collection rules.
#[derive(Debug, PartialEq, Eq)]
pub enum Rule {
    /// Delete all cells in a column except the most recent N.
    MaxNumVersions(i32),
    /// Delete cells older than the given age, in whole seconds.
    MaxAgeSeconds(i64),
    /// Delete cells that would be deleted by every nested rule.
    Intersection(Intersection),
    /// Delete cells that would be deleted by any nested rule.
    Union(Union),
}

impl From<Rule> for GcRule {
    fn from(rule: Rule) -> (g: GcRule)
        ensures
            g == (GcRule { rule: Some(rule) }),
    {
        GcRule { rule: Some(rule) }
    }
}

impl vstd::std_specs::convert::FromSpecImpl<Rule> for GcRule {
    open spec fn obeys_from_spec() -> bool {
        true
    }

    open spec fn from_spec(v: Rule) -> GcRule {
        GcRule { rule: Some(v) }
    }
}

impl Rule {
    /// Take the union of this rule with `other`. A union gains `other` as one more member;
    /// any other rule becomes the first member of a new union with `other`.
    pub fn union(self, other: Rule) -> (r: Rule)
        ensures
            match self {
                Rule::Union(u) => r matches Rule::Union(v) && v.rules@ == u.rules@.push(
                    GcRule { rule: Some(other) },
                ),
                _ => r matches Rule::Union(v) && v.rules@ == seq![
                    GcRule { rule: Some(self) },
                    GcRule { rule: Some(other) },
                ],
            },
    {
        match self {
            Rule::Union(u) => {
                let mut u = u;
                u.rules.push(GcRule { rule: Some(other) });
                Rule::Union(u)
            },
            r => {
                let mut rules = Vec::new();
                rules.push(GcRule { rule: Some(r) });
                rules.push(GcRule { rule: Some(other) });
                Rule::Union(Union { rules })
            },
        }
    }

    /// Take the intersection of this rule with `other`. An intersection gains `other` as one
    /// more member; any other rule becomes the first member of a new intersection with `other`.
    pub fn intersection(self, other: Rule) -> (r: Rule)
        ensures
            match self {
                Rule::Intersection(i) => r matches Rule::Intersection(v) && v.rules@
                    == i.rules@.push(GcRule { rule: Some(other) }),
                _ => r matches Rule::Intersection(v) && v.rules@ == seq![
                    GcRule { rule: Some(self) },
                    GcRule { rule: Some(other) },
                ],
            },
    {
        match self {
            Rule::Intersection(i) => {
                let mut i = i;
                i.rules.push(GcRule { rule: Some(other) });
                Rule::Intersection(i)
            },
            r => {
                let mut rules = Vec::new();
                rules.push(GcRule { rule: Some(r) });
                rules.push(GcRule { rule: Some(other) });
                Rule::Intersection(Intersection { rules })
            },
        }
    }
}

/// The prefix naming the tables of an instance, `projects/{project}/instances/{instance}`.
pub fn table_prefix(project: &str, instance_name: &str) -> (r: String)
    ensures
        r@ == "projects/"@ + project@ + "/instances/"@ + instance_name@,
{
    let pieces = ["projects/", project, "/instances/", instance_name];
    let r = concat_strs(&pieces);
    proof {
        reveal_with_fuel(Seq::fold_left, 5);
        let v = pieces@.map_values(|p: &str| p@);
        assert(v =~= seq!["projects/"@, project@, "/instances/"@, instance_name@]);
        assert(v.drop_last().drop_last().drop_last().drop_last() =~= Seq::<Seq<char>>::empty());
    }
    r
}

/// Configuration for the bigtable admin client
#[derive(Debug, Clone, PartialEq, Eq, Hash)]
pub struct BigtableTableAdminConfig {
    /// Endpoint to connect to bigtable over.
    pub endpoint: String,
}

impl BigtableTableAdminConfig {
    /// Construct a new instance with the default values
    pub fn new() -> (c: Self)
        ensures
            c.endpoint@ == "https://bigtableadmin.googleapis.com"@,
    {
        BigtableTableAdminConfig { endpoint: String::from_str("https://bigtableadmin.googleapis.com") }
    }

    /// Set the endpoint to the given value
    pub fn endpoint(self, endpoint: String) -> (c: Self)
        ensures
            c.endpoint == endpoint,
    {
        BigtableTableAdminConfig { endpoint }
    }
}

impl Default for BigtableTableAdminConfig {
    fn default() -> (c: Self)
        ensures
            c.endpoint@ == "https://bigtableadmin.googleapis.com"@,
    {
        BigtableTableAdminConfig::new()
    }
}

/// The admin scope requested for table administration.
pub const BIGTABLE_ADMIN_SCOPE: &'static str = "https://www.googleapis.com/auth/bigtable.admin";

/// A column family of a table, with its garbage collection rule.
#[derive(Debug, PartialEq, Eq, Default)]
pub struct ColumnFamily {
    /// The rule deciding which cells of the family are collected.
    pub gc_rule: Option<GcRule>,
}

/// The request creating a table in an instance.
#[derive(Debug, Default)]
pub struct CreateTableRequest {
    /// The instance, `projects/{project}/instances/{instance}`.
    pub parent: String,
    /// The name of the new table within the instance.
    pub table_id: String,
    /// The column families of the table, by name; each name occurs once.
    pub column_families: Vec<(String, ColumnFamily)>,
}

/// The families of a table given as (name, rule) pairs: a map in which a later pair replaces
/// an earlier one with the same name.
pub open spec fn families_map(fams: Seq<(String, Rule)>) -> Map<Seq<char>, Rule>
    decreases fams.len(),
{
    if fams.len() == 0 {
        Map::empty()
    } else {
        families_map(fams.drop_last()).insert(fams.last().0@, fams.last().1)
    }
}

/// Whether a list of column families holds each name once, and holds exactly the families of
/// the map, each with the map's rule.
pub open spec fn families_match(out: Seq<(String, ColumnFamily)>, m: Map<Seq<char>, Rule>) -> bool {
    &&& forall|i: int, j: int| 0 <= i < j < out.len() ==> (#[trigger] out[i]).0@ != (#[trigger] out[j]).0@
    &&& forall|i: int|
        0 <= i < out.len() ==> m.dom().contains((#[trigger] out[i]).0@) && out[i].1 == (ColumnFamily {
            gc_rule: Some(GcRule { rule: Some(m[out[i].0@]) }),
        })
    &&& forall|name: Seq<char>|
        m.dom().contains(name) ==> exists|i: int| 0 <= i < out.len() && (#[trigger] out[i]).0@ == name
}

/// The request creating a table with the given column families in the instance named by the
/// table prefix. A family named twice takes the later rule.
pub fn create_table_request(table_prefix: &str, table_name: String, column_families: Vec<(String, Rule)>) -> (r:
    CreateTableRequest)
    ensures
        r.parent@ == table_prefix@,
        r.table_id == table_name,
        families_match(r.column_families@, families_map(column_families@)),
{
    let mut out: Vec<(String, ColumnFamily)> = Vec::new();
    let mut rest = column_families;
    let ghost all = rest@;
    let mut backwards: Vec<(String, Rule)> = Vec::new();
    while rest.len() > 0
        invariant
            rest@.len() + backwards@.len() == all.len(),
            rest@ == all.subrange(0, rest@.len() as int),
            forall|q: int|
                0 <= q < backwards@.len() ==> #[trigger] backwards@[q] == all[all.len() - 1 - q],
        decreases rest.len(),
    {
        let f = rest.pop().unwrap();
        backwards.push(f);
    }
    proof {
        assert(all.subrange(0, 0) =~= Seq::<(String, Rule)>::empty());
    }
    while backwards.len() > 0
        invariant
            backwards@.len() <= all.len(),
            forall|q: int|
                0 <= q < backwards@.len() ==> #[trigger] backwards@[q] == all[all.len() - 1 - q],
            families_match(out@, families_map(all.subrange(0, all.len() - backwards@.len()))),
        decreases backwards.len(),
    {
        let ghost p = all.len() - backwards@.len();
        let ghost m0 = families_map(all.subrange(0, p));
        let (name, rule) = backwards.pop().unwrap();
        let ghost m1 = m0.insert(name@, rule);
        proof {
            assert(all.subrange(0, p + 1).drop_last() =~= all.subrange(0, p));
            assert(all.subrange(0, p + 1).last() == all[p]);
            assert(all[p] == (name, rule));
            assert(families_map(all.subrange(0, p + 1)) == m1);
        }
        let mut j: usize = 0;
        let mut found = false;
        while j < out.len() && !found
            invariant
                j <= out.len(),
                found ==> j < out.len() && out@[j as int].0@ == name@,
                !found ==> forall|i: int| 0 <= i < j ==> (#[trigger] out@[i]).0@ != name@,
            decreases out.len() - j, if found { 0int } else { 1int },
        {
            if crate::text::str_eq(out[j].0.as_str(), name.as_str()) {
                found = true;
            } else {
                j += 1;
            }
        }
        let ghost before = out@;
        let fam = ColumnFamily { gc_rule: Some(GcRule { rule: Some(rule) }) };
        if found {
            proof {
                assert(j < out.len() && out@[j as int].0@ == name@);
            }
            let ghost kept_name = out@[j as int].0;
            out.set(j, (name, fam));
            proof {
                assert forall|i: int, k: int| 0 <= i < k < out@.len() implies (#[trigger] out@[i]).0@
                    != (#[trigger] out@[k]).0@ by {
                    assert(before[i].0@ != before[k].0@);
                    if i == j {
                        assert(out@[i].0@ == before[i].0@);
                    }
                    if k == j {
                        assert(out@[k].0@ == before[k].0@);
                    }
                }
                assert forall|i: int| 0 <= i < out@.len() implies m1.dom().contains(
                    (#[trigger] out@[i]).0@,
                ) && out@[i].1 == (ColumnFamily {
                    gc_rule: Some(GcRule { rule: Some(m1[out@[i].0@]) }),
                }) by {
                    if i != j {
                        assert(out@[i] == before[i]);
                        assert(before[i].0@ != before[j as int].0@);
                    }
                }
                assert forall|n: Seq<char>| m1.dom().contains(n) implies exists|i: int|
                    0 <= i < out@.len() && (#[trigger] out@[i]).0@ == n by {
                    if n == name@ {
                        assert(out@[j as int].0@ == n);
                    } else {
                        let i = choose|i: int| 0 <= i < before.len() && (#[trigger] before[i]).0@ == n;
                        assert(out@[i] == before[i] || i == j);
                        assert(out@[i].0@ == n);
                    }
                }
            }
        } else {
            out.push((name, fam));
            proof {
                assert forall|i: int, k: int| 0 <= i < k < out@.len() implies (#[trigger] out@[i]).0@
                    != (#[trigger] out@[k]).0@ by {
                    if k == before.len() {
                        assert(out@[i] == before[i]);
                        assert(before[i].0@ != name@);
                    } else {
                        assert(out@[i] == before[i]);
                        assert(out@[k] == before[k]);
                    }
                }
                assert forall|i: int| 0 <= i < out@.len() implies m1.dom().contains(
                    (#[trigger] out@[i]).0@,
                ) && out@[i].1 == (ColumnFamily {
                    gc_rule: Some(GcRule { rule: Some(m1[out@[i].0@]) }),
                }) by {
                    if i < before.len() {
                        assert(out@[i] == before[i]);
                    }
                }
                assert forall|n: Seq<char>| m1.dom().contains(n) implies exists|i: int|
                    0 <= i < out@.len() && (#[trigger] out@[i]).0@ == n by {
                    if n == name@ {
                        assert(out@[before.len() as int].0@ == n);
                    } else {
                        let i = choose|i: int| 0 <= i < before.len() && (#[trigger] before[i]).0@ == n;
                        assert(out@[i] == before[i]);
                    }
                }
            }
        }
    }
    proof {
        assert(all.subrange(0, all.len() as int) =~= all);
    }
    let parent = table_prefix.to_string();
    CreateTableRequest { parent, table_id: table_name, column_families: out }
}

/// The request for one page of the tables of an instance.
#[derive(Debug, Clone, PartialEq, Eq, Default)]
pub struct ListTablesRequest {
    /// The instance, `projects/{project}/instances/{instance}`.
    pub parent: String,
    /// The token of the page to list; empty for the first page.
    pub page_token: String,
}

/// The request for the page of tables with the given token (empty for the first page).
pub fn list_tables_request(table_prefix: &str, page_token: String) -> (r: ListTablesRequest)
    ensures
        r.parent@ == table_prefix@,
        r.page_token == page_token,
{
    ListTablesRequest { parent: table_prefix.to_string(), page_token }
}

/// The token of the next page to request after a response: none when the response's token is
/// empty, the listing being complete.
pub fn next_page_token(response_token: String) -> (r: Option<String>)
    ensures
        response_token@.len() == 0 ==> r is None,
        response_token@.len() > 0 ==> r == Some(response_token),
{
    if response_token.as_str().unicode_len() == 0 {
        None
    } else {
        Some(response_token)
    }
}

} // verus!
